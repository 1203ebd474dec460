use vstd::prelude::*;

use crate::bytes::{
    fits_i32, le32, le64, disp32_word, lemma_disp32_round_trip, lemma_word32_le32,
    lemma_word64_le64,
};
use crate::emu::spec_run;
use crate::handle::{lemma_splice_facts, DetourHandle};
use crate::mem::{splice, CodeMemory};
use crate::plan::{target_patch, Strategy};

verus! {

// The lifecycle laws of the engine, stated over the byte-level model and
// the execution model that the handle's own contracts use.

/// Round trip: disabling after enabling restores the image byte for byte,
/// and returns the handle to exactly its pre-enable state.
pub proof fn lemma_enable_disable_round_trip(h: DetourHandle, m: CodeMemory)
    requires
        h.consistent(m),
        !h.enabled,
    ensures
        h.after_enable().after_disable() == h,
        h.after_enable().bytes_after_disable(h.bytes_after_enable(m.bytes@)) == m.bytes@,
{
    let b = m.bytes@;
    let t = h.t();
    let w = h.w();
    assert(h.after_enable().after_disable() == h);
    let p1 = splice(b, t, h.patch@);
    lemma_splice_facts(b, t, h.patch@);
    if h.is_hot() {
        let p2 = splice(p1, t - 5, h.pad_patch@);
        lemma_splice_facts(p1, t - 5, h.pad_patch@);
        let q1 = splice(p2, t, h.region.saved@);
        lemma_splice_facts(p2, t, h.region.saved@);
        let q2 = splice(q1, t - 5, h.pad_saved@);
        lemma_splice_facts(q1, t - 5, h.pad_saved@);
        assert forall|j: int| 0 <= j < b.len() implies q2[j] == b[j] by {
            if t <= j < t + w {
                assert(q1[j] == h.region.saved@[j - t]);
                assert(b.subrange(t, t + w)[j - t] == b[j]);
            } else if t - 5 <= j < t {
                assert(q2[j] == h.pad_saved@[j - (t - 5)]);
                assert(b.subrange(t - 5, t)[j - (t - 5)] == b[j]);
            }
        }
        assert(q2 =~= b);
    } else {
        let q1 = splice(p1, t, h.region.saved@);
        lemma_splice_facts(p1, t, h.region.saved@);
        assert forall|j: int| 0 <= j < b.len() implies q1[j] == b[j] by {
            if t <= j < t + w {
                assert(q1[j] == h.region.saved@[j - t]);
                assert(b.subrange(t, t + w)[j - t] == b[j]);
            }
        }
        assert(q1 =~= b);
    }
}

/// Idempotence of enable: a second enable changes neither the handle nor
/// the image.
pub proof fn lemma_enable_idempotent(h: DetourHandle, bytes: Seq<u8>)
    ensures
        h.after_enable().after_enable() == h.after_enable(),
        h.after_enable().bytes_after_enable(h.bytes_after_enable(bytes)) == h.bytes_after_enable(
            bytes,
        ),
{
}

/// Idempotence of disable: a second disable changes neither the handle
/// nor the image.
pub proof fn lemma_disable_idempotent(h: DetourHandle, bytes: Seq<u8>)
    ensures
        h.after_disable().after_disable() == h.after_disable(),
        h.after_disable().bytes_after_disable(h.bytes_after_disable(bytes))
            == h.bytes_after_disable(bytes),
{
}

/// One step of the model through a five-byte near jump encoded at `p`
/// toward the absolute address `dest`.
pub proof fn lemma_jmp_rel32_step(code: Seq<u8>, base: u64, p: int, dest: int, eax: u32, fuel: nat)
    requires
        0 <= p,
        p + 5 <= code.len(),
        code.subrange(p, p + 5) == crate::plan::jmp_rel32(base + p, dest),
        fits_i32(dest - (base + p + 5)),
        fuel >= 1,
    ensures
        spec_run(code, base, p, eax, fuel) == spec_run(code, base, dest - base, eax, (fuel
            - 1) as nat),
{
    let d = dest - (base + p + 5);
    let jw = disp32_word(d);
    let j = crate::plan::jmp_rel32(base + p, dest);
    assert forall|k: int| 0 <= k < 5 implies code[p + k] == j[k] by {
        assert(code.subrange(p, p + 5)[k] == code[p + k]);
    }
    assert(j[0] == 0xE9);
    assert(j[1] == le32(jw)[0]);
    assert(j[2] == le32(jw)[1]);
    assert(j[3] == le32(jw)[2]);
    assert(j[4] == le32(jw)[3]);
    lemma_word32_le32(jw);
    lemma_disp32_round_trip(d);
    assert(spec_run(code, base, p, eax, fuel) == spec_run(code, base, p + 5 + d, eax, (fuel
        - 1) as nat));
}

/// Original reachability, at the trampoline's tail: the continuation jump
/// that follows the relocated body transfers the run to `base + t0 + w`,
/// the first original instruction not overwritten by the patch — in every
/// lifecycle state, since the patched spans lie outside the trampoline.
pub proof fn lemma_trampoline_continuation(
    code: Seq<u8>,
    base: u64,
    e_off: int,
    body_len: int,
    t0: int,
    w: int,
    eax: u32,
    fuel: nat,
)
    requires
        0 <= e_off + body_len,
        e_off + body_len + 5 <= code.len(),
        code.subrange(e_off + body_len, e_off + body_len + 5) == crate::plan::jmp_rel32(
            base + e_off + body_len,
            base + t0 + w,
        ),
        fits_i32((t0 + w) - (e_off + body_len + 5)),
        fuel >= 1,
    ensures
        spec_run(code, base, e_off + body_len, eax, fuel) == spec_run(code, base, t0 + w, eax, (
        fuel - 1) as nat),
{
    lemma_jmp_rel32_step(code, base, e_off + body_len, base + t0 + w, eax, fuel);
}

/// Behavioral redirection for the near-jump strategy: while the hook is
/// enabled, a run of the model from the target is exactly a run from the
/// replacement (one jump later).
pub proof fn lemma_enabled_run_redirects(h: DetourHandle, m: CodeMemory, eax: u32, fuel: nat)
    requires
        h.consistent(m),
        h.enabled,
        h.region.strategy == Strategy::RelJump,
        fits_i32(h.replacement - (m.base + h.t() + 5)),
        fuel >= 1,
    ensures
        spec_run(m.bytes@, m.base, h.t(), eax, fuel) == spec_run(
            m.bytes@,
            m.base,
            h.replacement - m.base,
            eax,
            (fuel - 1) as nat,
        ),
{
    let b = m.bytes@;
    let t = h.t();
    let w = h.w();
    let d = h.replacement - (m.base + t + 5);
    let jw = disp32_word(d);
    assert(b.subrange(t, t + w) == h.patch@);
    assert(h.patch@ == target_patch(Strategy::RelJump, m.base, t, w, h.replacement));
    assert forall|k: int| 0 <= k < 5 implies b[t + k] == h.patch@[k] by {
        assert(b.subrange(t, t + w)[k] == b[t + k]);
    }
    assert(h.patch@[0] == 0xE9);
    assert(h.patch@[1] == le32(jw)[0]);
    assert(h.patch@[2] == le32(jw)[1]);
    assert(h.patch@[3] == le32(jw)[2]);
    assert(h.patch@[4] == le32(jw)[3]);
    lemma_word32_le32(jw);
    lemma_disp32_round_trip(d);
    assert(spec_run(b, m.base, t, eax, fuel) == spec_run(b, m.base, t + 5 + d, eax, (fuel
        - 1) as nat));
    assert(t + 5 + d == h.replacement - m.base);
}

/// Behavioral redirection for the hot-patch strategy: while the hook is
/// enabled, a run from the target takes the short jump into the padding
/// and the jump placed there, landing at the replacement two steps later.
pub proof fn lemma_enabled_hot_run_redirects(h: DetourHandle, m: CodeMemory, eax: u32, fuel: nat)
    requires
        h.consistent(m),
        h.enabled,
        h.region.strategy == Strategy::HotPatch,
        fits_i32(h.replacement - (m.base + h.t())),
        fuel >= 2,
    ensures
        spec_run(m.bytes@, m.base, h.t(), eax, fuel) == spec_run(
            m.bytes@,
            m.base,
            h.replacement - m.base,
            eax,
            (fuel - 2) as nat,
        ),
{
    let b = m.bytes@;
    let t = h.t();
    let w = h.w();
    let d = h.replacement - (m.base + t);
    let jw = disp32_word(d);
    assert(b.subrange(t, t + w) == h.patch@);
    assert(b.subrange(t - 5, t) == h.pad_patch@);
    assert forall|k: int| 0 <= k < 2 implies b[t + k] == h.patch@[k] by {
        assert(b.subrange(t, t + w)[k] == b[t + k]);
    }
    assert forall|k: int| 0 <= k < 5 implies b[t - 5 + k] == h.pad_patch@[k] by {
        assert(b.subrange(t - 5, t)[k] == b[t - 5 + k]);
    }
    assert(h.patch@[0] == 0xEB);
    assert(h.patch@[1] == 0xF9);
    assert(crate::bytes::signed8(0xF9) == -7);
    assert(spec_run(b, m.base, t, eax, fuel) == spec_run(b, m.base, t - 5, eax, (fuel - 1) as nat));
    assert(h.pad_patch@[0] == 0xE9);
    assert(h.pad_patch@[1] == le32(jw)[0]);
    assert(h.pad_patch@[2] == le32(jw)[1]);
    assert(h.pad_patch@[3] == le32(jw)[2]);
    assert(h.pad_patch@[4] == le32(jw)[3]);
    lemma_word32_le32(jw);
    lemma_disp32_round_trip(d);
    assert(spec_run(b, m.base, t - 5, eax, (fuel - 1) as nat) == spec_run(b, m.base, t + d, eax, (
    fuel - 2) as nat));
    assert(t + d == h.replacement - m.base);
}

/// Behavioral redirection for the absolute-jump strategy: while the hook
/// is enabled, a run from the target goes through the inline thunk to the
/// replacement one step later.
pub proof fn lemma_enabled_abs_run_redirects(h: DetourHandle, m: CodeMemory, eax: u32, fuel: nat)
    requires
        h.consistent(m),
        h.enabled,
        h.region.strategy == Strategy::AbsJump,
        m.base <= h.replacement,
        fuel >= 1,
    ensures
        spec_run(m.bytes@, m.base, h.t(), eax, fuel) == spec_run(
            m.bytes@,
            m.base,
            h.replacement - m.base,
            eax,
            (fuel - 1) as nat,
        ),
{
    let b = m.bytes@;
    let t = h.t();
    let w = h.w();
    assert(b.subrange(t, t + w) == h.patch@);
    assert forall|k: int| 0 <= k < 14 implies b[t + k] == h.patch@[k] by {
        assert(b.subrange(t, t + w)[k] == b[t + k]);
    }
    assert(h.patch@[0] == 0xFF);
    assert(h.patch@[1] == 0x25);
    assert(h.patch@[2] == 0);
    assert(h.patch@[3] == 0);
    assert(h.patch@[4] == 0);
    assert(h.patch@[5] == 0);
    assert forall|i: int| 0 <= i < 8 implies b.subrange(t + 6, t + 14)[i] == le64(h.replacement)[i]
    by {
        assert(b.subrange(t + 6, t + 14)[i] == b[t + 6 + i]);
        assert(b[t + (6 + i)] == h.patch@[6 + i]);
        assert(h.patch@[6 + i] == le64(h.replacement)[i]);
    }
    assert(b.subrange(t + 6, t + 14) =~= le64(h.replacement));
    lemma_word64_le64(h.replacement);
    assert(spec_run(b, m.base, t, eax, fuel) == spec_run(b, m.base, h.replacement - m.base, eax, (
    fuel - 1) as nat));
}

} // verus!
