use vstd::prelude::*;

use crate::bytes::{
    disp32_encode, disp32_word, fits_i32, le32, le64, push_le32, push_le64,
};
use crate::decode::{decode, spec_decode};
use crate::error::Error;
use crate::mem::CodeMemory;

verus! {

// The planner decodes forward from the target until it has accumulated
// enough whole instructions to hold the patch of the smallest viable
// strategy. It never mutates target memory.

/// How the redirect is installed at the target.
#[derive(Clone, Copy, Debug, PartialEq, Eq, Structural)]
pub enum Strategy {
    /// A two-byte short jump at the target into a five-byte jump placed in
    /// the no-op padding just ahead of it; activation is near-atomic.
    HotPatch,
    /// A five-byte jump with a signed 32-bit displacement to the
    /// replacement.
    RelJump,
    /// A fourteen-byte indirect absolute jump through an inline thunk that
    /// holds the full replacement address.
    AbsJump,
}

/// Bytes that the patch of a strategy overwrites at the target.
pub open spec fn strategy_width(s: Strategy) -> int {
    match s {
        Strategy::HotPatch => 2,
        Strategy::RelJump => 5,
        Strategy::AbsJump => 14,
    }
}

/// Whether the five bytes just ahead of `t` are no-op padding (single-byte
/// nop or int3 filler).
pub open spec fn hot_padding_at(code: Seq<u8>, t: int) -> bool {
    t >= 5 && forall|j: int| t - 5 <= j < t ==> (code[j] == 0x90 || code[j] == 0xCC)
}

/// The smallest viable strategy for hooking offset `t` toward the absolute
/// address `repl`.
pub open spec fn spec_strategy(code: Seq<u8>, base: u64, t: int, repl: u64) -> Strategy {
    if hot_padding_at(code, t) && fits_i32(repl - (base + t)) {
        Strategy::HotPatch
    } else if fits_i32(repl - (base + t + 5)) {
        Strategy::RelJump
    } else {
        Strategy::AbsJump
    }
}

/// The patch bytes still uncovered after `w` bytes of whole instructions.
pub open spec fn still_needed(need: int, w: int) -> int {
    if need >= w {
        need - w
    } else {
        0
    }
}

/// The width of the region of whole instructions that decoding forward
/// from `pos` must consume to cover `need` bytes, or `None` where a decode
/// fails first.
pub open spec fn spec_region_width(code: Seq<u8>, pos: int, need: int) -> Option<int>
    decreases need,
{
    if need <= 0 {
        Some(0)
    } else {
        match spec_decode(code, pos) {
            Some(ins) => if ins.len <= 0 {
                None
            } else if ins.len >= need {
                Some(ins.len as int)
            } else {
                match spec_region_width(code, pos + ins.len, need - ins.len) {
                    Some(w) => Some(ins.len + w),
                    None => None,
                }
            },
            None => None,
        }
    }
}

/// A planned region width covers the need, stays within the image, and
/// never exceeds it by a whole patch (each consumed instruction is at most
/// 7 bytes).
pub proof fn lemma_region_width_props(code: Seq<u8>, pos: int, need: int)
    requires
        spec_region_width(code, pos, need) is Some,
        pos >= 0,
    ensures
        spec_region_width(code, pos, need)->Some_0 >= need,
        need > 0 ==> spec_region_width(code, pos, need)->Some_0 < need + 7,
        need > 0 ==> pos + spec_region_width(code, pos, need)->Some_0 <= code.len(),
        spec_region_width(code, pos, need)->Some_0 >= 0,
    decreases need,
{
    if need <= 0 {
    } else {
        let ins = spec_decode(code, pos)->Some_0;
        crate::decode::lemma_decode_props(code, pos);
        if ins.len >= need {
        } else {
            lemma_region_width_props(code, pos + ins.len, need - ins.len);
        }
    }
}

/// The patch region: the contiguous byte span at the target that the
/// redirect overwrites, with the original bytes captured for exact
/// rollback and the strategy that chose its width.
pub struct PatchRegion {
    /// Offset of the patched span inside the code image.
    pub target: usize,
    /// Width of the span: the exact sum of whole-instruction lengths
    /// consumed, never ending mid-instruction.
    pub width: usize,
    /// The `width` original bytes, captured before any write.
    pub saved: Vec<u8>,
    /// The strategy whose minimum width the span covers.
    pub strategy: Strategy,
}

impl PatchRegion {
    /// The region is exactly what planning at `target` yields on `code`.
    pub open spec fn planned(self, code: Seq<u8>, base: u64, repl: u64) -> bool {
        &&& self.strategy == spec_strategy(code, base, self.target as int, repl)
        &&& Some(self.width as int) == spec_region_width(
            code,
            self.target as int,
            strategy_width(self.strategy),
        )
        &&& self.saved@ == code.subrange(self.target as int, self.target + self.width)
        &&& self.target + self.width <= code.len()
        &&& self.width >= strategy_width(self.strategy)
        &&& self.strategy == Strategy::HotPatch ==> self.target >= 5
    }
}

/// A planned strategy's displacement always fits its encoding: the
/// near-jump and hot-patch forms are chosen only within signed 32-bit
/// range of the replacement.
pub proof fn lemma_planned_strategy_fits(region: PatchRegion, code: Seq<u8>, base: u64, repl: u64)
    requires
        region.planned(code, base, repl),
    ensures
        region.strategy == Strategy::RelJump ==> fits_i32(repl - (base + region.target + 5)),
        region.strategy == Strategy::HotPatch ==> fits_i32(repl - (base + region.target)),
{
}

fn choose_strategy(mem: &CodeMemory, target: usize, repl: u64) -> (s: Strategy)
    requires
        mem.wf(),
        target <= mem.bytes@.len(),
    ensures
        s == spec_strategy(mem.bytes@, mem.base, target as int, repl),
{
    let mut padded = target >= 5;
    if padded {
        let mut j: usize = target - 5;
        while j < target
            invariant
                target - 5 <= j <= target,
                target <= mem.bytes@.len(),
                padded == forall|k: int|
                    target - 5 <= k < j ==> (mem.bytes@[k] == 0x90 || mem.bytes@[k] == 0xCC),
            decreases target - j,
        {
            let b = mem.bytes[j];
            if !(b == 0x90 || b == 0xCC) {
                padded = false;
            }
            j = j + 1;
        }
    }
    let t_addr: i128 = mem.base as i128 + target as i128;
    let r: i128 = repl as i128;
    if padded && -0x8000_0000 <= r - t_addr && r - t_addr < 0x8000_0000 {
        Strategy::HotPatch
    } else if -0x8000_0000 <= r - (t_addr + 5) && r - (t_addr + 5) < 0x8000_0000 {
        Strategy::RelJump
    } else {
        Strategy::AbsJump
    }
}

/// Plans the patch region for hooking `target` toward `repl`.
///
/// Decodes whole instructions forward from `target` until the chosen
/// strategy's width is covered, and captures the covered bytes. Fails with
/// [`Error::UnsupportedInstruction`] exactly where a decode inside the
/// needed span fails; the image is never written.
pub fn plan(mem: &CodeMemory, target: usize, repl: u64) -> (r: Result<PatchRegion, Error>)
    requires
        mem.wf(),
        target <= mem.bytes@.len(),
    ensures
        match r {
            Ok(region) => region.target == target && region.planned(mem.bytes@, mem.base, repl),
            Err(e) => {
                &&& e == Error::UnsupportedInstruction
                &&& spec_region_width(
                    mem.bytes@,
                    target as int,
                    strategy_width(spec_strategy(mem.bytes@, mem.base, target as int, repl)),
                ) is None
            },
        },
{
    let strategy = choose_strategy(mem, target, repl);
    let need: usize = match strategy {
        Strategy::HotPatch => 2,
        Strategy::RelJump => 5,
        Strategy::AbsJump => 14,
    };
    let ghost code = mem.bytes@;
    let ghost t = target as int;
    let blen = mem.bytes.len();
    let mut w: usize = 0;
    while w < need
        invariant
            mem.wf(),
            code == mem.bytes@,
            t == target as int,
            blen == mem.bytes@.len(),
            target <= blen,
            target + w <= blen,
            need as int == strategy_width(spec_strategy(code, mem.base, t, repl)),
            w < need ==> spec_region_width(code, t, need as int) == (match spec_region_width(
                code,
                t + w,
                need - w,
            ) {
                Some(rest) => Some(w + rest),
                None => None::<int>,
            }),
            w >= need ==> spec_region_width(code, t, need as int) == Some(w as int),
        decreases still_needed(need as int, w as int),
    {
        match decode(&mem.bytes, target + w) {
            Ok(ins) => {
                proof {
                    crate::decode::lemma_decode_props(code, t + w);
                }
                w = w + ins.len;
            },
            Err(e) => {
                return Err(e);
            },
        }
    }
    let saved = mem.read_span(target, w);
    Ok(PatchRegion { target, width: w, saved, strategy })
}

// The byte sequences that enabling writes. `repl` is the absolute address
// of the replacement; offsets are turned into absolute addresses with the
// image base before displacement arithmetic.

/// Single-byte no-op filler for the patched span past the jump itself.
pub open spec fn nop_pad(n: int) -> Seq<u8> {
    Seq::new(if n >= 0 {
        n as nat
    } else {
        0
    }, |i: int| 0x90u8)
}

/// The five-byte near jump `e9 rel32` whose next-instruction address is
/// `from + 5` and whose destination is `dest`.
pub open spec fn jmp_rel32(from: int, dest: int) -> Seq<u8> {
    seq![0xE9u8] + le32(disp32_word(dest - (from + 5)))
}

/// The fourteen-byte indirect absolute jump `ff 25 00000000` followed by
/// the inline eight-byte destination address.
pub open spec fn jmp_abs64(dest: u64) -> Seq<u8> {
    seq![0xFFu8, 0x25u8, 0u8, 0u8, 0u8, 0u8] + le64(dest)
}

/// The patch written at the target, padded with no-ops to the region
/// width.
///
/// For the hot-patch strategy this is the two-byte short jump `eb f9`,
/// which branches from `t + 2` back by seven bytes into the padding at
/// `t - 5`; the five-byte jump placed there is [`hot_pad_patch`].
pub open spec fn target_patch(strategy: Strategy, base: u64, t: int, w: int, repl: u64) -> Seq<
    u8,
> {
    match strategy {
        Strategy::HotPatch => seq![0xEBu8, 0xF9u8] + nop_pad(w - 2),
        Strategy::RelJump => jmp_rel32(base + t, repl as int) + nop_pad(w - 5),
        Strategy::AbsJump => jmp_abs64(repl) + nop_pad(w - 14),
    }
}

/// The five-byte jump to the replacement that the hot-patch strategy
/// writes into the padding at `t - 5`.
pub open spec fn hot_pad_patch(base: u64, t: int, repl: u64) -> Seq<u8> {
    jmp_rel32(base + t - 5, repl as int)
}

/// Builds [`target_patch`] for the planned region.
pub fn build_target_patch(region: &PatchRegion, base: u64, repl: u64) -> (p: Vec<u8>)
    requires
        region.width >= strategy_width(region.strategy),
        region.strategy == Strategy::RelJump ==> fits_i32(repl - (base + region.target + 5)),
        base + region.target + region.width <= u64::MAX,
    ensures
        p@ == target_patch(region.strategy, base, region.target as int, region.width as int, repl),
        p@.len() == region.width,
{
    let mut p: Vec<u8> = Vec::new();
    match region.strategy {
        Strategy::HotPatch => {
            p.push(0xEB);
            p.push(0xF9);
            proof {
                assert(p@ =~= seq![0xEBu8, 0xF9u8]);
            }
        },
        Strategy::RelJump => {
            let from: i128 = base as i128 + region.target as i128;
            let d: i64 = (repl as i128 - (from + 5)) as i64;
            p.push(0xE9);
            push_le32(&mut p, disp32_encode(d));
            proof {
                assert(d as int == repl - (base + region.target + 5));
                assert(p@ =~= jmp_rel32(base + region.target as int, repl as int));
            }
        },
        Strategy::AbsJump => {
            p.push(0xFF);
            p.push(0x25);
            p.push(0);
            p.push(0);
            p.push(0);
            p.push(0);
            push_le64(&mut p, repl);
            proof {
                assert(p@ =~= jmp_abs64(repl));
            }
        },
    }
    let ghost head = p@;
    let base_len = p.len();
    proof {
        assert(base_len as int == strategy_width(region.strategy));
    }
    while p.len() < region.width
        invariant
            base_len <= p@.len() <= region.width,
            p@ == head + nop_pad(p@.len() - base_len),
            base_len == head.len(),
            region.width >= base_len,
        decreases region.width - p@.len(),
    {
        p.push(0x90);
        proof {
            assert(p@ =~= head + nop_pad(p@.len() - base_len));
        }
    }
    proof {
        assert(p@.len() == region.width);
        assert(p@ =~= target_patch(
            region.strategy,
            base,
            region.target as int,
            region.width as int,
            repl,
        ));
    }
    p
}

/// Builds [`hot_pad_patch`] for a hot-patch region.
pub fn build_hot_pad_patch(region: &PatchRegion, base: u64, repl: u64) -> (p: Vec<u8>)
    requires
        region.strategy == Strategy::HotPatch,
        region.target >= 5,
        fits_i32(repl - (base + region.target)),
        base + region.target <= u64::MAX,
    ensures
        p@ == hot_pad_patch(base, region.target as int, repl),
        p@.len() == 5,
{
    let mut p: Vec<u8> = Vec::new();
    let from: i128 = base as i128 + region.target as i128 - 5;
    let d: i64 = (repl as i128 - (from + 5)) as i64;
    p.push(0xE9);
    push_le32(&mut p, disp32_encode(d));
    p
}

} // verus!
