use vstd::prelude::*;

use crate::bytes::{
    disp32_encode, disp32_word, disp8_byte, disp8_encode, fits_i32, fits_i8, le32, read_word32,
    signed32, signed8, signed8_of, signed32_of, word32,
};
use crate::decode::{decode, spec_decode, Instruction, InstrKind};
use crate::error::Error;
use crate::mem::CodeMemory;
use crate::plan::{jmp_rel32, still_needed};

verus! {

// The trampoline preserves the target's original behavior: it holds a copy
// of every displaced instruction, with position-dependent operands
// re-encoded for the copy's new address, followed by one continuation jump
// back to the first original instruction not overwritten by the patch.

/// A generated trampoline: its executable bytes and the absolute address
/// at which they were placed.
pub struct Trampoline {
    /// Absolute address of the first trampoline byte.
    pub entry: u64,
    /// The generated bytes.
    pub code: Vec<u8>,
}

/// The destination of the 8-bit relative branch at `p`.
pub open spec fn branch_dest8(code: Seq<u8>, base: u64, p: int, len: int) -> int {
    base + p + len + signed8(code[p + len - 1])
}

/// The destination addressed by the 32-bit displacement of the branch or
/// instruction-pointer-relative operand at `p`.
pub open spec fn branch_dest32(code: Seq<u8>, base: u64, p: int, len: int) -> int {
    base + p + len + signed32(word32(code[p + len - 4], code[p + len - 3], code[p + len - 2],
        code[p + len - 1]))
}

/// Where a displaced destination lands after relocation.
///
/// A destination inside the displaced region `[base + t0, base + t0 + w)`
/// is redirected to its copy inside the trampoline, since the original
/// bytes there are overwritten while the hook is enabled; every other
/// destination keeps its absolute address.
pub open spec fn relocated_dest(dest: int, base: u64, t0: int, w: int, entry: int) -> int {
    if base + t0 <= dest < base + t0 + w {
        entry + (dest - (base + t0))
    } else {
        dest
    }
}

/// The re-encoded bytes of the instruction at `p` once copied to offset
/// `p - t0` of a trampoline at `entry`, or the displacement-range failure.
///
/// Ordinary instructions are copied byte for byte; branches and
/// instruction-pointer-relative operands have their displacement
/// recomputed so they still reach [`relocated_dest`] from the new
/// address. Re-encoding keeps every instruction's length.
pub open spec fn reloc_instr(
    code: Seq<u8>,
    base: u64,
    t0: int,
    w: int,
    entry: int,
    p: int,
    ins: Instruction,
) -> Result<Seq<u8>, Error> {
    let src = code.subrange(p, p + ins.len);
    let new_end = entry + (p - t0) + ins.len;
    match ins.kind {
        InstrKind::Ordinary => Ok(src),
        InstrKind::RelBranch8 => {
            let nd = relocated_dest(branch_dest8(code, base, p, ins.len as int), base, t0, w, entry)
                - new_end;
            if fits_i8(nd) {
                Ok(src.update(ins.len - 1, disp8_byte(nd)))
            } else {
                Err(Error::UnsupportedBranchDisplacement)
            }
        },
        InstrKind::RelBranch32 | InstrKind::RipRelative => {
            let nd = relocated_dest(branch_dest32(code, base, p, ins.len as int), base, t0, w, entry)
                - new_end;
            if fits_i32(nd) {
                Ok(src.subrange(0, ins.len - 4) + le32(disp32_word(nd)))
            } else {
                Err(Error::UnsupportedBranchDisplacement)
            }
        },
    }
}

/// The concatenated re-encoded copies of the instructions from `p` to the
/// end of the region, or the first failure.
pub open spec fn spec_reloc_region(
    code: Seq<u8>,
    base: u64,
    t0: int,
    w: int,
    entry: int,
    p: int,
) -> Result<Seq<u8>, Error>
    decreases still_needed(t0 + w, p),
{
    if p >= t0 + w {
        Ok(Seq::empty())
    } else {
        match spec_decode(code, p) {
            Some(ins) => if ins.len <= 0 {
                Err(Error::UnsupportedInstruction)
            } else {
                match reloc_instr(code, base, t0, w, entry, p, ins) {
                    Ok(b) => match spec_reloc_region(code, base, t0, w, entry, p + ins.len) {
                        Ok(rest) => Ok(b + rest),
                        Err(e) => Err(e),
                    },
                    Err(e) => Err(e),
                }
            },
            None => Err(Error::UnsupportedInstruction),
        }
    }
}

/// The whole trampoline for the region `[t0, t0 + w)`: the relocated body
/// followed by the continuation jump back to `base + t0 + w`.
pub open spec fn spec_trampoline_code(code: Seq<u8>, base: u64, t0: int, w: int, entry: int) -> Result<
    Seq<u8>,
    Error,
> {
    match spec_reloc_region(code, base, t0, w, entry, t0) {
        Ok(body) => if fits_i32((base + t0 + w) - (entry + body.len() + 5)) {
            Ok(body + jmp_rel32(entry + body.len(), base + t0 + w))
        } else {
            Err(Error::UnsupportedBranchDisplacement)
        },
        Err(e) => Err(e),
    }
}

/// Where every instruction of the region is position-independent, the
/// relocated body is byte for byte the displaced original code.
pub proof fn lemma_ordinary_body_is_copy(
    code: Seq<u8>,
    base: u64,
    t0: int,
    w: int,
    entry: int,
    p: int,
)
    requires
        0 <= t0 <= p,
        p <= code.len(),
        spec_reloc_region(code, base, t0, w, entry, p) is Ok,
        forall|q: int|
            p <= q < t0 + w && spec_decode(code, q) is Some ==> spec_decode(code, q)->Some_0.kind
                == InstrKind::Ordinary,
    ensures
        ({
            let body = spec_reloc_region(code, base, t0, w, entry, p)->Ok_0;
            p + body.len() <= code.len() && body == code.subrange(p, p + body.len())
        }),
    decreases still_needed(t0 + w, p),
{
    let body = spec_reloc_region(code, base, t0, w, entry, p)->Ok_0;
    if p >= t0 + w {
        assert(body =~= code.subrange(p, p));
    } else {
        let ins = spec_decode(code, p)->Some_0;
        crate::decode::lemma_decode_props(code, p);
        lemma_ordinary_body_is_copy(code, base, t0, w, entry, p + ins.len);
        let rest = spec_reloc_region(code, base, t0, w, entry, p + ins.len)->Ok_0;
        assert(body == code.subrange(p, p + ins.len) + rest);
        assert(body =~= code.subrange(p, p + body.len()));
    }
}

/// Re-encodes the one instruction at `p` for its copy in a trampoline at
/// `entry`, exactly as [`reloc_instr`] states.
#[verifier::rlimit(100)]
fn reloc_one(mem: &CodeMemory, t0: usize, w: usize, entry: u64, p: usize, ins: Instruction) -> (r:
    Result<Vec<u8>, Error>)
    requires
        mem.wf(),
        spec_decode(mem.bytes@, p as int) == Some(ins),
        t0 <= p,
    ensures
        match r {
            Ok(rb) => reloc_instr(
                mem.bytes@,
                mem.base,
                t0 as int,
                w as int,
                entry as int,
                p as int,
                ins,
            ) == Ok::<Seq<u8>, Error>(rb@) && rb@.len() == ins.len,
            Err(e) => reloc_instr(
                mem.bytes@,
                mem.base,
                t0 as int,
                w as int,
                entry as int,
                p as int,
                ins,
            ) == Err::<Seq<u8>, Error>(e),
        },
{
    proof {
        crate::decode::lemma_decode_props(mem.bytes@, p as int);
    }
    let ghost code = mem.bytes@;
    let ghost src = code.subrange(p as int, p + ins.len);
    let mut rb = mem.read_span(p, ins.len);
    match ins.kind {
        InstrKind::Ordinary => Ok(rb),
        InstrKind::RelBranch8 => {
            let d = signed8_of(rb[ins.len - 1]);
            let dest: i128 = mem.base as i128 + p as i128 + ins.len as i128 + d as i128;
            proof {
                assert(dest as int == branch_dest8(code, mem.base, p as int, ins.len as int));
            }
            let lo: i128 = mem.base as i128 + t0 as i128;
            let dest2: i128 = if lo <= dest && dest < lo + w as i128 {
                entry as i128 + (dest - lo)
            } else {
                dest
            };
            proof {
                assert(dest2 as int == relocated_dest(dest as int, mem.base, t0 as int, w as int,
                    entry as int));
            }
            let nd: i128 = dest2 - (entry as i128 + (p - t0) as i128 + ins.len as i128);
            if !(-0x80 <= nd && nd < 0x80) {
                return Err(Error::UnsupportedBranchDisplacement);
            }
            rb.set(ins.len - 1, disp8_encode(nd as i64));
            proof {
                assert(rb@ =~= src.update(ins.len - 1, disp8_byte(nd as int)));
            }
            Ok(rb)
        },
        InstrKind::RelBranch32 | InstrKind::RipRelative => {
            let u = read_word32(rb[ins.len - 4], rb[ins.len - 3], rb[ins.len - 2], rb[ins.len - 1]);
            let d = signed32_of(u);
            let dest: i128 = mem.base as i128 + p as i128 + ins.len as i128 + d as i128;
            proof {
                assert(dest as int == branch_dest32(code, mem.base, p as int, ins.len as int));
            }
            let lo: i128 = mem.base as i128 + t0 as i128;
            let dest2: i128 = if lo <= dest && dest < lo + w as i128 {
                entry as i128 + (dest - lo)
            } else {
                dest
            };
            proof {
                assert(dest2 as int == relocated_dest(dest as int, mem.base, t0 as int, w as int,
                    entry as int));
            }
            let nd: i128 = dest2 - (entry as i128 + (p - t0) as i128 + ins.len as i128);
            if !(-0x8000_0000 <= nd && nd < 0x8000_0000) {
                return Err(Error::UnsupportedBranchDisplacement);
            }
            rb.truncate(ins.len - 4);
            crate::bytes::push_le32(&mut rb, disp32_encode(nd as i64));
            proof {
                assert(rb@ =~= src.subrange(0, ins.len - 4) + le32(disp32_word(nd as int)));
            }
            Ok(rb)
        },
    }
}

/// Generates the trampoline bytes for the region `[t0, t0 + w)`, to be
/// placed at absolute address `entry`.
///
/// The result is exactly [`spec_trampoline_code`]; failures are the
/// decoder's [`Error::UnsupportedInstruction`] and the re-encoder's
/// [`Error::UnsupportedBranchDisplacement`], and the image is never
/// written.
#[verifier::rlimit(100)]
pub fn build_trampoline(mem: &CodeMemory, t0: usize, w: usize, entry: u64) -> (r: Result<
    Vec<u8>,
    Error,
>)
    requires
        mem.wf(),
        t0 + w <= mem.bytes@.len(),
    ensures
        match r {
            Ok(code) => spec_trampoline_code(mem.bytes@, mem.base, t0 as int, w as int, entry as int)
                == Ok::<Seq<u8>, Error>(code@) && code@.len() <= w + 12,
            Err(e) => spec_trampoline_code(mem.bytes@, mem.base, t0 as int, w as int, entry as int)
                == Err::<Seq<u8>, Error>(e),
        },
{
    let ghost code = mem.bytes@;
    let ghost gt0 = t0 as int;
    let ghost gw = w as int;
    let ghost ge = entry as int;
    let blen = mem.bytes.len();
    let end = t0 + w;
    let mut out: Vec<u8> = Vec::new();
    let mut p: usize = t0;
    while p < end
        invariant
            mem.wf(),
            code == mem.bytes@,
            gt0 == t0 as int,
            gw == w as int,
            ge == entry as int,
            blen == mem.bytes@.len(),
            end == t0 + w,
            end <= blen,
            t0 <= p,
            p <= blen,
            p <= end + 6,
            out@.len() == p - t0,
            spec_reloc_region(code, mem.base, gt0, gw, ge, gt0) == (match spec_reloc_region(
                code,
                mem.base,
                gt0,
                gw,
                ge,
                p as int,
            ) {
                Ok(rest) => Ok::<Seq<u8>, Error>(out@ + rest),
                Err(e) => Err::<Seq<u8>, Error>(e),
            }),
        decreases still_needed(end as int, p as int),
    {
        let ins = match decode(&mem.bytes, p) {
            Ok(ins) => ins,
            Err(e) => {
                return Err(e);
            },
        };
        proof {
            crate::decode::lemma_decode_props(code, p as int);
        }
        let mut rb = match reloc_one(mem, t0, w, entry, p, ins) {
            Ok(rb) => rb,
            Err(e) => {
                return Err(e);
            },
        };
        let ghost out_before = out@;
        let ghost rbs = rb@;
        out.append(&mut rb);
        proof {
            let rest_result = spec_reloc_region(code, mem.base, gt0, gw, ge, p + ins.len);
            if rest_result is Ok {
                assert(out_before + (rbs + rest_result->Ok_0) =~= out@ + rest_result->Ok_0);
            }
        }
        p = p + ins.len;
    }
    let from: i128 = entry as i128 + out.len() as i128;
    let back_dest: i128 = mem.base as i128 + t0 as i128 + w as i128;
    let back: i128 = back_dest - (from + 5);
    if !(-0x8000_0000 <= back && back < 0x8000_0000) {
        return Err(Error::UnsupportedBranchDisplacement);
    }
    let ghost body = out@;
    out.push(0xE9);
    crate::bytes::push_le32(&mut out, disp32_encode(back as i64));
    proof {
        assert(out@ =~= body + jmp_rel32(ge + body.len(), mem.base + gt0 + gw));
    }
    Ok(out)
}

} // verus!
