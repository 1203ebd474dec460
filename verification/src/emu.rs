use vstd::prelude::*;

use crate::bytes::{read_word32, signed32, signed8, signed8_of, signed32_of, word32, word64};
use crate::mem::CodeMemory;

verus! {

// A small execution model for the supported straight-line subset: enough
// of the architecture's semantics to state and check what hooking changes
// about a run — which value a function returns, and where control goes.
// One register (the accumulator) is modeled; a run ends at `ret` with its
// value.

/// The accumulator after `mov al, imm` semantics: low byte replaced.
pub open spec fn set_low_byte(eax: u32, b: u8) -> u32 {
    ((eax / 256) * 256 + b) as u32
}

/// Runs the modeled machine from offset `pc` with accumulator `eax`.
///
/// Returns the accumulator at the first `ret`, or `None` where the run
/// leaves the image, meets bytes outside the modeled subset, or exceeds
/// `fuel` steps.
pub open spec fn spec_run(code: Seq<u8>, base: u64, pc: int, eax: u32, fuel: nat) -> Option<u32>
    decreases fuel,
{
    if fuel == 0 {
        None
    } else if pc < 0 || pc >= code.len() {
        None
    } else {
        let b = code[pc];
        if b == 0xC3 {
            // ret
            Some(eax)
        } else if b == 0x90 {
            // nop
            spec_run(code, base, pc + 1, eax, (fuel - 1) as nat)
        } else if b == 0x31 {
            // xor eax, eax (register form only)
            if pc + 2 <= code.len() && code[pc + 1] == 0xC0 {
                spec_run(code, base, pc + 2, 0, (fuel - 1) as nat)
            } else {
                None
            }
        } else if b == 0xB8 {
            // mov eax, imm32
            if pc + 5 <= code.len() {
                spec_run(
                    code,
                    base,
                    pc + 5,
                    word32(code[pc + 1], code[pc + 2], code[pc + 3], code[pc + 4]) as u32,
                    (fuel - 1) as nat,
                )
            } else {
                None
            }
        } else if b == 0x8A {
            // mov al, [rip + disp32]
            if pc + 6 <= code.len() && code[pc + 1] == 0x05 {
                let src = pc + 6 + signed32(word32(code[pc + 2], code[pc + 3], code[pc + 4],
                    code[pc + 5]));
                if 0 <= src < code.len() {
                    spec_run(code, base, pc + 6, set_low_byte(eax, code[src]), (fuel - 1) as nat)
                } else {
                    None
                }
            } else {
                None
            }
        } else if b == 0xEB {
            // jmp rel8
            if pc + 2 <= code.len() {
                spec_run(code, base, pc + 2 + signed8(code[pc + 1]), eax, (fuel - 1) as nat)
            } else {
                None
            }
        } else if b == 0xE9 {
            // jmp rel32
            if pc + 5 <= code.len() {
                spec_run(
                    code,
                    base,
                    pc + 5 + signed32(word32(code[pc + 1], code[pc + 2], code[pc + 3], code[pc + 4])),
                    eax,
                    (fuel - 1) as nat,
                )
            } else {
                None
            }
        } else if b == 0xFF {
            // jmp [rip+0]: indirect absolute jump through the inline
            // eight-byte destination that follows
            if pc + 14 <= code.len() && code[pc + 1] == 0x25 && code[pc + 2] == 0 && code[pc + 3]
                == 0 && code[pc + 4] == 0 && code[pc + 5] == 0 {
                let dest = word64(code.subrange(pc + 6, pc + 14));
                spec_run(code, base, dest - base, eax, (fuel - 1) as nat)
            } else {
                None
            }
        } else {
            None
        }
    }
}

/// Runs the modeled machine over the image, exactly as [`spec_run`]
/// states, starting with a zeroed accumulator.
pub fn run(mem: &CodeMemory, entry_off: usize, fuel: u64) -> (r: Option<u32>)
    ensures
        r == spec_run(mem.bytes@, mem.base, entry_off as int, 0u32, fuel as nat),
{
    run_from(mem, entry_off, 0, fuel)
}

/// Runs the modeled machine from `pc` with accumulator `eax`.
#[verifier::rlimit(100)]
pub fn run_from(mem: &CodeMemory, pc: usize, eax: u32, fuel: u64) -> (r: Option<u32>)
    ensures
        r == spec_run(mem.bytes@, mem.base, pc as int, eax, fuel as nat),
{
    let ghost code = mem.bytes@;
    let blen = mem.bytes.len();
    let mut cur: usize = pc;
    let mut acc: u32 = eax;
    let mut gas: u64 = fuel;
    loop
        invariant
            code == mem.bytes@,
            blen == mem.bytes@.len(),
            spec_run(code, mem.base, pc as int, eax, fuel as nat) == spec_run(
                code,
                mem.base,
                cur as int,
                acc,
                gas as nat,
            ),
        decreases gas,
    {
        if gas == 0 {
            return None;
        }
        if cur >= blen {
            return None;
        }
        let b = mem.read(cur);
        if b == 0xC3 {
            return Some(acc);
        } else if b == 0x90 {
            cur = cur + 1;
        } else if b == 0x31 {
            if blen - cur >= 2 && mem.read(cur + 1) == 0xC0 {
                cur = cur + 2;
                acc = 0;
            } else {
                return None;
            }
        } else if b == 0xB8 {
            if blen - cur >= 5 {
                acc = read_word32(mem.read(cur + 1), mem.read(cur + 2), mem.read(cur + 3), mem.read(
                    cur + 4));
                cur = cur + 5;
            } else {
                return None;
            }
        } else if b == 0x8A {
            if blen - cur >= 6 && mem.read(cur + 1) == 0x05 {
                let u = read_word32(mem.read(cur + 2), mem.read(cur + 3), mem.read(cur + 4),
                    mem.read(cur + 5));
                let d = signed32_of(u);
                let src: i128 = cur as i128 + 6 + d as i128;
                if 0 <= src && src < blen as i128 {
                    let byte = mem.read(src as usize);
                    proof {
                        assert((acc / 256) * 256 + byte <= u32::MAX) by (nonlinear_arith)
                            requires
                                acc <= u32::MAX,
                                byte < 256,
                        ;
                    }
                    acc = (acc / 256) * 256 + byte as u32;
                    cur = cur + 6;
                } else {
                    return None;
                }
            } else {
                return None;
            }
        } else if b == 0xEB {
            if blen - cur >= 2 {
                let d = signed8_of(mem.read(cur + 1));
                let dest: i128 = cur as i128 + 2 + d as i128;
                if 0 <= dest && dest < blen as i128 {
                    cur = dest as usize;
                } else {
                    proof {
                        lemma_run_outside_image(code, mem.base, cur as int + 2 + d as int, acc, (gas
                            - 1) as nat);
                    }
                    return None;
                }
            } else {
                return None;
            }
        } else if b == 0xE9 {
            if blen - cur >= 5 {
                let u = read_word32(mem.read(cur + 1), mem.read(cur + 2), mem.read(cur + 3),
                    mem.read(cur + 4));
                let d = signed32_of(u);
                let dest: i128 = cur as i128 + 5 + d as i128;
                if 0 <= dest && dest < blen as i128 {
                    cur = dest as usize;
                } else {
                    proof {
                        lemma_run_outside_image(code, mem.base, cur as int + 5 + d as int, acc, (gas
                            - 1) as nat);
                    }
                    return None;
                }
            } else {
                return None;
            }
        } else if b == 0xFF {
            if blen - cur >= 14 && mem.read(cur + 1) == 0x25 && mem.read(cur + 2) == 0 && mem.read(
                cur + 3) == 0 && mem.read(cur + 4) == 0 && mem.read(cur + 5) == 0 {
                let lo = read_word32(mem.read(cur + 6), mem.read(cur + 7), mem.read(cur + 8),
                    mem.read(cur + 9));
                let hi = read_word32(mem.read(cur + 10), mem.read(cur + 11), mem.read(cur + 12),
                    mem.read(cur + 13));
                let dest_addr: i128 = lo as i128 + 0x1_0000_0000 * (hi as i128);
                proof {
                    assert(dest_addr as int == word64(code.subrange(cur + 6, cur + 14)));
                }
                let dest: i128 = dest_addr - mem.base as i128;
                if 0 <= dest && dest < blen as i128 {
                    cur = dest as usize;
                } else {
                    proof {
                        lemma_run_outside_image(code, mem.base, dest_addr as int - mem.base, acc, (gas
                            - 1) as nat);
                    }
                    return None;
                }
            } else {
                return None;
            }
        } else {
            return None;
        }
        gas = gas - 1;
    }
}

/// A run whose program counter has left the image yields no result.
pub proof fn lemma_run_outside_image(code: Seq<u8>, base: u64, pc: int, eax: u32, fuel: nat)
    requires
        pc < 0 || pc >= code.len(),
    ensures
        spec_run(code, base, pc, eax, fuel) is None,
{
}

} // verus!
