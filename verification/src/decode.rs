use vstd::prelude::*;

use crate::error::Error;

verus! {

// The decoder classifies the byte sequence at a position into the boundary
// and relocation kind of exactly one instruction. It intentionally supports
// a bounded x86-64 subset sufficient for common function prologues, not a
// full disassembler; anything outside the subset is rejected as unsupported.
// Decoding is a pure function of the bytes: no side effects.

/// How an instruction reacts to being moved to a new address.
#[derive(Clone, Copy, Debug, PartialEq, Eq, Structural)]
pub enum InstrKind {
    /// Position-independent; copied byte for byte.
    Ordinary,
    /// Relative branch with an 8-bit displacement in its last byte.
    RelBranch8,
    /// Relative branch or call with a 32-bit displacement in its last four
    /// bytes.
    RelBranch32,
    /// Instruction-pointer-relative memory operand with a 32-bit
    /// displacement in its last four bytes.
    RipRelative,
}

/// One decoded instruction: its byte length and relocation kind.
#[derive(Clone, Copy, Debug, PartialEq, Eq, Structural)]
pub struct Instruction {
    pub len: usize,
    pub kind: InstrKind,
}

/// Opcodes of the supported one-byte ModRM group (register-to-register and
/// memory forms of mov, xor, cmp and test).
pub open spec fn is_modrm_opcode(b: u8) -> bool {
    b == 0x31 || b == 0x39 || b == 0x85 || b == 0x88 || b == 0x89 || b == 0x8A || b == 0x8B
}

/// The displacement bytes and relocation kind that a ModRM byte dictates,
/// or `None` where the addressing form is outside the subset.
pub open spec fn modrm_form(m: u8) -> Option<(usize, InstrKind)> {
    let md = m / 64;
    let rm = m % 8;
    if md == 3 {
        Some((0, InstrKind::Ordinary))
    } else if rm == 4 {
        // SIB addressing is outside the supported subset.
        None
    } else if md == 0 {
        if rm == 5 {
            // In 64-bit mode, mod 00 rm 101 addresses relative to the
            // instruction pointer through a 32-bit displacement.
            Some((4, InstrKind::RipRelative))
        } else {
            Some((0, InstrKind::Ordinary))
        }
    } else if md == 1 {
        Some((1, InstrKind::Ordinary))
    } else {
        Some((4, InstrKind::Ordinary))
    }
}

/// Decodes one unprefixed instruction at `i`, or `None` where the bytes are
/// outside the subset or run past the end of the image.
pub open spec fn spec_decode_op(code: Seq<u8>, i: int) -> Option<Instruction> {
    if i < 0 || i >= code.len() {
        None
    } else {
        let b = code[i];
        if b == 0x90 || b == 0xC3 || b == 0xCC {
            // nop, ret, int3
            Some(Instruction { len: 1, kind: InstrKind::Ordinary })
        } else if 0x50 <= b <= 0x5F {
            // push/pop of a register
            Some(Instruction { len: 1, kind: InstrKind::Ordinary })
        } else if 0xB8 <= b <= 0xBF {
            // mov of a 32-bit immediate into a register
            if i + 5 <= code.len() {
                Some(Instruction { len: 5, kind: InstrKind::Ordinary })
            } else {
                None
            }
        } else if b == 0xEB {
            // short unconditional jump
            if i + 2 <= code.len() {
                Some(Instruction { len: 2, kind: InstrKind::RelBranch8 })
            } else {
                None
            }
        } else if 0x70 <= b <= 0x7F {
            // short conditional jump
            if i + 2 <= code.len() {
                Some(Instruction { len: 2, kind: InstrKind::RelBranch8 })
            } else {
                None
            }
        } else if b == 0xE8 || b == 0xE9 {
            // near call / near unconditional jump
            if i + 5 <= code.len() {
                Some(Instruction { len: 5, kind: InstrKind::RelBranch32 })
            } else {
                None
            }
        } else if b == 0x0F {
            // two-byte escape: near conditional jumps only
            if i + 6 <= code.len() && 0x80 <= code[i + 1] <= 0x8F {
                Some(Instruction { len: 6, kind: InstrKind::RelBranch32 })
            } else {
                None
            }
        } else if is_modrm_opcode(b) {
            if i + 2 <= code.len() {
                match modrm_form(code[i + 1]) {
                    Some((extra, kind)) => if i + 2 + extra <= code.len() {
                        Some(Instruction { len: (2 + extra) as usize, kind })
                    } else {
                        None
                    },
                    None => None,
                }
            } else {
                None
            }
        } else {
            None
        }
    }
}

/// Decodes exactly one instruction at `i`: an optional REX prefix followed
/// by a ModRM instruction of the subset, or an unprefixed instruction.
pub open spec fn spec_decode(code: Seq<u8>, i: int) -> Option<Instruction> {
    if i < 0 || i >= code.len() {
        None
    } else if 0x40 <= code[i] <= 0x4F {
        // A REX prefix is accepted only ahead of the ModRM group; elsewhere
        // (e.g. ahead of a 64-bit immediate mov) the encoding leaves the
        // subset.
        if i + 1 < code.len() && is_modrm_opcode(code[i + 1]) {
            match spec_decode_op(code, i + 1) {
                Some(ins) => Some(Instruction { len: (ins.len + 1) as usize, kind: ins.kind }),
                None => None,
            }
        } else {
            None
        }
    } else {
        spec_decode_op(code, i)
    }
}

/// Every decoded instruction is 1 to 7 bytes long, lies wholly inside the
/// image, and carries its displacement in its tail.
pub proof fn lemma_decode_props(code: Seq<u8>, i: int)
    requires
        spec_decode(code, i) is Some,
    ensures
        1 <= spec_decode(code, i)->Some_0.len <= 7,
        i + spec_decode(code, i)->Some_0.len <= code.len(),
        0 <= i < code.len(),
        spec_decode(code, i)->Some_0.kind == InstrKind::RelBranch8 ==> spec_decode(code, i)->Some_0.len
            >= 2,
        (spec_decode(code, i)->Some_0.kind == InstrKind::RelBranch32 || spec_decode(code,
            i)->Some_0.kind == InstrKind::RipRelative) ==> spec_decode(code, i)->Some_0.len >= 5,
{
}

/// Reads the length and relocation kind of the one instruction at `i`.
///
/// Fails with [`Error::UnsupportedInstruction`] exactly where the byte
/// pattern is not in the recognized subset (or is cut off by the end of
/// the image).
pub fn decode(code: &Vec<u8>, i: usize) -> (r: Result<Instruction, Error>)
    ensures
        match spec_decode(code@, i as int) {
            Some(ins) => r == Ok::<Instruction, Error>(ins),
            None => r == Err::<Instruction, Error>(Error::UnsupportedInstruction),
        },
{
    let n = code.len();
    if i >= n {
        return Err(Error::UnsupportedInstruction);
    }
    let b = code[i];
    if 0x40 <= b && b <= 0x4F {
        if i + 1 < n && is_modrm_opcode_exec(code[i + 1]) {
            match decode_op(code, i + 1) {
                Ok(ins) => Ok(Instruction { len: ins.len + 1, kind: ins.kind }),
                Err(e) => Err(e),
            }
        } else {
            Err(Error::UnsupportedInstruction)
        }
    } else {
        decode_op(code, i)
    }
}

fn is_modrm_opcode_exec(b: u8) -> (r: bool)
    ensures
        r == is_modrm_opcode(b),
{
    b == 0x31 || b == 0x39 || b == 0x85 || b == 0x88 || b == 0x89 || b == 0x8A || b == 0x8B
}

fn decode_op(code: &Vec<u8>, i: usize) -> (r: Result<Instruction, Error>)
    ensures
        match spec_decode_op(code@, i as int) {
            Some(ins) => r == Ok::<Instruction, Error>(ins),
            None => r == Err::<Instruction, Error>(Error::UnsupportedInstruction),
        },
{
    let n = code.len();
    if i >= n {
        return Err(Error::UnsupportedInstruction);
    }
    let b = code[i];
    if b == 0x90 || b == 0xC3 || b == 0xCC {
        Ok(Instruction { len: 1, kind: InstrKind::Ordinary })
    } else if 0x50 <= b && b <= 0x5F {
        Ok(Instruction { len: 1, kind: InstrKind::Ordinary })
    } else if 0xB8 <= b && b <= 0xBF {
        if n - i >= 5 {
            Ok(Instruction { len: 5, kind: InstrKind::Ordinary })
        } else {
            Err(Error::UnsupportedInstruction)
        }
    } else if b == 0xEB || (0x70 <= b && b <= 0x7F) {
        if n - i >= 2 {
            Ok(Instruction { len: 2, kind: InstrKind::RelBranch8 })
        } else {
            Err(Error::UnsupportedInstruction)
        }
    } else if b == 0xE8 || b == 0xE9 {
        if n - i >= 5 {
            Ok(Instruction { len: 5, kind: InstrKind::RelBranch32 })
        } else {
            Err(Error::UnsupportedInstruction)
        }
    } else if b == 0x0F {
        if n - i >= 6 && 0x80 <= code[i + 1] && code[i + 1] <= 0x8F {
            Ok(Instruction { len: 6, kind: InstrKind::RelBranch32 })
        } else {
            Err(Error::UnsupportedInstruction)
        }
    } else if is_modrm_opcode_exec(b) {
        if n - i >= 2 {
            let m = code[i + 1];
            let md = m / 64;
            let rm = m % 8;
            if md == 3 {
                Ok(Instruction { len: 2, kind: InstrKind::Ordinary })
            } else if rm == 4 {
                Err(Error::UnsupportedInstruction)
            } else if md == 0 {
                if rm == 5 {
                    if n - i >= 6 {
                        Ok(Instruction { len: 6, kind: InstrKind::RipRelative })
                    } else {
                        Err(Error::UnsupportedInstruction)
                    }
                } else {
                    Ok(Instruction { len: 2, kind: InstrKind::Ordinary })
                }
            } else if md == 1 {
                if n - i >= 3 {
                    Ok(Instruction { len: 3, kind: InstrKind::Ordinary })
                } else {
                    Err(Error::UnsupportedInstruction)
                }
            } else {
                if n - i >= 6 {
                    Ok(Instruction { len: 6, kind: InstrKind::Ordinary })
                } else {
                    Err(Error::UnsupportedInstruction)
                }
            }
        } else {
            Err(Error::UnsupportedInstruction)
        }
    } else {
        Err(Error::UnsupportedInstruction)
    }
}

} // verus!
