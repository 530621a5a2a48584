//! The instruction set: a fixed table mapping each one-byte opcode to the
//! shape of the operand bytes that follow it in the encoded stream.

use vstd::prelude::*;

verus! {

/// Opcode of the instruction that halts the fetch-execute loop.
pub const EXIT: u8 = 0x00;

/// Opcode of the diagnostic instruction. It changes no machine state; the
/// diagnostic emission itself is console output, which belongs to the
/// embedder, not to this core.
pub const DEBUG: u8 = 0x01;

/// Opcode of the absolute jump; one operand byte gives the target address.
/// A single byte caps the addressable program and stack space at 256
/// positions, a known limitation of the encoding rather than a choice to
/// widen silently.
pub const GOTO: u8 = 0x02;

/// How many operand bytes follow an opcode, and how they are found.
#[derive(Clone, Copy, Debug, PartialEq, Eq, Structural)]
pub enum ParamType {
    /// No operand bytes.
    Nil,
    /// Exactly this many literal operand bytes follow the opcode.
    Static(u8),
    /// This many header bytes follow, then a length byte `L`, then `L` more bytes.
    Variadic(u8),
}

/// One entry of the instruction table: an opcode and its operand shape.
#[derive(Clone, Copy, Debug, PartialEq, Eq, Structural)]
pub struct Instruction {
    pub byte: u8,
    pub param_type: ParamType,
}

/// The instruction table as a function from opcode to entry; `None` for a
/// byte that names no instruction.
pub open spec fn spec_instruction_for(opcode: u8) -> Option<Instruction> {
    if opcode == EXIT {
        Some(Instruction { byte: EXIT, param_type: ParamType::Nil })
    } else if opcode == DEBUG {
        Some(Instruction { byte: DEBUG, param_type: ParamType::Nil })
    } else if opcode == GOTO {
        Some(Instruction { byte: GOTO, param_type: ParamType::Static(1) })
    } else {
        None
    }
}

/// Looks a decoded opcode up in the instruction table. Components that need
/// an operand length ask here instead of hard-coding it, so instructions can
/// be added without changing callers.
pub fn instruction_for(opcode: u8) -> (r: Option<Instruction>)
    ensures
        r == spec_instruction_for(opcode),
        r matches Some(i) ==> i.byte == opcode,
{
    if opcode == EXIT {
        Some(Instruction { byte: EXIT, param_type: ParamType::Nil })
    } else if opcode == DEBUG {
        Some(Instruction { byte: DEBUG, param_type: ParamType::Nil })
    } else if opcode == GOTO {
        Some(Instruction { byte: GOTO, param_type: ParamType::Static(1) })
    } else {
        None
    }
}

} // verus!
