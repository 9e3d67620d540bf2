//! Machine code: turning what a 68000 opcode decoder reports into
//! instructions and addressing modes.
//!
//! A decoder reads the bytes at the program counter and reports an operation
//! tag, up to two operand descriptors, the operand size (0 when the opcode
//! has none) and how many bytes it consumed. The types here hold that report
//! as plain values; this module normalizes it.
use crate::cpu::addressing::AddressMode;
use crate::cpu::isa_68000::Instruction;
use crate::cpu::registers::{AddressRegister, DataRegister, Register};
use crate::parsers::{outcome_matches, ParseError, ParseErrorKind};
use crate::OperandSize;
use vstd::prelude::*;

verus! {

/// The operations a decoder reports that this emulator distinguishes.
#[derive(Debug, Clone, Copy, PartialEq, Eq, Structural)]
pub enum Operation {
    Add,
    Addi,
    Adda,
    Addq,
    Sub,
    Subi,
    Suba,
    Mulu,
    Move,
    Movea,
    Movem,
    Eor,
    Eori,
    Or,
    Ori,
    And,
    Andi,
    Rol,
    Roxl,
    Jmp,
    Chk,
    Nop,
    /// Any other operation.
    Other,
}

/// Whether an indexed operand reads a pointer from memory, and whether it
/// indexes before or after doing so.
#[derive(Debug, Clone, Copy, PartialEq, Eq, Structural)]
pub enum MemoryIndirection {
    NoIndirection,
    Indirect,
    IndirectPreIndexed,
    IndirectPostIndexed,
}

/// The index register of an operand, with the scale the decoder reported
/// (the emulator scales by the operand size instead).
#[derive(Debug, Clone, Copy, PartialEq, Eq, Structural)]
pub enum Indexer {
    NoIndexer,
    Data(DataRegister, u8),
    Address(AddressRegister, u8),
}

/// The displacement part of a register- or PC-relative operand.
#[derive(Debug, Clone, Copy, PartialEq, Eq, Structural)]
pub struct Displacement {
    pub base_displacement: i32,
    pub outer_displacement: i32,
    pub indirection: MemoryIndirection,
    pub indexer: Indexer,
}

/// An operand descriptor as a decoder reports it.
#[derive(Debug, Clone, Copy, PartialEq, Eq, Structural)]
pub enum DecodedOperand {
    NoOperand,
    Immediate8(u8),
    Immediate16(u16),
    Immediate32(u32),
    AbsoluteShort(i16),
    AbsoluteLong(u32),
    DataDirect(DataRegister),
    AddressDirect(AddressRegister),
    AddressIndirect(AddressRegister),
    AddressPostIncrement(AddressRegister),
    AddressPreDecrement(AddressRegister),
    AddressDisplacement(AddressRegister, Displacement),
    ProgramCounterDisplacement(Displacement),
    /// Any operand form the emulator has no addressing mode for.
    Other,
}

/// What a decoder reports for one instruction.
#[derive(Debug, Clone, Copy, PartialEq, Eq, Structural)]
pub struct DecodedInstruction {
    pub operation: Operation,
    /// Operand size in bytes; 0 when the opcode encodes none.
    pub size: i32,
    pub source: DecodedOperand,
    pub destination: DecodedOperand,
    pub bytes_used: u32,
}

/// The low 16 bits of a displacement.
pub open spec fn low_word(x: i32) -> u16 {
    (x as int % 0x1_0000) as u16
}

/// A 16-bit address sign-extended to 32 bits.
pub open spec fn sign_extend_short(a: i16) -> u32 {
    if a < 0 {
        (a as int + 0x1_0000_0000) as u32
    } else {
        a as u32
    }
}

/// The addressing mode for a displacement operand with base `base` (an
/// address register or the program counter); `None` for a combination no
/// mode stands for.
pub open spec fn displacement_mode(base: Register, disp: Displacement) -> Option<AddressMode> {
    let bd = low_word(disp.base_displacement);
    let od = low_word(disp.outer_displacement);
    let index = match disp.indexer {
        Indexer::Data(d, _) => Some(Register::Data(d)),
        Indexer::Address(a, _) => Some(Register::Address(a)),
        Indexer::NoIndexer => None,
    };
    match (disp.indirection, index, base) {
        (MemoryIndirection::NoIndirection, None, Register::Address(a)) => Some(
            AddressMode::RegisterIndirectWithDisplacement { register: a, displacement: bd },
        ),
        (MemoryIndirection::NoIndirection, None, Register::ProgramCounter) => Some(
            AddressMode::ProgramCounterIndirectWithDisplacement { displacement: bd },
        ),
        (MemoryIndirection::NoIndirection, Some(x), Register::Address(a)) => Some(
            AddressMode::RegisterIndirectIndexed {
                displacement: bd,
                address_register: a,
                index_register: x,
            },
        ),
        (MemoryIndirection::NoIndirection, Some(x), Register::ProgramCounter) => Some(
            AddressMode::ProgramCounterIndirectIndexed { displacement: bd, index_register: x },
        ),
        (MemoryIndirection::IndirectPreIndexed, Some(x), Register::Address(a)) => Some(
            AddressMode::MemoryPreIndexed {
                base_displacement: bd,
                outer_displacement: od,
                address_register: a,
                index_register: x,
            },
        ),
        (MemoryIndirection::IndirectPreIndexed, Some(x), Register::ProgramCounter) => Some(
            AddressMode::ProgramCounterMemoryIndirectPreIndexed {
                base_displacement: bd,
                outer_displacement: od,
                index_register: x,
            },
        ),
        (MemoryIndirection::IndirectPostIndexed, Some(x), Register::Address(a)) => Some(
            AddressMode::MemoryPostIndexed {
                base_displacement: bd,
                outer_displacement: od,
                address_register: a,
                index_register: x,
            },
        ),
        (MemoryIndirection::IndirectPostIndexed, Some(x), Register::ProgramCounter) => Some(
            AddressMode::ProgramCounterMemoryIndirectPostIndexed {
                base_displacement: bd,
                outer_displacement: od,
                index_register: x,
            },
        ),
        _ => None,
    }
}

/// The addressing mode an operand descriptor stands for: `Ok(None)` for no
/// operand, `Err(())` for a form no mode stands for.
pub open spec fn operand_mode(op: DecodedOperand) -> Result<Option<AddressMode>, ()> {
    match op {
        DecodedOperand::NoOperand => Ok(None),
        DecodedOperand::Immediate8(v) => Ok(Some(AddressMode::Immediate { value: v as u32 })),
        DecodedOperand::Immediate16(v) => Ok(Some(AddressMode::Immediate { value: v as u32 })),
        DecodedOperand::Immediate32(v) => Ok(Some(AddressMode::Immediate { value: v })),
        DecodedOperand::AbsoluteShort(a) => Ok(
            Some(AddressMode::Absolute { address: sign_extend_short(a) }),
        ),
        DecodedOperand::AbsoluteLong(a) => Ok(Some(AddressMode::Absolute { address: a })),
        DecodedOperand::DataDirect(d) => Ok(
            Some(AddressMode::RegisterDirect { register: Register::Data(d) }),
        ),
        DecodedOperand::AddressDirect(a) => Ok(
            Some(AddressMode::RegisterDirect { register: Register::Address(a) }),
        ),
        DecodedOperand::AddressIndirect(a) => Ok(
            Some(AddressMode::RegisterIndirect { register: a }),
        ),
        DecodedOperand::AddressPostIncrement(a) => Ok(
            Some(AddressMode::RegisterIndirectPostIncrement { register: a }),
        ),
        DecodedOperand::AddressPreDecrement(a) => Ok(
            Some(AddressMode::RegisterIndirectPreDecrement { register: a }),
        ),
        DecodedOperand::AddressDisplacement(a, disp) => match displacement_mode(
            Register::Address(a),
            disp,
        ) {
            Some(m) => Ok(Some(m)),
            None => Err(()),
        },
        DecodedOperand::ProgramCounterDisplacement(disp) => match displacement_mode(
            Register::ProgramCounter,
            disp,
        ) {
            Some(m) => Ok(Some(m)),
            None => Err(()),
        },
        DecodedOperand::Other => Err(()),
    }
}

/// The size an operand descriptor implies: absolute-short a word,
/// absolute-long a long.
pub open spec fn implied_size(op: DecodedOperand) -> Option<OperandSize> {
    match op {
        DecodedOperand::AbsoluteShort(_) => Some(OperandSize::Word),
        DecodedOperand::AbsoluteLong(_) => Some(OperandSize::Long),
        _ => None,
    }
}

/// The operand size of a decoded instruction: the size it reports, or, when
/// it reports none, the size its operands imply (source first), or a long.
pub open spec fn decoded_size(d: DecodedInstruction) -> Result<OperandSize, ParseErrorKind> {
    if d.size == 0 {
        match implied_size(d.source) {
            Some(s) => Ok(s),
            None => match implied_size(d.destination) {
                Some(s) => Ok(s),
                None => Ok(OperandSize::Long),
            },
        }
    } else if d.size == 1 {
        Ok(OperandSize::Byte)
    } else if d.size == 2 {
        Ok(OperandSize::Word)
    } else if d.size == 4 {
        Ok(OperandSize::Long)
    } else {
        Err(ParseErrorKind::InvalidOperandSize)
    }
}

/// The instruction for an operation, given its source and destination modes.
pub open spec fn instruction_for(
    operation: Operation,
    src: Option<AddressMode>,
    dest: Option<AddressMode>,
) -> Result<Instruction, ParseErrorKind> {
    let two = src is Some && dest is Some;
    let (s, d) = (src->0, dest->0);
    match operation {
        Operation::Add | Operation::Addi | Operation::Adda | Operation::Addq => if two {
            Ok(Instruction::Add { src: s, dest: d })
        } else {
            Err(ParseErrorKind::MissingOperand)
        },
        Operation::Sub | Operation::Subi | Operation::Suba => if two {
            Ok(Instruction::Subtract { src: s, dest: d })
        } else {
            Err(ParseErrorKind::MissingOperand)
        },
        Operation::Mulu => if two {
            Ok(Instruction::MultiplyUnsigned { src: s, dest: d })
        } else {
            Err(ParseErrorKind::MissingOperand)
        },
        Operation::Move | Operation::Movea | Operation::Movem => if two {
            Ok(Instruction::Move { src: s, dest: d })
        } else {
            Err(ParseErrorKind::MissingOperand)
        },
        Operation::Eor | Operation::Eori => if two {
            Ok(Instruction::ExclusiveOr { src: s, dest: d })
        } else {
            Err(ParseErrorKind::MissingOperand)
        },
        Operation::Or | Operation::Ori => if two {
            Ok(Instruction::InclusiveOr { src: s, dest: d })
        } else {
            Err(ParseErrorKind::MissingOperand)
        },
        Operation::And | Operation::Andi => if two {
            Ok(Instruction::And { src: s, dest: d })
        } else {
            Err(ParseErrorKind::MissingOperand)
        },
        Operation::Rol | Operation::Roxl => if two {
            Ok(Instruction::RotateLeft { to_rotate: d, rotate_amount: s })
        } else {
            Err(ParseErrorKind::MissingOperand)
        },
        Operation::Jmp => if src is Some {
            Ok(Instruction::JumpTo { address: s })
        } else {
            Err(ParseErrorKind::MissingOperand)
        },
        Operation::Chk => if two {
            Ok(Instruction::BoundsCheck { bound: s, value: d })
        } else {
            Err(ParseErrorKind::MissingOperand)
        },
        Operation::Nop | Operation::Other => Ok(Instruction::NoOp),
    }
}

/// A decoded instruction as (instruction, operand size, bytes consumed).
pub open spec fn decode_result(d: DecodedInstruction) -> Result<
    (Instruction, OperandSize, u32),
    ParseErrorKind,
> {
    if d.operation is Nop || d.operation is Other {
        let size = match decoded_size(d) {
            Ok(s) => s,
            Err(_) => OperandSize::Long,
        };
        Ok((Instruction::NoOp, size, d.bytes_used))
    } else {
        match (operand_mode(d.source), operand_mode(d.destination)) {
            (Ok(src), Ok(dest)) => match decoded_size(d) {
            Err(k) => Err(k),
            Ok(size) => match instruction_for(d.operation, src, dest) {
                Err(k) => Err(k),
                Ok(instruction) => Ok((instruction, size, d.bytes_used)),
            },
        },
            _ => Err(ParseErrorKind::UnsupportedAddressing),
        }
    }
}

/// The low 16 bits of `x`.
fn to_low_word(x: i32) -> (r: u16)
    ensures
        r == low_word(x),
{
    if x >= 0 {
        (x % 0x1_0000) as u16
    } else {
        let shifted: i64 = x as i64 + 0x1_0000_0000;
        proof {
            vstd::arithmetic::div_mod::lemma_mod_multiples_vanish(0x1_0000, x as int, 0x1_0000);
        }
        (shifted % 0x1_0000) as u16
    }
}

/// Sign-extends an absolute-short address.
fn extend_short(a: i16) -> (r: u32)
    ensures
        r == sign_extend_short(a),
{
    if a < 0 {
        (a as i64 + 0x1_0000_0000) as u32
    } else {
        a as u32
    }
}

impl AddressMode {
    /// Converts a decoder's (source, destination) operands to addressing modes.
    pub fn from_m68kdecode(source: DecodedOperand, destination: DecodedOperand) -> (r: Result<
        (Option<AddressMode>, Option<AddressMode>),
        ParseError,
    >)
        ensures
            match (operand_mode(source), operand_mode(destination)) {
                (Ok(s), Ok(d)) => r == Ok::<_, ParseError>((s, d)),
                _ => r matches Err(ParseError::UnsupportedAddressing),
            },
    {
        let s = Self::from_m68kdecode_operand(source);
        let d = Self::from_m68kdecode_operand(destination);
        match (s, d) {
            (Ok(s), Ok(d)) => Ok((s, d)),
            _ => Err(ParseError::UnsupportedAddressing),
        }
    }

    fn from_m68kdecode_operand(op: DecodedOperand) -> (r: Result<Option<AddressMode>, ()>)
        ensures
            r == operand_mode(op),
    {
        match op {
            DecodedOperand::NoOperand => Ok(None),
            DecodedOperand::Immediate8(value) => Ok(
                Some(AddressMode::Immediate { value: value as u32 }),
            ),
            DecodedOperand::Immediate16(value) => Ok(
                Some(AddressMode::Immediate { value: value as u32 }),
            ),
            DecodedOperand::Immediate32(value) => Ok(Some(AddressMode::Immediate { value })),
            DecodedOperand::AbsoluteShort(address) => Ok(
                Some(AddressMode::Absolute { address: extend_short(address) }),
            ),
            DecodedOperand::AbsoluteLong(address) => Ok(Some(AddressMode::Absolute { address })),
            DecodedOperand::DataDirect(reg) => Ok(
                Some(AddressMode::RegisterDirect { register: Register::Data(reg) }),
            ),
            DecodedOperand::AddressDirect(reg) => Ok(
                Some(AddressMode::RegisterDirect { register: Register::Address(reg) }),
            ),
            DecodedOperand::AddressIndirect(reg) => Ok(
                Some(AddressMode::RegisterIndirect { register: reg }),
            ),
            DecodedOperand::AddressPostIncrement(reg) => Ok(
                Some(AddressMode::RegisterIndirectPostIncrement { register: reg }),
            ),
            DecodedOperand::AddressPreDecrement(reg) => Ok(
                Some(AddressMode::RegisterIndirectPreDecrement { register: reg }),
            ),
            DecodedOperand::AddressDisplacement(reg, disp) => {
                match Self::from_m68kdecode_with_register_indexing(Register::Address(reg), disp) {
                    Some(mode) => Ok(Some(mode)),
                    None => Err(()),
                }
            },
            DecodedOperand::ProgramCounterDisplacement(disp) => {
                match Self::from_m68kdecode_with_register_indexing(Register::ProgramCounter, disp) {
                    Some(mode) => Ok(Some(mode)),
                    None => Err(()),
                }
            },
            DecodedOperand::Other => Err(()),
        }
    }

    fn from_m68kdecode_with_register_indexing(base: Register, disp: Displacement) -> (r: Option<
        AddressMode,
    >)
        ensures
            r == displacement_mode(base, disp),
    {
        let base_displacement = to_low_word(disp.base_displacement);
        let outer_displacement = to_low_word(disp.outer_displacement);
        let index = match disp.indexer {
            Indexer::Data(d, _) => Some(Register::Data(d)),
            Indexer::Address(a, _) => Some(Register::Address(a)),
            Indexer::NoIndexer => None,
        };
        match (disp.indirection, index, base) {
            (MemoryIndirection::NoIndirection, None, Register::Address(register)) => Some(
                AddressMode::RegisterIndirectWithDisplacement {
                    register,
                    displacement: base_displacement,
                },
            ),
            (MemoryIndirection::NoIndirection, None, Register::ProgramCounter) => Some(
                AddressMode::ProgramCounterIndirectWithDisplacement {
                    displacement: base_displacement,
                },
            ),
            (MemoryIndirection::NoIndirection, Some(index_register), Register::Address(a)) => Some(
                AddressMode::RegisterIndirectIndexed {
                    displacement: base_displacement,
                    address_register: a,
                    index_register,
                },
            ),
            (MemoryIndirection::NoIndirection, Some(index_register), Register::ProgramCounter) => {
                Some(
                    AddressMode::ProgramCounterIndirectIndexed {
                        displacement: base_displacement,
                        index_register,
                    },
                )
            },
            (
                MemoryIndirection::IndirectPreIndexed,
                Some(index_register),
                Register::Address(a),
            ) => Some(
                AddressMode::MemoryPreIndexed {
                    base_displacement,
                    outer_displacement,
                    address_register: a,
                    index_register,
                },
            ),
            (
                MemoryIndirection::IndirectPreIndexed,
                Some(index_register),
                Register::ProgramCounter,
            ) => Some(
                AddressMode::ProgramCounterMemoryIndirectPreIndexed {
                    base_displacement,
                    outer_displacement,
                    index_register,
                },
            ),
            (
                MemoryIndirection::IndirectPostIndexed,
                Some(index_register),
                Register::Address(a),
            ) => Some(
                AddressMode::MemoryPostIndexed {
                    base_displacement,
                    outer_displacement,
                    address_register: a,
                    index_register,
                },
            ),
            (
                MemoryIndirection::IndirectPostIndexed,
                Some(index_register),
                Register::ProgramCounter,
            ) => Some(
                AddressMode::ProgramCounterMemoryIndirectPostIndexed {
                    base_displacement,
                    outer_displacement,
                    index_register,
                },
            ),
            _ => None,
        }
    }
}

/// Turns a decoder's report on machine code into instructions.
pub struct MachineCodeParser;

impl Default for MachineCodeParser {
    fn default() -> (r: Self) {
        MachineCodeParser
    }
}

impl MachineCodeParser {
    /// The size an operand descriptor implies, if any.
    fn size_override(op: DecodedOperand) -> (r: Option<OperandSize>)
        ensures
            r == implied_size(op),
    {
        match op {
            DecodedOperand::AbsoluteShort(_) => Some(OperandSize::Word),
            DecodedOperand::AbsoluteLong(_) => Some(OperandSize::Long),
            _ => None,
        }
    }

    /// Normalizes one decoded instruction into (instruction, operand size,
    /// bytes consumed). Operations the emulator does not implement become a
    /// no-op.
    pub fn parse_decoded(&self, decoded: &DecodedInstruction) -> (r: Result<
        (Instruction, OperandSize, u32),
        ParseError,
    >)
        ensures
            outcome_matches(r, decode_result(*decoded)),
            r matches Err(ParseError::InvalidOperandSize(s)) ==> s == decoded.size,
    {
        let size = if decoded.size == 0 {
            match Self::size_override(decoded.source) {
                Some(s) => Ok(s),
                None => match Self::size_override(decoded.destination) {
                    Some(s) => Ok(s),
                    None => Ok(OperandSize::Long),
                },
            }
        } else {
            OperandSize::from_size_in_bytes(decoded.size)
        };
        if let Operation::Nop | Operation::Other = decoded.operation {
            let size = match size {
                Ok(s) => s,
                Err(_) => OperandSize::Long,
            };
            return Ok((Instruction::NoOp, size, decoded.bytes_used));
        }
        let (src, dest) = AddressMode::from_m68kdecode(decoded.source, decoded.destination)?;
        let size = match size {
            Ok(s) => s,
            Err(_) => return Err(ParseError::InvalidOperandSize(decoded.size)),
        };
        let parsed = match (decoded.operation, src, dest) {
            (
                Operation::Add | Operation::Addi | Operation::Adda | Operation::Addq,
                Some(src),
                Some(dest),
            ) => Instruction::Add { src, dest },
            (Operation::Sub | Operation::Subi | Operation::Suba, Some(src), Some(dest)) => {
                Instruction::Subtract { src, dest }
            },
            (Operation::Mulu, Some(src), Some(dest)) => Instruction::MultiplyUnsigned { src, dest },
            (Operation::Move | Operation::Movea | Operation::Movem, Some(src), Some(dest)) => {
                Instruction::Move { src, dest }
            },
            (Operation::Eor | Operation::Eori, Some(src), Some(dest)) => Instruction::ExclusiveOr {
                src,
                dest,
            },
            (Operation::Or | Operation::Ori, Some(src), Some(dest)) => Instruction::InclusiveOr {
                src,
                dest,
            },
            (Operation::And | Operation::Andi, Some(src), Some(dest)) => Instruction::And {
                src,
                dest,
            },
            (Operation::Rol | Operation::Roxl, Some(src), Some(dest)) => Instruction::RotateLeft {
                to_rotate: dest,
                rotate_amount: src,
            },
            (Operation::Jmp, Some(src), _) => Instruction::JumpTo { address: src },
            (Operation::Chk, Some(src), Some(dest)) => Instruction::BoundsCheck {
                value: dest,
                bound: src,
            },
            _ => return Err(ParseError::MissingOperand(String::from_str("decoded instruction"))),
        };
        Ok((parsed, size, decoded.bytes_used))
    }
}

} // verus!
