//! Instructions of the Motorola 68000.
//!
//! Each instruction reads its operands through effective-address modes at
//! the operand size it is executed with, computes, and writes its
//! destination. Arithmetic wraps at the operand width. Subtraction follows
//! the 68000: the destination becomes `dest - src`. A jump sets the program
//! counter to its operand's effective address, or to the value of an
//! immediate or register operand. Condition codes are left unchanged.
use crate::cpu::addressing::AddressMode;
use crate::cpu::registers::{Register, Registers};
use crate::cpu::CPU;
use crate::ram::Memory;
use crate::{integer_of, rotl, EmulationError, M68kInteger, OperandSize};
use vstd::prelude::*;

verus! {

#[derive(Debug, PartialEq, Eq, Clone, Copy, Structural)]
pub enum Instruction {
    Add { src: AddressMode, dest: AddressMode },
    Subtract { src: AddressMode, dest: AddressMode },
    ExclusiveOr { src: AddressMode, dest: AddressMode },
    InclusiveOr { src: AddressMode, dest: AddressMode },
    And { src: AddressMode, dest: AddressMode },
    Move { src: AddressMode, dest: AddressMode },
    MultiplyUnsigned { src: AddressMode, dest: AddressMode },
    RotateLeft { to_rotate: AddressMode, rotate_amount: AddressMode },
    JumpTo { address: AddressMode },
    BoundsCheck { bound: AddressMode, value: AddressMode },
    NoOp,
}

/// What a two-operand instruction stores in its destination, given the
/// source and destination operands (both of one size).
pub open spec fn combine(instruction: Instruction, s: M68kInteger, d: M68kInteger) -> M68kInteger {
    let size = s.spec_size();
    match instruction {
        Instruction::Add { .. } => integer_of(size, s.value() + d.value()),
        Instruction::Subtract { .. } => integer_of(size, d.value() - s.value() + size.modulus()),
        Instruction::MultiplyUnsigned { .. } => integer_of(size, s.value() * d.value()),
        Instruction::And { .. } => integer_of(size, (s.value() & d.value()) as int),
        Instruction::InclusiveOr { .. } => integer_of(size, (s.value() | d.value()) as int),
        Instruction::ExclusiveOr { .. } => integer_of(size, (s.value() ^ d.value()) as int),
        _ => s,
    }
}

/// Whether a bounds check fails: the value, read as signed, is negative or
/// above the bound read as unsigned.
pub open spec fn out_of_bounds(value: M68kInteger, bound: M68kInteger) -> bool {
    value.value() >= 0x8000_0000 || value.value() > bound.value()
}

impl Instruction {
    /// The source operand of a two-operand instruction.
    pub open spec fn source(&self) -> AddressMode {
        match *self {
            Instruction::Add { src, .. } => src,
            Instruction::Subtract { src, .. } => src,
            Instruction::MultiplyUnsigned { src, .. } => src,
            Instruction::And { src, .. } => src,
            Instruction::InclusiveOr { src, .. } => src,
            Instruction::ExclusiveOr { src, .. } => src,
            Instruction::Move { src, .. } => src,
            _ => AddressMode::Immediate { value: 0 },
        }
    }

    /// The destination operand of a two-operand instruction.
    pub open spec fn destination(&self) -> AddressMode {
        match *self {
            Instruction::Add { dest, .. } => dest,
            Instruction::Subtract { dest, .. } => dest,
            Instruction::MultiplyUnsigned { dest, .. } => dest,
            Instruction::And { dest, .. } => dest,
            Instruction::InclusiveOr { dest, .. } => dest,
            Instruction::ExclusiveOr { dest, .. } => dest,
            Instruction::Move { dest, .. } => dest,
            _ => AddressMode::Immediate { value: 0 },
        }
    }

    /// Executing at `size` from registers `regs` and memory `mem`: the outcome,
    /// the registers afterwards and the memory afterwards. Operands are read
    /// in order (source first), and an error stops the instruction with the
    /// side effects made so far.
    #[verifier::opaque]
    pub open spec fn execute_effect(&self, regs: Registers, mem: Seq<u8>, size: OperandSize) -> (
        Result<(), EmulationError>,
        Registers,
        Seq<u8>,
    ) {
        match *self {
            Instruction::NoOp => (Ok(()), regs, mem),
            Instruction::Move { src, dest } => {
                let (s, regs1) = src.read_effect(regs, mem, size);
                match s {
                    Err(e) => (Err(e), regs1, mem),
                    Ok(v) => dest.write_effect(regs1, mem, v),
                }
            },
            Instruction::RotateLeft { to_rotate, rotate_amount } => {
                let (x, regs1) = to_rotate.read_effect(regs, mem, size);
                match x {
                    Err(e) => (Err(e), regs1, mem),
                    Ok(x) => {
                        let (n, regs2) = rotate_amount.read_effect(regs1, mem, size);
                        match n {
                            Err(e) => (Err(e), regs2, mem),
                            Ok(n) => to_rotate.write_effect(
                                regs2,
                                mem,
                                integer_of(
                                    size,
                                    rotl(x.value(), n.value() % size.bits(), size.bits()) as int,
                                ),
                            ),
                        }
                    },
                }
            },
            Instruction::JumpTo { address } => if address.is_memory_operand() {
                match address.operand_address(regs, mem, OperandSize::Long) {
                    Err(e) => (Err(e), regs, mem),
                    Ok(t) => (Ok(()), regs.spec_set(Register::ProgramCounter, t), mem),
                }
            } else {
                let (target, regs1) = address.read_effect(regs, mem, OperandSize::Long);
                match target {
                    Err(e) => (Err(e), regs1, mem),
                    Ok(t) => (Ok(()), regs1.spec_set(Register::ProgramCounter, t.value()), mem),
                }
            },
            Instruction::BoundsCheck { bound, value } => {
                let (v, regs1) = value.read_effect(regs, mem, size);
                match v {
                    Err(e) => (Err(e), regs1, mem),
                    Ok(v) => {
                        let (b, regs2) = bound.read_effect(regs1, mem, size);
                        match b {
                            Err(e) => (Err(e), regs2, mem),
                            Ok(b) => if out_of_bounds(v, b) {
                                (Err(EmulationError::BoundsExceeded(v)), regs2, mem)
                            } else {
                                (Ok(()), regs2, mem)
                            },
                        }
                    },
                }
            },
            _ => {
                let (s, regs1) = self.source().read_effect(regs, mem, size);
                match s {
                    Err(e) => (Err(e), regs1, mem),
                    Ok(s) => {
                        let (d, regs2) = self.destination().read_effect(regs1, mem, size);
                        match d {
                            Err(e) => (Err(e), regs2, mem),
                            Ok(d) => self.destination().write_effect(
                                regs2,
                                mem,
                                combine(*self, s, d),
                            ),
                        }
                    },
                }
            },
        }
    }

    /// Executes this instruction on `cpu` at the given operand size.
    pub fn execute<M: Memory>(&self, cpu: &mut CPU<M>, size: OperandSize) -> (r: Result<
        (),
        EmulationError,
    >)
        ensures
            (r, final(cpu).registers, final(cpu).memory.bytes()) == self.execute_effect(
                old(cpu).registers,
                old(cpu).memory.bytes(),
                size,
            ),
    {
        proof {
            reveal(Instruction::execute_effect);
        }
        match *self {
            Instruction::Add { src, dest } => {
                let s = src.get_value(cpu, size)?;
                let d = dest.get_value(cpu, size)?;
                dest.set_value(cpu, s.wrapping_add(d))
            },
            Instruction::Subtract { src, dest } => {
                let s = src.get_value(cpu, size)?;
                let d = dest.get_value(cpu, size)?;
                dest.set_value(cpu, d.wrapping_sub(s))
            },
            Instruction::MultiplyUnsigned { src, dest } => {
                let s = src.get_value(cpu, size)?;
                let d = dest.get_value(cpu, size)?;
                dest.set_value(cpu, s.wrapping_mul(d))
            },
            Instruction::Move { src, dest } => {
                let s = src.get_value(cpu, size)?;
                dest.set_value(cpu, s)
            },
            Instruction::ExclusiveOr { src, dest } => {
                let s = src.get_value(cpu, size)?;
                let d = dest.get_value(cpu, size)?;
                dest.set_value(cpu, s.xor(d))
            },
            Instruction::InclusiveOr { src, dest } => {
                let s = src.get_value(cpu, size)?;
                let d = dest.get_value(cpu, size)?;
                dest.set_value(cpu, s.or(d))
            },
            Instruction::And { src, dest } => {
                let s = src.get_value(cpu, size)?;
                let d = dest.get_value(cpu, size)?;
                dest.set_value(cpu, s.and(d))
            },
            Instruction::RotateLeft { to_rotate, rotate_amount } => {
                let x = to_rotate.get_value(cpu, size)?;
                let n = rotate_amount.get_value(cpu, size)?;
                to_rotate.set_value(cpu, x.rotate_left(n))
            },
            Instruction::JumpTo { address } => {
                let target = match address {
                    AddressMode::Immediate { .. } | AddressMode::RegisterDirect { .. } => {
                        address.get_value(cpu, OperandSize::Long)?.to_u32()
                    },
                    _ => address.effective_address(cpu, OperandSize::Long)?,
                };
                cpu.registers.set(Register::ProgramCounter, target);
                Ok(())
            },
            Instruction::BoundsCheck { bound, value } => {
                let v = value.get_value(cpu, size)?;
                let b = bound.get_value(cpu, size)?;
                let raw = v.to_u32();
                if raw >= 0x8000_0000 || raw > b.to_u32() {
                    Err(EmulationError::BoundsExceeded(v))
                } else {
                    Ok(())
                }
            },
            Instruction::NoOp => Ok(()),
        }
    }
}

/// Executing a no-op changes neither registers nor memory.
pub proof fn lemma_no_op_changes_nothing(regs: Registers, mem: Seq<u8>, size: OperandSize)
    ensures
        Instruction::NoOp.execute_effect(regs, mem, size) == (
            Ok::<(), EmulationError>(()),
            regs,
            mem,
        ),
{
    reveal(Instruction::execute_effect);
}

/// Jumping to an immediate address sets the program counter to it.
pub proof fn lemma_jump_sets_program_counter(
    target: u32,
    regs: Registers,
    mem: Seq<u8>,
    size: OperandSize,
)
    ensures
        (Instruction::JumpTo { address: AddressMode::Immediate { value: target } }).execute_effect(
            regs,
            mem,
            size,
        ) == (
            Ok::<(), EmulationError>(()),
            regs.spec_set(Register::ProgramCounter, target),
            mem,
        ),
{
    let address = AddressMode::Immediate { value: target };
    vstd::arithmetic::div_mod::lemma_small_mod(target as nat, 0x1_0000_0000);
    assert(integer_of(OperandSize::Long, target as int) == M68kInteger::Long(target));
    assert(address.read_effect(regs, mem, OperandSize::Long) == (
        Ok::<M68kInteger, EmulationError>(M68kInteger::Long(target)),
        regs,
    ));
    reveal(Instruction::execute_effect);
}

/// Addition, subtraction and multiplication wrap: for operands `a` (source)
/// and `b` (destination) of one size, the result is `a + b`, `b - a` or
/// `a * b` modulo 2^(8 * size in bytes).
pub proof fn lemma_arithmetic_wraps(
    src: AddressMode,
    dest: AddressMode,
    a: M68kInteger,
    b: M68kInteger,
)
    requires
        a.spec_size() == b.spec_size(),
    ensures
        a.spec_size().modulus() == vstd::arithmetic::power2::pow2(
            8 * a.spec_size().spec_size_in_bytes() as nat,
        ),
        combine(Instruction::Add { src, dest }, a, b).spec_size() == a.spec_size(),
        combine(Instruction::Add { src, dest }, a, b).value() == (a.value() + b.value())
            % a.spec_size().modulus() as int,
        combine(Instruction::Subtract { src, dest }, a, b).spec_size() == a.spec_size(),
        combine(Instruction::Subtract { src, dest }, a, b).value() == (b.value() - a.value())
            % a.spec_size().modulus() as int,
        combine(Instruction::MultiplyUnsigned { src, dest }, a, b).spec_size() == a.spec_size(),
        combine(Instruction::MultiplyUnsigned { src, dest }, a, b).value() == (a.value()
            * b.value()) % a.spec_size().modulus() as int,
{
    vstd::arithmetic::power2::lemma2_to64();
    let m = a.spec_size().modulus() as int;
    vstd::arithmetic::div_mod::lemma_mod_add_multiples_vanish(b.value() - a.value(), m);
}

} // verus!
