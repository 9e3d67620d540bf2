//! CPU emulation: the register file, memory and the fetch-decode-execute cycle.
use crate::parsers::Parser;
use crate::ram::{read_span, Memory};
use crate::EmulationError;
use crate::OperandSize;
use vstd::prelude::*;

pub mod addressing;
pub mod isa_68000;
pub mod registers;

use addressing::{wrap, AddressMode};
use isa_68000::Instruction;
use registers::{group_registers, Register, RegisterValue, Registers};

verus! {

broadcast use group_registers;

/// How many bytes a cycle fetches: enough for any supported instruction.
pub const FETCH_LENGTH: u32 = 8;

/// A 68000: its registers and its memory.
pub struct CPU<M: Memory> {
    pub registers: Registers,
    pub memory: M,
}

/// One cycle after `instruction` (of `size`, `consumed` bytes long) was
/// decoded at the program counter: execute it, then move the program counter
/// past it unless the instruction set the program counter itself.
pub open spec fn cycle_effect(
    instruction: Instruction,
    size: OperandSize,
    consumed: u32,
    regs: Registers,
    mem: Seq<u8>,
) -> (Result<(), EmulationError>, Registers, Seq<u8>) {
    let pc = regs.spec_get(Register::ProgramCounter);
    let (r, regs1, mem1) = instruction.execute_effect(regs, mem, size);
    match r {
        Err(e) => (Err(e), regs1, mem1),
        Ok(_) => if regs1.spec_get(Register::ProgramCounter) == pc {
            (Ok(()), regs1.spec_set(Register::ProgramCounter, wrap(pc + consumed)), mem1)
        } else {
            (Ok(()), regs1, mem1)
        },
    }
}

impl<M: Memory> Default for CPU<M> {
    fn default() -> (r: Self)
        ensures
            forall|register: Register| r.registers.spec_get(register) == 0,
            r.memory.bytes() == Seq::new(1024, |_i: int| 0u8),
    {
        Self::new(1024)
    }
}

impl<M: Memory> CPU<M> {
    /// A CPU with every register zero and `ram_size_in_bytes` bytes of zeroed memory.
    pub fn new(ram_size_in_bytes: usize) -> (r: Self)
        ensures
            forall|register: Register| r.registers.spec_get(register) == 0,
            r.registers.spec_status() == 0,
            r.memory.bytes() == Seq::new(ram_size_in_bytes as nat, |_i: int| 0u8),
    {
        Self { registers: Registers::new(), memory: M::new(ram_size_in_bytes) }
    }

    pub fn set_pc(&mut self, pc: RegisterValue)
        ensures
            final(self).registers == old(self).registers.spec_set(Register::ProgramCounter, pc),
            final(self).memory == old(self).memory,
    {
        self.registers.set(Register::ProgramCounter, pc);
    }

    /// The value an immediate or register-direct operand names.
    pub fn get_address_value(&self, addr: AddressMode) -> (r: u32)
        requires
            addr is Immediate || addr is RegisterDirect,
        ensures
            addr matches AddressMode::Immediate { value } ==> r == value,
            addr matches AddressMode::RegisterDirect { register } ==> r
                == self.registers.spec_get(register),
    {
        match addr {
            AddressMode::Immediate { value } => value,
            AddressMode::RegisterDirect { register } => self.registers.get(register),
            _ => 0,
        }
    }

    /// Executes an instruction decoded at the program counter, then moves the
    /// program counter past its `bytes_taken` bytes unless the instruction
    /// changed the program counter itself.
    pub fn run_decoded(&mut self, instruction: &Instruction, size: OperandSize, bytes_taken: u32) -> (r:
        Result<(), EmulationError>)
        ensures
            (r, final(self).registers, final(self).memory.bytes()) == cycle_effect(
                *instruction,
                size,
                bytes_taken,
                old(self).registers,
                old(self).memory.bytes(),
            ),
    {
        let pc = self.registers.get(Register::ProgramCounter);
        instruction.execute(self, size)?;
        if pc == self.registers.get(Register::ProgramCounter) {
            self.registers.set(Register::ProgramCounter, pc.wrapping_add(bytes_taken));
        }
        Ok(())
    }

    /// Runs one cycle of the CPU: fetch the bytes at the program counter,
    /// decode them with `parser`, and execute the instruction.
    ///
    /// A fetch outside memory fails with nothing changed; a decoding error is
    /// returned with nothing changed; otherwise the cycle is that of some
    /// decoded instruction.
    pub fn run_one_cycle<P: Parser<Vec<u8>>>(&mut self, parser: &mut P) -> (r: Result<
        (),
        EmulationError,
    >)
        ensures
            ({
                let pc = old(self).registers.spec_get(Register::ProgramCounter);
                match read_span(old(self).memory.bytes(), pc, FETCH_LENGTH as nat) {
                    Err(e) => r == Err::<(), EmulationError>(e) && final(self).registers == old(
                        self,
                    ).registers && final(self).memory.bytes() == old(self).memory.bytes(),
                    Ok(_) => (r matches Err(EmulationError::Parsing(_)) && final(self).registers
                        == old(self).registers && final(self).memory.bytes() == old(
                        self,
                    ).memory.bytes()) || exists|i: Instruction, s: OperandSize, n: u32|
                        (r, final(self).registers, final(self).memory.bytes()) == cycle_effect(
                            i,
                            s,
                            n,
                            old(self).registers,
                            old(self).memory.bytes(),
                        ),
                }
            }),
    {
        let pc = self.registers.get(Register::ProgramCounter);
        let binary = self.memory.read_bytes(pc, FETCH_LENGTH)?;
        let (instruction, size, bytes_taken) = match parser.parse(binary) {
            Ok(decoded) => decoded,
            Err(e) => return Err(EmulationError::Parsing(e)),
        };
        self.run_decoded(&instruction, size, bytes_taken)
    }
}

/// A cycle that decodes a jump to an immediate address other than the
/// current program counter leaves the program counter at the target: the
/// instruction's length is not added to it.
pub proof fn lemma_jump_cycle_keeps_target(
    target: u32,
    size: OperandSize,
    consumed: u32,
    regs: Registers,
    mem: Seq<u8>,
)
    requires
        target != regs.spec_get(Register::ProgramCounter),
    ensures
        cycle_effect(
            Instruction::JumpTo { address: AddressMode::Immediate { value: target } },
            size,
            consumed,
            regs,
            mem,
        ) == (Ok::<(), EmulationError>(()), regs.spec_set(Register::ProgramCounter, target), mem),
{
    isa_68000::lemma_jump_sets_program_counter(target, regs, mem, size);
}

} // verus!
