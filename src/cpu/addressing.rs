//! The 68000's effective-address modes.
//!
//! A mode names an operand: a register, a constant, or a place in memory
//! found from registers, displacements and, for the memory-indirect modes, a
//! pointer read from memory. Reading and writing through a mode take an
//! explicit operand size; the mode itself is size-free.
//!
//! All address arithmetic is 32-bit and wraps around. 16-bit displacements
//! are sign-extended, and an index register is scaled by the operand size in
//! bytes.
use crate::cpu::registers::{group_registers, AddressRegister, Register, Registers};
use crate::cpu::CPU;
use crate::ram::{read_value, write_value, Memory};
use crate::{integer_of, EmulationError, M68kInteger, OperandSize};
use vstd::prelude::*;

verus! {

broadcast use group_registers;

/// Index register scaling: the only legal factors are 1, 2 and 4.
#[derive(Debug, Copy, Clone, PartialEq, Eq, Structural)]
pub enum IndexScale {
    One,
    Two,
    Four,
}

impl IndexScale {
    pub open spec fn spec_factor(&self) -> u32 {
        match self {
            IndexScale::One => 1,
            IndexScale::Two => 2,
            IndexScale::Four => 4,
        }
    }

    /// The factor an index register is multiplied by.
    #[verifier::when_used_as_spec(spec_factor)]
    pub fn factor(&self) -> (r: u32)
        ensures
            r == self.spec_factor(),
    {
        match self {
            IndexScale::One => 1,
            IndexScale::Two => 2,
            IndexScale::Four => 4,
        }
    }
}

impl From<OperandSize> for IndexScale {
    fn from(size: OperandSize) -> (r: Self)
        ensures
            r.spec_factor() == size.spec_size_in_bytes(),
    {
        match size {
            OperandSize::Byte => IndexScale::One,
            OperandSize::Word => IndexScale::Two,
            OperandSize::Long => IndexScale::Four,
        }
    }
}

impl vstd::std_specs::convert::FromSpecImpl<OperandSize> for IndexScale {
    open spec fn obeys_from_spec() -> bool {
        true
    }

    open spec fn from_spec(size: OperandSize) -> Self {
        match size {
            OperandSize::Byte => IndexScale::One,
            OperandSize::Word => IndexScale::Two,
            OperandSize::Long => IndexScale::Four,
        }
    }
}

#[derive(Debug, Clone, Copy, PartialEq, Eq, Structural)]
pub enum AddressMode {
    // Register-based addressing
    RegisterDirect { register: Register },
    RegisterIndirect { register: AddressRegister },
    RegisterIndirectPostIncrement { register: AddressRegister },
    RegisterIndirectPreDecrement { register: AddressRegister },
    RegisterIndirectWithDisplacement { register: AddressRegister, displacement: u16 },
    RegisterIndirectIndexed {
        displacement: u16,
        address_register: AddressRegister,
        index_register: Register,
    },
    // Memory-based addressing
    MemoryPostIndexed {
        base_displacement: u16,
        outer_displacement: u16,
        address_register: AddressRegister,
        index_register: Register,
    },
    MemoryPreIndexed {
        base_displacement: u16,
        outer_displacement: u16,
        address_register: AddressRegister,
        index_register: Register,
    },
    // Program counter-based addressing
    ProgramCounterIndirectWithDisplacement { displacement: u16 },
    ProgramCounterIndirectIndexed { displacement: u16, index_register: Register },
    ProgramCounterMemoryIndirectPreIndexed {
        base_displacement: u16,
        outer_displacement: u16,
        index_register: Register,
    },
    ProgramCounterMemoryIndirectPostIndexed {
        base_displacement: u16,
        outer_displacement: u16,
        index_register: Register,
    },
    // Absolute addressing
    Absolute { address: u32 },
    // Immediate addressing
    Immediate { value: u32 },
}

/// The reason given when an immediate operand is written to.
pub const READ_ONLY_REASON: &'static str = "can't write to constant value";

/// `x` modulo 2^32.
pub open spec fn wrap(x: int) -> u32 {
    (x % 0x1_0000_0000) as u32
}

/// A 16-bit displacement sign-extended to 32 bits.
pub open spec fn sign_extend_word(d: u16) -> u32 {
    if d < 0x8000 {
        d as u32
    } else {
        (d as int + 0xFFFF_0000) as u32
    }
}

/// How far post-increment and pre-decrement move `register` at `size`: the
/// operand size in bytes, but 2 for a byte through the stack pointer, which
/// stays word-aligned.
pub open spec fn increment(register: AddressRegister, size: OperandSize) -> u32 {
    if register == AddressRegister::A7 && size == OperandSize::Byte {
        2
    } else {
        size.spec_size_in_bytes()
    }
}

/// An index register's contents scaled by the operand size.
pub open spec fn scaled_index(regs: Registers, index_register: Register, size: OperandSize) -> int {
    regs.spec_get(index_register) as int * size.spec_size_in_bytes() as int
}

/// The operand address of a memory-indirect mode that indexes after the
/// indirection: the long at `base + bd`, plus the scaled index, plus `od`.
pub open spec fn post_indexed_address(
    regs: Registers,
    mem: Seq<u8>,
    base: u32,
    index_register: Register,
    base_displacement: u16,
    outer_displacement: u16,
    size: OperandSize,
) -> Result<u32, EmulationError> {
    match read_value(mem, wrap(base + sign_extend_word(base_displacement)), OperandSize::Long) {
        Ok(t) => Ok(
            wrap(
                t.value() + scaled_index(regs, index_register, size) + sign_extend_word(
                    outer_displacement,
                ),
            ),
        ),
        Err(e) => Err(e),
    }
}

/// The operand address of a memory-indirect mode that indexes before the
/// indirection: the long at `base + bd + scaled index`, plus `od`.
pub open spec fn pre_indexed_address(
    regs: Registers,
    mem: Seq<u8>,
    base: u32,
    index_register: Register,
    base_displacement: u16,
    outer_displacement: u16,
    size: OperandSize,
) -> Result<u32, EmulationError> {
    match read_value(
        mem,
        wrap(base + sign_extend_word(base_displacement) + scaled_index(regs, index_register, size)),
        OperandSize::Long,
    ) {
        Ok(t) => Ok(wrap(t.value() + sign_extend_word(outer_displacement))),
        Err(e) => Err(e),
    }
}

impl AddressMode {
    /// Whether the operand lives in memory (every mode but register direct and immediate).
    pub open spec fn is_memory_operand(&self) -> bool {
        !(self is RegisterDirect) && !(self is Immediate)
    }

    /// The address of a memory operand, before any register side effect.
    /// Pre-decrement gives the decremented address.
    pub open spec fn operand_address(
        &self,
        regs: Registers,
        mem: Seq<u8>,
        size: OperandSize,
    ) -> Result<u32, EmulationError> {
        let pc = regs.spec_get(Register::ProgramCounter);
        match *self {
            AddressMode::RegisterIndirect { register } => Ok(
                regs.spec_get(Register::Address(register)),
            ),
            AddressMode::RegisterIndirectPostIncrement { register } => Ok(
                regs.spec_get(Register::Address(register)),
            ),
            AddressMode::RegisterIndirectPreDecrement { register } => Ok(
                wrap(regs.spec_get(Register::Address(register)) - increment(register, size)),
            ),
            AddressMode::RegisterIndirectWithDisplacement { register, displacement } => Ok(
                wrap(regs.spec_get(Register::Address(register)) + sign_extend_word(displacement)),
            ),
            AddressMode::RegisterIndirectIndexed {
                displacement,
                address_register,
                index_register,
            } => Ok(
                wrap(
                    regs.spec_get(Register::Address(address_register)) + sign_extend_word(
                        displacement,
                    ) + scaled_index(regs, index_register, size),
                ),
            ),
            AddressMode::MemoryPostIndexed {
                base_displacement,
                outer_displacement,
                address_register,
                index_register,
            } => post_indexed_address(
                regs,
                mem,
                regs.spec_get(Register::Address(address_register)),
                index_register,
                base_displacement,
                outer_displacement,
                size,
            ),
            AddressMode::MemoryPreIndexed {
                base_displacement,
                outer_displacement,
                address_register,
                index_register,
            } => pre_indexed_address(
                regs,
                mem,
                regs.spec_get(Register::Address(address_register)),
                index_register,
                base_displacement,
                outer_displacement,
                size,
            ),
            AddressMode::ProgramCounterIndirectWithDisplacement { displacement } => Ok(
                wrap(pc + sign_extend_word(displacement)),
            ),
            AddressMode::ProgramCounterIndirectIndexed { displacement, index_register } => Ok(
                wrap(
                    pc + sign_extend_word(displacement) + scaled_index(regs, index_register, size),
                ),
            ),
            AddressMode::ProgramCounterMemoryIndirectPreIndexed {
                base_displacement,
                outer_displacement,
                index_register,
            } => pre_indexed_address(
                regs,
                mem,
                pc,
                index_register,
                base_displacement,
                outer_displacement,
                size,
            ),
            AddressMode::ProgramCounterMemoryIndirectPostIndexed {
                base_displacement,
                outer_displacement,
                index_register,
            } => post_indexed_address(
                regs,
                mem,
                pc,
                index_register,
                base_displacement,
                outer_displacement,
                size,
            ),
            AddressMode::Absolute { address } => Ok(address),
            AddressMode::RegisterDirect { .. } => Ok(0),
            AddressMode::Immediate { .. } => Ok(0),
        }
    }

    /// The registers once the operand at `address` has been reached: a
    /// pre-decremented register holds `address`.
    pub open spec fn before_access(&self, regs: Registers, address: u32) -> Registers {
        match *self {
            AddressMode::RegisterIndirectPreDecrement { register } => regs.spec_set(
                Register::Address(register),
                address,
            ),
            _ => regs,
        }
    }

    /// The registers once the operand at `address` has been accessed: a
    /// post-incremented register has moved past it.
    pub open spec fn after_access(
        &self,
        regs: Registers,
        address: u32,
        size: OperandSize,
    ) -> Registers {
        match *self {
            AddressMode::RegisterIndirectPostIncrement { register } => regs.spec_set(
                Register::Address(register),
                wrap(address + increment(register, size)),
            ),
            _ => self.before_access(regs, address),
        }
    }

    /// Reading the operand at `size`: the value or error, and the registers afterwards.
    /// Memory is never changed by a read.
    pub open spec fn read_effect(&self, regs: Registers, mem: Seq<u8>, size: OperandSize) -> (
        Result<M68kInteger, EmulationError>,
        Registers,
    ) {
        match *self {
            AddressMode::Immediate { value } => (Ok(integer_of(size, value as int)), regs),
            AddressMode::RegisterDirect { register } => (
                Ok(integer_of(size, regs.spec_get(register) as int)),
                regs,
            ),
            _ => match self.operand_address(regs, mem, size) {
                Err(e) => (Err(e), regs),
                Ok(a) => match read_value(mem, a, size) {
                    Err(e) => (Err(e), self.before_access(regs, a)),
                    Ok(v) => (Ok(v), self.after_access(regs, a, size)),
                },
            },
        }
    }

    /// Writing `value`: the outcome, the registers afterwards and the memory afterwards.
    pub open spec fn write_effect(&self, regs: Registers, mem: Seq<u8>, value: M68kInteger) -> (
        Result<(), EmulationError>,
        Registers,
        Seq<u8>,
    ) {
        let size = value.spec_size();
        match *self {
            AddressMode::Immediate { .. } => (
                Err(EmulationError::WriteToReadOnly(READ_ONLY_REASON)),
                regs,
                mem,
            ),
            AddressMode::RegisterDirect { register } => (
                Ok(()),
                regs.spec_set(register, register_write(register, regs.spec_get(register), value)),
                mem,
            ),
            _ => match self.operand_address(regs, mem, size) {
                Err(e) => (Err(e), regs, mem),
                Ok(a) => match write_value(mem, a, value) {
                    Err(e) => (Err(e), self.before_access(regs, a), mem),
                    Ok(m) => (Ok(()), self.after_access(regs, a, size), m),
                },
            },
        }
    }
}

/// The 32 bits a register holds after `value` is written to it over `old`:
/// a byte or word written to a data register replaces only the low bits;
/// any other write stores the value zero-extended.
pub open spec fn register_write(register: Register, old: u32, value: M68kInteger) -> u32 {
    match (register, value) {
        (Register::Data(_), M68kInteger::Byte(b)) => (old - old % 0x100 + b) as u32,
        (Register::Data(_), M68kInteger::Word(w)) => (old - old % 0x1_0000 + w) as u32,
        _ => value.value(),
    }
}

/// `x + y` wrapped to 32 bits.
fn add_wrapping(x: u32, y: u32) -> (r: u32)
    ensures
        r == wrap(x + y),
{
    x.wrapping_add(y)
}

/// `x - y` wrapped to 32 bits.
fn sub_wrapping(x: u32, y: u32) -> (r: u32)
    ensures
        r == wrap(x - y),
{
    x.wrapping_sub(y)
}

/// Wrapping twice is wrapping once.
proof fn lemma_wrap_add(x: int, y: int)
    ensures
        wrap(wrap(x) + y) == wrap(x + y),
        wrap(y + wrap(x)) == wrap(y + x),
{
    vstd::arithmetic::div_mod::lemma_add_mod_noop_right(y, x, 0x1_0000_0000);
}

/// Sign-extends a 16-bit displacement.
fn sign_extend(d: u16) -> (r: u32)
    ensures
        r == sign_extend_word(d),
{
    if d < 0x8000 {
        d as u32
    } else {
        d as u32 + 0xFFFF_0000
    }
}

/// Gets the increment for a given register and access size.
fn get_increment(register: AddressRegister, size: OperandSize) -> (r: u32)
    ensures
        r == increment(register, size),
{
    let minimum: u32 = match register {
        AddressRegister::A7 => 2,
        _ => 1,
    };
    let increment = size.size_in_bytes();
    if increment < minimum {
        minimum
    } else {
        increment
    }
}

/// The value of `index_register` scaled by `size`, wrapped to 32 bits.
fn scaled_index_value(registers: &Registers, index_register: Register, size: OperandSize) -> (r:
    u32)
    ensures
        r == wrap(scaled_index(*registers, index_register, size)),
{
    let scale = IndexScale::from(size);
    registers.get(index_register).wrapping_mul(scale.factor())
}

/// `base + d + index * size`, wrapped.
fn indexed_address(
    registers: &Registers,
    base: u32,
    displacement: u16,
    index_register: Register,
    size: OperandSize,
) -> (r: u32)
    ensures
        r == wrap(base + sign_extend_word(displacement) + scaled_index(
            *registers,
            index_register,
            size,
        )),
{
    let with_displacement = add_wrapping(base, sign_extend(displacement));
    let index = scaled_index_value(registers, index_register, size);
    proof {
        let s = scaled_index(*registers, index_register, size);
        lemma_wrap_add(base + sign_extend_word(displacement), wrap(s) as int);
        lemma_wrap_add(s, base + sign_extend_word(displacement));
    }
    add_wrapping(with_displacement, index)
}

/// The operand address for memory indirection with post-indexing.
fn address_ram_post_indexed<M: Memory>(
    cpu: &CPU<M>,
    base: u32,
    index_register: Register,
    base_displacement: u16,
    outer_displacement: u16,
    size: OperandSize,
) -> (r: Result<u32, EmulationError>)
    ensures
        r == post_indexed_address(
            cpu.registers,
            cpu.memory.bytes(),
            base,
            index_register,
            base_displacement,
            outer_displacement,
            size,
        ),
{
    let intermediate_address = add_wrapping(base, sign_extend(base_displacement));
    let intermediate_value = cpu.memory.read_long(intermediate_address)?;
    let index = scaled_index_value(&cpu.registers, index_register, size);
    let with_index = add_wrapping(intermediate_value, index);
    proof {
        let s = scaled_index(cpu.registers, index_register, size);
        lemma_wrap_add(s, intermediate_value as int);
        lemma_wrap_add(intermediate_value + s, sign_extend_word(outer_displacement) as int);
    }
    Ok(add_wrapping(with_index, sign_extend(outer_displacement)))
}

/// The operand address for memory indirection with pre-indexing.
fn address_ram_pre_indexed<M: Memory>(
    cpu: &CPU<M>,
    base: u32,
    index_register: Register,
    base_displacement: u16,
    outer_displacement: u16,
    size: OperandSize,
) -> (r: Result<u32, EmulationError>)
    ensures
        r == pre_indexed_address(
            cpu.registers,
            cpu.memory.bytes(),
            base,
            index_register,
            base_displacement,
            outer_displacement,
            size,
        ),
{
    let intermediate_address = indexed_address(
        &cpu.registers,
        base,
        base_displacement,
        index_register,
        size,
    );
    let intermediate_value = cpu.memory.read_long(intermediate_address)?;
    Ok(add_wrapping(intermediate_value, sign_extend(outer_displacement)))
}

impl AddressMode {
    /// The address of this memory operand at `size`, with no side effect on
    /// the registers.
    #[verifier::spinoff_prover]
    pub fn effective_address<M: Memory>(&self, cpu: &CPU<M>, size: OperandSize) -> (r: Result<
        u32,
        EmulationError,
    >)
        requires
            self.is_memory_operand(),
        ensures
            r == self.operand_address(cpu.registers, cpu.memory.bytes(), size),
    {
        let registers = &cpu.registers;
        match *self {
            AddressMode::RegisterIndirect { register } => Ok(
                registers.get_address_register(register),
            ),
            AddressMode::RegisterIndirectPostIncrement { register } => Ok(
                registers.get_address_register(register),
            ),
            AddressMode::RegisterIndirectPreDecrement { register } => {
                Ok(sub_wrapping(registers.get_address_register(register), get_increment(register, size)))
            },
            AddressMode::RegisterIndirectWithDisplacement { register, displacement } => Ok(
                add_wrapping(registers.get_address_register(register), sign_extend(displacement)),
            ),
            AddressMode::RegisterIndirectIndexed {
                displacement,
                address_register,
                index_register,
            } => Ok(
                indexed_address(
                    registers,
                    registers.get_address_register(address_register),
                    displacement,
                    index_register,
                    size,
                ),
            ),
            AddressMode::MemoryPostIndexed {
                base_displacement,
                outer_displacement,
                address_register,
                index_register,
            } => address_ram_post_indexed(
                cpu,
                registers.get_address_register(address_register),
                index_register,
                base_displacement,
                outer_displacement,
                size,
            ),
            AddressMode::MemoryPreIndexed {
                base_displacement,
                outer_displacement,
                address_register,
                index_register,
            } => address_ram_pre_indexed(
                cpu,
                registers.get_address_register(address_register),
                index_register,
                base_displacement,
                outer_displacement,
                size,
            ),
            AddressMode::ProgramCounterIndirectWithDisplacement { displacement } => Ok(
                add_wrapping(registers.get(Register::ProgramCounter), sign_extend(displacement)),
            ),
            AddressMode::ProgramCounterIndirectIndexed { displacement, index_register } => Ok(
                indexed_address(
                    registers,
                    registers.get(Register::ProgramCounter),
                    displacement,
                    index_register,
                    size,
                ),
            ),
            AddressMode::ProgramCounterMemoryIndirectPreIndexed {
                base_displacement,
                outer_displacement,
                index_register,
            } => address_ram_pre_indexed(
                cpu,
                registers.get(Register::ProgramCounter),
                index_register,
                base_displacement,
                outer_displacement,
                size,
            ),
            AddressMode::ProgramCounterMemoryIndirectPostIndexed {
                base_displacement,
                outer_displacement,
                index_register,
            } => address_ram_post_indexed(
                cpu,
                registers.get(Register::ProgramCounter),
                index_register,
                base_displacement,
                outer_displacement,
                size,
            ),
            AddressMode::Absolute { address } => Ok(address),
            AddressMode::RegisterDirect { .. } => Ok(0),
            AddressMode::Immediate { .. } => Ok(0),
        }
    }

    /// Gets the value referenced by this mode, as an integer of the given size.
    pub fn get_value<M: Memory>(&self, cpu: &mut CPU<M>, size: OperandSize) -> (r: Result<
        M68kInteger,
        EmulationError,
    >)
        ensures
            (r, final(cpu).registers) == self.read_effect(
                old(cpu).registers,
                old(cpu).memory.bytes(),
                size,
            ),
            final(cpu).memory == old(cpu).memory,
            r matches Ok(v) ==> v.spec_size() == size,
    {
        match *self {
            AddressMode::Immediate { value } => Ok(truncate(size, value)),
            AddressMode::RegisterDirect { register } => Ok(
                truncate(size, cpu.registers.get(register)),
            ),
            _ => {
                let address = self.effective_address(cpu, size)?;
                if let AddressMode::RegisterIndirectPreDecrement { register } = *self {
                    cpu.registers.set_address_register(register, address);
                }
                let value = cpu.memory.read(address, size)?;
                if let AddressMode::RegisterIndirectPostIncrement { register } = *self {
                    cpu.registers.set_address_register(
                        register,
                        add_wrapping(address, get_increment(register, size)),
                    );
                }
                Ok(value)
            },
        }
    }

    /// Sets the register or memory referenced by this mode to `new_value`,
    /// at the size of `new_value`.
    pub fn set_value<M: Memory>(&self, cpu: &mut CPU<M>, new_value: M68kInteger) -> (r: Result<
        (),
        EmulationError,
    >)
        ensures
            (r, final(cpu).registers, final(cpu).memory.bytes()) == self.write_effect(
                old(cpu).registers,
                old(cpu).memory.bytes(),
                new_value,
            ),
    {
        let size = new_value.size();
        match *self {
            AddressMode::Immediate { .. } => Err(EmulationError::WriteToReadOnly(READ_ONLY_REASON)),
            AddressMode::RegisterDirect { register } => {
                let current = cpu.registers.get(register);
                cpu.registers.set(register, merge_register(register, current, new_value));
                Ok(())
            },
            _ => {
                let address = self.effective_address(cpu, size)?;
                if let AddressMode::RegisterIndirectPreDecrement { register } = *self {
                    cpu.registers.set_address_register(register, address);
                }
                cpu.memory.write(address, new_value)?;
                if let AddressMode::RegisterIndirectPostIncrement { register } = *self {
                    cpu.registers.set_address_register(
                        register,
                        add_wrapping(address, get_increment(register, size)),
                    );
                }
                Ok(())
            },
        }
    }
}

/// `x` reduced to an integer of the given size.
fn truncate(size: OperandSize, x: u32) -> (r: M68kInteger)
    ensures
        r == integer_of(size, x as int),
{
    match size {
        OperandSize::Byte => M68kInteger::Byte((x % 0x100) as u8),
        OperandSize::Word => M68kInteger::Word((x % 0x1_0000) as u16),
        OperandSize::Long => M68kInteger::Long(x),
    }
}

/// The 32 bits `register` holds once `value` is written over `old`.
fn merge_register(register: Register, old: u32, value: M68kInteger) -> (r: u32)
    ensures
        r == register_write(register, old, value),
{
    match (register, value) {
        (Register::Data(_), M68kInteger::Byte(b)) => old - old % 0x100 + b as u32,
        (Register::Data(_), M68kInteger::Word(w)) => old - old % 0x1_0000 + w as u32,
        _ => value.to_u32(),
    }
}

/// Writing `x` to a register and reading the register back at the size of
/// `x` gives `x`.
pub proof fn lemma_register_direct_round_trip(
    register: Register,
    regs: Registers,
    mem: Seq<u8>,
    x: M68kInteger,
)
    ensures
        ({
            let mode = AddressMode::RegisterDirect { register };
            let (w, regs1, mem1) = mode.write_effect(regs, mem, x);
            w is Ok && mode.read_effect(regs1, mem1, x.spec_size()).0 == Ok::<
                M68kInteger,
                EmulationError,
            >(x)
        }),
{
    let mode = AddressMode::RegisterDirect { register };
    let stored = register_write(register, regs.spec_get(register), x);
    let regs1 = regs.spec_set(register, stored);
    assert(mode.write_effect(regs, mem, x) == (Ok::<(), EmulationError>(()), regs1, mem));
    assert(regs1.spec_get(register) == stored);
    lemma_register_write_keeps_value(register, regs.spec_get(register), x);
}

/// The value written to a register is what the register holds at the value's size.
proof fn lemma_register_write_keeps_value(register: Register, old: u32, x: M68kInteger)
    ensures
        integer_of(x.spec_size(), register_write(register, old, x) as int) == x,
{
    match x {
        M68kInteger::Byte(b) => {
            lemma_replace_low(old as int, b as int, 0x100);
        },
        M68kInteger::Word(w) => {
            lemma_replace_low(old as int, w as int, 0x1_0000);
        },
        M68kInteger::Long(_) => {},
    }
}

/// Replacing the low bits of `old` below `m` with `b` keeps `b` as the low
/// bits and stays within 32 bits.
proof fn lemma_replace_low(old: int, b: int, m: int)
    requires
        0 <= old < 0x1_0000_0000,
        m == 0x100 || m == 0x1_0000,
        0 <= b < m,
    ensures
        (old - old % m + b) % m == b,
        0 <= old - old % m + b < 0x1_0000_0000,
{
    let q = old / m;
    vstd::arithmetic::div_mod::lemma_fundamental_div_mod(old, m);
    assert(old - old % m == m * q);
    vstd::arithmetic::div_mod::lemma_mod_multiples_vanish(q, b, m);
    vstd::arithmetic::div_mod::lemma_small_mod(b as nat, m as nat);
    assert(q <= 0xFFFF_FFFFint / m) by {
        vstd::arithmetic::div_mod::lemma_div_is_ordered(old, 0xFFFF_FFFF, m);
    }
    assert(m * q + b < 0x1_0000_0000) by (nonlinear_arith)
        requires
            q <= 0xFFFF_FFFFint / m,
            m == 0x100 || m == 0x1_0000,
            b < m,
            0 <= q,
    ;
}

/// Post-increment moves its register past the operand after a successful
/// access: by the operand size in bytes, or by 2 for a byte through the stack
/// pointer.
pub proof fn lemma_post_increment_step(
    register: AddressRegister,
    regs: Registers,
    mem: Seq<u8>,
    size: OperandSize,
    value: M68kInteger,
)
    ensures
        ({
            let mode = AddressMode::RegisterIndirectPostIncrement { register };
            let an = regs.spec_get(Register::Address(register));
            let step: int = if register == AddressRegister::A7 && size == OperandSize::Byte {
                2
            } else {
                size.spec_size_in_bytes() as int
            };
            let (r, regs1) = mode.read_effect(regs, mem, size);
            r is Ok ==> regs1.spec_get(Register::Address(register)) == wrap(an + step)
        }),
        ({
            let mode = AddressMode::RegisterIndirectPostIncrement { register };
            let an = regs.spec_get(Register::Address(register));
            let step: int = if register == AddressRegister::A7 && value.spec_size()
                == OperandSize::Byte {
                2
            } else {
                value.spec_size().spec_size_in_bytes() as int
            };
            let (w, regs1, _) = mode.write_effect(regs, mem, value);
            w is Ok ==> regs1.spec_get(Register::Address(register)) == wrap(an + step)
        }),
{
}

/// Pre-decrement moves its register back before the access, by the operand
/// size in bytes, or by 2 for a byte through the stack pointer; the access is
/// made at the new address.
pub proof fn lemma_pre_decrement_step(
    register: AddressRegister,
    regs: Registers,
    mem: Seq<u8>,
    size: OperandSize,
    value: M68kInteger,
)
    ensures
        ({
            let mode = AddressMode::RegisterIndirectPreDecrement { register };
            let an = regs.spec_get(Register::Address(register));
            let step: int = if register == AddressRegister::A7 && size == OperandSize::Byte {
                2
            } else {
                size.spec_size_in_bytes() as int
            };
            let (r, regs1) = mode.read_effect(regs, mem, size);
            &&& regs1.spec_get(Register::Address(register)) == wrap(an - step)
            &&& r == read_value(mem, wrap(an - step), size)
        }),
        ({
            let mode = AddressMode::RegisterIndirectPreDecrement { register };
            let an = regs.spec_get(Register::Address(register));
            let step: int = if register == AddressRegister::A7 && value.spec_size()
                == OperandSize::Byte {
                2
            } else {
                value.spec_size().spec_size_in_bytes() as int
            };
            let (w, regs1, mem1) = mode.write_effect(regs, mem, value);
            &&& regs1.spec_get(Register::Address(register)) == wrap(an - step)
            &&& write_value(mem, wrap(an - step), value) matches Ok(m) ==> w is Ok && mem1 == m
        }),
{
}

/// Memory post-indexed: with `T` the long at `An + bd`, the operand is at
/// `T + Xi * size + od`.
pub proof fn lemma_memory_post_indexed_address(
    address_register: AddressRegister,
    index_register: Register,
    base_displacement: u16,
    outer_displacement: u16,
    regs: Registers,
    mem: Seq<u8>,
    size: OperandSize,
    t: u32,
)
    requires
        read_value(
            mem,
            wrap(
                regs.spec_get(Register::Address(address_register)) + sign_extend_word(
                    base_displacement,
                ),
            ),
            OperandSize::Long,
        ) == Ok::<M68kInteger, EmulationError>(M68kInteger::Long(t)),
    ensures
        ({
            let mode = AddressMode::MemoryPostIndexed {
                base_displacement,
                outer_displacement,
                address_register,
                index_register,
            };
            let a = wrap(
                t + regs.spec_get(index_register) * size.spec_size_in_bytes() + sign_extend_word(
                    outer_displacement,
                ),
            );
            &&& mode.operand_address(regs, mem, size) == Ok::<u32, EmulationError>(a)
            &&& mode.read_effect(regs, mem, size) == (read_value(mem, a, size), regs)
        }),
{
}

/// Memory pre-indexed: the operand is at the long found at
/// `An + bd + Xi * size`, plus `od`.
pub proof fn lemma_memory_pre_indexed_address(
    address_register: AddressRegister,
    index_register: Register,
    base_displacement: u16,
    outer_displacement: u16,
    regs: Registers,
    mem: Seq<u8>,
    size: OperandSize,
    t: u32,
)
    requires
        read_value(
            mem,
            wrap(
                regs.spec_get(Register::Address(address_register)) + sign_extend_word(
                    base_displacement,
                ) + regs.spec_get(index_register) * size.spec_size_in_bytes(),
            ),
            OperandSize::Long,
        ) == Ok::<M68kInteger, EmulationError>(M68kInteger::Long(t)),
    ensures
        ({
            let mode = AddressMode::MemoryPreIndexed {
                base_displacement,
                outer_displacement,
                address_register,
                index_register,
            };
            let a = wrap(t + sign_extend_word(outer_displacement));
            &&& mode.operand_address(regs, mem, size) == Ok::<u32, EmulationError>(a)
            &&& mode.read_effect(regs, mem, size) == (read_value(mem, a, size), regs)
        }),
{
}

/// Writing a value through a mode and reading it back through the same mode
/// gives the value, for every mode but immediate, post-increment and
/// pre-decrement, provided the write did not change where the mode points
/// (a memory-indirect mode whose pointer the write overwrote).
pub proof fn lemma_write_read_round_trip(
    mode: AddressMode,
    regs: Registers,
    mem: Seq<u8>,
    value: M68kInteger,
)
    requires
        !(mode is Immediate),
        !(mode is RegisterIndirectPostIncrement),
        !(mode is RegisterIndirectPreDecrement),
        mode.write_effect(regs, mem, value).0 is Ok,
        mode.operand_address(regs, mode.write_effect(regs, mem, value).2, value.spec_size())
            == mode.operand_address(regs, mem, value.spec_size()),
    ensures
        ({
            let (_, regs1, mem1) = mode.write_effect(regs, mem, value);
            mode.read_effect(regs1, mem1, value.spec_size()).0 == Ok::<
                M68kInteger,
                EmulationError,
            >(value)
        }),
{
    if let AddressMode::RegisterDirect { register } = mode {
        lemma_register_direct_round_trip(register, regs, mem, value);
    } else {
        let a = mode.operand_address(regs, mem, value.spec_size())->Ok_0;
        crate::ram::lemma_write_then_read(mem, a, value);
    }
}

/// Writing through memory post-indexed stores the value at `T + Xi * size + od`,
/// with `T` the long at `An + bd`, and leaves the registers unchanged.
pub proof fn lemma_memory_post_indexed_write(
    address_register: AddressRegister,
    index_register: Register,
    base_displacement: u16,
    outer_displacement: u16,
    regs: Registers,
    mem: Seq<u8>,
    value: M68kInteger,
    t: u32,
)
    requires
        read_value(
            mem,
            wrap(
                regs.spec_get(Register::Address(address_register)) + sign_extend_word(
                    base_displacement,
                ),
            ),
            OperandSize::Long,
        ) == Ok::<M68kInteger, EmulationError>(M68kInteger::Long(t)),
    ensures
        ({
            let mode = AddressMode::MemoryPostIndexed {
                base_displacement,
                outer_displacement,
                address_register,
                index_register,
            };
            let a = wrap(
                t + regs.spec_get(index_register) * value.spec_size().spec_size_in_bytes()
                    + sign_extend_word(outer_displacement),
            );
            mode.write_effect(regs, mem, value) == match write_value(mem, a, value) {
                Ok(m) => (Ok::<(), EmulationError>(()), regs, m),
                Err(e) => (Err::<(), EmulationError>(e), regs, mem),
            }
        }),
{
}

/// Writing through memory pre-indexed stores the value at the long found at
/// `An + bd + Xi * size`, plus `od`, and leaves the registers unchanged.
pub proof fn lemma_memory_pre_indexed_write(
    address_register: AddressRegister,
    index_register: Register,
    base_displacement: u16,
    outer_displacement: u16,
    regs: Registers,
    mem: Seq<u8>,
    value: M68kInteger,
    t: u32,
)
    requires
        read_value(
            mem,
            wrap(
                regs.spec_get(Register::Address(address_register)) + sign_extend_word(
                    base_displacement,
                ) + regs.spec_get(index_register) * value.spec_size().spec_size_in_bytes(),
            ),
            OperandSize::Long,
        ) == Ok::<M68kInteger, EmulationError>(M68kInteger::Long(t)),
    ensures
        ({
            let mode = AddressMode::MemoryPreIndexed {
                base_displacement,
                outer_displacement,
                address_register,
                index_register,
            };
            let a = wrap(t + sign_extend_word(outer_displacement));
            mode.write_effect(regs, mem, value) == match write_value(mem, a, value) {
                Ok(m) => (Ok::<(), EmulationError>(()), regs, m),
                Err(e) => (Err::<(), EmulationError>(e), regs, mem),
            }
        }),
{
}

} // verus!
