//! Emulation of the 68000's registers.
//!
//! There are eight data registers, eight address registers (A7 is the stack
//! pointer), the program counter and the 16-bit status register.
use crate::{hex_digits, hex_format_long, hex_format_word};
use vstd::prelude::*;

verus! {

pub type RegisterValue = u32;

/// A register that an operand can name. The status register is smaller and
/// has its own methods.
#[derive(Debug, Clone, Copy, PartialEq, Eq, Structural)]
pub enum Register {
    Data(DataRegister),
    Address(AddressRegister),
    ProgramCounter,
}

#[derive(Debug, Clone, Copy, PartialEq, Eq, Structural)]
pub enum DataRegister {
    D0,
    D1,
    D2,
    D3,
    D4,
    D5,
    D6,
    D7,
}

#[derive(Debug, Clone, Copy, PartialEq, Eq, Structural)]
pub enum AddressRegister {
    A0,
    A1,
    A2,
    A3,
    A4,
    A5,
    A6,
    /// The stack pointer.
    A7,
}

/// The register file.
#[derive(Debug, Clone, Copy, PartialEq, Eq, Structural)]
pub struct Registers {
    d0: RegisterValue,
    d1: RegisterValue,
    d2: RegisterValue,
    d3: RegisterValue,
    d4: RegisterValue,
    d5: RegisterValue,
    d6: RegisterValue,
    d7: RegisterValue,
    a0: RegisterValue,
    a1: RegisterValue,
    a2: RegisterValue,
    a3: RegisterValue,
    a4: RegisterValue,
    a5: RegisterValue,
    a6: RegisterValue,
    a7: RegisterValue,
    /// Program counter.
    pc: RegisterValue,
    /// Status register (high byte: system byte, low byte: condition codes).
    status: u16,
}

impl Registers {
    /// The value held by `register`.
    pub closed spec fn spec_get(&self, register: Register) -> u32 {
        match register {
            Register::Data(DataRegister::D0) => self.d0,
            Register::Data(DataRegister::D1) => self.d1,
            Register::Data(DataRegister::D2) => self.d2,
            Register::Data(DataRegister::D3) => self.d3,
            Register::Data(DataRegister::D4) => self.d4,
            Register::Data(DataRegister::D5) => self.d5,
            Register::Data(DataRegister::D6) => self.d6,
            Register::Data(DataRegister::D7) => self.d7,
            Register::Address(AddressRegister::A0) => self.a0,
            Register::Address(AddressRegister::A1) => self.a1,
            Register::Address(AddressRegister::A2) => self.a2,
            Register::Address(AddressRegister::A3) => self.a3,
            Register::Address(AddressRegister::A4) => self.a4,
            Register::Address(AddressRegister::A5) => self.a5,
            Register::Address(AddressRegister::A6) => self.a6,
            Register::Address(AddressRegister::A7) => self.a7,
            Register::ProgramCounter => self.pc,
        }
    }

    /// The register file with `register` holding `value`, all else unchanged.
    pub closed spec fn spec_set(&self, register: Register, value: u32) -> Registers {
        match register {
            Register::Data(DataRegister::D0) => Registers { d0: value, ..*self },
            Register::Data(DataRegister::D1) => Registers { d1: value, ..*self },
            Register::Data(DataRegister::D2) => Registers { d2: value, ..*self },
            Register::Data(DataRegister::D3) => Registers { d3: value, ..*self },
            Register::Data(DataRegister::D4) => Registers { d4: value, ..*self },
            Register::Data(DataRegister::D5) => Registers { d5: value, ..*self },
            Register::Data(DataRegister::D6) => Registers { d6: value, ..*self },
            Register::Data(DataRegister::D7) => Registers { d7: value, ..*self },
            Register::Address(AddressRegister::A0) => Registers { a0: value, ..*self },
            Register::Address(AddressRegister::A1) => Registers { a1: value, ..*self },
            Register::Address(AddressRegister::A2) => Registers { a2: value, ..*self },
            Register::Address(AddressRegister::A3) => Registers { a3: value, ..*self },
            Register::Address(AddressRegister::A4) => Registers { a4: value, ..*self },
            Register::Address(AddressRegister::A5) => Registers { a5: value, ..*self },
            Register::Address(AddressRegister::A6) => Registers { a6: value, ..*self },
            Register::Address(AddressRegister::A7) => Registers { a7: value, ..*self },
            Register::ProgramCounter => Registers { pc: value, ..*self },
        }
    }

    /// The status register.
    pub closed spec fn spec_status(&self) -> u16 {
        self.status
    }

    /// The register file with the status register holding `value`.
    pub closed spec fn spec_with_status(&self, value: u16) -> Registers {
        Registers { status: value, ..*self }
    }

    /// A register file with every register zero.
    pub fn new() -> (r: Self)
        ensures
            forall|register: Register| r.spec_get(register) == 0,
            r.spec_status() == 0,
    {
        Registers {
            d0: 0,
            d1: 0,
            d2: 0,
            d3: 0,
            d4: 0,
            d5: 0,
            d6: 0,
            d7: 0,
            a0: 0,
            a1: 0,
            a2: 0,
            a3: 0,
            a4: 0,
            a5: 0,
            a6: 0,
            a7: 0,
            pc: 0,
            status: 0,
        }
    }

    /// The full 32 bits of `register`.
    pub fn get(&self, register: Register) -> (r: RegisterValue)
        ensures
            r == self.spec_get(register),
    {
        match register {
            Register::Data(reg) => self.get_data_register(reg),
            Register::Address(reg) => self.get_address_register(reg),
            Register::ProgramCounter => self.pc,
        }
    }

    pub fn get_data_register(&self, register: DataRegister) -> (r: RegisterValue)
        ensures
            r == self.spec_get(Register::Data(register)),
    {
        match register {
            DataRegister::D0 => self.d0,
            DataRegister::D1 => self.d1,
            DataRegister::D2 => self.d2,
            DataRegister::D3 => self.d3,
            DataRegister::D4 => self.d4,
            DataRegister::D5 => self.d5,
            DataRegister::D6 => self.d6,
            DataRegister::D7 => self.d7,
        }
    }

    pub fn get_address_register(&self, register: AddressRegister) -> (r: RegisterValue)
        ensures
            r == self.spec_get(Register::Address(register)),
    {
        match register {
            AddressRegister::A0 => self.a0,
            AddressRegister::A1 => self.a1,
            AddressRegister::A2 => self.a2,
            AddressRegister::A3 => self.a3,
            AddressRegister::A4 => self.a4,
            AddressRegister::A5 => self.a5,
            AddressRegister::A6 => self.a6,
            AddressRegister::A7 => self.a7,
        }
    }

    /// Stores the full 32 bits of `new_value` in `register`.
    pub fn set(&mut self, register: Register, new_value: RegisterValue)
        ensures
            *final(self) == old(self).spec_set(register, new_value),
    {
        match register {
            Register::Data(reg) => self.set_data_register(reg, new_value),
            Register::Address(reg) => self.set_address_register(reg, new_value),
            Register::ProgramCounter => self.pc = new_value,
        }
    }

    pub fn set_address_register(&mut self, register: AddressRegister, new_value: RegisterValue)
        ensures
            *final(self) == old(self).spec_set(Register::Address(register), new_value),
    {
        match register {
            AddressRegister::A0 => self.a0 = new_value,
            AddressRegister::A1 => self.a1 = new_value,
            AddressRegister::A2 => self.a2 = new_value,
            AddressRegister::A3 => self.a3 = new_value,
            AddressRegister::A4 => self.a4 = new_value,
            AddressRegister::A5 => self.a5 = new_value,
            AddressRegister::A6 => self.a6 = new_value,
            AddressRegister::A7 => self.a7 = new_value,
        }
    }

    pub fn set_data_register(&mut self, register: DataRegister, new_value: RegisterValue)
        ensures
            *final(self) == old(self).spec_set(Register::Data(register), new_value),
    {
        match register {
            DataRegister::D0 => self.d0 = new_value,
            DataRegister::D1 => self.d1 = new_value,
            DataRegister::D2 => self.d2 = new_value,
            DataRegister::D3 => self.d3 = new_value,
            DataRegister::D4 => self.d4 = new_value,
            DataRegister::D5 => self.d5 = new_value,
            DataRegister::D6 => self.d6 = new_value,
            DataRegister::D7 => self.d7 = new_value,
        }
    }

    pub fn get_status_register(&self) -> (r: u16)
        ensures
            r == self.spec_status(),
    {
        self.status
    }

    pub fn set_status_register(&mut self, new_value: u16)
        ensures
            *final(self) == old(self).spec_with_status(new_value),
            final(self).spec_status() == new_value,
            forall|r: Register| final(self).spec_get(r) == old(self).spec_get(r),
    {
        self.status = new_value;
    }
}

impl Registers {
    /// The register file as three lines of text: the address registers, the
    /// data registers, then the program counter and status register, each
    /// value in upper-case hexadecimal.
    pub open spec fn text(&self) -> Seq<char> {
        Seq::<char>::empty()
            + "A0: 0x"@
            + hex_digits(self.spec_get(Register::Address(AddressRegister::A0)) as nat, 8)
            + " | A1: 0x"@
            + hex_digits(self.spec_get(Register::Address(AddressRegister::A1)) as nat, 8)
            + " | A2: 0x"@
            + hex_digits(self.spec_get(Register::Address(AddressRegister::A2)) as nat, 8)
            + " | A3: 0x"@
            + hex_digits(self.spec_get(Register::Address(AddressRegister::A3)) as nat, 8)
            + " | A4: 0x"@
            + hex_digits(self.spec_get(Register::Address(AddressRegister::A4)) as nat, 8)
            + " | A5: 0x"@
            + hex_digits(self.spec_get(Register::Address(AddressRegister::A5)) as nat, 8)
            + " | A6: 0x"@
            + hex_digits(self.spec_get(Register::Address(AddressRegister::A6)) as nat, 8)
            + " | A7: 0x"@
            + hex_digits(self.spec_get(Register::Address(AddressRegister::A7)) as nat, 8)
            + "\n"@
            + "D0: 0x"@
            + hex_digits(self.spec_get(Register::Data(DataRegister::D0)) as nat, 8)
            + " | D1: 0x"@
            + hex_digits(self.spec_get(Register::Data(DataRegister::D1)) as nat, 8)
            + " | D2: 0x"@
            + hex_digits(self.spec_get(Register::Data(DataRegister::D2)) as nat, 8)
            + " | D3: 0x"@
            + hex_digits(self.spec_get(Register::Data(DataRegister::D3)) as nat, 8)
            + " | D4: 0x"@
            + hex_digits(self.spec_get(Register::Data(DataRegister::D4)) as nat, 8)
            + " | D5: 0x"@
            + hex_digits(self.spec_get(Register::Data(DataRegister::D5)) as nat, 8)
            + " | D6: 0x"@
            + hex_digits(self.spec_get(Register::Data(DataRegister::D6)) as nat, 8)
            + " | D7: 0x"@
            + hex_digits(self.spec_get(Register::Data(DataRegister::D7)) as nat, 8)
            + "\n"@
            + "Program Counter: 0x"@
            + hex_digits(self.spec_get(Register::ProgramCounter) as nat, 8)
            + " | Status: 0x"@
            + hex_digits(self.spec_status() as nat, 4)
            + "\n"@
    }

    /// The register file as text, as `text` gives it.
    pub fn describe(&self) -> (r: String)
        ensures
            r@ == self.text(),
    {
        let mut text = String::new();
        text.append("A0: 0x");
        text.append(hex_format_long(self.a0).as_str());
        text.append(" | A1: 0x");
        text.append(hex_format_long(self.a1).as_str());
        text.append(" | A2: 0x");
        text.append(hex_format_long(self.a2).as_str());
        text.append(" | A3: 0x");
        text.append(hex_format_long(self.a3).as_str());
        text.append(" | A4: 0x");
        text.append(hex_format_long(self.a4).as_str());
        text.append(" | A5: 0x");
        text.append(hex_format_long(self.a5).as_str());
        text.append(" | A6: 0x");
        text.append(hex_format_long(self.a6).as_str());
        text.append(" | A7: 0x");
        text.append(hex_format_long(self.a7).as_str());
        text.append("\n");
        text.append("D0: 0x");
        text.append(hex_format_long(self.d0).as_str());
        text.append(" | D1: 0x");
        text.append(hex_format_long(self.d1).as_str());
        text.append(" | D2: 0x");
        text.append(hex_format_long(self.d2).as_str());
        text.append(" | D3: 0x");
        text.append(hex_format_long(self.d3).as_str());
        text.append(" | D4: 0x");
        text.append(hex_format_long(self.d4).as_str());
        text.append(" | D5: 0x");
        text.append(hex_format_long(self.d5).as_str());
        text.append(" | D6: 0x");
        text.append(hex_format_long(self.d6).as_str());
        text.append(" | D7: 0x");
        text.append(hex_format_long(self.d7).as_str());
        text.append("\n");
        text.append("Program Counter: 0x");
        text.append(hex_format_long(self.pc).as_str());
        text.append(" | Status: 0x");
        text.append(hex_format_word(self.status).as_str());
        text.append("\n");
        text
    }
}

impl Default for Registers {
    fn default() -> (r: Self)
        ensures
            forall|register: Register| r.spec_get(register) == 0,
            r.spec_status() == 0,
    {
        Self::new()
    }
}

/// Reading a register after setting one: the new value if it is the same
/// register, the old value otherwise.
pub broadcast proof fn lemma_get_after_set(regs: Registers, r: Register, q: Register, value: u32)
    ensures
        #[trigger] regs.spec_set(r, value).spec_get(q) == if r == q {
            value
        } else {
            regs.spec_get(q)
        },
{
}

/// Setting a register leaves the status register unchanged.
pub broadcast proof fn lemma_status_after_set(regs: Registers, r: Register, value: u32)
    ensures
        #[trigger] regs.spec_set(r, value).spec_status() == regs.spec_status(),
{
}

/// Setting the status register leaves every other register unchanged.
pub broadcast proof fn lemma_get_after_status(regs: Registers, r: Register, value: u16)
    ensures
        #[trigger] regs.spec_with_status(value).spec_get(r) == regs.spec_get(r),
{
}

/// Reading the status register after setting it gives the new value.
pub broadcast proof fn lemma_status_after_status(regs: Registers, value: u16)
    ensures
        #[trigger] regs.spec_with_status(value).spec_status() == value,
{
}

pub broadcast group group_registers {
    lemma_get_after_status,
    lemma_status_after_status,
    lemma_get_after_set,
    lemma_status_after_set,
}

} // verus!
