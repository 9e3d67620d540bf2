use emulator::cpu::addressing::AddressMode;
use emulator::cpu::registers::{AddressRegister, DataRegister, Register};
use emulator::cpu::CPU;
use emulator::ram::{Memory, VecBackedMemory};
use emulator::{EmulationError, M68kInteger, OperandSize};

const ADDRESS: u32 = 0x42;
const DISPLACEMENT: u16 = 0xA3;
const OUTER_DISPLACEMENT: u16 = 0x1A;
const INDEX: u32 = 4;
const ADDRESS_REGISTER: AddressRegister = AddressRegister::A0;
const DATA_REGISTER: DataRegister = DataRegister::D0;

/// Runs `closure(cpu, size, get_value, set_value)` once for each size.
fn all_sizes(
    closure: impl Fn(CPU<VecBackedMemory>, OperandSize, M68kInteger, M68kInteger) -> Result<(), EmulationError>,
) {
    let cpu1 = CPU::<VecBackedMemory>::new(1_024);
    let cpu2 = CPU::<VecBackedMemory>::new(1_024);
    let cpu3 = CPU::<VecBackedMemory>::new(1_024);
    closure(cpu1, OperandSize::Byte, M68kInteger::Byte(0xAB), M68kInteger::Byte(0x73)).unwrap();
    closure(cpu2, OperandSize::Word, M68kInteger::Word(0xDEAD), M68kInteger::Word(0xABBA)).unwrap();
    closure(cpu3, OperandSize::Long, M68kInteger::Long(0xFACEBEEF), M68kInteger::Long(0xAF7B3AD))
        .unwrap();
}

#[test]
fn addressing_register_direct() {
    all_sizes(|mut cpu, size, get_value, set_value| {
        let address = AddressMode::RegisterDirect { register: Register::Data(DATA_REGISTER) };
        cpu.registers.set_data_register(DATA_REGISTER, get_value.into());
        assert_eq!(address.get_value(&mut cpu, size)?, get_value);
        address.set_value(&mut cpu, set_value)?;
        assert_eq!(cpu.registers.get_data_register(DATA_REGISTER), u32::from(set_value));
        Ok(())
    });
}

#[test]
fn register_indirect() {
    all_sizes(|mut cpu, size, get_value, set_value| {
        let mode = AddressMode::RegisterIndirect { register: ADDRESS_REGISTER };
        cpu.memory.write(ADDRESS, get_value)?;
        cpu.registers.set_address_register(ADDRESS_REGISTER, ADDRESS);
        assert_eq!(mode.get_value(&mut cpu, size)?, get_value);
        mode.set_value(&mut cpu, set_value)?;
        assert_eq!(cpu.memory.read(ADDRESS, size)?, set_value);
        Ok(())
    });
}

#[test]
fn register_indirect_with_postincrement() {
    all_sizes(|mut cpu, size, get_value, set_value| {
        let byte_offset = size.size_in_bytes();
        let mode = AddressMode::RegisterIndirectPostIncrement { register: ADDRESS_REGISTER };
        cpu.memory.write(ADDRESS, get_value)?;
        cpu.registers.set_address_register(ADDRESS_REGISTER, ADDRESS);
        assert_eq!(mode.get_value(&mut cpu, size)?, get_value);
        assert_eq!(cpu.registers.get_address_register(ADDRESS_REGISTER), ADDRESS + byte_offset);
        mode.set_value(&mut cpu, set_value)?;
        assert_eq!(cpu.memory.read(ADDRESS + byte_offset, size)?, set_value);
        assert_eq!(
            cpu.registers.get_address_register(ADDRESS_REGISTER),
            ADDRESS + (byte_offset * 2)
        );
        Ok(())
    });
}

#[test]
fn register_indirect_with_predecrement() {
    all_sizes(|mut cpu, size, get_value, set_value| {
        let byte_offset = size.size_in_bytes();
        let mode = AddressMode::RegisterIndirectPreDecrement { register: ADDRESS_REGISTER };
        cpu.memory.write(ADDRESS - byte_offset, get_value).unwrap();
        cpu.registers.set_address_register(ADDRESS_REGISTER, ADDRESS);
        assert_eq!(mode.get_value(&mut cpu, size).unwrap(), get_value);
        assert_eq!(cpu.registers.get_address_register(ADDRESS_REGISTER), ADDRESS - byte_offset);
        mode.set_value(&mut cpu, set_value)?;
        assert_eq!(cpu.memory.read(ADDRESS - (byte_offset * 2), size)?, set_value);
        assert_eq!(
            cpu.registers.get_address_register(ADDRESS_REGISTER),
            ADDRESS - (byte_offset * 2)
        );
        Ok(())
    });
}

#[test]
fn register_indirect_stack_pointer_special_case() {
    let mut cpu = CPU::<VecBackedMemory>::new(8192);
    let post_incr = AddressMode::RegisterIndirectPostIncrement { register: AddressRegister::A7 };
    cpu.registers.set_address_register(AddressRegister::A7, ADDRESS);
    post_incr.get_value(&mut cpu, OperandSize::Byte).unwrap();
    assert_eq!(cpu.registers.get_address_register(AddressRegister::A7), ADDRESS + 2);
    post_incr.set_value(&mut cpu, M68kInteger::Byte(1)).unwrap();
    assert_eq!(cpu.registers.get_address_register(AddressRegister::A7), ADDRESS + 4);

    let pre_decr = AddressMode::RegisterIndirectPreDecrement { register: AddressRegister::A7 };
    cpu.registers.set_address_register(AddressRegister::A7, ADDRESS);
    pre_decr.get_value(&mut cpu, OperandSize::Byte).unwrap();
    assert_eq!(cpu.registers.get_address_register(AddressRegister::A7), ADDRESS - 2);
    pre_decr.set_value(&mut cpu, M68kInteger::Byte(1)).unwrap();
    assert_eq!(cpu.registers.get_address_register(AddressRegister::A7), ADDRESS - 4);
}

#[test]
fn register_indirect_with_displacement() {
    all_sizes(|mut cpu, size, get_value, set_value| {
        let mode = AddressMode::RegisterIndirectWithDisplacement {
            displacement: DISPLACEMENT,
            register: ADDRESS_REGISTER,
        };
        cpu.registers.set_address_register(ADDRESS_REGISTER, ADDRESS);
        let addr = ADDRESS + DISPLACEMENT as u32;
        cpu.memory.write(addr, get_value).unwrap();
        assert_eq!(mode.get_value(&mut cpu, size).unwrap(), get_value);
        mode.set_value(&mut cpu, set_value)?;
        assert_eq!(cpu.memory.read(addr, size)?, set_value);
        Ok(())
    });
}

#[test]
fn register_indirect_indexed() {
    all_sizes(|mut cpu, size, get_value, set_value| {
        let mode = AddressMode::RegisterIndirectIndexed {
            address_register: ADDRESS_REGISTER,
            index_register: Register::Data(DATA_REGISTER),
            displacement: DISPLACEMENT,
        };
        let addr = ADDRESS + DISPLACEMENT as u32 + (INDEX * size.size_in_bytes());
        cpu.registers.set_address_register(ADDRESS_REGISTER, ADDRESS);
        cpu.registers.set_data_register(DATA_REGISTER, INDEX);
        cpu.memory.write(addr, get_value)?;
        assert_eq!(mode.get_value(&mut cpu, size)?, get_value);
        mode.set_value(&mut cpu, set_value)?;
        assert_eq!(cpu.memory.read(addr, size)?, set_value);
        Ok(())
    });
}

#[test]
fn memory_post_indexed() {
    all_sizes(|mut cpu, size, get_value, set_value| {
        let initial_address = 0xAA;
        let mode = AddressMode::MemoryPostIndexed {
            base_displacement: DISPLACEMENT,
            outer_displacement: OUTER_DISPLACEMENT,
            address_register: ADDRESS_REGISTER,
            index_register: Register::Data(DATA_REGISTER),
        };
        cpu.registers.set_address_register(ADDRESS_REGISTER, initial_address);
        cpu.registers.set_data_register(DATA_REGISTER, INDEX);
        let intermediate_address = initial_address + DISPLACEMENT as u32;
        let operand_address = ADDRESS + (INDEX * size.size_in_bytes()) + OUTER_DISPLACEMENT as u32;
        cpu.memory.write_long(intermediate_address, ADDRESS).unwrap();
        cpu.memory.write(operand_address, get_value)?;
        assert_eq!(mode.get_value(&mut cpu, size)?, get_value);
        mode.set_value(&mut cpu, set_value)?;
        assert_eq!(cpu.memory.read(operand_address, size)?, set_value);
        Ok(())
    });
}

#[test]
fn memory_pre_indexed() {
    all_sizes(|mut cpu, size, get_value, set_value| {
        let initial_address = 0xAA;
        let mode = AddressMode::MemoryPreIndexed {
            base_displacement: DISPLACEMENT,
            outer_displacement: OUTER_DISPLACEMENT,
            address_register: ADDRESS_REGISTER,
            index_register: Register::Data(DATA_REGISTER),
        };
        cpu.registers.set_address_register(ADDRESS_REGISTER, initial_address);
        cpu.registers.set_data_register(DATA_REGISTER, INDEX);
        let intermediate_address =
            initial_address + DISPLACEMENT as u32 + (INDEX * size.size_in_bytes());
        cpu.memory.write_long(intermediate_address, ADDRESS)?;
        let operand_address = ADDRESS + OUTER_DISPLACEMENT as u32;
        cpu.memory.write(operand_address, get_value)?;
        assert_eq!(mode.get_value(&mut cpu, size)?, get_value);
        mode.set_value(&mut cpu, set_value)?;
        assert_eq!(cpu.memory.read(operand_address, size)?, set_value);
        Ok(())
    });
}

#[test]
fn program_counter_indirect_with_displacement() {
    all_sizes(|mut cpu, size, get_value, set_value| {
        let mode = AddressMode::ProgramCounterIndirectWithDisplacement { displacement: DISPLACEMENT };
        cpu.registers.set(Register::ProgramCounter, ADDRESS);
        let address = ADDRESS + DISPLACEMENT as u32;
        cpu.memory.write(address, get_value)?;
        assert_eq!(mode.get_value(&mut cpu, size)?, get_value);
        mode.set_value(&mut cpu, set_value)?;
        assert_eq!(cpu.memory.read(address, size)?, set_value);
        Ok(())
    });
}

#[test]
fn program_counter_indirect_indexed() {
    all_sizes(|mut cpu, size, get_value, set_value| {
        let mode = AddressMode::ProgramCounterIndirectIndexed {
            displacement: DISPLACEMENT,
            index_register: Register::Data(DATA_REGISTER),
        };
        cpu.registers.set(Register::ProgramCounter, ADDRESS);
        cpu.registers.set_data_register(DATA_REGISTER, INDEX);
        let address = ADDRESS + DISPLACEMENT as u32 + (INDEX * size.size_in_bytes());
        cpu.memory.write(address, get_value)?;
        cpu.memory.write(address, get_value)?;
        assert_eq!(mode.get_value(&mut cpu, size)?, get_value);
        mode.set_value(&mut cpu, set_value)?;
        assert_eq!(cpu.memory.read(address, size)?, set_value);
        Ok(())
    });
}

#[test]
fn program_counter_memory_post_indexed() {
    all_sizes(|mut cpu, size, get_value, set_value| {
        let initial_address = 0xAA;
        let mode = AddressMode::ProgramCounterMemoryIndirectPostIndexed {
            base_displacement: DISPLACEMENT,
            outer_displacement: OUTER_DISPLACEMENT,
            index_register: Register::Data(DATA_REGISTER),
        };
        cpu.registers.set(Register::ProgramCounter, initial_address);
        cpu.registers.set_data_register(DATA_REGISTER, INDEX);
        let intermediate_address = initial_address + DISPLACEMENT as u32;
        cpu.memory.write_long(intermediate_address, ADDRESS).unwrap();
        let final_address = ADDRESS + (INDEX * size.size_in_bytes()) + OUTER_DISPLACEMENT as u32;
        cpu.memory.write(final_address, get_value)?;
        assert_eq!(mode.get_value(&mut cpu, size)?, get_value);
        mode.set_value(&mut cpu, set_value)?;
        assert_eq!(cpu.memory.read(final_address, size)?, set_value);
        Ok(())
    });
}

#[test]
fn program_counter_memory_pre_indexed() {
    all_sizes(|mut cpu, size, get_value, set_value| {
        let initial_address = 0xAA;
        let mode = AddressMode::ProgramCounterMemoryIndirectPreIndexed {
            base_displacement: DISPLACEMENT,
            outer_displacement: OUTER_DISPLACEMENT,
            index_register: Register::Data(DATA_REGISTER),
        };
        cpu.registers.set(Register::ProgramCounter, initial_address);
        cpu.registers.set_data_register(DATA_REGISTER, INDEX);
        let intermediate_address =
            initial_address + DISPLACEMENT as u32 + (INDEX * size.size_in_bytes());
        let final_address = ADDRESS + OUTER_DISPLACEMENT as u32;
        cpu.memory.write_long(intermediate_address, ADDRESS)?;
        cpu.memory.write(final_address, get_value)?;
        assert_eq!(mode.get_value(&mut cpu, size)?, get_value);
        mode.set_value(&mut cpu, set_value)?;
        assert_eq!(cpu.memory.read(final_address, size)?, set_value);
        Ok(())
    });
}

#[test]
fn absolute() {
    all_sizes(|mut cpu, size, get_value, set_value| {
        let mode = AddressMode::Absolute { address: ADDRESS };
        cpu.memory.write(ADDRESS, get_value)?;
        assert_eq!(mode.get_value(&mut cpu, size)?, get_value);
        mode.set_value(&mut cpu, set_value)?;
        assert_eq!(cpu.memory.read(ADDRESS, size)?, set_value);
        Ok(())
    });
}

#[test]
fn addressing_immediate() {
    all_sizes(|mut cpu, size, get_value, _| {
        let mode = AddressMode::Immediate { value: get_value.into() };
        assert_eq!(mode.get_value(&mut cpu, size)?, get_value);
        Ok(())
    });
}

#[test]
#[should_panic]
fn immediate_panic_on_set() {
    let mut cpu = CPU::<VecBackedMemory>::new(1024);
    let mode = AddressMode::Immediate { value: 0xAA };
    mode.set_value(&mut cpu, M68kInteger::Byte(1)).unwrap();
}

#[test]
fn writing_an_immediate_is_refused() {
    let mut cpu = CPU::<VecBackedMemory>::new(16);
    let mode = AddressMode::Immediate { value: 0xAA };
    assert!(matches!(
        mode.set_value(&mut cpu, M68kInteger::Long(1)),
        Err(EmulationError::WriteToReadOnly(_))
    ));
}

#[test]
fn stack_pointer_byte_post_increment_reads_then_moves_by_two() {
    let mut cpu = CPU::<VecBackedMemory>::new(1024);
    cpu.registers.set_address_register(AddressRegister::A7, 0x100);
    cpu.memory.write_byte(0x100, 0xAB).unwrap();
    let mode = AddressMode::RegisterIndirectPostIncrement { register: AddressRegister::A7 };
    assert_eq!(mode.get_value(&mut cpu, OperandSize::Byte).unwrap(), M68kInteger::Byte(0xAB));
    assert_eq!(cpu.registers.get_address_register(AddressRegister::A7), 0x102);
}

#[test]
fn memory_pre_indexed_long() {
    let mut cpu = CPU::<VecBackedMemory>::new(1024);
    cpu.registers.set_address_register(AddressRegister::A0, 0xAA);
    cpu.registers.set_data_register(DataRegister::D0, 4);
    cpu.memory.write_long(0xAA + 0xA3 + 4 * 4, 0x42).unwrap();
    cpu.memory.write_long(0x42 + 0x1A, 0xFACEBEEF).unwrap();
    let mode = AddressMode::MemoryPreIndexed {
        address_register: AddressRegister::A0,
        index_register: Register::Data(DataRegister::D0),
        base_displacement: 0xA3,
        outer_displacement: 0x1A,
    };
    assert_eq!(mode.get_value(&mut cpu, OperandSize::Long).unwrap(), M68kInteger::Long(0xFACEBEEF));
}

#[test]
fn displacements_are_sign_extended() {
    let mut cpu = CPU::<VecBackedMemory>::new(1024);
    cpu.registers.set_address_register(AddressRegister::A1, 0x100);
    cpu.memory.write_byte(0xF0, 0x5A).unwrap();
    let mode = AddressMode::RegisterIndirectWithDisplacement {
        register: AddressRegister::A1,
        displacement: 0xFFF0,
    };
    assert_eq!(mode.get_value(&mut cpu, OperandSize::Byte).unwrap(), M68kInteger::Byte(0x5A));
}

#[test]
fn partial_writes_keep_the_upper_bits_of_data_registers() {
    let mut cpu = CPU::<VecBackedMemory>::new(16);
    cpu.registers.set_data_register(DataRegister::D2, 0x1234_5678);
    let mode = AddressMode::RegisterDirect { register: Register::Data(DataRegister::D2) };
    mode.set_value(&mut cpu, M68kInteger::Byte(0xAB)).unwrap();
    assert_eq!(cpu.registers.get_data_register(DataRegister::D2), 0x1234_56AB);
    mode.set_value(&mut cpu, M68kInteger::Word(0xCDEF)).unwrap();
    assert_eq!(cpu.registers.get_data_register(DataRegister::D2), 0x1234_CDEF);
    assert_eq!(mode.get_value(&mut cpu, OperandSize::Word).unwrap(), M68kInteger::Word(0xCDEF));
}

#[test]
fn out_of_range_operand_is_an_error() {
    let mut cpu = CPU::<VecBackedMemory>::new(16);
    let mode = AddressMode::Absolute { address: 0x40 };
    assert!(matches!(
        mode.get_value(&mut cpu, OperandSize::Word),
        Err(EmulationError::MemoryOutOfBoundsAccess(0x40))
    ));
}

#[test]
fn write_then_read_through_each_mode() {
    let modes = [
        AddressMode::RegisterDirect { register: Register::Data(DataRegister::D4) },
        AddressMode::RegisterDirect { register: Register::Address(AddressRegister::A3) },
        AddressMode::RegisterIndirect { register: AddressRegister::A0 },
        AddressMode::RegisterIndirectWithDisplacement { register: AddressRegister::A0, displacement: 8 },
        AddressMode::RegisterIndirectIndexed {
            displacement: 2,
            address_register: AddressRegister::A0,
            index_register: Register::Data(DataRegister::D0),
        },
        AddressMode::MemoryPreIndexed {
            base_displacement: 0,
            outer_displacement: 4,
            address_register: AddressRegister::A1,
            index_register: Register::Data(DataRegister::D0),
        },
        AddressMode::MemoryPostIndexed {
            base_displacement: 0,
            outer_displacement: 4,
            address_register: AddressRegister::A1,
            index_register: Register::Data(DataRegister::D0),
        },
        AddressMode::ProgramCounterIndirectWithDisplacement { displacement: 0x30 },
        AddressMode::Absolute { address: 0x90 },
    ];
    for value in [M68kInteger::Byte(0x5A), M68kInteger::Word(0xA55A), M68kInteger::Long(0x1234_5678)] {
        for mode in modes {
            let mut cpu = CPU::<VecBackedMemory>::new(1024);
            cpu.registers.set_address_register(AddressRegister::A0, 0x100);
            cpu.registers.set_address_register(AddressRegister::A1, 0x200);
            cpu.registers.set_data_register(DataRegister::D0, 3);
            cpu.memory.write_long(0x200, 0x180).unwrap();
            cpu.memory.write_long(0x200 + 3 * value.size().size_in_bytes(), 0x1C0).unwrap();
            mode.set_value(&mut cpu, value).unwrap();
            assert_eq!(mode.get_value(&mut cpu, value.size()).unwrap(), value);
        }
    }
}
