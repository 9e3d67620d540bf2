use emulator::cpu::addressing::AddressMode;
use emulator::cpu::isa_68000::Instruction;
use emulator::cpu::registers::{AddressRegister, DataRegister, Register};
use emulator::parsers::assembly::AssemblyInterpreter;
use emulator::parsers::{ParseErrorKind, Parser};
use emulator::OperandSize::{self, Byte, Long, Word};

const DUMMY_INSTRUCTION: &str = "Test instruction";

/// Checks a source/destination instruction against `gen_instruction`.
fn test_source_dest_instruction(
    instruction: &str,
    gen_instruction: impl Fn(AddressMode, AddressMode) -> Instruction,
) {
    for (operands, src, dest) in [
        (
            "a0, a1",
            AddressMode::RegisterDirect { register: Register::Address(AddressRegister::A0) },
            AddressMode::RegisterDirect { register: Register::Address(AddressRegister::A1) },
        ),
        (
            "(12, a5), d3",
            AddressMode::RegisterIndirectWithDisplacement {
                register: AddressRegister::A5,
                displacement: 12,
            },
            AddressMode::RegisterDirect { register: Register::Data(DataRegister::D3) },
        ),
    ] {
        let mut interpreter = AssemblyInterpreter::new();
        assert_eq!(
            interpreter.parse(format!("{} {}", instruction, operands)).unwrap().0,
            gen_instruction(src, dest)
        );
    }
}

#[test]
fn parse_move() {
    test_source_dest_instruction("MOVE", |src, dest| Instruction::Move { src, dest });
}

#[test]
fn parse_add() {
    test_source_dest_instruction("ADD", |src, dest| Instruction::Add { src, dest });
}

#[test]
fn parse_subtract() {
    test_source_dest_instruction("SUB", |src, dest| Instruction::Subtract { src, dest });
}

#[test]
fn parse_unsigned_multiplication() {
    test_source_dest_instruction("MULU", |src, dest| Instruction::MultiplyUnsigned { src, dest });
}

#[test]
fn parse_to_operand_register_direct() {
    for (operand, register) in [
        ("d0", Register::Data(DataRegister::D0)),
        ("a6", Register::Address(AddressRegister::A6)),
        ("a7", Register::Address(AddressRegister::A7)),
        ("sp", Register::Address(AddressRegister::A7)),
    ] {
        assert_eq!(
            AssemblyInterpreter::parse_to_operand(operand, DUMMY_INSTRUCTION).unwrap(),
            (AddressMode::RegisterDirect { register }, None)
        );
    }
}

#[test]
fn parse_to_operand_register_indirect() {
    for (operand, register) in [
        ("(a3)", AddressRegister::A3),
        ("(a7)", AddressRegister::A7),
        ("(sp)", AddressRegister::A7),
    ] {
        assert_eq!(
            AssemblyInterpreter::parse_to_operand(operand, DUMMY_INSTRUCTION).unwrap(),
            (AddressMode::RegisterIndirect { register }, None)
        );
    }
}

#[test]
fn parse_to_operand_register_indirect_postincrement() {
    for (operand, register) in [
        ("(a1)+", AddressRegister::A1),
        ("(a7)+", AddressRegister::A7),
        ("(sp)+", AddressRegister::A7),
    ] {
        assert_eq!(
            AssemblyInterpreter::parse_to_operand(operand, DUMMY_INSTRUCTION).unwrap(),
            (AddressMode::RegisterIndirectPostIncrement { register }, None)
        );
    }
}

#[test]
fn parse_to_operand_register_indirect_predecrement() {
    for (operand, register) in [
        ("-(a5)", AddressRegister::A5),
        ("-(a7)", AddressRegister::A7),
        ("-(sp)", AddressRegister::A7),
    ] {
        assert_eq!(
            AssemblyInterpreter::parse_to_operand(operand, DUMMY_INSTRUCTION).unwrap(),
            (AddressMode::RegisterIndirectPreDecrement { register }, None)
        );
    }
}

#[test]
fn parse_to_operand_register_indirect_displacement() {
    for (operand, displacement, register) in [
        ("(1, a3)", 1, AddressRegister::A3),
        ("(8, a7)", 8, AddressRegister::A7),
        ("(952, sp)", 952, AddressRegister::A7),
    ] {
        assert_eq!(
            AssemblyInterpreter::parse_to_operand(operand, DUMMY_INSTRUCTION).unwrap(),
            (AddressMode::RegisterIndirectWithDisplacement { register, displacement }, None)
        );
    }
}

#[test]
fn parse_to_operand_register_indirect_indexed() {
    for (operand, displacement, address_register, index_register, size) in [
        ("(1, a1, d3.b)", 1, AddressRegister::A1, Register::Data(DataRegister::D3), Byte),
        ("(8, a7, a4.w)", 8, AddressRegister::A7, Register::Address(AddressRegister::A4), Word),
        ("(952, sp, d5.l)", 952, AddressRegister::A7, Register::Data(DataRegister::D5), Long),
    ] {
        assert_eq!(
            AssemblyInterpreter::parse_to_operand(operand, DUMMY_INSTRUCTION).unwrap(),
            (
                AddressMode::RegisterIndirectIndexed { address_register, index_register, displacement },
                Some(size)
            )
        );
    }
}

#[test]
fn parse_to_operand_memory_postindexed() {
    for (operand, base_displacement, outer_displacement, address_register, index_register, size) in [
        ("([1,a1], d3.b, 2)", 1, 2, AddressRegister::A1, Register::Data(DataRegister::D3), Byte),
        ("([8,a7], a4.w, 952)", 8, 952, AddressRegister::A7, Register::Address(AddressRegister::A4), Word),
        ("([952,sp], d5.l, 1)", 952, 1, AddressRegister::A7, Register::Data(DataRegister::D5), Long),
    ] {
        assert_eq!(
            AssemblyInterpreter::parse_to_operand(operand, DUMMY_INSTRUCTION).unwrap(),
            (
                AddressMode::MemoryPostIndexed {
                    address_register,
                    index_register,
                    base_displacement,
                    outer_displacement,
                },
                Some(size)
            )
        );
    }
}

#[test]
fn parse_to_operand_memory_preindexed() {
    for (operand, base_displacement, outer_displacement, address_register, index_register, size) in [
        ("([1,a1,d3.b], 2)", 1, 2, AddressRegister::A1, Register::Data(DataRegister::D3), Byte),
        ("([8,a7, a4.w],952)", 8, 952, AddressRegister::A7, Register::Address(AddressRegister::A4), Word),
        ("([952, sp, d5.l], 1)", 952, 1, AddressRegister::A7, Register::Data(DataRegister::D5), Long),
    ] {
        assert_eq!(
            AssemblyInterpreter::parse_to_operand(operand, DUMMY_INSTRUCTION).unwrap(),
            (
                AddressMode::MemoryPreIndexed {
                    address_register,
                    index_register,
                    base_displacement,
                    outer_displacement,
                },
                Some(size)
            )
        );
    }
}

#[test]
fn parse_to_operand_pc_indirect_with_displacement() {
    for (operand, displacement) in [("(1, pc)", 1), ("(8, pc)", 8), ("(952, pc)", 952)] {
        assert_eq!(
            AssemblyInterpreter::parse_to_operand(operand, DUMMY_INSTRUCTION).unwrap(),
            (AddressMode::ProgramCounterIndirectWithDisplacement { displacement }, None)
        );
    }
}

#[test]
fn parse_to_operand_pc_indirect_indexed() {
    for (operand, displacement, index_register, size) in [
        ("(1, pc, d3.b)", 1, Register::Data(DataRegister::D3), Byte),
        ("(8, pc, a4.w)", 8, Register::Address(AddressRegister::A4), Word),
        ("(952, pc, d5.l)", 952, Register::Data(DataRegister::D5), Long),
    ] {
        assert_eq!(
            AssemblyInterpreter::parse_to_operand(operand, DUMMY_INSTRUCTION).unwrap(),
            (AddressMode::ProgramCounterIndirectIndexed { index_register, displacement }, Some(size))
        );
    }
}

#[test]
fn parse_to_operand_pc_indirect_postindexed() {
    for (operand, base_displacement, outer_displacement, index_register, size) in [
        ("([1,pc], d3.b, 2)", 1, 2, Register::Data(DataRegister::D3), Byte),
        ("([8, pc], a4.w, 952)", 8, 952, Register::Address(AddressRegister::A4), Word),
        ("([952,pc], d5.l,1)", 952, 1, Register::Data(DataRegister::D5), Long),
    ] {
        assert_eq!(
            AssemblyInterpreter::parse_to_operand(operand, DUMMY_INSTRUCTION).unwrap(),
            (
                AddressMode::ProgramCounterMemoryIndirectPostIndexed {
                    index_register,
                    base_displacement,
                    outer_displacement,
                },
                Some(size)
            )
        );
    }
}

#[test]
fn parse_to_operand_pc_preindexed() {
    for (operand, base_displacement, outer_displacement, index_register, size) in [
        ("([1,pc,d3.b], 2)", 1, 2, Register::Data(DataRegister::D3), Byte),
        ("([8,pc, a4.w],952)", 8, 952, Register::Address(AddressRegister::A4), Word),
        ("([952, pc, d5.l], 1)", 952, 1, Register::Data(DataRegister::D5), Long),
    ] {
        assert_eq!(
            AssemblyInterpreter::parse_to_operand(operand, DUMMY_INSTRUCTION).unwrap(),
            (
                AddressMode::ProgramCounterMemoryIndirectPreIndexed {
                    index_register,
                    base_displacement,
                    outer_displacement,
                },
                Some(size)
            )
        );
    }
}

#[test]
fn parse_to_operand_absolute() {
    for (operand, address, size) in [("($400).w", 0x400, Word), ("($b4a).l", 0xB4A, Long)] {
        assert_eq!(
            AssemblyInterpreter::parse_to_operand(operand, DUMMY_INSTRUCTION).unwrap(),
            (AddressMode::Absolute { address }, Some(size))
        );
    }
}

#[test]
fn parse_to_operand_immediate() {
    for (operand, value) in [("#$400", 0x400)] {
        assert_eq!(
            AssemblyInterpreter::parse_to_operand(operand, DUMMY_INSTRUCTION).unwrap(),
            (AddressMode::Immediate { value }, None)
        );
    }
}

fn operand_error(operand: &str) -> ParseErrorKind {
    AssemblyInterpreter::parse_to_operand(operand, DUMMY_INSTRUCTION).unwrap_err().kind()
}

#[test]
fn operand_errors() {
    assert_eq!(operand_error("d9"), ParseErrorKind::UnknownRegister);
    assert_eq!(operand_error("(d0)"), ParseErrorKind::InvalidOperand);
    assert_eq!(operand_error("#12z"), ParseErrorKind::InvalidNumber);
    assert_eq!(operand_error("#4294967296"), ParseErrorKind::InvalidNumber);
    assert_eq!(operand_error("(70000, a0)"), ParseErrorKind::NumberTooLarge);
    assert_eq!(operand_error("!x"), ParseErrorKind::UnknownOperandFormat);
    assert_eq!(operand_error(""), ParseErrorKind::UnknownOperandFormat);
    assert_eq!(operand_error("(1, 2, 3, 4)"), ParseErrorKind::UnknownOperandFormat);
}

#[test]
fn numbers_in_both_radixes() {
    assert_eq!(
        AssemblyInterpreter::parse_to_operand("#4294967295", DUMMY_INSTRUCTION).unwrap(),
        (AddressMode::Immediate { value: 0xFFFF_FFFF }, None)
    );
    assert_eq!(
        AssemblyInterpreter::parse_to_operand("#$FFff", DUMMY_INSTRUCTION).unwrap(),
        (AddressMode::Immediate { value: 0xFFFF }, None)
    );
    assert_eq!(
        AssemblyInterpreter::parse_to_operand("($10)", DUMMY_INSTRUCTION).unwrap(),
        (AddressMode::Absolute { address: 0x10 }, None)
    );
}

#[test]
fn parse_source_dest_sizes() {
    let (src, dest, size) =
        AssemblyInterpreter::parse_source_dest("d0.w, (4, a1)", DUMMY_INSTRUCTION).unwrap();
    assert_eq!(src, AddressMode::RegisterDirect { register: Register::Data(DataRegister::D0) });
    assert_eq!(
        dest,
        AddressMode::RegisterIndirectWithDisplacement { register: AddressRegister::A1, displacement: 4 }
    );
    assert_eq!(size, Some(OperandSize::Word));
    assert_eq!(
        AssemblyInterpreter::parse_source_dest("d0.w, d1.l", DUMMY_INSTRUCTION).unwrap_err().kind(),
        ParseErrorKind::OperandSizeMismatch
    );
    assert_eq!(
        AssemblyInterpreter::parse_source_dest("d0", DUMMY_INSTRUCTION).unwrap_err().kind(),
        ParseErrorKind::MissingOperand
    );
    assert_eq!(
        AssemblyInterpreter::parse_source_dest("d0), d1", DUMMY_INSTRUCTION).unwrap_err().kind(),
        ParseErrorKind::UnexpectedToken
    );
}

#[test]
fn parse_whole_lines() {
    let mut interpreter = AssemblyInterpreter::new();
    assert_eq!(
        interpreter.parse(String::from("  move #1, d2 ")).unwrap(),
        (
            Instruction::Move {
                src: AddressMode::Immediate { value: 1 },
                dest: AddressMode::RegisterDirect { register: Register::Data(DataRegister::D2) },
            },
            OperandSize::Long,
            0
        )
    );
    assert_eq!(
        interpreter.parse(String::from("and #1, d2.b")).unwrap().1,
        OperandSize::Byte
    );
    assert_eq!(
        interpreter.parse(String::from("nop")).unwrap(),
        (Instruction::NoOp, OperandSize::Long, 0)
    );
    assert_eq!(
        interpreter.parse(String::from("jmp ($80)")).unwrap().0,
        Instruction::JumpTo { address: AddressMode::Absolute { address: 0x80 } }
    );
    assert_eq!(
        interpreter.parse(String::from("roxl #2, d0")).unwrap().0,
        Instruction::RotateLeft {
            to_rotate: AddressMode::RegisterDirect { register: Register::Data(DataRegister::D0) },
            rotate_amount: AddressMode::Immediate { value: 2 },
        }
    );
    assert_eq!(
        interpreter.parse(String::from("frob d0, d1")).unwrap_err().kind(),
        ParseErrorKind::UnknownInstruction
    );
    assert_eq!(
        interpreter.parse(String::from("move")).unwrap_err().kind(),
        ParseErrorKind::NoInstruction
    );
}

#[test]
fn parse_add_with_displacement_source() {
    let mut interpreter = AssemblyInterpreter::new();
    assert_eq!(
        interpreter.parse(String::from("ADD (12, a5), d3")).unwrap(),
        (
            Instruction::Add {
                src: AddressMode::RegisterIndirectWithDisplacement {
                    register: AddressRegister::A5,
                    displacement: 12,
                },
                dest: AddressMode::RegisterDirect { register: Register::Data(DataRegister::D3) },
            },
            OperandSize::Long,
            0
        )
    );
}
