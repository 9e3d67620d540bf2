use emulator::cpu::addressing::AddressMode;
use emulator::cpu::isa_68000::Instruction;
use emulator::cpu::registers::{AddressRegister, DataRegister, Register};
use emulator::parsers::binary::{
    DecodedInstruction, DecodedOperand, Displacement, Indexer, MachineCodeParser, MemoryIndirection,
    Operation,
};
use emulator::parsers::{ParseError, ParseErrorKind};
use emulator::OperandSize;

fn decoded(
    operation: Operation,
    size: i32,
    source: DecodedOperand,
    destination: DecodedOperand,
) -> DecodedInstruction {
    DecodedInstruction { operation, size, source, destination, bytes_used: 4 }
}

#[test]
fn operations_map_to_instructions() {
    let parser = MachineCodeParser;
    let d0 = DecodedOperand::DataDirect(DataRegister::D0);
    let imm = DecodedOperand::Immediate16(7);
    let src = AddressMode::Immediate { value: 7 };
    let dest = AddressMode::RegisterDirect { register: Register::Data(DataRegister::D0) };
    for (operation, expected) in [
        (Operation::Addq, Instruction::Add { src, dest }),
        (Operation::Subi, Instruction::Subtract { src, dest }),
        (Operation::Mulu, Instruction::MultiplyUnsigned { src, dest }),
        (Operation::Movea, Instruction::Move { src, dest }),
        (Operation::Eori, Instruction::ExclusiveOr { src, dest }),
        (Operation::Or, Instruction::InclusiveOr { src, dest }),
        (Operation::Andi, Instruction::And { src, dest }),
        (Operation::Roxl, Instruction::RotateLeft { to_rotate: dest, rotate_amount: src }),
        (Operation::Chk, Instruction::BoundsCheck { bound: src, value: dest }),
        (Operation::Other, Instruction::NoOp),
    ] {
        assert_eq!(
            parser.parse_decoded(&decoded(operation, 2, imm, d0)).unwrap(),
            (expected, OperandSize::Word, 4)
        );
    }
}

#[test]
fn size_comes_from_operands_when_missing() {
    let parser = MachineCodeParser;
    let (instruction, size, used) = parser
        .parse_decoded(&decoded(
            Operation::Jmp,
            0,
            DecodedOperand::AbsoluteShort(-2),
            DecodedOperand::NoOperand,
        ))
        .unwrap();
    assert_eq!(instruction, Instruction::JumpTo { address: AddressMode::Absolute { address: 0xFFFF_FFFE } });
    assert_eq!(size, OperandSize::Word);
    assert_eq!(used, 4);
    let (_, size, _) = parser
        .parse_decoded(&decoded(Operation::Nop, 0, DecodedOperand::NoOperand, DecodedOperand::NoOperand))
        .unwrap();
    assert_eq!(size, OperandSize::Long);
}

#[test]
fn bad_sizes_and_operands_are_errors() {
    let parser = MachineCodeParser;
    assert!(matches!(
        parser.parse_decoded(&decoded(
            Operation::Add,
            3,
            DecodedOperand::Immediate8(1),
            DecodedOperand::DataDirect(DataRegister::D0)
        )),
        Err(ParseError::InvalidOperandSize(3))
    ));
    assert_eq!(
        parser
            .parse_decoded(&decoded(Operation::Add, 4, DecodedOperand::Other, DecodedOperand::NoOperand))
            .unwrap_err()
            .kind(),
        ParseErrorKind::UnsupportedAddressing
    );
    assert_eq!(
        parser
            .parse_decoded(&decoded(Operation::Add, 4, DecodedOperand::Immediate8(1), DecodedOperand::NoOperand))
            .unwrap_err()
            .kind(),
        ParseErrorKind::MissingOperand
    );
}

#[test]
fn displacement_operands_become_modes() {
    let index = Indexer::Data(DataRegister::D1, 1);
    let disp = |indirection, indexer| Displacement {
        base_displacement: -4,
        outer_displacement: 8,
        indirection,
        indexer,
    };
    let a2 = AddressRegister::A2;
    let d1 = Register::Data(DataRegister::D1);
    for (operand, expected) in [
        (
            DecodedOperand::AddressDisplacement(a2, disp(MemoryIndirection::NoIndirection, Indexer::NoIndexer)),
            AddressMode::RegisterIndirectWithDisplacement { register: a2, displacement: 0xFFFC },
        ),
        (
            DecodedOperand::AddressDisplacement(a2, disp(MemoryIndirection::NoIndirection, index)),
            AddressMode::RegisterIndirectIndexed {
                displacement: 0xFFFC,
                address_register: a2,
                index_register: d1,
            },
        ),
        (
            DecodedOperand::AddressDisplacement(a2, disp(MemoryIndirection::IndirectPreIndexed, index)),
            AddressMode::MemoryPreIndexed {
                base_displacement: 0xFFFC,
                outer_displacement: 8,
                address_register: a2,
                index_register: d1,
            },
        ),
        (
            DecodedOperand::ProgramCounterDisplacement(disp(MemoryIndirection::IndirectPostIndexed, index)),
            AddressMode::ProgramCounterMemoryIndirectPostIndexed {
                base_displacement: 0xFFFC,
                outer_displacement: 8,
                index_register: d1,
            },
        ),
        (
            DecodedOperand::ProgramCounterDisplacement(disp(MemoryIndirection::NoIndirection, Indexer::NoIndexer)),
            AddressMode::ProgramCounterIndirectWithDisplacement { displacement: 0xFFFC },
        ),
    ] {
        assert_eq!(
            AddressMode::from_m68kdecode(operand, DecodedOperand::NoOperand).unwrap(),
            (Some(expected), None)
        );
    }
    assert!(matches!(
        AddressMode::from_m68kdecode(
            DecodedOperand::AddressDisplacement(a2, disp(MemoryIndirection::Indirect, Indexer::NoIndexer)),
            DecodedOperand::NoOperand
        ),
        Err(ParseError::UnsupportedAddressing)
    ));
}

#[test]
fn unknown_operations_become_no_ops_whatever_their_operands() {
    let parser = MachineCodeParser;
    assert_eq!(
        parser
            .parse_decoded(&decoded(Operation::Other, 2, DecodedOperand::Other, DecodedOperand::Other))
            .unwrap(),
        (Instruction::NoOp, OperandSize::Word, 4)
    );
    assert_eq!(
        parser
            .parse_decoded(&decoded(Operation::Other, 3, DecodedOperand::Other, DecodedOperand::NoOperand))
            .unwrap(),
        (Instruction::NoOp, OperandSize::Long, 4)
    );
}
