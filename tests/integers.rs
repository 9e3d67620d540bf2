use emulator::{hex_format_byte, hex_format_long, hex_format_word, EmulationError, M68kInteger, OperandSize};

#[test]
fn sizes_in_bytes() {
    assert_eq!(OperandSize::Byte.size_in_bytes(), 1);
    assert_eq!(OperandSize::Word.size_in_bytes(), 2);
    assert_eq!(OperandSize::Long.size_in_bytes(), 4);
}

#[test]
fn size_from_byte_count() {
    assert_eq!(OperandSize::from_size_in_bytes(1).unwrap(), OperandSize::Byte);
    assert_eq!(OperandSize::from_size_in_bytes(2).unwrap(), OperandSize::Word);
    assert_eq!(OperandSize::from_size_in_bytes(4).unwrap(), OperandSize::Long);
    assert!(matches!(OperandSize::from_size_in_bytes(3), Err(EmulationError::InvalidOperandSize(3))));
}

#[test]
fn integer_sizes() {
    let b = M68kInteger::Byte(1);
    assert_eq!(b.size(), OperandSize::Byte);
    assert!(b.is_size(OperandSize::Byte));
    assert!(!b.is_size(OperandSize::Long));
    assert!(b.check_size(OperandSize::Byte).is_ok());
    assert!(matches!(
        b.check_size(OperandSize::Word),
        Err(EmulationError::WrongSizeInteger(M68kInteger::Byte(1)))
    ));
    assert_eq!(u32::from(M68kInteger::Word(0xBEEF)), 0xBEEF);
}

#[test]
fn arithmetic_wraps_at_each_size() {
    assert_eq!(M68kInteger::Byte(0xFF).wrapping_add(M68kInteger::Byte(2)), M68kInteger::Byte(1));
    assert_eq!(M68kInteger::Word(0).wrapping_sub(M68kInteger::Word(1)), M68kInteger::Word(0xFFFF));
    assert_eq!(
        M68kInteger::Long(0x8000_0000).wrapping_mul(M68kInteger::Long(2)),
        M68kInteger::Long(0)
    );
    assert_eq!(M68kInteger::Word(0x100).wrapping_mul(M68kInteger::Word(0x100)), M68kInteger::Word(0));
}

#[test]
fn bitwise_operations() {
    assert_eq!(M68kInteger::Byte(0xCD).and(M68kInteger::Byte(0xAB)), M68kInteger::Byte(0x89));
    assert_eq!(M68kInteger::Word(7).or(M68kInteger::Word(3)), M68kInteger::Word(7));
    assert_eq!(M68kInteger::Long(7).xor(M68kInteger::Long(3)), M68kInteger::Long(4));
}

#[test]
fn rotation_wraps_the_count() {
    assert_eq!(
        M68kInteger::Byte(0b1010_1011).rotate_left(M68kInteger::Byte(2)),
        M68kInteger::Byte(0b1010_1110)
    );
    assert_eq!(
        M68kInteger::Byte(0b1010_1011).rotate_left(M68kInteger::Byte(10)),
        M68kInteger::Byte(0b1010_1110)
    );
    assert_eq!(M68kInteger::Word(0x8001).rotate_left(M68kInteger::Word(1)), M68kInteger::Word(0x0003));
    assert_eq!(
        M68kInteger::Long(0x8000_0001).rotate_left(M68kInteger::Long(4)),
        M68kInteger::Long(0x0000_0018)
    );
}

#[test]
fn hex_formatting() {
    assert_eq!(hex_format_byte(0xA), "0A");
    assert_eq!(hex_format_word(0xBEEF), "BEEF");
    assert_eq!(hex_format_long(0x1F), "0000001F");
}
