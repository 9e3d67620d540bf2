use emulator::ram::{Memory, VecBackedMemory};
use emulator::{EmulationError, M68kInteger, OperandSize};

const SIZE: usize = 0x400;
const ADDRESS: u32 = 0x201;

#[test]
fn byte_rw() {
    let byte = 0xAB;
    let mut ram_impl = VecBackedMemory::new(SIZE);
    ram_impl.write_byte(ADDRESS, byte).unwrap();
    assert_eq!(ram_impl.read_byte(ADDRESS).unwrap(), byte);
}

#[test]
fn word_rw() {
    let word = 0xDEAD;
    let mut ram_impl = VecBackedMemory::new(SIZE);
    ram_impl.write_word(ADDRESS, word).unwrap();
    assert_eq!(ram_impl.read_word(ADDRESS).unwrap(), word);
}

#[test]
fn long_rw() {
    let long = 0xDEADBEEF;
    let mut ram_impl = VecBackedMemory::new(SIZE);
    ram_impl.write_long(ADDRESS, long).unwrap();
    assert_eq!(ram_impl.read_long(ADDRESS).unwrap(), long);
}

#[test]
fn multiple_bytes_rw() {
    let bytes = vec![0x12, 0x34, 0x56, 0x78, 0x9A];
    let mut ram_impl = VecBackedMemory::new(SIZE);
    ram_impl.write_bytes(ADDRESS, bytes.clone()).unwrap();
    assert_eq!(
        ram_impl
            .read_bytes(ADDRESS, bytes.len().try_into().unwrap())
            .unwrap(),
        bytes
    );
    assert_eq!(ram_impl.read_long(ADDRESS).unwrap(), 0x12345678);
    assert_eq!(ram_impl.read_byte(ADDRESS + 4).unwrap(), 0x9A);
}

#[test]
fn words_are_big_endian() {
    let mut ram = VecBackedMemory::new(16);
    ram.write_word(2, 0xBEEF).unwrap();
    assert_eq!(ram.read_byte(2).unwrap(), 0xBE);
    assert_eq!(ram.read_byte(3).unwrap(), 0xEF);
    ram.write_long(4, 0x0102_0304).unwrap();
    assert_eq!(ram.read_bytes(4, 4).unwrap(), vec![1, 2, 3, 4]);
    assert_eq!(ram.read(4, OperandSize::Word).unwrap(), M68kInteger::Word(0x0102));
}

#[test]
fn new_memory_is_zeroed() {
    let ram = VecBackedMemory::new(8);
    assert_eq!(ram.read_bytes(0, 8).unwrap(), vec![0; 8]);
}

#[test]
fn read_out_of_bounds_names_the_address() {
    let ram = VecBackedMemory::new(16);
    assert!(matches!(ram.read_byte(16), Err(EmulationError::MemoryOutOfBoundsAccess(16))));
    assert!(matches!(ram.read_long(14), Err(EmulationError::MemoryOutOfBoundsAccess(16))));
    assert!(matches!(ram.read_bytes(10, 8), Err(EmulationError::MemoryOutOfBoundsAccess(16))));
}

#[test]
fn failed_write_changes_nothing() {
    let mut ram = VecBackedMemory::new(16);
    assert!(matches!(ram.write_long(14, 0xFFFF_FFFF), Err(EmulationError::MemoryOutOfBoundsAccess(16))));
    assert!(matches!(ram.write_bytes(12, vec![1, 2, 3, 4, 5]), Err(EmulationError::MemoryOutOfBoundsAccess(16))));
    assert_eq!(ram.read_bytes(0, 16).unwrap(), vec![0; 16]);
}

#[test]
fn write_then_read_every_size() {
    let mut ram = VecBackedMemory::new(64);
    for (address, value) in [
        (0, M68kInteger::Byte(0x7F)),
        (10, M68kInteger::Word(0x1234)),
        (60, M68kInteger::Long(0xCAFE_BABE)),
    ] {
        ram.write(address, value).unwrap();
        assert_eq!(ram.read(address, value.size()).unwrap(), value);
    }
}
