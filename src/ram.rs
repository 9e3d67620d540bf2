//! Emulation of random-access memory (RAM).
//!
//! Memory is a flat array of bytes; an address names one byte. Words and
//! longs are stored big-endian: the most significant byte at the lowest
//! address. Multi-byte accesses wrap around at 2^32 like all address
//! arithmetic, and either complete or leave memory untouched.
use crate::{integer_of, EmulationError, M68kInteger, OperandSize};
use vstd::prelude::*;

verus! {

/// The address `i` bytes after `address`, wrapping at 2^32.
pub open spec fn offset(address: u32, i: int) -> u32 {
    ((address as int + i) % 0x1_0000_0000) as u32
}

/// The first address among the bytes `i..n` after `address` that lies outside
/// a memory of `len` bytes.
pub open spec fn first_out_of_range(len: nat, address: u32, i: nat, n: nat) -> Option<u32>
    decreases n - i,
{
    if i >= n {
        None
    } else if offset(address, i as int) >= len {
        Some(offset(address, i as int))
    } else {
        first_out_of_range(len, address, i + 1, n)
    }
}

/// Whether the `n` bytes from `address` all lie in a memory of `len` bytes;
/// if not, the error names the first one outside.
pub open spec fn span_check(len: nat, address: u32, n: nat) -> Result<(), EmulationError> {
    match first_out_of_range(len, address, 0, n) {
        Some(a) => Err(EmulationError::MemoryOutOfBoundsAccess(a)),
        None => Ok(()),
    }
}

/// The big-endian integer of the given size stored at `address`.
pub open spec fn decode_at(mem: Seq<u8>, address: u32, size: OperandSize) -> M68kInteger {
    let b0 = mem[offset(address, 0) as int] as int;
    let b1 = mem[offset(address, 1) as int] as int;
    let b2 = mem[offset(address, 2) as int] as int;
    let b3 = mem[offset(address, 3) as int] as int;
    match size {
        OperandSize::Byte => integer_of(size, b0),
        OperandSize::Word => integer_of(size, b0 * 0x100 + b1),
        OperandSize::Long => integer_of(size, b0 * 0x100_0000 + b1 * 0x1_0000 + b2 * 0x100 + b3),
    }
}

/// Reading an integer of the given size at `address`.
pub open spec fn read_value(mem: Seq<u8>, address: u32, size: OperandSize) -> Result<
    M68kInteger,
    EmulationError,
> {
    match span_check(mem.len(), address, size.spec_size_in_bytes() as nat) {
        Err(e) => Err(e),
        Ok(_) => Ok(decode_at(mem, address, size)),
    }
}

/// `mem` with the big-endian bytes of `value` stored at `address`.
pub open spec fn encode_at(mem: Seq<u8>, address: u32, value: M68kInteger) -> Seq<u8> {
    let a0 = offset(address, 0) as int;
    let a1 = offset(address, 1) as int;
    let a2 = offset(address, 2) as int;
    let a3 = offset(address, 3) as int;
    match value {
        M68kInteger::Byte(b) => mem.update(a0, b),
        M68kInteger::Word(w) => mem.update(a0, (w / 0x100) as u8).update(a1, (w % 0x100) as u8),
        M68kInteger::Long(l) => mem.update(a0, (l / 0x100_0000) as u8).update(
            a1,
            ((l / 0x1_0000) % 0x100) as u8,
        ).update(a2, ((l / 0x100) % 0x100) as u8).update(a3, (l % 0x100) as u8),
    }
}

/// Writing `value` at `address`: the memory afterwards, or the error.
pub open spec fn write_value(mem: Seq<u8>, address: u32, value: M68kInteger) -> Result<
    Seq<u8>,
    EmulationError,
> {
    match span_check(mem.len(), address, value.spec_size().spec_size_in_bytes() as nat) {
        Err(e) => Err(e),
        Ok(_) => Ok(encode_at(mem, address, value)),
    }
}

/// Reading `n` consecutive bytes from `address`.
pub open spec fn read_span(mem: Seq<u8>, address: u32, n: nat) -> Result<Seq<u8>, EmulationError> {
    match span_check(mem.len(), address, n) {
        Err(e) => Err(e),
        Ok(_) => Ok(Seq::new(n, |i: int| mem[offset(address, i) as int])),
    }
}

/// `mem` with `bytes` stored one after another from `address`.
pub open spec fn store_bytes(mem: Seq<u8>, address: u32, bytes: Seq<u8>) -> Seq<u8>
    decreases bytes.len(),
{
    if bytes.len() == 0 {
        mem
    } else {
        store_bytes(mem, address, bytes.drop_last()).update(
            offset(address, bytes.len() - 1) as int,
            bytes.last(),
        )
    }
}

/// Writing `bytes` from `address`: the memory afterwards, or the error.
pub open spec fn write_span(mem: Seq<u8>, address: u32, bytes: Seq<u8>) -> Result<
    Seq<u8>,
    EmulationError,
> {
    match span_check(mem.len(), address, bytes.len()) {
        Err(e) => Err(e),
        Ok(_) => Ok(store_bytes(mem, address, bytes)),
    }
}

/// A result of a read narrowed to a byte.
pub open spec fn as_byte(r: Result<M68kInteger, EmulationError>) -> Result<u8, EmulationError> {
    match r {
        Ok(v) => Ok(v.value() as u8),
        Err(e) => Err(e),
    }
}

/// A result of a read narrowed to a word.
pub open spec fn as_word(r: Result<M68kInteger, EmulationError>) -> Result<u16, EmulationError> {
    match r {
        Ok(v) => Ok(v.value() as u16),
        Err(e) => Err(e),
    }
}

/// A result of a read as a long.
pub open spec fn as_long(r: Result<M68kInteger, EmulationError>) -> Result<u32, EmulationError> {
    match r {
        Ok(v) => Ok(v.value()),
        Err(e) => Err(e),
    }
}

/// Whether a write that produced `r` took memory from `before` to `after`:
/// the new contents on success, no change on failure.
pub open spec fn write_outcome(
    r: Result<(), EmulationError>,
    before: Seq<u8>,
    after: Seq<u8>,
    expected: Result<Seq<u8>, EmulationError>,
) -> bool {
    match expected {
        Ok(m) => r is Ok && after == m,
        Err(e) => r == Err::<(), EmulationError>(e) && after == before,
    }
}

/// A byte-addressable memory.
pub trait Memory: Sized {
    /// The bytes held, indexed by address.
    spec fn bytes(&self) -> Seq<u8>;

    /// A memory of `size_in_bytes` zero bytes.
    fn new(size_in_bytes: usize) -> (m: Self)
        ensures
            m.bytes() == Seq::new(size_in_bytes as nat, |_i: int| 0u8),
    ;

    fn read(&self, address: u32, size: OperandSize) -> (r: Result<M68kInteger, EmulationError>)
        ensures
            r == read_value(self.bytes(), address, size),
    ;

    fn read_byte(&self, address: u32) -> (r: Result<u8, EmulationError>)
        ensures
            r == as_byte(read_value(self.bytes(), address, OperandSize::Byte)),
    ;

    fn read_word(&self, address: u32) -> (r: Result<u16, EmulationError>)
        ensures
            r == as_word(read_value(self.bytes(), address, OperandSize::Word)),
    ;

    fn read_long(&self, address: u32) -> (r: Result<u32, EmulationError>)
        ensures
            r == as_long(read_value(self.bytes(), address, OperandSize::Long)),
    ;

    fn read_bytes(&self, address: u32, len: u32) -> (r: Result<Vec<u8>, EmulationError>)
        ensures
            match read_span(self.bytes(), address, len as nat) {
                Ok(s) => r is Ok && r->Ok_0@ == s,
                Err(e) => r == Err::<Vec<u8>, EmulationError>(e),
            },
    ;

    fn write(&mut self, address: u32, value: M68kInteger) -> (r: Result<(), EmulationError>)
        ensures
            write_outcome(
                r,
                old(self).bytes(),
                final(self).bytes(),
                write_value(old(self).bytes(), address, value),
            ),
    ;

    fn write_byte(&mut self, address: u32, value: u8) -> (r: Result<(), EmulationError>)
        ensures
            write_outcome(
                r,
                old(self).bytes(),
                final(self).bytes(),
                write_value(old(self).bytes(), address, M68kInteger::Byte(value)),
            ),
    ;

    fn write_word(&mut self, address: u32, value: u16) -> (r: Result<(), EmulationError>)
        ensures
            write_outcome(
                r,
                old(self).bytes(),
                final(self).bytes(),
                write_value(old(self).bytes(), address, M68kInteger::Word(value)),
            ),
    ;

    fn write_long(&mut self, address: u32, value: u32) -> (r: Result<(), EmulationError>)
        ensures
            write_outcome(
                r,
                old(self).bytes(),
                final(self).bytes(),
                write_value(old(self).bytes(), address, M68kInteger::Long(value)),
            ),
    ;

    fn write_bytes(&mut self, address: u32, bytes: Vec<u8>) -> (r: Result<(), EmulationError>)
        ensures
            write_outcome(
                r,
                old(self).bytes(),
                final(self).bytes(),
                write_span(old(self).bytes(), address, bytes@),
            ),
    ;
}

/// Skipping bytes known to lie in range does not change the first one outside.
proof fn lemma_first_out_of_range_skip(len: nat, address: u32, k: nat, i: nat, n: nat)
    requires
        k <= i <= n,
        forall|j: int| k <= j < i ==> offset(address, j) < len,
    ensures
        first_out_of_range(len, address, k, n) == first_out_of_range(len, address, i, n),
    decreases i - k,
{
    if k < i {
        lemma_first_out_of_range_skip(len, address, k + 1, i, n);
    }
}

/// The first byte outside is one of the `n` bytes, and all bytes before it lie inside.
proof fn lemma_first_out_of_range_none(len: nat, address: u32, k: nat, n: nat)
    requires
        k <= n,
        first_out_of_range(len, address, k, n) is None,
    ensures
        forall|j: int| k <= j < n ==> offset(address, j) < len,
    decreases n - k,
{
    if k < n {
        lemma_first_out_of_range_none(len, address, k + 1, n);
    }
}

/// The address after `offset(address, i)` is `offset(address, i + 1)`.
proof fn lemma_offset_next(address: u32, i: int)
    requires
        0 <= i,
    ensures
        offset(address, i + 1) == (offset(address, i) as int + 1) % 0x1_0000_0000,
{
    vstd::arithmetic::div_mod::lemma_add_mod_noop(address as int + i, 1, 0x1_0000_0000);
}

/// The four bytes of a long lie at four distinct addresses.
proof fn lemma_offsets_distinct(address: u32)
    ensures
        offset(address, 0) != offset(address, 1),
        offset(address, 0) != offset(address, 2),
        offset(address, 0) != offset(address, 3),
        offset(address, 1) != offset(address, 2),
        offset(address, 1) != offset(address, 3),
        offset(address, 2) != offset(address, 3),
{
}

/// Writing a value and reading it back at the same address, at the value's
/// size, gives the value.
pub proof fn lemma_write_then_read(mem: Seq<u8>, address: u32, value: M68kInteger)
    requires
        write_value(mem, address, value) is Ok,
    ensures
        read_value(write_value(mem, address, value)->Ok_0, address, value.spec_size()) == Ok::<
            M68kInteger,
            EmulationError,
        >(value),
{
    lemma_offsets_distinct(address);
    lemma_first_out_of_range_none(
        mem.len(),
        address,
        0,
        value.spec_size().spec_size_in_bytes() as nat,
    );
    let m = write_value(mem, address, value)->Ok_0;
    assert(m.len() == mem.len());
    match value {
        M68kInteger::Byte(b) => {},
        M68kInteger::Word(w) => {
            assert((w / 0x100) as u8 as int * 0x100 + (w % 0x100) as u8 as int == w);
        },
        M68kInteger::Long(l) => {
            assert((l / 0x100_0000) as u8 as int * 0x100_0000 + ((l / 0x1_0000) % 0x100) as u8 as int
                * 0x1_0000 + ((l / 0x100) % 0x100) as u8 as int * 0x100 + (l % 0x100) as u8 as int
                == l) by (nonlinear_arith);
        },
    }
}

/// A write changes only the bytes of the value: every other byte, and the
/// length, stay as they were.
pub proof fn lemma_write_keeps_other_bytes(mem: Seq<u8>, address: u32, value: M68kInteger, j: int)
    requires
        write_value(mem, address, value) is Ok,
        0 <= j < mem.len(),
        forall|i: int|
            0 <= i < value.spec_size().spec_size_in_bytes() ==> j != offset(address, i) as int,
    ensures
        write_value(mem, address, value)->Ok_0.len() == mem.len(),
        write_value(mem, address, value)->Ok_0[j] == mem[j],
{
    lemma_first_out_of_range_none(
        mem.len(),
        address,
        0,
        value.spec_size().spec_size_in_bytes() as nat,
    );
    assert(j != offset(address, 0) as int);
    if value.spec_size().spec_size_in_bytes() >= 2 {
        assert(j != offset(address, 1) as int);
    }
    if value.spec_size().spec_size_in_bytes() >= 4 {
        assert(j != offset(address, 2) as int);
        assert(j != offset(address, 3) as int);
    }
}

/// Naive `Vec<u8>` implementation of RAM.
pub struct VecBackedMemory {
    random_access_buf: Vec<u8>,
}

impl VecBackedMemory {
    /// The address `i` bytes after `address`.
    fn offset_of(address: u32, i: u32) -> (r: u32)
        ensures
            r == offset(address, i as int),
    {
        address.wrapping_add(i)
    }

    /// Checks that the `n` bytes from `address` all lie in memory.
    fn check_span(&self, address: u32, n: usize) -> (r: Result<(), EmulationError>)
        ensures
            r == span_check(self.random_access_buf@.len(), address, n as nat),
    {
        let len = self.random_access_buf.len();
        let mut i: usize = 0;
        let mut a: u32 = address;
        while i < n
            invariant
                i <= n,
                len == self.random_access_buf@.len(),
                a == offset(address, i as int),
                forall|j: int| 0 <= j < i ==> offset(address, j) < len,
            decreases n - i,
        {
            if a as usize >= len {
                proof {
                    lemma_first_out_of_range_skip(len as nat, address, 0, i as nat, n as nat);
                }
                return Err(EmulationError::MemoryOutOfBoundsAccess(a));
            }
            proof {
                lemma_offset_next(address, i as int);
            }
            a = a.wrapping_add(1);
            i = i + 1;
        }
        proof {
            lemma_first_out_of_range_skip(len as nat, address, 0, n as nat, n as nat);
        }
        Ok(())
    }
}

impl Memory for VecBackedMemory {
    closed spec fn bytes(&self) -> Seq<u8> {
        self.random_access_buf@
    }

    fn new(size_in_bytes: usize) -> (m: Self) {
        let m = Self { random_access_buf: vec![0; size_in_bytes] };
        assert(m.random_access_buf@ =~= Seq::new(size_in_bytes as nat, |_i: int| 0u8));
        m
    }

    fn read(&self, address: u32, size: OperandSize) -> (r: Result<M68kInteger, EmulationError>) {
        match size {
            OperandSize::Byte => Ok(M68kInteger::Byte(self.read_byte(address)?)),
            OperandSize::Word => Ok(M68kInteger::Word(self.read_word(address)?)),
            OperandSize::Long => Ok(M68kInteger::Long(self.read_long(address)?)),
        }
    }

    fn read_byte(&self, address: u32) -> (r: Result<u8, EmulationError>) {
        match self.check_span(address, 1) {
            Err(e) => Err(e),
            Ok(()) => {
                proof {
                    lemma_first_out_of_range_none(self.random_access_buf@.len(), address, 0, 1);
                }
                Ok(self.random_access_buf[Self::offset_of(address, 0) as usize])
            },
        }
    }

    fn read_bytes(&self, address: u32, len: u32) -> (r: Result<Vec<u8>, EmulationError>) {
        match self.check_span(address, len as usize) {
            Err(e) => Err(e),
            Ok(()) => {
                proof {
                    lemma_first_out_of_range_none(
                        self.random_access_buf@.len(),
                        address,
                        0,
                        len as nat,
                    );
                }
                let mut bytes: Vec<u8> = Vec::new();
                let mut i: u32 = 0;
                while i < len
                    invariant
                        i <= len,
                        forall|j: int|
                            0 <= j < len ==> offset(address, j) < self.random_access_buf@.len(),
                        bytes@ =~= Seq::new(
                            i as nat,
                            |j: int| self.random_access_buf@[offset(address, j) as int],
                        ),
                    decreases len - i,
                {
                    let a = Self::offset_of(address, i);
                    bytes.push(self.random_access_buf[a as usize]);
                    i = i + 1;
                }
                Ok(bytes)
            },
        }
    }

    fn read_word(&self, address: u32) -> (r: Result<u16, EmulationError>) {
        match self.check_span(address, 2) {
            Err(e) => Err(e),
            Ok(()) => {
                proof {
                    lemma_first_out_of_range_none(self.random_access_buf@.len(), address, 0, 2);
                }
                let high_byte = self.random_access_buf[Self::offset_of(address, 0) as usize];
                let low_byte = self.random_access_buf[Self::offset_of(address, 1) as usize];
                Ok((high_byte as u16) * 0x100 + low_byte as u16)
            },
        }
    }

    fn read_long(&self, address: u32) -> (r: Result<u32, EmulationError>) {
        match self.check_span(address, 4) {
            Err(e) => Err(e),
            Ok(()) => {
                proof {
                    lemma_first_out_of_range_none(self.random_access_buf@.len(), address, 0, 4);
                }
                let b0 = self.random_access_buf[Self::offset_of(address, 0) as usize];
                let b1 = self.random_access_buf[Self::offset_of(address, 1) as usize];
                let b2 = self.random_access_buf[Self::offset_of(address, 2) as usize];
                let b3 = self.random_access_buf[Self::offset_of(address, 3) as usize];
                Ok((b0 as u32) * 0x100_0000 + (b1 as u32) * 0x1_0000 + (b2 as u32) * 0x100
                    + b3 as u32)
            },
        }
    }

    fn write(&mut self, address: u32, value: M68kInteger) -> (r: Result<(), EmulationError>) {
        match value {
            M68kInteger::Byte(value) => self.write_byte(address, value),
            M68kInteger::Word(value) => self.write_word(address, value),
            M68kInteger::Long(value) => self.write_long(address, value),
        }
    }

    fn write_byte(&mut self, address: u32, value: u8) -> (r: Result<(), EmulationError>) {
        match self.check_span(address, 1) {
            Err(e) => Err(e),
            Ok(()) => {
                proof {
                    lemma_first_out_of_range_none(self.random_access_buf@.len(), address, 0, 1);
                }
                self.random_access_buf.set(Self::offset_of(address, 0) as usize, value);
                Ok(())
            },
        }
    }

    fn write_bytes(&mut self, address: u32, bytes: Vec<u8>) -> (r: Result<(), EmulationError>) {
        match self.check_span(address, bytes.len()) {
            Err(e) => Err(e),
            Ok(()) => {
                proof {
                    lemma_first_out_of_range_none(
                        self.random_access_buf@.len(),
                        address,
                        0,
                        bytes@.len(),
                    );
                }
                let ghost before = self.random_access_buf@;
                let mut i: usize = 0;
                let mut a: u32 = address;
                while i < bytes.len()
                    invariant
                        i <= bytes@.len(),
                        a == offset(address, i as int),
                        self.random_access_buf@.len() == before.len(),
                        forall|j: int|
                            0 <= j < bytes@.len() ==> offset(address, j) < before.len(),
                        self.random_access_buf@ == store_bytes(
                            before,
                            address,
                            bytes@.subrange(0, i as int),
                        ),
                    decreases bytes@.len() - i,
                {
                    proof {
                        lemma_offset_next(address, i as int);
                        assert(bytes@.subrange(0, i + 1).drop_last() =~= bytes@.subrange(
                            0,
                            i as int,
                        ));
                    }
                    self.random_access_buf.set(a as usize, bytes[i]);
                    a = a.wrapping_add(1);
                    i = i + 1;
                }
                assert(bytes@.subrange(0, bytes@.len() as int) =~= bytes@);
                Ok(())
            },
        }
    }

    fn write_word(&mut self, address: u32, value: u16) -> (r: Result<(), EmulationError>) {
        match self.check_span(address, 2) {
            Err(e) => Err(e),
            Ok(()) => {
                proof {
                    lemma_first_out_of_range_none(self.random_access_buf@.len(), address, 0, 2);
                }
                let a0 = Self::offset_of(address, 0);
                let a1 = Self::offset_of(address, 1);
                self.random_access_buf.set(a0 as usize, (value / 0x100) as u8);
                self.random_access_buf.set(a1 as usize, (value % 0x100) as u8);
                Ok(())
            },
        }
    }

    fn write_long(&mut self, address: u32, long: u32) -> (r: Result<(), EmulationError>) {
        match self.check_span(address, 4) {
            Err(e) => Err(e),
            Ok(()) => {
                proof {
                    lemma_first_out_of_range_none(self.random_access_buf@.len(), address, 0, 4);
                }
                let a0 = Self::offset_of(address, 0);
                let a1 = Self::offset_of(address, 1);
                let a2 = Self::offset_of(address, 2);
                let a3 = Self::offset_of(address, 3);
                self.random_access_buf.set(a0 as usize, (long / 0x100_0000) as u8);
                self.random_access_buf.set(a1 as usize, ((long / 0x1_0000) % 0x100) as u8);
                self.random_access_buf.set(a2 as usize, ((long / 0x100) % 0x100) as u8);
                self.random_access_buf.set(a3 as usize, (long % 0x100) as u8);
                Ok(())
            },
        }
    }
}

} // verus!
