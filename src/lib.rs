//! Motorola 68000 CPU emulation library.
//!
//! The library models the 68000's register file, a flat byte-addressable
//! memory, the effective-address modes and a subset of the instruction set.
//! Every operation is stated against a mathematical model: memory is a
//! `Seq<u8>`, a register file is the `Registers` value itself, and sized
//! integers are read through their numeric value.
//!
//! Condition codes are not modelled: the status register is left unchanged
//! by every instruction.
use vstd::prelude::*;

pub mod cpu;
pub mod parsers;
pub mod ram;

use parsers::ParseError;

verus! {

/// Errors raised while emulating.
#[derive(Debug)]
pub enum EmulationError {
    MemoryOutOfBoundsAccess(u32),
    WriteToReadOnly(&'static str),
    WrongSizeInteger(M68kInteger),
    InvalidOperandSize(i32),
    Parsing(ParseError),
    /// A bounds check (CHK) found its value negative or above the bound.
    BoundsExceeded(M68kInteger),
}

impl From<ParseError> for EmulationError {
    fn from(err: ParseError) -> (r: Self)
        ensures
            r == EmulationError::Parsing(err),
    {
        EmulationError::Parsing(err)
    }
}

impl vstd::std_specs::convert::FromSpecImpl<ParseError> for EmulationError {
    open spec fn obeys_from_spec() -> bool {
        true
    }

    open spec fn from_spec(v: ParseError) -> Self {
        EmulationError::Parsing(v)
    }
}

/// The width of an operand: an 8-bit byte, a 16-bit word or a 32-bit long.
#[derive(Debug, Copy, Clone, PartialEq, Eq, Structural)]
pub enum OperandSize {
    Byte,
    Word,
    Long,
}

impl OperandSize {
    pub open spec fn spec_size_in_bytes(&self) -> u32 {
        match self {
            OperandSize::Byte => 1,
            OperandSize::Word => 2,
            OperandSize::Long => 4,
        }
    }

    /// Number of bits in an operand of this size.
    pub open spec fn bits(&self) -> u32 {
        (8 * self.spec_size_in_bytes()) as u32
    }

    /// `2^bits`: the modulus of arithmetic at this size.
    pub open spec fn modulus(&self) -> nat {
        match self {
            OperandSize::Byte => 0x100,
            OperandSize::Word => 0x1_0000,
            OperandSize::Long => 0x1_0000_0000,
        }
    }

    #[verifier::when_used_as_spec(spec_size_in_bytes)]
    pub fn size_in_bytes(&self) -> (r: u32)
        ensures
            r == self.spec_size_in_bytes(),
    {
        match self {
            OperandSize::Byte => 1,
            OperandSize::Word => 2,
            OperandSize::Long => 4,
        }
    }

    /// The size whose width in bytes is `size`; any count but 1, 2 or 4 is refused.
    pub fn from_size_in_bytes(size: i32) -> (r: Result<Self, EmulationError>)
        ensures
            size == 1 ==> r == Ok::<OperandSize, EmulationError>(OperandSize::Byte),
            size == 2 ==> r == Ok::<OperandSize, EmulationError>(OperandSize::Word),
            size == 4 ==> r == Ok::<OperandSize, EmulationError>(OperandSize::Long),
            size != 1 && size != 2 && size != 4 ==> r == Err::<OperandSize, EmulationError>(
                EmulationError::InvalidOperandSize(size),
            ),
    {
        match size {
            1 => Ok(OperandSize::Byte),
            2 => Ok(OperandSize::Word),
            4 => Ok(OperandSize::Long),
            _ => Err(EmulationError::InvalidOperandSize(size)),
        }
    }
}

/// A byte, word or long, tagged with its size.
#[derive(Debug, PartialEq, Eq, PartialOrd, Ord, Clone, Copy, Structural)]
pub enum M68kInteger {
    Byte(u8),
    Word(u16),
    Long(u32),
}

/// `x` reduced to an operand of the given size, as a tagged integer.
pub open spec fn integer_of(size: OperandSize, x: int) -> M68kInteger {
    match size {
        OperandSize::Byte => M68kInteger::Byte((x % 0x100) as u8),
        OperandSize::Word => M68kInteger::Word((x % 0x1_0000) as u16),
        OperandSize::Long => M68kInteger::Long((x % 0x1_0000_0000) as u32),
    }
}

/// The mask of the low `bits` bits, for `bits` of 8, 16 or 32.
pub open spec fn low_mask(bits: u32) -> u32 {
    if bits == 8 {
        0xFF
    } else if bits == 16 {
        0xFFFF
    } else {
        0xFFFF_FFFF
    }
}

/// Rotation of the low `bits` bits of `x` to the left by `n` places (`n < bits`).
pub open spec fn rotl(x: u32, n: u32, bits: u32) -> u32 {
    if n == 0 {
        x
    } else {
        ((x << n) | (x >> ((bits - n) as u32))) & low_mask(bits)
    }
}

impl M68kInteger {
    pub open spec fn spec_size(&self) -> OperandSize {
        match self {
            M68kInteger::Byte(_) => OperandSize::Byte,
            M68kInteger::Word(_) => OperandSize::Word,
            M68kInteger::Long(_) => OperandSize::Long,
        }
    }

    /// The unsigned value, zero-extended to 32 bits.
    pub open spec fn value(&self) -> u32 {
        match self {
            M68kInteger::Byte(b) => *b as u32,
            M68kInteger::Word(w) => *w as u32,
            M68kInteger::Long(l) => *l,
        }
    }

    #[verifier::when_used_as_spec(spec_size)]
    pub fn size(&self) -> (r: OperandSize)
        ensures
            r == self.spec_size(),
    {
        match self {
            M68kInteger::Byte(_) => OperandSize::Byte,
            M68kInteger::Word(_) => OperandSize::Word,
            M68kInteger::Long(_) => OperandSize::Long,
        }
    }

    pub fn is_size(&self, size: OperandSize) -> (r: bool)
        ensures
            r == (self.spec_size() == size),
    {
        size == self.size()
    }

    pub fn check_size(&self, size: OperandSize) -> (r: Result<(), EmulationError>)
        ensures
            self.spec_size() == size ==> r is Ok,
            self.spec_size() != size ==> r == Err::<(), EmulationError>(
                EmulationError::WrongSizeInteger(*self),
            ),
    {
        if !self.is_size(size) {
            Err(EmulationError::WrongSizeInteger(*self))
        } else {
            Ok(())
        }
    }

    /// The unsigned value, zero-extended to 32 bits.
    pub fn to_u32(&self) -> (r: u32)
        ensures
            r == self.value(),
    {
        match self {
            M68kInteger::Byte(b) => *b as u32,
            M68kInteger::Word(w) => *w as u32,
            M68kInteger::Long(l) => *l,
        }
    }

    /// Sum modulo the operand width.
    pub fn wrapping_add(&self, other: M68kInteger) -> (r: M68kInteger)
        requires
            self.spec_size() == other.spec_size(),
        ensures
            r == integer_of(self.spec_size(), self.value() + other.value()),
    {
        match (self, other) {
            (M68kInteger::Byte(a), M68kInteger::Byte(b)) => M68kInteger::Byte(a.wrapping_add(b)),
            (M68kInteger::Word(a), M68kInteger::Word(b)) => M68kInteger::Word(a.wrapping_add(b)),
            (M68kInteger::Long(a), M68kInteger::Long(b)) => M68kInteger::Long(a.wrapping_add(b)),
            _ => {
                assert(false);
                *self
            },
        }
    }

    /// Difference `self - other` modulo the operand width.
    pub fn wrapping_sub(&self, other: M68kInteger) -> (r: M68kInteger)
        requires
            self.spec_size() == other.spec_size(),
        ensures
            r == integer_of(
                self.spec_size(),
                self.value() - other.value() + self.spec_size().modulus(),
            ),
    {
        match (self, other) {
            (M68kInteger::Byte(a), M68kInteger::Byte(b)) => M68kInteger::Byte(a.wrapping_sub(b)),
            (M68kInteger::Word(a), M68kInteger::Word(b)) => M68kInteger::Word(a.wrapping_sub(b)),
            (M68kInteger::Long(a), M68kInteger::Long(b)) => M68kInteger::Long(a.wrapping_sub(b)),
            _ => {
                assert(false);
                *self
            },
        }
    }

    /// Product modulo the operand width.
    pub fn wrapping_mul(&self, other: M68kInteger) -> (r: M68kInteger)
        requires
            self.spec_size() == other.spec_size(),
        ensures
            r == integer_of(self.spec_size(), self.value() * other.value()),
    {
        match (self, other) {
            (M68kInteger::Byte(a), M68kInteger::Byte(b)) => M68kInteger::Byte(a.wrapping_mul(b)),
            (M68kInteger::Word(a), M68kInteger::Word(b)) => M68kInteger::Word(a.wrapping_mul(b)),
            (M68kInteger::Long(a), M68kInteger::Long(b)) => M68kInteger::Long(a.wrapping_mul(b)),
            _ => {
                assert(false);
                *self
            },
        }
    }

    /// Rotation of `self` to the left by `other` places, modulo the operand width.
    pub fn rotate_left(&self, other: M68kInteger) -> (r: M68kInteger)
        requires
            self.spec_size() == other.spec_size(),
        ensures
            r == integer_of(
                self.spec_size(),
                rotl(
                    self.value(),
                    other.value() % self.spec_size().bits(),
                    self.spec_size().bits(),
                ) as int,
            ),
    {
        let (bits, mask): (u32, u32) = match self {
            M68kInteger::Byte(_) => (8, 0xFF),
            M68kInteger::Word(_) => (16, 0xFFFF),
            M68kInteger::Long(_) => (32, 0xFFFF_FFFF),
        };
        let x = self.to_u32();
        let n = other.to_u32() % bits;
        let rotated: u32 = if n == 0 {
            x
        } else {
            ((x << n) | (x >> (bits - n))) & mask
        };
        match self {
            M68kInteger::Byte(_) => {
                assert(rotated < 0x100) by (bit_vector)
                    requires
                        rotated == (if n == 0 {
                            x
                        } else {
                            ((x << n) | (x >> ((8 - n) as u32))) & 0xFFu32
                        }),
                        x < 0x100,
                ;
                M68kInteger::Byte(rotated as u8)
            },
            M68kInteger::Word(_) => {
                assert(rotated < 0x1_0000) by (bit_vector)
                    requires
                        rotated == (if n == 0 {
                            x
                        } else {
                            ((x << n) | (x >> ((16 - n) as u32))) & 0xFFFFu32
                        }),
                        x < 0x1_0000,
                ;
                M68kInteger::Word(rotated as u16)
            },
            M68kInteger::Long(_) => M68kInteger::Long(rotated),
        }
    }

    /// Bitwise AND.
    pub fn and(&self, other: M68kInteger) -> (r: M68kInteger)
        requires
            self.spec_size() == other.spec_size(),
        ensures
            r == integer_of(self.spec_size(), (self.value() & other.value()) as int),
    {
        match (self, other) {
            (M68kInteger::Byte(a), M68kInteger::Byte(b)) => {
                assert((*a & b) as u32 == (*a as u32) & (b as u32)) by (bit_vector);
                M68kInteger::Byte(*a & b)
            },
            (M68kInteger::Word(a), M68kInteger::Word(b)) => {
                assert((*a & b) as u32 == (*a as u32) & (b as u32)) by (bit_vector);
                M68kInteger::Word(*a & b)
            },
            (M68kInteger::Long(a), M68kInteger::Long(b)) => M68kInteger::Long(*a & b),
            _ => {
                assert(false);
                *self
            },
        }
    }

    /// Bitwise inclusive OR.
    pub fn or(&self, other: M68kInteger) -> (r: M68kInteger)
        requires
            self.spec_size() == other.spec_size(),
        ensures
            r == integer_of(self.spec_size(), (self.value() | other.value()) as int),
    {
        match (self, other) {
            (M68kInteger::Byte(a), M68kInteger::Byte(b)) => {
                assert((*a | b) as u32 == (*a as u32) | (b as u32)) by (bit_vector);
                M68kInteger::Byte(*a | b)
            },
            (M68kInteger::Word(a), M68kInteger::Word(b)) => {
                assert((*a | b) as u32 == (*a as u32) | (b as u32)) by (bit_vector);
                M68kInteger::Word(*a | b)
            },
            (M68kInteger::Long(a), M68kInteger::Long(b)) => M68kInteger::Long(*a | b),
            _ => {
                assert(false);
                *self
            },
        }
    }

    /// Bitwise exclusive OR.
    pub fn xor(&self, other: M68kInteger) -> (r: M68kInteger)
        requires
            self.spec_size() == other.spec_size(),
        ensures
            r == integer_of(self.spec_size(), (self.value() ^ other.value()) as int),
    {
        match (self, other) {
            (M68kInteger::Byte(a), M68kInteger::Byte(b)) => {
                assert((*a ^ b) as u32 == (*a as u32) ^ (b as u32)) by (bit_vector);
                M68kInteger::Byte(*a ^ b)
            },
            (M68kInteger::Word(a), M68kInteger::Word(b)) => {
                assert((*a ^ b) as u32 == (*a as u32) ^ (b as u32)) by (bit_vector);
                M68kInteger::Word(*a ^ b)
            },
            (M68kInteger::Long(a), M68kInteger::Long(b)) => M68kInteger::Long(*a ^ b),
            _ => {
                assert(false);
                *self
            },
        }
    }
}

impl From<M68kInteger> for u32 {
    fn from(val: M68kInteger) -> (r: u32)
        ensures
            r == val.value(),
    {
        val.to_u32()
    }
}

impl vstd::std_specs::convert::FromSpecImpl<M68kInteger> for u32 {
    open spec fn obeys_from_spec() -> bool {
        true
    }

    open spec fn from_spec(v: M68kInteger) -> u32 {
        v.value()
    }
}

/// The hexadecimal digit for `d < 16`, upper case.
pub open spec fn hex_char(d: nat) -> char {
    if d < 10 {
        (('0' as u32) + d) as char
    } else {
        (('A' as u32) + d - 10) as char
    }
}

/// The last `width` hexadecimal digits of `v`, most significant first, upper case.
pub open spec fn hex_digits(v: nat, width: nat) -> Seq<char>
    decreases width,
{
    if width == 0 {
        Seq::empty()
    } else {
        hex_digits(v / 16, (width - 1) as nat).push(hex_char(v % 16))
    }
}

/// The hexadecimal digit `d` as a one-character string.
fn hex_digit(d: u32) -> (r: &'static str)
    requires
        d < 16,
    ensures
        r@ == seq![hex_char(d as nat)],
{
    match d {
        0 => {
            proof {
                reveal_strlit("0");
            }
            "0"
        },
        1 => {
            proof {
                reveal_strlit("1");
            }
            "1"
        },
        2 => {
            proof {
                reveal_strlit("2");
            }
            "2"
        },
        3 => {
            proof {
                reveal_strlit("3");
            }
            "3"
        },
        4 => {
            proof {
                reveal_strlit("4");
            }
            "4"
        },
        5 => {
            proof {
                reveal_strlit("5");
            }
            "5"
        },
        6 => {
            proof {
                reveal_strlit("6");
            }
            "6"
        },
        7 => {
            proof {
                reveal_strlit("7");
            }
            "7"
        },
        8 => {
            proof {
                reveal_strlit("8");
            }
            "8"
        },
        9 => {
            proof {
                reveal_strlit("9");
            }
            "9"
        },
        10 => {
            proof {
                reveal_strlit("A");
            }
            "A"
        },
        11 => {
            proof {
                reveal_strlit("B");
            }
            "B"
        },
        12 => {
            proof {
                reveal_strlit("C");
            }
            "C"
        },
        13 => {
            proof {
                reveal_strlit("D");
            }
            "D"
        },
        14 => {
            proof {
                reveal_strlit("E");
            }
            "E"
        },
        _ => {
            proof {
                reveal_strlit("F");
            }
            "F"
        },
    }
}

/// The last `width` hexadecimal digits of `v`, upper case, most significant first.
fn hex_string(v: u32, width: usize) -> (r: String)
    requires
        width <= 8,
    ensures
        r@ == hex_digits(v as nat, width as nat),
{
    let mut quotients: Vec<u32> = Vec::new();
    quotients.push(v);
    while quotients.len() <= width
        invariant
            1 <= quotients@.len() <= width + 1,
            quotients@[0] == v,
            forall|j: int|
                0 < j < quotients@.len() ==> #[trigger] quotients@[j] == quotients@[j - 1] / 16,
        decreases width + 1 - quotients@.len(),
    {
        let last = quotients[quotients.len() - 1];
        quotients.push(last / 16);
    }
    let mut text = String::new();
    let mut k: usize = 0;
    while k < width
        invariant
            k <= width,
            quotients@.len() == width + 1,
            quotients@[0] == v,
            forall|j: int|
                0 < j < quotients@.len() ==> #[trigger] quotients@[j] == quotients@[j - 1] / 16,
            text@ == hex_digits(quotients@[width - k] as nat, k as nat),
        decreases width - k,
    {
        let u = quotients[width - 1 - k];
        assert(quotients@[width - k] == u / 16);
        text.append(hex_digit(u % 16));
        k = k + 1;
    }
    text
}

/// Two upper-case hexadecimal digits, zero-padded.
pub fn hex_format_byte(byte: u8) -> (r: String)
    ensures
        r@ == hex_digits(byte as nat, 2),
{
    hex_string(byte as u32, 2)
}

/// Four upper-case hexadecimal digits, zero-padded.
pub fn hex_format_word(word: u16) -> (r: String)
    ensures
        r@ == hex_digits(word as nat, 4),
{
    hex_string(word as u32, 4)
}

/// Eight upper-case hexadecimal digits, zero-padded.
pub fn hex_format_long(long: u32) -> (r: String)
    ensures
        r@ == hex_digits(long as nat, 8),
{
    hex_string(long, 8)
}

} // verus!
