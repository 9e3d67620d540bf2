//! Parses 68000 assembly.
//!
//! An instruction is a mnemonic, a space, and its operands separated by a
//! comma outside parentheses. Mnemonics, register names and size suffixes
//! are case-insensitive. Operand syntax:
//!
//! - register direct: `d0`..`d7`, `a0`..`a7`, `sp`, `pc`, with an optional
//!   size suffix `.b`, `.w` or `.l`;
//! - immediate: `#n`, where `n` is decimal or, after `$`, hexadecimal;
//! - absolute: `(n)`, optionally followed by a size suffix;
//! - register indirect: `(An)`, `(An)+`, `-(An)`;
//! - displacement: `(d, An)` or `(d, pc)`;
//! - indexed: `(d, An, Xi.sz)` or `(d, pc, Xi.sz)`;
//! - memory indirect, pre-indexed: `([bd, An, Xi.sz], od)`, `od` optional;
//! - memory indirect, post-indexed: `([bd, An], Xi.sz, od)`, `od` optional.
//!
//! Spaces around the parts inside parentheses are ignored.
use crate::cpu::addressing::AddressMode;
use crate::cpu::isa_68000::Instruction;
use crate::cpu::registers::{AddressRegister, DataRegister, Register};
use crate::parsers::{outcome_matches, ParseError, ParseErrorKind, Parser};
use crate::OperandSize;
use vstd::prelude::*;

verus! {

// ---------------------------------------------------------------------------
// Text

/// Whether `c` is white space.
pub open spec fn is_space(c: char) -> bool {
    c == ' ' || c == '\t' || c == '\n' || c == '\r'
}

/// Whether `c` is the lower-case letter `l` or its upper-case form.
pub open spec fn is_letter(c: char, l: char) -> bool {
    c == l || (c as u32) + 32 == (l as u32)
}

/// The index of the first character at or after `i` that is not white space
/// (`s.len()` if there is none).
pub open spec fn first_non_space(s: Seq<char>, i: int) -> int
    decreases s.len() - i,
{
    if i >= s.len() || i < 0 {
        s.len() as int
    } else if is_space(s[i]) {
        first_non_space(s, i + 1)
    } else {
        i
    }
}

/// The end of `s.take(j)` once trailing white space is removed.
pub open spec fn end_non_space(s: Seq<char>, j: int) -> int
    decreases j,
{
    if j <= 0 || j > s.len() {
        0
    } else if is_space(s[j - 1]) {
        end_non_space(s, j - 1)
    } else {
        j
    }
}

/// `s` without leading and trailing white space.
pub open spec fn trimmed(s: Seq<char>) -> Seq<char> {
    let a = first_non_space(s, 0);
    let b = end_non_space(s, s.len() as int);
    if a >= b {
        Seq::empty()
    } else {
        s.subrange(a, b)
    }
}

/// The index of the first `c` at or after `i`, or -1.
pub open spec fn index_from(s: Seq<char>, c: char, i: int) -> int
    decreases s.len() - i,
{
    if i >= s.len() || i < 0 {
        -1
    } else if s[i] == c {
        i
    } else {
        index_from(s, c, i + 1)
    }
}

/// The index of the last `c` before `j`, or -1.
pub open spec fn last_index_before(s: Seq<char>, c: char, j: int) -> int
    decreases j,
{
    if j <= 0 || j > s.len() {
        -1
    } else if s[j - 1] == c {
        j - 1
    } else {
        last_index_before(s, c, j - 1)
    }
}

/// The comma-separated parts of `s`, untrimmed.
pub open spec fn split_commas(s: Seq<char>) -> Seq<Seq<char>>
    decreases s.len(),
{
    if s.len() == 0 {
        seq![Seq::empty()]
    } else {
        let p = split_commas(s.drop_last());
        if s.last() == ',' {
            p.push(Seq::empty())
        } else {
            p.update(p.len() - 1, p.last().push(s.last()))
        }
    }
}

/// The comma-separated parts of `s`, each trimmed.
pub open spec fn parts(s: Seq<char>) -> Seq<Seq<char>> {
    split_commas(s).map_values(|p: Seq<char>| trimmed(p))
}

proof fn lemma_split_commas_nonempty(s: Seq<char>)
    ensures
        split_commas(s).len() >= 1,
    decreases s.len(),
{
    if s.len() > 0 {
        lemma_split_commas_nonempty(s.drop_last());
    }
}

/// White space is skipped from `k` to `i`.
proof fn lemma_first_non_space_skip(s: Seq<char>, k: int, i: int)
    requires
        0 <= k <= i <= s.len(),
        forall|j: int| k <= j < i ==> is_space(s[j]),
    ensures
        first_non_space(s, k) == first_non_space(s, i),
    decreases i - k,
{
    if k < i {
        lemma_first_non_space_skip(s, k + 1, i);
    }
}

/// Characters other than `c` are skipped from `k` to `i`.
proof fn lemma_index_from_skip(s: Seq<char>, c: char, k: int, i: int)
    requires
        0 <= k <= i <= s.len(),
        forall|j: int| k <= j < i ==> s[j] != c,
    ensures
        index_from(s, c, k) == index_from(s, c, i),
    decreases i - k,
{
    if k < i {
        lemma_index_from_skip(s, c, k + 1, i);
    }
}

/// The number of characters in `s`.
fn char_count(s: &str) -> (r: usize)
    ensures
        r == s@.len(),
{
    s.unicode_len()
}

/// `s` without leading and trailing white space.
pub fn trim(s: &str) -> (r: &str)
    ensures
        r@ == trimmed(s@),
{
    let n = char_count(s);
    let mut a: usize = 0;
    while a < n && is_space_char(s.get_char(a))
        invariant
            a <= n,
            n == s@.len(),
            forall|j: int| 0 <= j < a ==> is_space(s@[j]),
        decreases n - a,
    {
        a = a + 1;
    }
    proof {
        lemma_first_non_space_skip(s@, 0, a as int);
    }
    let mut b: usize = n;
    while b > 0 && is_space_char(s.get_char(b - 1))
        invariant
            b <= n,
            n == s@.len(),
            end_non_space(s@, n as int) == end_non_space(s@, b as int),
        decreases b,
    {
        b = b - 1;
    }
    if a >= b {
        s.substring_char(0, 0)
    } else {
        s.substring_char(a, b)
    }
}

fn is_space_char(c: char) -> (r: bool)
    ensures
        r == is_space(c),
{
    c == ' ' || c == '\t' || c == '\n' || c == '\r'
}

fn is_letter_char(c: char, l: char) -> (r: bool)
    requires
        'a' <= l <= 'z',
    ensures
        r == is_letter(c, l),
{
    c == l || (c as u32) + 32 == (l as u32)
}

/// The index of the first `c` in `s`, if any.
fn find_char(s: &str, c: char) -> (r: Option<usize>)
    ensures
        index_from(s@, c, 0) < 0 ==> r is None,
        index_from(s@, c, 0) >= 0 ==> r == Some(index_from(s@, c, 0) as usize),
        r matches Some(i) ==> i < s@.len() && i == index_from(s@, c, 0),
{
    let n = char_count(s);
    let mut i: usize = 0;
    while i < n
        invariant
            i <= n,
            n == s@.len(),
            forall|j: int| 0 <= j < i ==> s@[j] != c,
        decreases n - i,
    {
        if s.get_char(i) == c {
            proof {
                lemma_index_from_skip(s@, c, 0, i as int);
            }
            return Some(i);
        }
        i = i + 1;
    }
    proof {
        lemma_index_from_skip(s@, c, 0, n as int);
    }
    None
}

/// The index of the last `c` in `s`, if any.
fn find_last_char(s: &str, c: char) -> (r: Option<usize>)
    ensures
        last_index_before(s@, c, s@.len() as int) < 0 ==> r is None,
        last_index_before(s@, c, s@.len() as int) >= 0 ==> r == Some(
            last_index_before(s@, c, s@.len() as int) as usize,
        ),
        r matches Some(k) ==> k < s@.len() && k == last_index_before(s@, c, s@.len() as int),
        r is None ==> last_index_before(s@, c, s@.len() as int) < 0,
{
    let n = char_count(s);
    let mut j: usize = n;
    while j > 0
        invariant
            j <= n,
            n == s@.len(),
            last_index_before(s@, c, n as int) == last_index_before(s@, c, j as int),
        decreases j,
    {
        if s.get_char(j - 1) == c {
            return Some(j - 1);
        }
        j = j - 1;
    }
    None
}

/// The comma-separated parts of `s`, each trimmed.
fn split_parts<'a>(s: &'a str) -> (r: Vec<&'a str>)
    ensures
        r@.len() == parts(s@).len(),
        forall|k: int| 0 <= k < r@.len() ==> #[trigger] r@[k]@ == parts(s@)[k],
{
    let n = char_count(s);
    let mut finished: Vec<&'a str> = Vec::new();
    let mut start: usize = 0;
    let mut i: usize = 0;
    while i < n
        invariant
            start <= i <= n,
            n == s@.len(),
            finished@.len() + 1 == split_commas(s@.take(i as int)).len(),
            forall|k: int|
                0 <= k < finished@.len() ==> #[trigger] finished@[k]@ == trimmed(
                    split_commas(s@.take(i as int))[k],
                ),
            split_commas(s@.take(i as int)).last() == s@.subrange(start as int, i as int),
        decreases n - i,
    {
        let c = s.get_char(i);
        proof {
            assert(s@.take(i + 1).drop_last() =~= s@.take(i as int));
            lemma_split_commas_nonempty(s@.take(i as int));
        }
        if c == ',' {
            let part = trim(s.substring_char(start, i));
            finished.push(part);
            start = i + 1;
            assert(s@.subrange(start as int, i + 1) =~= Seq::<char>::empty());
        } else {
            assert(s@.subrange(start as int, i + 1) =~= s@.subrange(start as int, i as int).push(
                c,
            ));
        }
        i = i + 1;
    }
    let last = trim(s.substring_char(start, n));
    finished.push(last);
    proof {
        assert(s@.take(n as int) =~= s@);
        lemma_split_commas_nonempty(s@);
    }
    finished
}

// ---------------------------------------------------------------------------
// Numbers, registers and sizes

/// The value of digit `c` in the given radix (10 or 16), if it is one.
pub open spec fn digit_value(c: char, radix: u32) -> Option<u32> {
    if '0' <= c <= '9' {
        Some((c as u32 - '0' as u32) as u32)
    } else if radix == 16 && 'a' <= c <= 'f' {
        Some((c as u32 - 'a' as u32 + 10) as u32)
    } else if radix == 16 && 'A' <= c <= 'F' {
        Some((c as u32 - 'A' as u32 + 10) as u32)
    } else {
        None
    }
}

/// The value of the first `i` digits of `s`.
pub open spec fn digits_value(s: Seq<char>, radix: u32, i: int) -> nat
    decreases i,
{
    if i <= 0 || i > s.len() {
        0
    } else {
        digits_value(s, radix, i - 1) * radix as nat + match digit_value(s[i - 1], radix) {
            Some(d) => d as nat,
            None => 0,
        }
    }
}

/// The digits of a number and their radix.
pub open spec fn number_digits(s: Seq<char>) -> (Seq<char>, u32) {
    if s.len() > 0 && s[0] == '$' {
        (s.drop_first(), 16u32)
    } else {
        (s, 10u32)
    }
}

/// A number: decimal digits, or `$` and hexadecimal digits, of value below 2^32.
pub open spec fn number(s: Seq<char>) -> Result<u32, ParseErrorKind> {
    let (digits, radix) = number_digits(s);
    if digits.len() == 0 {
        Err(ParseErrorKind::InvalidNumber)
    } else if exists|i: int| 0 <= i < digits.len() && digit_value(digits[i], radix) is None {
        Err(ParseErrorKind::InvalidNumber)
    } else if digits_value(digits, radix, digits.len() as int) > 0xFFFF_FFFF {
        Err(ParseErrorKind::InvalidNumber)
    } else {
        Ok(digits_value(digits, radix, digits.len() as int) as u32)
    }
}

/// A 16-bit displacement.
pub open spec fn displacement(s: Seq<char>) -> Result<u16, ParseErrorKind> {
    match number(s) {
        Ok(v) => if v <= 0xFFFF {
            Ok(v as u16)
        } else {
            Err(ParseErrorKind::NumberTooLarge)
        },
        Err(k) => Err(k),
    }
}

/// The data register with number `n`.
pub open spec fn data_register(n: int) -> DataRegister {
    if n == 0 {
        DataRegister::D0
    } else if n == 1 {
        DataRegister::D1
    } else if n == 2 {
        DataRegister::D2
    } else if n == 3 {
        DataRegister::D3
    } else if n == 4 {
        DataRegister::D4
    } else if n == 5 {
        DataRegister::D5
    } else if n == 6 {
        DataRegister::D6
    } else {
        DataRegister::D7
    }
}

/// The address register with number `n`.
pub open spec fn address_register(n: int) -> AddressRegister {
    if n == 0 {
        AddressRegister::A0
    } else if n == 1 {
        AddressRegister::A1
    } else if n == 2 {
        AddressRegister::A2
    } else if n == 3 {
        AddressRegister::A3
    } else if n == 4 {
        AddressRegister::A4
    } else if n == 5 {
        AddressRegister::A5
    } else if n == 6 {
        AddressRegister::A6
    } else {
        AddressRegister::A7
    }
}

/// The register a name stands for: `d0`..`d7`, `a0`..`a7`, `sp` (A7) or `pc`.
pub open spec fn register_named(s: Seq<char>) -> Option<Register> {
    if s.len() != 2 {
        None
    } else if is_letter(s[0], 'd') && '0' <= s[1] <= '7' {
        Some(Register::Data(data_register(s[1] as int - '0' as int)))
    } else if is_letter(s[0], 'a') && '0' <= s[1] <= '7' {
        Some(Register::Address(address_register(s[1] as int - '0' as int)))
    } else if is_letter(s[0], 's') && is_letter(s[1], 'p') {
        Some(Register::Address(AddressRegister::A7))
    } else if is_letter(s[0], 'p') && is_letter(s[1], 'c') {
        Some(Register::ProgramCounter)
    } else {
        None
    }
}

/// The size a suffix letter names.
pub open spec fn size_letter(c: char) -> Option<OperandSize> {
    if is_letter(c, 'b') {
        Some(OperandSize::Byte)
    } else if is_letter(c, 'w') {
        Some(OperandSize::Word)
    } else if is_letter(c, 'l') {
        Some(OperandSize::Long)
    } else {
        None
    }
}

/// `s` split into its text and its size suffix (`.b`, `.w` or `.l`), if any.
pub open spec fn size_suffix(s: Seq<char>) -> (Seq<char>, Option<OperandSize>) {
    if s.len() >= 2 && s[s.len() - 2] == '.' && size_letter(s.last()) is Some {
        (s.subrange(0, s.len() - 2), size_letter(s.last()))
    } else {
        (s, None)
    }
}

/// A register name with an optional size suffix.
pub open spec fn register_with_size(s: Seq<char>) -> Result<
    (Register, Option<OperandSize>),
    ParseErrorKind,
> {
    match register_named(size_suffix(s).0) {
        Some(r) => Ok((r, size_suffix(s).1)),
        None => Err(ParseErrorKind::UnknownRegister),
    }
}

/// An address register with an optional size suffix.
pub open spec fn address_register_with_size(s: Seq<char>) -> Result<
    (AddressRegister, Option<OperandSize>),
    ParseErrorKind,
> {
    match register_with_size(s) {
        Ok((Register::Address(a), size)) => Ok((a, size)),
        Ok(_) => Err(ParseErrorKind::InvalidOperand),
        Err(k) => Err(k),
    }
}

/// Checks a digit; returns its value.
fn digit(c: char, radix: u32) -> (r: Option<u32>)
    ensures
        r == digit_value(c, radix),
{
    if '0' <= c && c <= '9' {
        Some(c as u32 - '0' as u32)
    } else if radix == 16 && 'a' <= c && c <= 'f' {
        Some(c as u32 - 'a' as u32 + 10)
    } else if radix == 16 && 'A' <= c && c <= 'F' {
        Some(c as u32 - 'A' as u32 + 10)
    } else {
        None
    }
}

proof fn lemma_digits_value_grows(s: Seq<char>, radix: u32, i: int)
    requires
        1 <= radix,
        1 <= i <= s.len(),
    ensures
        digits_value(s, radix, i) >= digits_value(s, radix, i - 1),
{
    let v = digits_value(s, radix, i - 1);
    assert(v * radix as nat >= v) by (nonlinear_arith)
        requires
            radix >= 1,
    ;
}

/// Parses a number: decimal, or hexadecimal after `$`.
fn parse_to_number(num: &str) -> (r: Result<u32, ParseError>)
    ensures
        outcome_matches(r, number(num@)),
{
    let n = char_count(num);
    let (start, radix): (usize, u32) = if n > 0 && num.get_char(0) == '$' {
        (1, 16)
    } else {
        (0, 10)
    };
    let digits = num.substring_char(start, n);
    proof {
        if n > 0 && num@[0] == '$' {
            assert(digits@ =~= num@.drop_first());
        } else {
            assert(digits@ =~= num@);
        }
        assert(number_digits(num@) == (digits@, radix));
    }
    let len = char_count(digits);
    if len == 0 {
        return Err(ParseError::InvalidNumber(num.to_owned()));
    }
    let mut i: usize = 0;
    while i < len
        invariant
            i <= len,
            len == digits@.len(),
            number_digits(num@) == (digits@, radix),
            forall|j: int| 0 <= j < i ==> digit_value(digits@[j], radix) is Some,
        decreases len - i,
    {
        if digit(digits.get_char(i), radix).is_none() {
            assert(digit_value(digits@[i as int], radix) is None);
            assert(exists|j: int| 0 <= j < digits@.len() && digit_value(digits@[j], radix) is None);
            return Err(ParseError::InvalidNumber(num.to_owned()));
        }
        i = i + 1;
    }
    let mut value: u64 = 0;
    let mut k: usize = 0;
    while k < len
        invariant
            k <= len,
            len == digits@.len(),
            number_digits(num@) == (digits@, radix),
            radix == 10 || radix == 16,
            forall|j: int| 0 <= j < len ==> digit_value(digits@[j], radix) is Some,
            value <= 0x1_0000_0000,
            value < 0x1_0000_0000 ==> value == digits_value(digits@, radix, k as int),
            value == 0x1_0000_0000 ==> digits_value(digits@, radix, k as int) >= 0x1_0000_0000,
        decreases len - k,
    {
        let d = match digit(digits.get_char(k), radix) {
            Some(d) => d,
            None => 0,
        };
        proof {
            lemma_digits_value_grows(digits@, radix, k + 1);
        }
        if value < 0x1_0000_0000 {
            assert(value * (radix as u64) + (d as u64) <= 0x1_0000_0000 * 16 + 16) by (
            nonlinear_arith)
                requires
                    value < 0x1_0000_0000,
                    radix <= 16,
                    d <= 16,
            ;
            let next = value * (radix as u64) + (d as u64);
            value = if next > 0xFFFF_FFFF {
                0x1_0000_0000
            } else {
                next
            };
        }
        k = k + 1;
    }
    if value > 0xFFFF_FFFF {
        Err(ParseError::InvalidNumber(num.to_owned()))
    } else {
        Ok(value as u32)
    }
}

/// Parses a 16-bit displacement.
fn parse_displacement(s: &str) -> (r: Result<u16, ParseError>)
    ensures
        outcome_matches(r, displacement(s@)),
{
    to_u16(parse_to_number(s)?)
}

/// Narrows a number to 16 bits.
fn to_u16(number: u32) -> (r: Result<u16, ParseError>)
    ensures
        number <= 0xFFFF ==> r == Ok::<u16, ParseError>(number as u16),
        number > 0xFFFF ==> (r matches Err(ParseError::NumberTooLarge(v)) && v == number),
{
    if number <= 0xFFFF {
        Ok(number as u16)
    } else {
        Err(ParseError::NumberTooLarge(number))
    }
}

/// The size a suffix letter names.
fn parse_size_letter(c: char) -> (r: Option<OperandSize>)
    ensures
        r == size_letter(c),
{
    if is_letter_char(c, 'b') {
        Some(OperandSize::Byte)
    } else if is_letter_char(c, 'w') {
        Some(OperandSize::Word)
    } else if is_letter_char(c, 'l') {
        Some(OperandSize::Long)
    } else {
        None
    }
}

/// Splits off a size suffix.
fn parse_size_suffix<'a>(operand: &'a str) -> (r: (&'a str, Option<OperandSize>))
    ensures
        (r.0@, r.1) == size_suffix(operand@),
{
    let n = char_count(operand);
    if n >= 2 && operand.get_char(n - 2) == '.' {
        if let Some(size) = parse_size_letter(operand.get_char(n - 1)) {
            return (operand.substring_char(0, n - 2), Some(size));
        }
    }
    (operand, None)
}

fn data_register_numbered(n: u32) -> (r: DataRegister)
    ensures
        r == data_register(n as int),
{
    match n {
        0 => DataRegister::D0,
        1 => DataRegister::D1,
        2 => DataRegister::D2,
        3 => DataRegister::D3,
        4 => DataRegister::D4,
        5 => DataRegister::D5,
        6 => DataRegister::D6,
        _ => DataRegister::D7,
    }
}

fn address_register_numbered(n: u32) -> (r: AddressRegister)
    ensures
        r == address_register(n as int),
{
    match n {
        0 => AddressRegister::A0,
        1 => AddressRegister::A1,
        2 => AddressRegister::A2,
        3 => AddressRegister::A3,
        4 => AddressRegister::A4,
        5 => AddressRegister::A5,
        6 => AddressRegister::A6,
        _ => AddressRegister::A7,
    }
}

/// Parses a register name.
fn parse_to_register_no_size(register: &str) -> (r: Result<Register, ParseError>)
    ensures
        outcome_matches(
            r,
            match register_named(register@) {
                Some(reg) => Ok(reg),
                None => Err(ParseErrorKind::UnknownRegister),
            },
        ),
{
    if char_count(register) == 2 {
        let c0 = register.get_char(0);
        let c1 = register.get_char(1);
        if is_letter_char(c0, 'd') && '0' <= c1 && c1 <= '7' {
            return Ok(Register::Data(data_register_numbered(c1 as u32 - '0' as u32)));
        } else if is_letter_char(c0, 'a') && '0' <= c1 && c1 <= '7' {
            return Ok(Register::Address(address_register_numbered(c1 as u32 - '0' as u32)));
        } else if is_letter_char(c0, 's') && is_letter_char(c1, 'p') {
            return Ok(Register::Address(AddressRegister::A7));
        } else if is_letter_char(c0, 'p') && is_letter_char(c1, 'c') {
            return Ok(Register::ProgramCounter);
        }
    }
    Err(ParseError::UnknownRegister(register.to_owned()))
}

/// Parses a register name with an optional size suffix.
fn parse_to_register(register: &str) -> (r: Result<(Register, Option<OperandSize>), ParseError>)
    ensures
        outcome_matches(r, register_with_size(register@)),
{
    let (reg, size) = parse_size_suffix(register);
    Ok((parse_to_register_no_size(reg)?, size))
}

/// Parses an address register name with an optional size suffix.
fn parse_to_address_register(register: &str, instruction: &str) -> (r: Result<
    (AddressRegister, Option<OperandSize>),
    ParseError,
>)
    ensures
        outcome_matches(r, address_register_with_size(register@)),
{
    match parse_to_register(register)? {
        (Register::Address(reg), size) => Ok((reg, size)),
        _ => Err(
            ParseError::InvalidOperand {
                operand: register.to_owned(),
                instruction: instruction.to_owned(),
            },
        ),
    }
}

// ---------------------------------------------------------------------------
// Operands

/// The base of a displacement form: an address register or the program
/// counter, with an optional size suffix.
pub open spec fn base_register(s: Seq<char>) -> Result<
    (Register, Option<OperandSize>),
    ParseErrorKind,
> {
    match register_with_size(s) {
        Ok((Register::Data(_), _)) => Err(ParseErrorKind::InvalidOperand),
        other => other,
    }
}

/// Whether `s` starts like a number.
pub open spec fn starts_number(s: Seq<char>) -> bool {
    s.len() > 0 && (s[0] == '$' || '0' <= s[0] <= '9')
}

/// `(d, base)` or `(d, base, Xi.sz)`, from the parts inside the parentheses.
pub open spec fn displacement_operand(p: Seq<Seq<char>>) -> Result<
    (AddressMode, Option<OperandSize>),
    ParseErrorKind,
> {
    if p.len() != 2 && p.len() != 3 {
        Err(ParseErrorKind::UnknownOperandFormat)
    } else {
        match displacement(p[0]) {
            Err(k) => Err(k),
            Ok(d) => match base_register(p[1]) {
                Err(k) => Err(k),
                Ok((base, base_size)) => if p.len() == 2 {
                    match base {
                        Register::Address(a) => Ok(
                            (
                                AddressMode::RegisterIndirectWithDisplacement {
                                    register: a,
                                    displacement: d,
                                },
                                base_size,
                            ),
                        ),
                        _ => Ok(
                            (
                                AddressMode::ProgramCounterIndirectWithDisplacement {
                                    displacement: d,
                                },
                                base_size,
                            ),
                        ),
                    }
                } else {
                    match register_with_size(p[2]) {
                        Err(k) => Err(k),
                        Ok((x, size)) => match base {
                            Register::Address(a) => Ok(
                                (
                                    AddressMode::RegisterIndirectIndexed {
                                        displacement: d,
                                        address_register: a,
                                        index_register: x,
                                    },
                                    size,
                                ),
                            ),
                            _ => Ok(
                                (
                                    AddressMode::ProgramCounterIndirectIndexed {
                                        displacement: d,
                                        index_register: x,
                                    },
                                    size,
                                ),
                            ),
                        },
                    }
                },
            },
        }
    }
}

/// The memory-indirect mode for the given parts.
pub open spec fn indirect_mode(
    pre_indexed: bool,
    base_displacement: u16,
    base: Register,
    index_register: Register,
    outer_displacement: u16,
) -> AddressMode {
    match (pre_indexed, base) {
        (true, Register::Address(a)) => AddressMode::MemoryPreIndexed {
            base_displacement,
            outer_displacement,
            address_register: a,
            index_register,
        },
        (true, _) => AddressMode::ProgramCounterMemoryIndirectPreIndexed {
            base_displacement,
            outer_displacement,
            index_register,
        },
        (false, Register::Address(a)) => AddressMode::MemoryPostIndexed {
            base_displacement,
            outer_displacement,
            address_register: a,
            index_register,
        },
        (false, _) => AddressMode::ProgramCounterMemoryIndirectPostIndexed {
            base_displacement,
            outer_displacement,
            index_register,
        },
    }
}

/// The parts after the bracket of a memory-indirect operand: none, or those
/// after a comma.
pub open spec fn outer_parts(rest: Seq<char>) -> Seq<Seq<char>> {
    if rest.len() == 0 {
        Seq::empty()
    } else {
        parts(rest.drop_first())
    }
}

/// `[bd, base, Xi.sz], od` or `[bd, base], Xi.sz, od`: the text inside the
/// parentheses of a memory-indirect operand, starting with `[`.
pub open spec fn memory_indirect_operand(inner: Seq<char>) -> Result<
    (AddressMode, Option<OperandSize>),
    ParseErrorKind,
> {
    let j = index_from(inner, ']', 0);
    if j < 1 {
        Err(ParseErrorKind::UnknownOperandFormat)
    } else {
        let bracket = parts(inner.subrange(1, j));
        let rest = inner.subrange(j + 1, inner.len() as int);
        let outer = outer_parts(rest);
        let pre_indexed = bracket.len() == 3;
        if rest.len() > 0 && rest[0] != ',' {
            Err(ParseErrorKind::UnknownOperandFormat)
        } else if !((bracket.len() == 3 && outer.len() <= 1) || (bracket.len() == 2 && 1
            <= outer.len() <= 2)) {
            Err(ParseErrorKind::UnknownOperandFormat)
        } else {
            let index_text = if pre_indexed {
                bracket[2]
            } else {
                outer[0]
            };
            let has_outer = if pre_indexed {
                outer.len() == 1
            } else {
                outer.len() == 2
            };
            match displacement(bracket[0]) {
                Err(k) => Err(k),
                Ok(bd) => match base_register(bracket[1]) {
                    Err(k) => Err(k),
                    Ok((base, _)) => match register_with_size(index_text) {
                        Err(k) => Err(k),
                        Ok((x, size)) => if has_outer {
                            match displacement(outer.last()) {
                                Err(k) => Err(k),
                                Ok(od) => Ok((indirect_mode(pre_indexed, bd, base, x, od), size)),
                            }
                        } else {
                            Ok((indirect_mode(pre_indexed, bd, base, x, 0), size))
                        },
                    },
                },
            }
        }
    }
}

/// An operand that starts with `(`.
pub open spec fn parenthesized_operand(s: Seq<char>) -> Result<
    (AddressMode, Option<OperandSize>),
    ParseErrorKind,
> {
    let k = last_index_before(s, ')', s.len() as int);
    if k < 1 {
        Err(ParseErrorKind::UnknownOperandFormat)
    } else {
        let inner = s.subrange(1, k);
        let tail = s.subrange(k + 1, s.len() as int);
        if tail.len() == 1 && tail[0] == '+' {
            match address_register_with_size(inner) {
                Ok((a, size)) => Ok((AddressMode::RegisterIndirectPostIncrement { register: a }, size)),
                Err(e) => Err(e),
            }
        } else if index_from(inner, ',', 0) < 0 {
            if starts_number(inner) {
                if size_suffix(tail).0.len() != 0 {
                    Err(ParseErrorKind::UnknownOperandFormat)
                } else {
                    match number(inner) {
                        Ok(address) => Ok((AddressMode::Absolute { address }, size_suffix(tail).1)),
                        Err(e) => Err(e),
                    }
                }
            } else if tail.len() != 0 {
                Err(ParseErrorKind::UnknownOperandFormat)
            } else {
                match address_register_with_size(inner) {
                    Ok((a, size)) => Ok((AddressMode::RegisterIndirect { register: a }, size)),
                    Err(e) => Err(e),
                }
            }
        } else if tail.len() != 0 {
            Err(ParseErrorKind::UnknownOperandFormat)
        } else if inner[0] == '[' {
            memory_indirect_operand(inner)
        } else {
            displacement_operand(parts(inner))
        }
    }
}

/// An operand: the addressing mode and the size its suffix names, if any.
pub open spec fn operand(s: Seq<char>) -> Result<(AddressMode, Option<OperandSize>), ParseErrorKind> {
    if s.len() == 0 {
        Err(ParseErrorKind::UnknownOperandFormat)
    } else if is_letter(s[0], 'd') || is_letter(s[0], 'a') || is_letter(s[0], 's') || is_letter(
        s[0],
        'p',
    ) {
        match register_with_size(s) {
            Ok((register, size)) => Ok((AddressMode::RegisterDirect { register }, size)),
            Err(e) => Err(e),
        }
    } else if s[0] == '#' {
        match number(s.drop_first()) {
            Ok(value) => Ok((AddressMode::Immediate { value }, None)),
            Err(e) => Err(e),
        }
    } else if s[0] == '-' {
        if s.len() >= 3 && s[1] == '(' && s.last() == ')' {
            match address_register_with_size(s.subrange(2, s.len() - 1)) {
                Ok((a, size)) => Ok((AddressMode::RegisterIndirectPreDecrement { register: a }, size)),
                Err(e) => Err(e),
            }
        } else {
            Err(ParseErrorKind::UnknownOperandFormat)
        }
    } else if s[0] == '(' {
        parenthesized_operand(s)
    } else {
        Err(ParseErrorKind::UnknownOperandFormat)
    }
}

fn format_error(operand: &str, instruction: &str) -> (r: ParseError)
    ensures
        r.spec_kind() == ParseErrorKind::UnknownOperandFormat,
{
    ParseError::UnknownOperandFormat {
        operand: operand.to_owned(),
        instruction: instruction.to_owned(),
    }
}

/// Parses the base of a displacement form.
fn parse_base_register(s: &str, instruction: &str) -> (r: Result<
    (Register, Option<OperandSize>),
    ParseError,
>)
    ensures
        outcome_matches(r, base_register(s@)),
{
    match parse_to_register(s)? {
        (Register::Data(_), _) => Err(
            ParseError::InvalidOperand { operand: s.to_owned(), instruction: instruction.to_owned() },
        ),
        other => Ok(other),
    }
}

fn parse_displacement_operand(p: &Vec<&str>, instruction: &str) -> (r: Result<
    (AddressMode, Option<OperandSize>),
    ParseError,
>)
    requires
        p@.len() == 2 || p@.len() == 3,
    ensures
        outcome_matches(r, displacement_operand(p@.map_values(|x: &str| x@))),
{
    let ghost views = p@.map_values(|x: &str| x@);
    assert(views[0] == p@[0]@ && views[1] == p@[1]@);
    let displacement = parse_displacement(p[0])?;
    let (base, base_size) = parse_base_register(p[1], instruction)?;
    if p.len() == 2 {
        match base {
            Register::Address(register) => Ok(
                (AddressMode::RegisterIndirectWithDisplacement { register, displacement }, base_size),
            ),
            _ => Ok((AddressMode::ProgramCounterIndirectWithDisplacement { displacement }, base_size)),
        }
    } else {
        assert(views[2] == p@[2]@);
        let (index_register, size) = parse_to_register(p[2])?;
        match base {
            Register::Address(address_register) => Ok(
                (
                    AddressMode::RegisterIndirectIndexed {
                        displacement,
                        address_register,
                        index_register,
                    },
                    size,
                ),
            ),
            _ => Ok((AddressMode::ProgramCounterIndirectIndexed { displacement, index_register }, size)),
        }
    }
}

fn make_indirect_mode(
    pre_indexed: bool,
    base_displacement: u16,
    base: Register,
    index_register: Register,
    outer_displacement: u16,
) -> (r: AddressMode)
    ensures
        r == indirect_mode(pre_indexed, base_displacement, base, index_register, outer_displacement),
{
    match (pre_indexed, base) {
        (true, Register::Address(address_register)) => AddressMode::MemoryPreIndexed {
            base_displacement,
            outer_displacement,
            address_register,
            index_register,
        },
        (true, _) => AddressMode::ProgramCounterMemoryIndirectPreIndexed {
            base_displacement,
            outer_displacement,
            index_register,
        },
        (false, Register::Address(address_register)) => AddressMode::MemoryPostIndexed {
            base_displacement,
            outer_displacement,
            address_register,
            index_register,
        },
        (false, _) => AddressMode::ProgramCounterMemoryIndirectPostIndexed {
            base_displacement,
            outer_displacement,
            index_register,
        },
    }
}

fn parse_memory_indirect(inner: &str, op_string: &str, instruction: &str) -> (r: Result<
    (AddressMode, Option<OperandSize>),
    ParseError,
>)
    ensures
        outcome_matches(r, memory_indirect_operand(inner@)),
{
    let n = char_count(inner);
    let j = match find_char(inner, ']') {
        Some(j) => j,
        None => return Err(format_error(op_string, instruction)),
    };
    if j < 1 {
        return Err(format_error(op_string, instruction));
    }
    let bracket = split_parts(inner.substring_char(1, j));
    let rest = inner.substring_char(j + 1, n);
    let rest_len = char_count(rest);
    let ghost bracket_views = bracket@.map_values(|x: &str| x@);
    assert(bracket_views =~= parts(inner@.subrange(1, j as int)));
    if rest_len > 0 && rest.get_char(0) != ',' {
        return Err(format_error(op_string, instruction));
    }
    let outer: Vec<&str> = if rest_len == 0 {
        Vec::new()
    } else {
        let tail = rest.substring_char(1, rest_len);
        assert(tail@ =~= rest@.drop_first());
        split_parts(tail)
    };
    let ghost outer_views = outer@.map_values(|x: &str| x@);
    assert(outer_views =~= outer_parts(rest@));
    let pre_indexed = bracket.len() == 3;
    if !((bracket.len() == 3 && outer.len() <= 1) || (bracket.len() == 2 && 1 <= outer.len()
        && outer.len() <= 2)) {
        return Err(format_error(op_string, instruction));
    }
    assert(bracket_views[0] == bracket@[0]@ && bracket_views[1] == bracket@[1]@);
    let base_displacement = parse_displacement(bracket[0])?;
    let (base, _) = parse_base_register(bracket[1], instruction)?;
    let index_text = if pre_indexed {
        assert(bracket_views[2] == bracket@[2]@);
        bracket[2]
    } else {
        assert(outer_views[0] == outer@[0]@);
        outer[0]
    };
    let has_outer = if pre_indexed {
        outer.len() == 1
    } else {
        outer.len() == 2
    };
    let (index_register, size) = parse_to_register(index_text)?;
    if has_outer {
        let last = outer.len() - 1;
        assert(outer_views[last as int] == outer@[last as int]@);
        let outer_displacement = parse_displacement(outer[last])?;
        Ok(
            (
                make_indirect_mode(
                    pre_indexed,
                    base_displacement,
                    base,
                    index_register,
                    outer_displacement,
                ),
                size,
            ),
        )
    } else {
        Ok((make_indirect_mode(pre_indexed, base_displacement, base, index_register, 0), size))
    }
}

fn parse_parenthesized(s: &str, instruction: &str) -> (r: Result<
    (AddressMode, Option<OperandSize>),
    ParseError,
>)
    requires
        s@.len() > 0,
    ensures
        outcome_matches(r, parenthesized_operand(s@)),
{
    let n = char_count(s);
    let k = match find_last_char(s, ')') {
        Some(k) => k,
        None => return Err(format_error(s, instruction)),
    };
    if k < 1 {
        return Err(format_error(s, instruction));
    }
    let inner = s.substring_char(1, k);
    let tail = s.substring_char(k + 1, n);
    let tail_len = char_count(tail);
    if tail_len == 1 && tail.get_char(0) == '+' {
        let (register, size) = parse_to_address_register(inner, instruction)?;
        return Ok((AddressMode::RegisterIndirectPostIncrement { register }, size));
    }
    let inner_len = char_count(inner);
    if find_char(inner, ',').is_none() {
        if inner_len > 0 && (inner.get_char(0) == '$' || ('0' <= inner.get_char(0)
            && inner.get_char(0) <= '9')) {
            let (tail_text, size) = parse_size_suffix(tail);
            if char_count(tail_text) != 0 {
                return Err(format_error(s, instruction));
            }
            let address = parse_to_number(inner)?;
            Ok((AddressMode::Absolute { address }, size))
        } else if tail_len != 0 {
            Err(format_error(s, instruction))
        } else {
            let (register, size) = parse_to_address_register(inner, instruction)?;
            Ok((AddressMode::RegisterIndirect { register }, size))
        }
    } else if tail_len != 0 {
        Err(format_error(s, instruction))
    } else if inner.get_char(0) == '[' {
        parse_memory_indirect(inner, s, instruction)
    } else {
        let p = split_parts(inner);
        let ghost views = p@.map_values(|x: &str| x@);
        assert(views =~= parts(inner@));
        if p.len() != 2 && p.len() != 3 {
            return Err(format_error(s, instruction));
        }
        parse_displacement_operand(&p, instruction)
    }
}

// ---------------------------------------------------------------------------
// Instructions

/// Scanning for the comma between two operands: the index of the first comma
/// outside parentheses, the parenthesis depth, and whether a `)` closed a
/// parenthesis that was never opened before any such comma.
pub open spec fn scan_comma(s: Seq<char>) -> (Option<int>, int, bool)
    decreases s.len(),
{
    if s.len() == 0 {
        (None, 0, false)
    } else {
        let (found, level, bad) = scan_comma(s.drop_last());
        let c = s.last();
        if found is Some || bad {
            (found, level, bad)
        } else if c == '(' {
            (None, level + 1, false)
        } else if c == ')' {
            if level == 0 {
                (None, 0, true)
            } else {
                (None, level - 1, false)
            }
        } else if c == ',' && level == 0 {
            (Some(s.len() - 1), level, false)
        } else {
            (None, level, false)
        }
    }
}

/// Source and destination operands, and the operand size their suffixes
/// name: they must agree when both name one.
pub open spec fn source_dest(s: Seq<char>) -> Result<
    (AddressMode, AddressMode, Option<OperandSize>),
    ParseErrorKind,
> {
    let (found, _, bad) = scan_comma(s);
    if bad {
        Err(ParseErrorKind::UnexpectedToken)
    } else if found is None {
        Err(ParseErrorKind::MissingOperand)
    } else {
        let i = found->0;
        match operand(trimmed(s.take(i))) {
            Err(k) => Err(k),
            Ok((src, src_size)) => match operand(trimmed(s.skip(i + 1))) {
                Err(k) => Err(k),
                Ok((dest, dest_size)) => if src_size is Some && dest_size is Some && src_size
                    != dest_size {
                    Err(ParseErrorKind::OperandSizeMismatch)
                } else if src_size is Some {
                    Ok((src, dest, src_size))
                } else {
                    Ok((src, dest, dest_size))
                },
            },
        }
    }
}

/// Whether `s` is the lower-case word `w`, in any case.
pub open spec fn is_word(s: Seq<char>, w: Seq<char>) -> bool {
    s.len() == w.len() && forall|i: int| 0 <= i < s.len() ==> is_letter(#[trigger] s[i], w[i])
}

/// The two-operand instruction a mnemonic names, if any.
pub open spec fn two_operand_instruction(
    token: Seq<char>,
    src: AddressMode,
    dest: AddressMode,
) -> Option<Instruction> {
    if is_word(token, seq!['a', 'd', 'd']) {
        Some(Instruction::Add { src, dest })
    } else if is_word(token, seq!['s', 'u', 'b']) {
        Some(Instruction::Subtract { src, dest })
    } else if is_word(token, seq!['m', 'u', 'l', 'u']) {
        Some(Instruction::MultiplyUnsigned { src, dest })
    } else if is_word(token, seq!['m', 'o', 'v', 'e']) {
        Some(Instruction::Move { src, dest })
    } else if is_word(token, seq!['a', 'n', 'd']) {
        Some(Instruction::And { src, dest })
    } else if is_word(token, seq!['o', 'r']) {
        Some(Instruction::InclusiveOr { src, dest })
    } else if is_word(token, seq!['e', 'o', 'r']) {
        Some(Instruction::ExclusiveOr { src, dest })
    } else if is_word(token, seq!['r', 'o', 'l']) || is_word(token, seq!['r', 'o', 'x', 'l']) {
        Some(Instruction::RotateLeft { to_rotate: dest, rotate_amount: src })
    } else if is_word(token, seq!['c', 'h', 'k']) {
        Some(Instruction::BoundsCheck { bound: src, value: dest })
    } else {
        None
    }
}

/// A line of assembly: (instruction, operand size, bytes consumed). The size
/// defaults to a long; assembly consumes no bytes.
pub open spec fn assembly_line(source: Seq<char>) -> Result<
    (Instruction, OperandSize, u32),
    ParseErrorKind,
> {
    let line = trimmed(source);
    let sp = index_from(line, ' ', 0);
    if sp < 0 {
        if is_word(line, seq!['n', 'o', 'p']) {
            Ok((Instruction::NoOp, OperandSize::Long, 0))
        } else {
            Err(ParseErrorKind::NoInstruction)
        }
    } else {
        let token = line.take(sp);
        let rest = line.skip(sp + 1);
        if is_word(token, seq!['j', 'm', 'p']) {
            match operand(trimmed(rest)) {
                Err(k) => Err(k),
                Ok((address, size)) => Ok(
                    (
                        Instruction::JumpTo { address },
                        match size {
                            Some(s) => s,
                            None => OperandSize::Long,
                        },
                        0,
                    ),
                ),
            }
        } else {
            match source_dest(rest) {
                Err(k) => Err(k),
                Ok((src, dest, size)) => match two_operand_instruction(token, src, dest) {
                    None => Err(ParseErrorKind::UnknownInstruction),
                    Some(instruction) => Ok(
                        (
                            instruction,
                            match size {
                                Some(s) => s,
                                None => OperandSize::Long,
                            },
                            0,
                        ),
                    ),
                },
            }
        }
    }
}

/// Whether `s` is the lower-case word `w`, in any case.
fn matches_word(s: &str, w: &Vec<char>) -> (r: bool)
    requires
        forall|i: int| 0 <= i < w@.len() ==> 'a' <= #[trigger] w@[i] <= 'z',
    ensures
        r == is_word(s@, w@),
{
    let n = char_count(s);
    if n != w.len() {
        return false;
    }
    let mut i: usize = 0;
    while i < n
        invariant
            i <= n,
            n == s@.len(),
            n == w@.len(),
            forall|k: int| 0 <= k < w@.len() ==> 'a' <= #[trigger] w@[k] <= 'z',
            forall|k: int| 0 <= k < i ==> is_letter(#[trigger] s@[k], w@[k]),
        decreases n - i,
    {
        if !is_letter_char(s.get_char(i), w[i]) {
            return false;
        }
        i = i + 1;
    }
    true
}

/// The two-operand instruction a mnemonic names, if any.
fn two_operand_mnemonic(token: &str, src: AddressMode, dest: AddressMode) -> (r: Option<
    Instruction,
>)
    ensures
        r == two_operand_instruction(token@, src, dest),
{
    if matches_word(token, &vec!['a', 'd', 'd']) {
        Some(Instruction::Add { src, dest })
    } else if matches_word(token, &vec!['s', 'u', 'b']) {
        Some(Instruction::Subtract { src, dest })
    } else if matches_word(token, &vec!['m', 'u', 'l', 'u']) {
        Some(Instruction::MultiplyUnsigned { src, dest })
    } else if matches_word(token, &vec!['m', 'o', 'v', 'e']) {
        Some(Instruction::Move { src, dest })
    } else if matches_word(token, &vec!['a', 'n', 'd']) {
        Some(Instruction::And { src, dest })
    } else if matches_word(token, &vec!['o', 'r']) {
        Some(Instruction::InclusiveOr { src, dest })
    } else if matches_word(token, &vec!['e', 'o', 'r']) {
        Some(Instruction::ExclusiveOr { src, dest })
    } else if matches_word(token, &vec!['r', 'o', 'l']) || matches_word(
        token,
        &vec!['r', 'o', 'x', 'l'],
    ) {
        Some(Instruction::RotateLeft { to_rotate: dest, rotate_amount: src })
    } else if matches_word(token, &vec!['c', 'h', 'k']) {
        Some(Instruction::BoundsCheck { bound: src, value: dest })
    } else {
        None
    }
}

/// Parses an assembly instruction.
#[derive(Debug)]
pub struct AssemblyInterpreter {}

impl Default for AssemblyInterpreter {
    fn default() -> (r: Self) {
        AssemblyInterpreter {}
    }
}

impl AssemblyInterpreter {
    pub fn new() -> (r: Self) {
        AssemblyInterpreter {}
    }

    /// Parses an operand to an addressing mode and the size its suffix names.
    pub fn parse_to_operand(op_string: &str, instruction: &str) -> (r: Result<
        (AddressMode, Option<OperandSize>),
        ParseError,
    >)
        ensures
            outcome_matches(r, operand(op_string@)),
    {
        let n = char_count(op_string);
        if n == 0 {
            return Err(format_error(op_string, instruction));
        }
        let first = op_string.get_char(0);
        if is_letter_char(first, 'd') || is_letter_char(first, 'a') || is_letter_char(first, 's')
            || is_letter_char(first, 'p') {
            let (register, size) = parse_to_register(op_string)?;
            Ok((AddressMode::RegisterDirect { register }, size))
        } else if first == '#' {
            let digits = op_string.substring_char(1, n);
            assert(digits@ =~= op_string@.drop_first());
            let value = parse_to_number(digits)?;
            Ok((AddressMode::Immediate { value }, None))
        } else if first == '-' {
            if n >= 3 && op_string.get_char(1) == '(' && op_string.get_char(n - 1) == ')' {
                let inner = op_string.substring_char(2, n - 1);
                let (register, size) = parse_to_address_register(inner, instruction)?;
                Ok((AddressMode::RegisterIndirectPreDecrement { register }, size))
            } else {
                Err(format_error(op_string, instruction))
            }
        } else if first == '(' {
            parse_parenthesized(op_string, instruction)
        } else {
            Err(format_error(op_string, instruction))
        }
    }

    /// Parses source and destination operands, split at the first comma
    /// outside parentheses.
    pub fn parse_source_dest(op_string: &str, instruction: &str) -> (r: Result<
        (AddressMode, AddressMode, Option<OperandSize>),
        ParseError,
    >)
        ensures
            outcome_matches(r, source_dest(op_string@)),
    {
        let n = char_count(op_string);
        let mut level: usize = 0;
        let mut i: usize = 0;
        while i < n
            invariant
                i <= n,
                level <= i,
                n == op_string@.len(),
                scan_comma(op_string@.take(i as int)) == (None::<int>, level as int, false),
            decreases n - i,
        {
            let token = op_string.get_char(i);
            proof {
                assert(op_string@.take(i + 1).drop_last() =~= op_string@.take(i as int));
                lemma_scan_comma_settled(op_string@, i + 1);
            }
            if token == '(' {
                level = level + 1;
            } else if token == ')' {
                if level == 0 {
                    proof {
                        lemma_scan_comma_stays(op_string@, i + 1, n as int);
                        assert(op_string@.take(n as int) =~= op_string@);
                    }
                    return Err(
                        ParseError::UnexpectedToken { token, instruction: instruction.to_owned() },
                    );
                }
                level = level - 1;
            } else if token == ',' && level == 0 {
                let source = trim(op_string.substring_char(0, i));
                let dest = trim(op_string.substring_char(i + 1, n));
                assert(op_string@.subrange(0, i as int) =~= op_string@.take(i as int));
                assert(op_string@.subrange(i + 1, n as int) =~= op_string@.skip(i + 1));
                proof {
                    lemma_scan_comma_stays(op_string@, i + 1, n as int);
                    assert(op_string@.take(n as int) =~= op_string@);
                }
                let (source_mode, source_size) = Self::parse_to_operand(source, instruction)?;
                let (dest_mode, dest_size) = Self::parse_to_operand(dest, instruction)?;
                if let (Some(source_size), Some(dest_size)) = (source_size, dest_size) {
                    if source_size != dest_size {
                        return Err(
                            ParseError::OperandSizeMismatch {
                                instruction: instruction.to_owned(),
                                source_size,
                                dest_size,
                            },
                        );
                    }
                }
                let size = match source_size {
                    Some(size) => Some(size),
                    None => dest_size,
                };
                return Ok((source_mode, dest_mode, size));
            }
            i = i + 1;
        }
        assert(op_string@.take(n as int) =~= op_string@);
        Err(ParseError::MissingOperand(instruction.to_owned()))
    }

    /// Parses one line of assembly.
    pub fn parse_line(&self, source: &str) -> (r: Result<(Instruction, OperandSize, u32), ParseError>)
        ensures
            outcome_matches(r, assembly_line(source@)),
    {
        let line = trim(source);
        let n = char_count(line);
        let sp = match find_char(line, ' ') {
            Some(sp) => sp,
            None => {
                if matches_word(line, &vec!['n', 'o', 'p']) {
                    return Ok((Instruction::NoOp, OperandSize::Long, 0));
                }
                return Err(ParseError::NoInstruction(source.to_owned()));
            },
        };
        let token = line.substring_char(0, sp);
        let rest = line.substring_char(sp + 1, n);
        assert(token@ =~= line@.take(sp as int));
        assert(rest@ =~= line@.skip(sp + 1));
        if matches_word(token, &vec!['j', 'm', 'p']) {
            let (address, size) = Self::parse_to_operand(trim(rest), source)?;
            let size = match size {
                Some(s) => s,
                None => OperandSize::Long,
            };
            return Ok((Instruction::JumpTo { address }, size, 0));
        }
        let (src, dest, size) = Self::parse_source_dest(rest, source)?;
        let size = match size {
            Some(s) => s,
            None => OperandSize::Long,
        };
        match two_operand_mnemonic(token, src, dest) {
            Some(instruction) => Ok((instruction, size, 0)),
            None => Err(ParseError::UnknownInstruction(token.to_owned())),
        }
    }
}

impl Parser<String> for AssemblyInterpreter {
    /// Parses one line of assembly, as `parse_line` does.
    fn parse(&mut self, source: String) -> (r: Result<(Instruction, OperandSize, u32), ParseError>)
        ensures
            outcome_matches(r, assembly_line(source@)),
    {
        self.parse_line(source.as_str())
    }
}

/// Once a comma is found or a stray `)` seen, scanning further changes nothing.
proof fn lemma_scan_comma_stays(s: Seq<char>, j: int, k: int)
    requires
        0 <= j <= k <= s.len(),
        scan_comma(s.take(j)).0 is Some || scan_comma(s.take(j)).2,
    ensures
        scan_comma(s.take(k)) == scan_comma(s.take(j)),
    decreases k - j,
{
    if j < k {
        lemma_scan_comma_settled(s, j + 1);
        lemma_scan_comma_stays(s, j + 1, k);
    }
}

/// One more character of scanning.
proof fn lemma_scan_comma_settled(s: Seq<char>, i: int)
    requires
        0 < i <= s.len(),
    ensures
        scan_comma(s.take(i)) == ({
            let (found, level, bad) = scan_comma(s.take(i - 1));
            let c = s[i - 1];
            if found is Some || bad {
                (found, level, bad)
            } else if c == '(' {
                (None, level + 1, false)
            } else if c == ')' {
                if level == 0 {
                    (None, 0, true)
                } else {
                    (None, level - 1, false)
                }
            } else if c == ',' && level == 0 {
                (Some(i - 1), level, false)
            } else {
                (None, level, false)
            }
        }),
{
    assert(s.take(i).drop_last() =~= s.take(i - 1));
}

} // verus!
