//! Parsers turn an outside source, 68k assembly or machine code, into
//! instructions that the emulator can run.
use crate::cpu::isa_68000::Instruction;
use crate::OperandSize;
use vstd::prelude::*;

pub mod assembly;
pub mod binary;

verus! {

/// Errors raised while parsing assembly or machine code.
#[derive(Debug)]
pub enum ParseError {
    NoInstruction(String),
    UnknownInstruction(String),
    UnknownRegister(String),
    InvalidOperand { operand: String, instruction: String },
    MissingOperand(String),
    UnknownOperandFormat { operand: String, instruction: String },
    UnexpectedToken { token: char, instruction: String },
    InvalidNumber(String),
    NumberTooLarge(u32),
    OperandSizeMismatch {
        instruction: String,
        source_size: crate::OperandSize,
        dest_size: crate::OperandSize,
    },
    OpcodeParsingError(String),
    InvalidOperandSize(i32),
    /// A decoded operand that no addressing mode here stands for.
    UnsupportedAddressing,
}

/// The kind of a parse error, without its details.
#[derive(Debug, Clone, Copy, PartialEq, Eq, Structural)]
pub enum ParseErrorKind {
    NoInstruction,
    UnknownInstruction,
    UnknownRegister,
    InvalidOperand,
    MissingOperand,
    UnknownOperandFormat,
    UnexpectedToken,
    InvalidNumber,
    NumberTooLarge,
    OperandSizeMismatch,
    OpcodeParsingError,
    InvalidOperandSize,
    UnsupportedAddressing,
}

impl ParseError {
    pub open spec fn spec_kind(&self) -> ParseErrorKind {
        match self {
            ParseError::NoInstruction(_) => ParseErrorKind::NoInstruction,
            ParseError::UnknownInstruction(_) => ParseErrorKind::UnknownInstruction,
            ParseError::UnknownRegister(_) => ParseErrorKind::UnknownRegister,
            ParseError::InvalidOperand { .. } => ParseErrorKind::InvalidOperand,
            ParseError::MissingOperand(_) => ParseErrorKind::MissingOperand,
            ParseError::UnknownOperandFormat { .. } => ParseErrorKind::UnknownOperandFormat,
            ParseError::UnexpectedToken { .. } => ParseErrorKind::UnexpectedToken,
            ParseError::InvalidNumber(_) => ParseErrorKind::InvalidNumber,
            ParseError::NumberTooLarge(_) => ParseErrorKind::NumberTooLarge,
            ParseError::OperandSizeMismatch { .. } => ParseErrorKind::OperandSizeMismatch,
            ParseError::OpcodeParsingError(_) => ParseErrorKind::OpcodeParsingError,
            ParseError::InvalidOperandSize(_) => ParseErrorKind::InvalidOperandSize,
            ParseError::UnsupportedAddressing => ParseErrorKind::UnsupportedAddressing,
        }
    }

    #[verifier::when_used_as_spec(spec_kind)]
    pub fn kind(&self) -> (r: ParseErrorKind)
        ensures
            r == self.spec_kind(),
    {
        match self {
            ParseError::NoInstruction(_) => ParseErrorKind::NoInstruction,
            ParseError::UnknownInstruction(_) => ParseErrorKind::UnknownInstruction,
            ParseError::UnknownRegister(_) => ParseErrorKind::UnknownRegister,
            ParseError::InvalidOperand { .. } => ParseErrorKind::InvalidOperand,
            ParseError::MissingOperand(_) => ParseErrorKind::MissingOperand,
            ParseError::UnknownOperandFormat { .. } => ParseErrorKind::UnknownOperandFormat,
            ParseError::UnexpectedToken { .. } => ParseErrorKind::UnexpectedToken,
            ParseError::InvalidNumber(_) => ParseErrorKind::InvalidNumber,
            ParseError::NumberTooLarge(_) => ParseErrorKind::NumberTooLarge,
            ParseError::OperandSizeMismatch { .. } => ParseErrorKind::OperandSizeMismatch,
            ParseError::OpcodeParsingError(_) => ParseErrorKind::OpcodeParsingError,
            ParseError::InvalidOperandSize(_) => ParseErrorKind::InvalidOperandSize,
            ParseError::UnsupportedAddressing => ParseErrorKind::UnsupportedAddressing,
        }
    }
}

/// Whether `r` is the outcome `expected`, an error being matched by its kind.
pub open spec fn outcome_matches<T>(r: Result<T, ParseError>, expected: Result<T, ParseErrorKind>) -> bool {
    match (r, expected) {
        (Ok(a), Ok(b)) => a == b,
        (Err(e), Err(k)) => e.spec_kind() == k,
        _ => false,
    }
}

} // verus!

verus! {

/// A parser of some source (assembly text, machine code) into one
/// instruction: the instruction, its operand size, and how many bytes of the
/// source it took.
pub trait Parser<T> {
    fn parse(&mut self, source: T) -> Result<(Instruction, OperandSize, u32), ParseError>;
}

} // verus!
