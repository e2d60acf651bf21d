//! Errors of the format engine.

use vstd::prelude::*;
use vstd::string::StringExecFns;
use crate::text::{decimal, numbered_text};

verus! {

/// What can go wrong while a file is built, opened or read.
#[derive(Debug)]
pub enum BbfError {
    /// Reading or writing failed. The library itself does no I/O: this
    /// variant is for callers that do.
    Io { message: String },
    /// The file does not start with the format signature.
    InvalidMagic,
    /// The file is shorter than a header and a footer.
    FileTooSmall,
    /// An offset or a size points outside the file, or its computation overflows.
    InvalidOffset { description: String },
    /// A stored hash differs from the hash of the data.
    HashMismatch,
    /// A string of the pool has no terminator in reach or is not UTF-8.
    InvalidUtf8,
    /// A size computation overflowed.
    IntegerOverflow { description: String },
    /// A reserved field is not zero. Advisory: such a file still opens.
    ReservedFieldNonZero { description: String },
    /// The alignment exponent is above the largest allowed, 16.
    AlignmentTooLarge { exponent: u8 },
    /// Any other failure.
    Other { message: String },
}

/// An error as contracts speak of it: the variant, with its text as characters.
pub enum Failure {
    Io(Seq<char>),
    InvalidMagic,
    FileTooSmall,
    InvalidOffset(Seq<char>),
    HashMismatch,
    InvalidUtf8,
    IntegerOverflow(Seq<char>),
    ReservedFieldNonZero(Seq<char>),
    AlignmentTooLarge(u8),
    Other(Seq<char>),
}

impl Failure {
    /// The message that a user reads.
    pub open spec fn text(self) -> Seq<char> {
        match self {
            Failure::Io(m) => "I/O error: "@ + m,
            Failure::InvalidMagic => "Invalid magic number (expected BBF3)"@,
            Failure::FileTooSmall => "File too small to be a valid BBF file"@,
            Failure::InvalidOffset(d) => "Invalid offset: "@ + d,
            Failure::HashMismatch => "Hash mismatch detected - file may be corrupted"@,
            Failure::InvalidUtf8 => "Invalid UTF-8 in string pool"@,
            Failure::IntegerOverflow(d) => "Integer overflow in calculation: "@ + d,
            Failure::ReservedFieldNonZero(d) => "Reserved field validation failed: "@ + d,
            Failure::AlignmentTooLarge(e) => "Alignment exponent "@ + decimal(e as nat)
                + " exceeds maximum allowed value of 16"@,
            Failure::Other(m) => m,
        }
    }
}

impl View for BbfError {
    type V = Failure;

    open spec fn view(&self) -> Failure {
        match self {
            BbfError::Io { message } => Failure::Io(message@),
            BbfError::InvalidMagic => Failure::InvalidMagic,
            BbfError::FileTooSmall => Failure::FileTooSmall,
            BbfError::InvalidOffset { description } => Failure::InvalidOffset(description@),
            BbfError::HashMismatch => Failure::HashMismatch,
            BbfError::InvalidUtf8 => Failure::InvalidUtf8,
            BbfError::IntegerOverflow { description } => Failure::IntegerOverflow(description@),
            BbfError::ReservedFieldNonZero { description } => Failure::ReservedFieldNonZero(
                description@,
            ),
            BbfError::AlignmentTooLarge { exponent } => Failure::AlignmentTooLarge(*exponent),
            BbfError::Other { message } => Failure::Other(message@),
        }
    }
}

/// Whether a result is the expected one: the same value, or the same error.
pub open spec fn agrees<T: View>(r: Result<T, BbfError>, expected: Result<T::V, Failure>) -> bool {
    match (r, expected) {
        (Ok(a), Ok(b)) => a@ == b,
        (Err(e), Err(f)) => e@ == f,
        _ => false,
    }
}

impl BbfError {
    /// An `InvalidOffset` error that carries `text`.
    pub fn invalid_offset(text: &str) -> (e: BbfError)
        ensures
            e@ == Failure::InvalidOffset(text@),
    {
        BbfError::InvalidOffset { description: text.to_owned() }
    }

    /// An `Other` error that carries `text`.
    pub fn other(text: &str) -> (e: BbfError)
        ensures
            e@ == Failure::Other(text@),
    {
        BbfError::Other { message: text.to_owned() }
    }

    /// A `ReservedFieldNonZero` warning that carries `text`.
    pub fn reserved_field(text: &str) -> (e: BbfError)
        ensures
            e@ == Failure::ReservedFieldNonZero(text@),
    {
        BbfError::ReservedFieldNonZero { description: text.to_owned() }
    }

    /// The message that a user reads.
    pub fn message(&self) -> (r: String)
        ensures
            r@ == self@.text(),
    {
        match self {
            BbfError::Io { message } => {
                let mut r = "I/O error: ".to_owned();
                r.append(message.as_str());
                r
            },
            BbfError::InvalidMagic => "Invalid magic number (expected BBF3)".to_owned(),
            BbfError::FileTooSmall => "File too small to be a valid BBF file".to_owned(),
            BbfError::InvalidOffset { description } => {
                let mut r = "Invalid offset: ".to_owned();
                r.append(description.as_str());
                r
            },
            BbfError::HashMismatch => "Hash mismatch detected - file may be corrupted".to_owned(),
            BbfError::InvalidUtf8 => "Invalid UTF-8 in string pool".to_owned(),
            BbfError::IntegerOverflow { description } => {
                let mut r = "Integer overflow in calculation: ".to_owned();
                r.append(description.as_str());
                r
            },
            BbfError::ReservedFieldNonZero { description } => {
                let mut r = "Reserved field validation failed: ".to_owned();
                r.append(description.as_str());
                r
            },
            BbfError::AlignmentTooLarge { exponent } => numbered_text(
                "Alignment exponent ",
                *exponent as u64,
                " exceeds maximum allowed value of 16",
            ),
            BbfError::Other { message } => message.clone(),
        }
    }
}

impl vstd::std_specs::convert::FromSpecImpl<String> for BbfError {
    open spec fn obeys_from_spec() -> bool {
        true
    }

    open spec fn from_spec(value: String) -> BbfError {
        BbfError::Other { message: value }
    }
}

impl From<String> for BbfError {
    /// A bare message becomes an `Other` error.
    fn from(value: String) -> (e: BbfError) {
        BbfError::Other { message: value }
    }
}

} // verus!
