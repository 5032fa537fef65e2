//! A typed, pattern-based input scanner: the inverse of a formatted-output
//! engine. A format pattern such as `"{}x{}"` is compiled into a sequence of
//! literal and field pieces, each field is resolved to a unique argument
//! slot, and the compiled plan is then run against an input string to
//! extract strongly-typed values.

use vstd::prelude::*;
use vstd::string::StringSliceAdditionalSpecFns;
use vstd::string::StrSliceExecFns;
use vstd::string::StringExecFns;

mod encoding;
pub mod engine;
mod impls;
pub mod pattern;
pub mod radix;
pub mod resolve;

pub use engine::{scan_plan, SlotKind, Value};
pub use pattern::{ArgumentRef, CompileError, FieldDescriptor, IndexKind, NumericSpec, Piece};
pub use resolve::{compile, CompiledPlan};

verus! {

/// The cause of a failed numeric decode, mirroring the error kinds of
/// standard integer parsing: empty input, a character that is not a digit
/// of the requested base, or a value outside the target type's range.
#[derive(Clone, Copy, Debug, PartialEq, Eq, Structural)]
pub enum DecodeError {
    Empty,
    InvalidDigit,
    PosOverflow,
    NegOverflow,
}

/// An error raised while scanning an input string against a compiled plan.
///
/// `LiteralNotFound` means the remaining input was too short to contain an
/// expected literal; `LiteralMismatch` means it was long enough but did not
/// match; `Eof` means the input ended before a field's delimiter was found;
/// `Decode` wraps the cause of a failed field decode.
#[derive(Clone, Copy, Debug, PartialEq, Eq, Structural)]
pub enum ScanError {
    LiteralMismatch,
    LiteralNotFound,
    Eof,
    Decode(DecodeError),
}

impl ScanError {
    /// A short human-readable account of the error.
    pub fn message(&self) -> String {
        match self {
            ScanError::Eof => String::from_str("reached end of sequence while parsing"),
            ScanError::LiteralMismatch => String::from_str("literal mismatch"),
            ScanError::LiteralNotFound => String::from_str("literal was not found"),
            ScanError::Decode(DecodeError::Empty) => String::from_str(
                "cannot parse integer from empty string",
            ),
            ScanError::Decode(DecodeError::InvalidDigit) => String::from_str(
                "invalid digit found in string",
            ),
            ScanError::Decode(DecodeError::PosOverflow) => String::from_str(
                "number too large to fit in target type",
            ),
            ScanError::Decode(DecodeError::NegOverflow) => String::from_str(
                "number too small to fit in target type",
            ),
        }
    }
}

/// A type that can be decoded from a field's substring under the default
/// (decimal) spec. `spec_valid_start` is the start-validity predicate used
/// to delimit a preceding field; `scan_post` relates a decode result to
/// the input, and every implementation pins the result down exactly.
pub trait Scan: Sized {
    spec fn spec_valid_start(c: char) -> bool;

    spec fn scan_post(s: Seq<char>, r: Result<Self, ScanError>) -> bool;

    /// True if `c` could legally begin a value of this type.
    fn is_valid_start(c: char) -> (b: bool)
        ensures
            b == Self::spec_valid_start(c),
    ;

    /// Decode the entire substring `s`, or report why it cannot be.
    fn scan(s: &str) -> (r: Result<Self, ScanError>)
        ensures
            Self::scan_post(s@, r),
    ;
}

/// Decoding under the octal (base-8) spec.
pub trait ScanOctal: Sized {
    spec fn spec_valid_start(c: char) -> bool;

    spec fn scan_post(s: Seq<char>, r: Result<Self, ScanError>) -> bool;

    fn is_valid_start(c: char) -> (b: bool)
        ensures
            b == Self::spec_valid_start(c),
    ;

    fn scan(s: &str) -> (r: Result<Self, ScanError>)
        ensures
            Self::scan_post(s@, r),
    ;
}

/// Decoding under the binary (base-2) spec.
pub trait ScanBinary: Sized {
    spec fn spec_valid_start(c: char) -> bool;

    spec fn scan_post(s: Seq<char>, r: Result<Self, ScanError>) -> bool;

    fn is_valid_start(c: char) -> (b: bool)
        ensures
            b == Self::spec_valid_start(c),
    ;

    fn scan(s: &str) -> (r: Result<Self, ScanError>)
        ensures
            Self::scan_post(s@, r),
    ;
}

/// Decoding under the lower-hex (base-16) spec.
pub trait ScanLowerHex: Sized {
    spec fn spec_valid_start(c: char) -> bool;

    spec fn scan_post(s: Seq<char>, r: Result<Self, ScanError>) -> bool;

    fn is_valid_start(c: char) -> (b: bool)
        ensures
            b == Self::spec_valid_start(c),
    ;

    fn scan(s: &str) -> (r: Result<Self, ScanError>)
        ensures
            Self::scan_post(s@, r),
    ;
}

/// Decoding under the upper-hex spec: the substring is taken lower-cased
/// before the base-16 parse, which coincides with the case-insensitive
/// base-16 parse itself; only the start predicate tells upper from lower.
pub trait ScanUpperHex: Sized {
    spec fn spec_valid_start(c: char) -> bool;

    spec fn scan_post(s: Seq<char>, r: Result<Self, ScanError>) -> bool;

    fn is_valid_start(c: char) -> (b: bool)
        ensures
            b == Self::spec_valid_start(c),
    ;

    fn scan(s: &str) -> (r: Result<Self, ScanError>)
        ensures
            Self::scan_post(s@, r),
    ;
}

/// Consume the exact literal `literal` from the front of `source`.
///
/// Returns the rest of `source` on success. When `source` has fewer bytes
/// than `literal` the literal cannot possibly be present and the result is
/// `LiteralNotFound`; otherwise a prefix of the right byte length exists and
/// any disagreement (including a split that would fall inside a character)
/// is a `LiteralMismatch`.
pub fn advance<'a>(source: &'a str, literal: &str) -> (r: Result<&'a str, ScanError>)
    ensures
        match r {
            Ok(rest) => literal@.is_prefix_of(source@) && rest@ == source@.skip(
                literal@.len() as int,
            ),
            Err(e) => !literal@.is_prefix_of(source@) && (e == ScanError::LiteralNotFound <==> source.spec_bytes().len() < literal.spec_bytes().len()) && (e
                == ScanError::LiteralNotFound || e == ScanError::LiteralMismatch),
        },
{
    broadcast use vstd::slice::axiom_spec_len;

    if source.as_bytes().len() < literal.as_bytes().len() {
        proof {
            lemma_prefix_bytes(literal@, source@);
        }
        return Err(ScanError::LiteralNotFound);
    }
    let n = literal.unicode_len();
    let m = source.unicode_len();
    if m < n {
        return Err(ScanError::LiteralMismatch);
    }
    let mut i: usize = 0;
    while i < n
        invariant
            i <= n,
            n == literal@.len(),
            n <= m == source@.len(),
            forall|k: int| 0 <= k < i ==> source@[k] == literal@[k],
            source.spec_bytes().len() >= literal.spec_bytes().len(),
        decreases n - i,
    {
        if source.get_char(i) != literal.get_char(i) {
            return Err(ScanError::LiteralMismatch);
        }
        i += 1;
    }
    proof {
        assert(literal@.is_prefix_of(source@)) by {
            assert(literal@ =~= source@.subrange(0, n as int));
        }
    }
    let rest = source.substring_char(n, m);
    proof {
        assert(rest@ =~= source@.skip(n as int));
    }
    Ok(rest)
}

/// A prefix of a character sequence never encodes to more bytes than the
/// whole: so too few input bytes rule out a literal match.
pub proof fn lemma_prefix_bytes(lit: Seq<char>, src: Seq<char>)
    ensures
        lit.is_prefix_of(src) ==> crate::encoding::encode_len(lit) <= crate::encoding::encode_len(
            src,
        ),
{
    if lit.is_prefix_of(src) {
        crate::encoding::lemma_encode_len_split(src, lit.len() as int);
        assert(src.take(lit.len() as int) =~= lit);
    }
}

} // verus!
