//! Error taxonomy of the assembler.
//!
//! Every failure is fatal for the assembly run that raised it: the first
//! error aborts the run and is surfaced to the caller unchanged.

use vstd::prelude::*;

verus! {

/// Errors about the segment metadata handed to an assembly run.
#[derive(Debug)]
pub enum MetadataError {
    /// No base address was given for the named segment.
    NoSegmentData(String),
    /// The named segment's base address violates its alignment.
    Align(String),
}

/// Errors raised while encoding instructions and data into machine form.
#[derive(Debug)]
pub enum CompileError {
    /// A computed or literal immediate does not fit the 16-bit field.
    ImmSize,
    /// A register index of 32 or more appeared in the named operand position.
    RegisterParse(String),
    /// The named symbol was referenced but never defined.
    TagResolution(String),
    /// A data item or segment base at the given address violates the given
    /// required alignment; the name tells which symbol or segment.
    AlignmentError(u32, u32, String),
    /// The code and data segments' address ranges intersect.
    SegmentOverlap,
}

/// The spec-level image of a `CompileError`, with names as character
/// sequences.
pub ghost enum CompileErrorSpec {
    ImmSize,
    RegisterParse(Seq<char>),
    TagResolution(Seq<char>),
    AlignmentError(u32, u32, Seq<char>),
    SegmentOverlap,
}

/// The spec-level image of a `CompileError` value.
pub open spec fn err_view(e: CompileError) -> CompileErrorSpec {
    match e {
        CompileError::ImmSize => CompileErrorSpec::ImmSize,
        CompileError::RegisterParse(s) => CompileErrorSpec::RegisterParse(s@),
        CompileError::TagResolution(s) => CompileErrorSpec::TagResolution(s@),
        CompileError::AlignmentError(a, b, s) => CompileErrorSpec::AlignmentError(a, b, s@),
        CompileError::SegmentOverlap => CompileErrorSpec::SegmentOverlap,
    }
}

/// Errors raised while reading the textual form of a line.
#[derive(Debug)]
pub enum SyntaxError {
    /// No matching pair of the given delimiter character was found.
    NoMatchingPair(char),
    /// A data directive names a type keyword that does not exist.
    UnknownDataType(String),
    /// A numeric literal could not be read, or does not fit its field.
    BadNumber(String),
    /// An operation mnemonic that the instruction set does not contain.
    UnknownOpcode(String),
    /// A line is missing a structural token (a label colon, a type keyword
    /// or an operand).
    MalformedLine,
}

} // verus!
