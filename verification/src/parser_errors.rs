use vstd::prelude::*;

verus! {

/// Why a parser refused its input.
#[derive(Clone, Debug)]
pub enum ParserError {
    InvalidChar(char),
    InvalidBuffer,
    UnsupportedEscapeSequence(String),
    UnsupportedCustomCommand(i32),
    Description(String),
    UnsupportedControlCode(u32),
    UnsupportedFont(i32),
    UnexpectedSixelEnd(char),
    InvalidColorInSixelSequence,
    NumberMissingInSixelRepeat,
    InvalidSixelChar(char),
    UnsupportedSixelColorformat(i32),
    ErrorInSixelEngine(String),
    InvalidPictureSize,
    InvalidRipAnsiQuery(i32),
}

/// `res` is the error for an unsupported escape sequence that names `seq`.
pub open spec fn is_unsupported_sequence<T>(res: Result<T, ParserError>, seq: Seq<char>) -> bool {
    res matches Err(ParserError::UnsupportedEscapeSequence(s)) && s@ == seq
}

} // verus!
