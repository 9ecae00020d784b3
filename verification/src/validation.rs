//! Validation of one line of input as an index into the sequence.

use crate::text::{
    characters, decimal_text, lemma_decimal_text_reads_back, parse_decimal, parse_i32, trim_bounds,
    trimmed,
};
use vstd::prelude::*;

verus! {

/// What a line of input turned out to be.
#[derive(Clone, Copy, Debug, PartialEq, Eq, Structural)]
pub enum Parsed {
    /// The line does not write an integer.
    Invalid,
    /// The line writes an integer below zero.
    Negative,
    /// The line writes this index.
    Valid(u32),
}

/// The verdict on a line: its blanks at both ends are set aside, and what is
/// left is read as a 32-bit signed integer.
pub open spec fn classify_line(line: Seq<char>) -> Parsed {
    match parse_i32(trimmed(line)) {
        None => Parsed::Invalid,
        Some(number) => if number < 0 {
            Parsed::Negative
        } else {
            Parsed::Valid(number as u32)
        },
    }
}

/// Validates one line of input.
pub fn classify(line: &str) -> (parsed: Parsed)
    ensures
        parsed == classify_line(line@),
{
    let chars = characters(line);
    let (from, to) = trim_bounds(&chars);
    match parse_decimal(&chars, from, to) {
        None => Parsed::Invalid,
        Some(number) => if number < 0 {
            Parsed::Negative
        } else {
            Parsed::Valid(number as u32)
        },
    }
}

/// A line that holds an index in decimal notation and nothing else is valid
/// and names that index.
pub proof fn lemma_written_index_is_valid(index: u32)
    requires
        index <= i32::MAX,
    ensures
        classify_line(decimal_text(index as nat)) == Parsed::Valid(index),
{
    lemma_decimal_text_reads_back(index as nat);
}

} // verus!
