//! The ways in which a run can fail.

use crate::ops::Direction;
use vstd::prelude::*;

verus! {

/// A failure as a mathematical value.
pub enum Failure {
    /// A loop scan from the bracket at `at` left the stream without finding a partner.
    UnmatchedBracket { direction: Direction, at: int },
    /// The payload of the byte-encoded dialect is not valid binary-to-text text.
    InvalidEncoding,
    /// A strict dialect met `value`, which is outside its table, at `at`.
    UnrecognizedToken { at: int, value: u32 },
    /// No pattern rule matches the front of the remaining text, which starts with `excerpt`.
    UnintelligiblePattern { excerpt: Seq<char> },
    /// The pattern engine refused to compile the rule with this index.
    RuleRejected { rule: nat },
}

/// A failure that ends a run. Everything written before it stays written.
#[derive(Debug, PartialEq, Eq)]
pub enum EngineError {
    /// A loop scan from the bracket at `at` left the stream without finding a partner.
    UnmatchedBracket { direction: Direction, at: usize },
    /// The payload of the byte-encoded dialect is not valid binary-to-text text.
    InvalidEncoding,
    /// A strict dialect met `value`, which is outside its table, at `at`.
    UnrecognizedToken { at: usize, value: u32 },
    /// No pattern rule matches the front of the remaining text; `excerpt`
    /// holds up to its first ten characters.
    UnintelligiblePattern { excerpt: String },
    /// The pattern engine refused to compile the rule with this index.
    RuleRejected { rule: usize },
}

impl View for EngineError {
    type V = Failure;

    open spec fn view(&self) -> Failure {
        match *self {
            EngineError::UnmatchedBracket { direction, at } => Failure::UnmatchedBracket {
                direction,
                at: at as int,
            },
            EngineError::InvalidEncoding => Failure::InvalidEncoding,
            EngineError::UnrecognizedToken { at, value } => Failure::UnrecognizedToken {
                at: at as int,
                value,
            },
            EngineError::UnintelligiblePattern { excerpt } => Failure::UnintelligiblePattern {
                excerpt: excerpt@,
            },
            EngineError::RuleRejected { rule } => Failure::RuleRejected { rule: rule as nat },
        }
    }
}

} // verus!
