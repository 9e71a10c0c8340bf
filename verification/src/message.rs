//! The wording of failures, level by level.

use crate::error::{EngineError, Failure};
use crate::level::Level;
use crate::text::{decimal, push_decimal};
use vstd::prelude::*;
use vstd::string::*;

verus! {

/// What is shown for a payload that does not decode.
pub open spec fn invalid_encoding_text() -> Seq<char> {
    "CHAINSAW ERROR: Bad fuel mix (Invalid Base64 string)"@
}

/// What is shown for text that no rule matches, around its excerpt.
pub open spec fn unintelligible_text(excerpt: Seq<char>) -> Seq<char> {
    "\nFATAL SYSTEM ANGUISH: Unintelligible screaming detected near '"@ + excerpt + "...'"@
}

/// What is shown for a rule that the pattern engine refuses.
pub open spec fn rule_rejected_text(rule: nat) -> Seq<char> {
    "FATAL SYSTEM ANGUISH: The pattern engine refused scream rule "@ + decimal(rule)
}

/// What is shown for a dialect selector that chooses no level.
pub open spec fn invalid_selector_text(selector: u8) -> Seq<char> {
    "Error: Invalid level '"@ + decimal(selector as nat)
        + "'. Please choose a level from 1 to 4."@
}

/// The wording of `failure` at `level`, or `None` where a run at that
/// level cannot fail in that way.
pub open spec fn description(level: Level, failure: Failure) -> Option<Seq<char>> {
    match level.table() {
        Some(d) => match failure {
            Failure::InvalidEncoding => if level == Level::Three {
                Some(invalid_encoding_text())
            } else {
                None
            },
            _ => d.failure_text(failure),
        },
        None => match failure {
            Failure::UnintelligiblePattern { excerpt } => Some(unintelligible_text(excerpt)),
            Failure::RuleRejected { rule } => Some(rule_rejected_text(rule)),
            _ => None,
        },
    }
}

/// What is shown for a dialect selector that chooses no level.
pub fn invalid_selector_message(selector: u8) -> (text: String)
    ensures
        text@ == invalid_selector_text(selector),
{
    let mut text = String::from_str("Error: Invalid level '");
    push_decimal(&mut text, selector as u64);
    text.append("'. Please choose a level from 1 to 4.");
    text
}

/// The wording of `error` at `level`, or `None` where a run at that level
/// cannot fail in that way.
pub fn describe(level: Level, error: &EngineError) -> (text: Option<String>)
    ensures
        match text {
            Some(t) => description(level, error@) == Some(t@),
            None => description(level, error@) is None,
        },
{
    match level.dialect() {
        Some(d) => match error {
            EngineError::InvalidEncoding => match level {
                Level::Three => Some(
                    String::from_str("CHAINSAW ERROR: Bad fuel mix (Invalid Base64 string)"),
                ),
                _ => None,
            },
            _ => d.describe(error),
        },
        None => match error {
            EngineError::UnintelligiblePattern { excerpt } => {
                let mut text = String::from_str(
                    "\nFATAL SYSTEM ANGUISH: Unintelligible screaming detected near '",
                );
                text.append(excerpt.as_str());
                text.append("...'");
                Some(text)
            },
            EngineError::RuleRejected { rule } => {
                let mut text = String::from_str(
                    "FATAL SYSTEM ANGUISH: The pattern engine refused scream rule ",
                );
                push_decimal(&mut text, *rule as u64);
                Some(text)
            },
            _ => None,
        },
    }
}

} // verus!
