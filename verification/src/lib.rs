//! A tape-machine interpreter for four related instruction dialects.
//!
//! All four dialects share one execution model: a circular tape of byte
//! cells, a data pointer, and a stream of instructions that reduce to eight
//! semantic operations. Three dialects read one symbol per instruction and
//! use a bracket pair for loops; the fourth recognises its instructions with
//! prioritised patterns at the front of the remaining text.
//!
//! The engines never perform input or output themselves. A step reports what
//! the caller has to do next (emit a byte, read a byte), and the bounded
//! runners work on an input buffer and collect the output.

use vstd::prelude::*;

pub mod decoder;
pub mod dialect;
pub mod engine;
pub mod error;
pub mod level;
pub mod matching;
pub mod message;
pub mod ops;
pub mod pattern;
pub mod run;
pub mod tape;
pub mod text;

pub use dialect::Dialect;
pub use engine::{execute, Machine};
pub use error::EngineError;
pub use level::{run, run_level1, run_level2, run_level3, run_level4, Level};
pub use message::{describe, invalid_selector_message};
pub use ops::{Action, Direction, Op};
pub use pattern::PatternMachine;
pub use run::{Outcome, Run};
pub use tape::{Tape, TAPE_SIZE};
