//! A small command-line argument recognizer.
//!
//! A list of argument definitions is compiled into a checked lookup
//! structure, and a stepwise scanner turns a list of string tokens into an
//! ordered stream of recognized argument events, or the first structural
//! error. Every function is verified against a mathematical model of the
//! definitions, the tokens and the scanner's cursor.

pub mod argdef;
pub mod definitions;
pub mod engine;
pub mod help;
pub mod parse;
pub mod text;

pub use argdef::{ArgDef, ArgDefKind};
pub use definitions::{parse_definitions, DefinitionError, ParseState, TargetRef};
pub use engine::{Event, Parse, ParseError};
pub use parse::{parse_plain, subprogram, End, Failure, Parsed};
pub use help::{trim_and_strip_lines, Help, HelpItem, HelpOptKind, HelpOption, HelpTrail};
