//! A verified parser for a restricted iCalendar event dialect.
//!
//! The library recognizes `VEVENT` blocks written as ten labeled field
//! lines in a fixed order, validates each field's lexical shape, and
//! extracts the field values into a flat mapping of canonical field
//! names to verbatim source tokens.

pub mod blocks;
pub mod error;
pub mod extract;
pub mod grammar;

pub use blocks::assemble_blocks;
pub use error::ParseError;
pub use extract::{parse_event, parse_event_blocks, FieldMapping};
pub use grammar::{Child, EventParser, Pair, Rule};
