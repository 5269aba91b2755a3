//! Parsers for a small family of text diagram languages (flowcharts and pie charts).
//!
//! Each parser turns its input text into a structured model, or into an error that locates the
//! offending character by line, column and byte offset. The grammars are stated as spec
//! functions over the input's characters, and each parser is proved to compute exactly what its
//! grammar describes.
use vstd::prelude::*;

pub mod flowchart;
pub mod flowchart_parse;
pub mod graph;
pub mod pie;
pub mod scan;

pub use flowchart::Flowchart;
pub use flowchart_parse::parse_flowchart;
pub use pie::{parse_pie, Pie};

verus! {

/// The longest input, in characters, that the parsers take: every byte offset into such an
/// input fits in a `usize` and every line number in a `u32`.
pub const MAX_INPUT_CHARS: usize = 0x3fff_ffff;

} // verus!
