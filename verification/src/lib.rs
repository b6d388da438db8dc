//! Line scanner that recovers the structural facts an editor needs to choose
//! the indentation of the next line: the stack of still-open brackets, the
//! most recently closed multi-line bracket pair, the row of the last
//! block-opening colon, whether a hanging indent is permitted, whether the
//! last line asks for a dedent, and the rows where block-opening keywords
//! were last seen.

pub mod facts;
pub mod keywords;
pub mod laws;
pub mod model;
pub mod scanner;

pub use facts::{IParseOutput, LastSeenIndenters, OpenClose, RowCol};
pub use keywords::line_is_dedent_trigger;
pub use scanner::parse_lines;
