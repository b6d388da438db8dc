//! The externally visible result of a scan, and the views that tie each
//! result type to the ghost model in [`crate::model`].

use vstd::prelude::*;
use crate::model::{IndenterRows, Pos, ScanState, Span};

verus! {

/// The row and column of one character of the input.
#[derive(Clone, Copy, Debug, PartialEq, Eq, Structural)]
pub struct RowCol {
    pub row: usize,
    pub col: usize,
}

impl View for RowCol {
    type V = Pos;

    open spec fn view(&self) -> Pos {
        Pos { row: self.row as int, col: self.col as int }
    }
}

/// A bracket pair that was opened on row `open` and closed on a different
/// row `close`.
#[derive(Clone, Copy, Debug, PartialEq, Eq, Structural)]
pub struct OpenClose {
    pub open: usize,
    pub close: usize,
}

impl View for OpenClose {
    type V = Span;

    open spec fn view(&self) -> Span {
        Span { open: self.open as int, close: self.close as int }
    }
}

/// The row on which each of the four block-opening keyword families (`if`,
/// `for`, `try`, `while`) last opened a line's un-indented prefix.
#[derive(Clone, Copy, Debug, PartialEq, Eq)]
pub struct LastSeenIndenters {
    pub if_: Option<usize>,
    pub for_: Option<usize>,
    pub try_: Option<usize>,
    pub while_: Option<usize>,
}

/// A row number widened to the model's integers.
pub open spec fn opt_row(o: Option<usize>) -> Option<int> {
    match o {
        Some(r) => Some(r as int),
        None => None,
    }
}

impl View for LastSeenIndenters {
    type V = IndenterRows;

    open spec fn view(&self) -> IndenterRows {
        IndenterRows {
            if_: opt_row(self.if_),
            for_: opt_row(self.for_),
            try_: opt_row(self.try_),
            while_: opt_row(self.while_),
        }
    }
}

/// The facts a scan exposes: everything an indentation decision needs, and
/// nothing of the internal string-literal state.
#[verifier::ext_equal]
pub ghost struct ScanFacts {
    pub can_hang: bool,
    pub dedent_next: bool,
    pub last_closed: Option<Span>,
    pub last_colon_row: Option<int>,
    pub stack: Seq<Pos>,
    pub indenters: IndenterRows,
}

/// The exposed part of a scanner state.
pub open spec fn facts_of(st: ScanState) -> ScanFacts {
    ScanFacts {
        can_hang: st.can_hang,
        dedent_next: st.dedent_next,
        last_closed: st.last_closed,
        last_colon_row: st.last_colon_row,
        stack: st.stack,
        indenters: st.indenters,
    }
}

/// The result of scanning a sequence of lines.
#[derive(Clone, Debug, PartialEq)]
pub struct IParseOutput {
    /// An opening bracket is the most recent non-trivial character, so a
    /// hanging indent is permitted.
    pub can_hang: bool,
    /// The last line is a dedent trigger.
    pub dedent_next: bool,
    /// The most recently closed bracket pair whose open and close rows
    /// differ.
    pub last_closed_info: Option<OpenClose>,
    /// The row of the last block-opening colon.
    pub last_colon_row: Option<usize>,
    /// Brackets opened and not yet closed, oldest first.
    pub open_bracket_stack: Vec<RowCol>,
    /// Keyword bookkeeping for `if`, `for`, `try`, `while`.
    pub last_seen_indenters: LastSeenIndenters,
}

impl View for IParseOutput {
    type V = ScanFacts;

    open spec fn view(&self) -> ScanFacts {
        ScanFacts {
            can_hang: self.can_hang,
            dedent_next: self.dedent_next,
            last_closed: match self.last_closed_info {
                Some(oc) => Some(oc@),
                None => None,
            },
            last_colon_row: opt_row(self.last_colon_row),
            stack: self.open_bracket_stack@.map_values(|p: RowCol| p@),
            indenters: self.last_seen_indenters@,
        }
    }
}

} // verus!
