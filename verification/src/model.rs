//! The mathematical model of the scan: a ghost state machine that consumes
//! one character at a time, carrying string-literal state, the stack of open
//! brackets, the most recently closed multi-line bracket pair, the candidate
//! block-colon row, and the keyword bookkeeping. `scan_text` folds it over a
//! whole sequence of lines; the executable scanner is proved to return
//! exactly the facts this model computes.

use vstd::prelude::*;
use crate::keywords::{is_dedent_line, is_scan_space, seq_starts_with, trimmed};

verus! {

/// The row and column of one character of the input.
pub ghost struct Pos {
    pub row: int,
    pub col: int,
}

/// A bracket pair whose open and close rows differ: `open` is the row the
/// bracket was pushed on, `close` the row it was popped on.
pub ghost struct Span {
    pub open: int,
    pub close: int,
}

/// The row on which each of the four block-opening keyword families was last
/// seen at the start of a line's un-indented prefix.
pub ghost struct IndenterRows {
    pub if_: Option<int>,
    pub for_: Option<int>,
    pub try_: Option<int>,
    pub while_: Option<int>,
}

/// The whole scanner state carried from character to character and from line
/// to line.
#[verifier::ext_equal]
pub ghost struct ScanState {
    /// The most recent qualifying or disqualifying character allows a
    /// hanging indent: true right after an opening bracket, false once any
    /// other non-whitespace, non-comment character is seen outside a string.
    pub can_hang: bool,
    /// The last line scanned was a dedent trigger. Recomputed each line.
    pub dedent_next: bool,
    /// The most recently closed bracket pair whose open and close rows
    /// differ. Same-row pairs are never recorded.
    pub last_closed: Option<Span>,
    /// The row of the last colon that was not disqualified by a later
    /// non-trivial character on its own line.
    pub last_colon_row: Option<int>,
    /// Positions of brackets opened and not yet closed, oldest first.
    pub stack: Seq<Pos>,
    /// Keyword bookkeeping for `if`, `for`, `try`, `while`.
    pub indenters: IndenterRows,
    /// The delimiter of the string literal the scanner is inside, if any.
    pub delim: Option<char>,
    /// Whether that string literal is triple-quoted.
    pub in_triple: bool,
    /// A run of two delimiters was seen: the next character decides between
    /// an empty string and a triple-quoted one.
    pub check_next: bool,
}

/// The per-line cursor: the carried state plus the bookkeeping that is reset
/// at every line start.
#[verifier::ext_equal]
pub ghost struct LineCursor {
    pub st: ScanState,
    /// Length of the current run of consecutive unescaped delimiters.
    pub delims: int,
    /// The previous character was an unescaped backslash inside a string.
    pub escaped: bool,
    /// A `#` outside a string ended the line early; the rest is comment.
    pub stopped: bool,
    /// `last_colon_row` as it stood when the line began; a disqualifying
    /// character reverts the field to this value.
    pub colon_snap: Option<int>,
}

/// The state before any line has been scanned.
pub open spec fn init_state() -> ScanState {
    ScanState {
        can_hang: false,
        dedent_next: false,
        last_closed: None,
        last_colon_row: None,
        stack: Seq::empty(),
        indenters: IndenterRows { if_: None, for_: None, try_: None, while_: None },
        delim: None,
        in_triple: false,
        check_next: false,
    }
}

/// One keyword family is updated per line, in the fixed priority order
/// `if`, `for`, `try`, `while`; the line's un-indented prefix decides.
/// This runs whatever the string state is.
pub open spec fn track_indenters(ind: IndenterRows, row: int, line: Seq<char>) -> IndenterRows {
    let t = trimmed(line);
    if seq_starts_with(t, "if"@) {
        IndenterRows { if_: Some(row), ..ind }
    } else if seq_starts_with(t, "for"@) {
        IndenterRows { for_: Some(row), ..ind }
    } else if seq_starts_with(t, "try"@) {
        IndenterRows { try_: Some(row), ..ind }
    } else if seq_starts_with(t, "while"@) {
        IndenterRows { while_: Some(row), ..ind }
    } else {
        ind
    }
}

/// The cursor at the start of a line: the dedent flag is recomputed (only
/// when the line does not begin inside a string), the keyword rows are
/// updated, the per-line counters are reset, and the current colon row is
/// snapshotted.
pub open spec fn line_begin(st: ScanState, row: int, line: Seq<char>) -> LineCursor {
    let st1 = ScanState {
        dedent_next: st.delim is None && is_dedent_line(line),
        indenters: track_indenters(st.indenters, row, line),
        ..st
    };
    LineCursor {
        st: st1,
        delims: 0,
        escaped: false,
        stopped: false,
        colon_snap: st.last_colon_row,
    }
}

/// One character step of the scan. A stopped cursor (comment seen) ignores
/// the rest of its line.
pub open spec fn scan_char(cur: LineCursor, row: int, col: int, c: char) -> LineCursor {
    if cur.stopped {
        cur
    } else {
        let st = cur.st;
        let run = st.delim == Some(c) && !cur.escaped;
        // The run of consecutive delimiters grows or resets; a pending
        // empty-string/triple-quote decision resolves to "outside a string"
        // when the deciding character is not the delimiter.
        let delims1: int = if run {
            cur.delims + 1
        } else {
            0
        };
        let st1 = if !run && st.check_next {
            ScanState { delim: None, ..st }
        } else {
            st
        };
        let st2 = ScanState { check_next: false, ..st1 };
        if st2.delim is Some {
            if cur.escaped {
                // An escaped character never changes string state.
                LineCursor { st: st2, delims: delims1, escaped: false, ..cur }
            } else if st2.delim == Some(c) {
                if st2.in_triple {
                    if delims1 == 3 {
                        // A run of three closes the triple-quoted string.
                        LineCursor {
                            st: ScanState { delim: None, in_triple: false, ..st2 },
                            delims: 0,
                            ..cur
                        }
                    } else {
                        LineCursor { st: st2, delims: delims1, ..cur }
                    }
                } else if delims1 == 3 {
                    // A run of three opens a triple-quoted string.
                    LineCursor { st: ScanState { in_triple: true, ..st2 }, delims: 0, ..cur }
                } else if delims1 == 2 {
                    // Empty string or triple-quote start: defer one character.
                    LineCursor { st: ScanState { check_next: true, ..st2 }, delims: delims1, ..cur }
                } else if delims1 == 1 {
                    // An unescaped delimiter closes the string.
                    LineCursor { st: ScanState { delim: None, ..st2 }, delims: delims1, ..cur }
                } else {
                    LineCursor { st: st2, delims: delims1, ..cur }
                }
            } else if c == '\\' {
                // The next character is escaped.
                LineCursor { st: st2, delims: delims1, escaped: true, ..cur }
            } else {
                LineCursor { st: st2, delims: delims1, ..cur }
            }
        } else if c == '(' || c == '[' || c == '{' {
            LineCursor {
                st: ScanState {
                    can_hang: true,
                    stack: st2.stack.push(Pos { row, col }),
                    ..st2
                },
                delims: delims1,
                ..cur
            }
        } else if is_scan_space(c) {
            LineCursor { st: st2, delims: delims1, ..cur }
        } else if c == '#' {
            // Comment: the rest of the line is skipped.
            LineCursor { st: st2, delims: delims1, stopped: true, ..cur }
        } else {
            // Any other character outside a string disqualifies a hanging
            // indent and discards this line's colon candidate.
            let st3 = ScanState { can_hang: false, last_colon_row: cur.colon_snap, ..st2 };
            if c == ':' {
                LineCursor {
                    st: ScanState { last_colon_row: Some(row), ..st3 },
                    delims: delims1,
                    ..cur
                }
            } else if (c == ')' || c == ']' || c == '}') && st3.stack.len() > 0 {
                let top = st3.stack.last();
                let st4 = ScanState { stack: st3.stack.drop_last(), ..st3 };
                if top.row != row {
                    LineCursor {
                        st: ScanState {
                            last_closed: Some(Span { open: top.row, close: row }),
                            ..st4
                        },
                        delims: delims1,
                        ..cur
                    }
                } else {
                    LineCursor { st: st4, delims: delims1, ..cur }
                }
            } else if c == '\'' || c == '"' {
                LineCursor {
                    st: ScanState { delim: Some(c), ..st3 },
                    delims: delims1 + 1,
                    ..cur
                }
            } else {
                LineCursor { st: st3, delims: delims1, ..cur }
            }
        }
    }
}

/// The cursor after the first `n` characters of `line`.
pub open spec fn scan_chars(cur: LineCursor, row: int, line: Seq<char>, n: int) -> LineCursor
    decreases n,
{
    if n <= 0 {
        cur
    } else {
        scan_char(scan_chars(cur, row, line, n - 1), row, n - 1, line[n - 1])
    }
}

/// The carried state after one whole line.
pub open spec fn scan_line(st: ScanState, row: int, line: Seq<char>) -> ScanState {
    scan_chars(line_begin(st, row, line), row, line, line.len() as int).st
}

/// The state after the first `n` lines.
pub open spec fn scan_lines_to(lines: Seq<Seq<char>>, n: int) -> ScanState
    decreases n,
{
    if n <= 0 {
        init_state()
    } else {
        scan_line(scan_lines_to(lines, n - 1), n - 1, lines[n - 1])
    }
}

/// The state after the whole input.
pub open spec fn scan_text(lines: Seq<Seq<char>>) -> ScanState {
    scan_lines_to(lines, lines.len() as int)
}

/// Once a comment has stopped a line, the remaining characters of that line
/// change nothing.
pub proof fn lemma_stopped_stays(cur: LineCursor, row: int, line: Seq<char>, a: int, b: int)
    requires
        0 <= a <= b,
        scan_chars(cur, row, line, a).stopped,
    ensures
        scan_chars(cur, row, line, b) == scan_chars(cur, row, line, a),
    decreases b - a,
{
    if a < b {
        lemma_stopped_stays(cur, row, line, a, b - 1);
    }
}

} // verus!
