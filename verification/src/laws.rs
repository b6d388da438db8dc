//! Laws of the scan: the bracket stack behaves as a stack — its length is
//! the number of pushed opens minus the number of matched closes, and every
//! step touches at most its most recent entry — and scanning is a pure
//! function of the text.

use vstd::prelude::*;
use crate::facts::{facts_of, ScanFacts};
use crate::model::{
    line_begin, scan_char, scan_chars, scan_line, scan_lines_to, scan_text, LineCursor, Pos,
    ScanState,
};

verus! {

/// How many of the first `n` characters of the line pushed a bracket.
pub open spec fn pushes_upto(cur0: LineCursor, row: int, line: Seq<char>, n: int) -> int
    decreases n,
{
    if n <= 0 {
        0
    } else {
        pushes_upto(cur0, row, line, n - 1) + if scan_chars(cur0, row, line, n).st.stack.len()
            > scan_chars(cur0, row, line, n - 1).st.stack.len() {
            1int
        } else {
            0int
        }
    }
}

/// How many of the first `n` characters of the line popped a bracket.
pub open spec fn pops_upto(cur0: LineCursor, row: int, line: Seq<char>, n: int) -> int
    decreases n,
{
    if n <= 0 {
        0
    } else {
        pops_upto(cur0, row, line, n - 1) + if scan_chars(cur0, row, line, n).st.stack.len()
            < scan_chars(cur0, row, line, n - 1).st.stack.len() {
            1int
        } else {
            0int
        }
    }
}

/// Brackets pushed while scanning one line from carried state `st`.
pub open spec fn line_opens(st: ScanState, row: int, line: Seq<char>) -> int {
    pushes_upto(line_begin(st, row, line), row, line, line.len() as int)
}

/// Brackets popped (matched closes) while scanning one line.
pub open spec fn line_closes(st: ScanState, row: int, line: Seq<char>) -> int {
    pops_upto(line_begin(st, row, line), row, line, line.len() as int)
}

/// Brackets pushed over the first `n` lines.
pub open spec fn opens_upto(lines: Seq<Seq<char>>, n: int) -> int
    decreases n,
{
    if n <= 0 {
        0
    } else {
        opens_upto(lines, n - 1) + line_opens(scan_lines_to(lines, n - 1), n - 1, lines[n - 1])
    }
}

/// Brackets popped over the first `n` lines.
pub open spec fn closes_upto(lines: Seq<Seq<char>>, n: int) -> int
    decreases n,
{
    if n <= 0 {
        0
    } else {
        closes_upto(lines, n - 1) + line_closes(scan_lines_to(lines, n - 1), n - 1, lines[n - 1])
    }
}

/// Opening brackets the whole scan pushes.
pub open spec fn opens(lines: Seq<Seq<char>>) -> int {
    opens_upto(lines, lines.len() as int)
}

/// Closing brackets the whole scan matches against a stack entry; unmatched
/// closers count for nothing.
pub open spec fn matched_closes(lines: Seq<Seq<char>>) -> int {
    closes_upto(lines, lines.len() as int)
}

/// The stack is last-in-first-out: one scanning step leaves it unchanged,
/// pushes the position of the character just read, or pops exactly its most
/// recently pushed entry. No step reorders it or touches a deeper entry.
pub proof fn lemma_stack_lifo(cur: LineCursor, row: int, col: int, c: char)
    ensures
        ({
            let prev = cur.st.stack;
            let next = scan_char(cur, row, col, c).st.stack;
            ||| next == prev
            ||| next == prev.push(Pos { row, col })
            ||| (prev.len() > 0 && next == prev.drop_last())
        }),
{
}

/// After `n` characters of a line, the stack has grown by exactly the pushes
/// minus the pops of those characters.
proof fn lemma_chars_balance(cur0: LineCursor, row: int, line: Seq<char>, n: int)
    requires
        0 <= n,
    ensures
        0 <= pushes_upto(cur0, row, line, n),
        0 <= pops_upto(cur0, row, line, n),
        scan_chars(cur0, row, line, n).st.stack.len() == cur0.st.stack.len() + pushes_upto(
            cur0,
            row,
            line,
            n,
        ) - pops_upto(cur0, row, line, n),
    decreases n,
{
    if n > 0 {
        lemma_chars_balance(cur0, row, line, n - 1);
        lemma_stack_lifo(scan_chars(cur0, row, line, n - 1), row, n - 1, line[n - 1]);
    }
}

/// The per-line version of the balance: one line adds its opens and removes
/// its matched closes.
pub proof fn lemma_line_balance(st: ScanState, row: int, line: Seq<char>)
    ensures
        0 <= line_opens(st, row, line),
        0 <= line_closes(st, row, line),
        scan_line(st, row, line).stack.len() == st.stack.len() + line_opens(st, row, line)
            - line_closes(st, row, line),
{
    lemma_chars_balance(line_begin(st, row, line), row, line, line.len() as int);
}

proof fn lemma_lines_balance(lines: Seq<Seq<char>>, n: int)
    requires
        0 <= n,
    ensures
        0 <= closes_upto(lines, n),
        closes_upto(lines, n) <= opens_upto(lines, n),
        scan_lines_to(lines, n).stack.len() == opens_upto(lines, n) - closes_upto(lines, n),
    decreases n,
{
    if n > 0 {
        lemma_lines_balance(lines, n - 1);
        lemma_line_balance(scan_lines_to(lines, n - 1), n - 1, lines[n - 1]);
    }
}

/// For every input, the length of the open-bracket stack equals the number
/// of opening brackets the scan pushed minus the number of closing brackets
/// it matched, and the matched closes never exceed the opens.
pub proof fn lemma_bracket_balance(lines: Seq<Seq<char>>)
    ensures
        scan_text(lines).stack.len() == opens(lines) - matched_closes(lines),
        0 <= matched_closes(lines),
        matched_closes(lines) <= opens(lines),
{
    lemma_lines_balance(lines, lines.len() as int);
}

/// Scanning is a pure function of the lines supplied: two results that both
/// satisfy `parse_lines`'s contract, for inputs whose lines read the same,
/// are equal in every exposed fact.
pub proof fn lemma_scan_deterministic(
    a: Seq<String>,
    b: Seq<String>,
    ra: ScanFacts,
    rb: ScanFacts,
)
    requires
        a.map_values(|s: String| s@) == b.map_values(|s: String| s@),
        ra == facts_of(scan_text(a.map_values(|s: String| s@))),
        rb == facts_of(scan_text(b.map_values(|s: String| s@))),
    ensures
        ra == rb,
{
}

} // verus!
