//! The executable scanner, proved to compute exactly the state of the ghost
//! machine in [`crate::model`]: `parse_lines` returns the facts of
//! `scan_text` applied to the views of its input lines.

use vstd::prelude::*;
use vstd::string::StrSliceExecFns;
use crate::facts::{facts_of, opt_row, IParseOutput, LastSeenIndenters, OpenClose, RowCol};
use crate::keywords::{is_space_char, kw_prefix_at, line_is_dedent_trigger, ws_count};
use crate::model::{
    init_state, lemma_stopped_stays, line_begin, scan_char, scan_chars, scan_line, scan_lines_to,
    scan_text, LineCursor, Pos, ScanState,
};

verus! {

/// The exec counterpart of a [`LineCursor`] that has not stopped.
spec fn cursor_of(st: ScanState, delims: int, escaped: bool, snap: Option<int>) -> LineCursor {
    LineCursor { st, delims, escaped, stopped: false, colon_snap: snap }
}

/// The characters of a line as a vector.
pub(crate) fn line_chars(s: &str) -> (v: Vec<char>)
    ensures
        v@ == s@,
{
    let n = s.unicode_len();
    let mut v: Vec<char> = Vec::new();
    let mut i: usize = 0;
    while i < n
        invariant
            n == s@.len(),
            i <= n,
            v@ == s@.subrange(0, i as int),
        decreases n - i,
    {
        let c = s.get_char(i);
        v.push(c);
        proof {
            assert(v@ =~= s@.subrange(0, i as int + 1));
        }
        i = i + 1;
    }
    proof {
        assert(s@.subrange(0, n as int) =~= s@);
    }
    v
}

struct Scanner {
    can_hang: bool,
    dedent_next: bool,
    last_closed_info: Option<OpenClose>,
    last_colon_row: Option<usize>,
    open_bracket_stack: Vec<RowCol>,
    last_seen_indenters: LastSeenIndenters,
    string_delimiter: Option<char>,
    in_triple_quoted_string: bool,
    check_next_char_for_string: bool,
}

impl View for Scanner {
    type V = ScanState;

    closed spec fn view(&self) -> ScanState {
        ScanState {
            can_hang: self.can_hang,
            dedent_next: self.dedent_next,
            last_closed: match self.last_closed_info {
                Some(oc) => Some(oc@),
                None => None,
            },
            last_colon_row: opt_row(self.last_colon_row),
            stack: self.open_bracket_stack@.map_values(|p: RowCol| p@),
            indenters: self.last_seen_indenters@,
            delim: self.string_delimiter,
            in_triple: self.in_triple_quoted_string,
            check_next: self.check_next_char_for_string,
        }
    }
}

impl Scanner {
    fn new() -> (sc: Scanner)
        ensures
            sc@ == init_state(),
    {
        let sc = Scanner {
            can_hang: false,
            dedent_next: false,
            last_closed_info: None,
            last_colon_row: None,
            open_bracket_stack: Vec::new(),
            last_seen_indenters: LastSeenIndenters {
                if_: None,
                for_: None,
                try_: None,
                while_: None,
            },
            string_delimiter: None,
            in_triple_quoted_string: false,
            check_next_char_for_string: false,
        };
        proof {
            assert(sc@.stack =~= init_state().stack);
            assert(sc@ =~= init_state());
        }
        sc
    }

    /// One character of one line, exactly as the model's `scan_char` steps a
    /// cursor that has not stopped.
    fn step_char(
        &mut self,
        row: usize,
        col: usize,
        c: char,
        delims: &mut usize,
        escaped: &mut bool,
        snapshot: Option<usize>,
    ) -> (stop: bool)
        requires
            *old(delims) < usize::MAX,
        ensures
            ({
                let cur1 = scan_char(
                    cursor_of(old(self)@, *old(delims) as int, *old(escaped), opt_row(snapshot)),
                    row as int,
                    col as int,
                    c,
                );
                &&& final(self)@ == cur1.st
                &&& *final(delims) as int == cur1.delims
                &&& *final(escaped) == cur1.escaped
                &&& stop == cur1.stopped
            }),
            *final(delims) <= *old(delims) + 1,
    {
        let ghost cur = cursor_of(self@, *delims as int, *escaped, opt_row(snapshot));
        let is_delim = match self.string_delimiter {
            Some(d) => d == c,
            None => false,
        };
        if is_delim && !*escaped {
            *delims = *delims + 1;
        } else if self.check_next_char_for_string {
            *delims = 0;
            self.string_delimiter = None;
        } else {
            *delims = 0;
        }
        self.check_next_char_for_string = false;

        if self.string_delimiter.is_some() {
            if *escaped {
                // The escaped character is consumed without effect.
                *escaped = false;
            } else if is_delim {
                if self.in_triple_quoted_string {
                    if *delims == 3 {
                        *delims = 0;
                        self.string_delimiter = None;
                        self.in_triple_quoted_string = false;
                    }
                } else if *delims == 3 {
                    *delims = 0;
                    self.in_triple_quoted_string = true;
                } else if *delims == 2 {
                    self.check_next_char_for_string = true;
                } else if *delims == 1 {
                    self.string_delimiter = None;
                }
            } else if c == '\\' {
                *escaped = true;
            }
            false
        } else if c == '(' || c == '[' || c == '{' {
            self.can_hang = true;
            self.open_bracket_stack.push(RowCol { row, col });
            proof {
                assert(self.open_bracket_stack@.map_values(|q: RowCol| q@) =~= cur.st.stack.push(
                    Pos { row: row as int, col: col as int },
                ));
            }
            false
        } else if is_space_char(c) {
            false
        } else if c == '#' {
            true
        } else {
            self.can_hang = false;
            self.last_colon_row = snapshot;
            if c == ':' {
                self.last_colon_row = Some(row);
            } else if (c == ')' || c == ']' || c == '}') && self.open_bracket_stack.len() > 0 {
                let p = self.open_bracket_stack.pop().unwrap();
                proof {
                    assert(self.open_bracket_stack@.map_values(|q: RowCol| q@)
                        =~= cur.st.stack.drop_last());
                    assert(p@ == cur.st.stack.last());
                }
                if p.row != row {
                    self.last_closed_info = Some(OpenClose { open: p.row, close: row });
                }
            } else if c == '\'' || c == '"' {
                self.string_delimiter = Some(c);
                *delims = *delims + 1;
            }
            false
        }
    }

    /// One whole line, exactly as the model's `scan_line` advances the
    /// carried state.
    fn step_line(&mut self, row: usize, line: &Vec<char>)
        ensures
            final(self)@ == scan_line(old(self)@, row as int, line@),
    {
        let dedent = self.string_delimiter.is_none() && line_is_dedent_trigger(line);
        self.dedent_next = dedent;

        let ws = ws_count(line);
        if kw_prefix_at(line, ws, "if") {
            self.last_seen_indenters.if_ = Some(row);
        } else if kw_prefix_at(line, ws, "for") {
            self.last_seen_indenters.for_ = Some(row);
        } else if kw_prefix_at(line, ws, "try") {
            self.last_seen_indenters.try_ = Some(row);
        } else if kw_prefix_at(line, ws, "while") {
            self.last_seen_indenters.while_ = Some(row);
        }

        let ghost cur0 = line_begin(old(self)@, row as int, line@);
        proof {
            assert(self@ =~= cur0.st);
        }

        let snapshot: Option<usize> = self.last_colon_row;
        let n = line.len();
        let mut delims: usize = 0;
        let mut escaped = false;
        let mut col: usize = 0;
        while col < n
            invariant_except_break
                n == line@.len(),
                col <= n,
                delims <= col,
                cur0 == line_begin(old(self)@, row as int, line@),
                ({
                    let cur = scan_chars(cur0, row as int, line@, col as int);
                    &&& !cur.stopped
                    &&& cur.st == self@
                    &&& cur.delims == delims as int
                    &&& cur.escaped == escaped
                    &&& cur.colon_snap == opt_row(snapshot)
                }),
            ensures
                self@ == scan_chars(cur0, row as int, line@, n as int).st,
            decreases n - col,
        {
            let ghost cur_pre = scan_chars(cur0, row as int, line@, col as int);
            let c = line[col];
            let stop = self.step_char(row, col, c, &mut delims, &mut escaped, snapshot);
            proof {
                assert(line@[col as int] == c);
                assert(scan_chars(cur0, row as int, line@, col as int + 1) == scan_char(
                    cur_pre,
                    row as int,
                    col as int,
                    c,
                ));
            }
            if stop {
                proof {
                    lemma_stopped_stays(cur0, row as int, line@, col as int + 1, n as int);
                }
                break;
            }
            col = col + 1;
        }
    }

    fn into_output(self) -> (r: IParseOutput)
        ensures
            r@ == facts_of(self@),
    {
        let r = IParseOutput {
            can_hang: self.can_hang,
            dedent_next: self.dedent_next,
            last_closed_info: self.last_closed_info,
            last_colon_row: self.last_colon_row,
            open_bracket_stack: self.open_bracket_stack,
            last_seen_indenters: self.last_seen_indenters,
        };
        proof {
            assert(r@ =~= facts_of(self@));
        }
        r
    }
}

/// Scan a sequence of lines and return the structural facts the model
/// assigns to it: the open-bracket stack, the last multi-line bracket pair
/// closed, the last block-opening colon row, the hanging-indent and dedent
/// flags, and the keyword bookkeeping. Total for every input; unmatched
/// closers and unterminated strings are tolerated, not errors.
pub fn parse_lines(lines: Vec<String>) -> (r: IParseOutput)
    ensures
        r@ == facts_of(scan_text(lines@.map_values(|s: String| s@))),
{
    let ghost lv = lines@.map_values(|s: String| s@);
    let mut sc = Scanner::new();
    let n = lines.len();
    let mut row: usize = 0;
    while row < n
        invariant
            n == lines@.len(),
            row <= n,
            lv == lines@.map_values(|s: String| s@),
            sc@ == scan_lines_to(lv, row as int),
        decreases n - row,
    {
        let cs = line_chars(lines[row].as_str());
        proof {
            assert(cs@ == lv[row as int]);
        }
        sc.step_line(row, &cs);
        row = row + 1;
    }
    sc.into_output()
}

} // verus!
