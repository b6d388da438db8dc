//! The keyword classifier: decides, from a line's characters alone, whether
//! the line is a dedent trigger (its un-indented prefix is one of the five
//! keywords `return`, `pass`, `break`, `continue`, `raise`, followed by a
//! word boundary), and whether it starts with one of the four block-opening
//! keyword prefixes `if`, `for`, `try`, `while`.
//!
//! Whitespace here means space, tab, carriage return or newline; a word
//! character is an ASCII letter, an ASCII digit or an underscore.

use vstd::prelude::*;
use vstd::string::StrSliceExecFns;

verus! {

/// The whitespace characters the scanner treats as inert.
pub open spec fn is_scan_space(c: char) -> bool {
    c == ' ' || c == '\t' || c == '\r' || c == '\n'
}

/// A word character: ASCII letter, ASCII digit, or underscore. A dedent
/// keyword counts only when the character after it (if any) is not one of
/// these.
pub open spec fn is_word_char(c: char) -> bool {
    ('a' as u32 <= c as u32 && c as u32 <= 'z' as u32)
        || ('A' as u32 <= c as u32 && c as u32 <= 'Z' as u32)
        || ('0' as u32 <= c as u32 && c as u32 <= '9' as u32)
        || c == '_'
}

/// The line with its leading whitespace removed.
pub open spec fn trimmed(line: Seq<char>) -> Seq<char>
    decreases line.len(),
{
    if line.len() == 0 {
        line
    } else if is_scan_space(line[0]) {
        trimmed(line.subrange(1, line.len() as int))
    } else {
        line
    }
}

/// `t` begins with the characters of `kw`.
pub open spec fn seq_starts_with(t: Seq<char>, kw: Seq<char>) -> bool {
    t.len() >= kw.len() && t.subrange(0, kw.len() as int) == kw
}

/// `t` begins with `kw` as a whole word: either nothing follows the keyword,
/// or the next character is not a word character.
pub open spec fn starts_with_word(t: Seq<char>, kw: Seq<char>) -> bool {
    seq_starts_with(t, kw) && (t.len() == kw.len() || !is_word_char(t[kw.len() as int]))
}

/// The line's un-indented prefix is one of the five dedent keywords,
/// each required to end at a word boundary.
pub open spec fn is_dedent_line(line: Seq<char>) -> bool {
    let t = trimmed(line);
    ||| starts_with_word(t, "return"@)
    ||| starts_with_word(t, "pass"@)
    ||| starts_with_word(t, "break"@)
    ||| starts_with_word(t, "continue"@)
    ||| starts_with_word(t, "raise"@)
}

/// Removing a leading run of whitespace that ends at the first
/// non-whitespace character (or at the end of the line) is exactly what
/// `trimmed` does.
pub proof fn lemma_trimmed_at(line: Seq<char>, k: int)
    requires
        0 <= k <= line.len(),
        forall|i: int| 0 <= i < k ==> is_scan_space(line[i]),
        k == line.len() || !is_scan_space(line[k]),
    ensures
        trimmed(line) == line.subrange(k, line.len() as int),
    decreases k,
{
    if k == 0 {
        assert(line.subrange(0, line.len() as int) =~= line);
    } else {
        let rest = line.subrange(1, line.len() as int);
        assert(forall|i: int| 0 <= i < k - 1 ==> is_scan_space(rest[i]));
        lemma_trimmed_at(rest, k - 1);
        assert(rest.subrange(k - 1, rest.len() as int) =~= line.subrange(k, line.len() as int));
    }
}

/// Whether `c` is one of the whitespace characters the scanner skips.
pub(crate) fn is_space_char(c: char) -> (b: bool)
    ensures
        b == is_scan_space(c),
{
    c == ' ' || c == '\t' || c == '\r' || c == '\n'
}

fn is_word_char_exec(c: char) -> (b: bool)
    ensures
        b == is_word_char(c),
{
    let u = c as u32;
    ('a' as u32 <= u && u <= 'z' as u32) || ('A' as u32 <= u && u <= 'Z' as u32) || ('0' as u32
        <= u && u <= '9' as u32) || c == '_'
}

/// The length of the line's leading whitespace run.
pub(crate) fn ws_count(line: &Vec<char>) -> (k: usize)
    ensures
        k <= line@.len(),
        trimmed(line@) == line@.subrange(k as int, line@.len() as int),
{
    let mut k: usize = 0;
    while k < line.len() && is_space_char(line[k])
        invariant
            k <= line@.len(),
            forall|i: int| 0 <= i < k ==> is_scan_space(line@[i]),
        decreases line@.len() - k,
    {
        k = k + 1;
    }
    proof {
        lemma_trimmed_at(line@, k as int);
    }
    k
}

/// Whether the characters of `line` starting at `from` begin with `kw`.
pub(crate) fn kw_prefix_at(line: &Vec<char>, from: usize, kw: &str) -> (b: bool)
    requires
        from <= line@.len(),
    ensures
        b == seq_starts_with(line@.subrange(from as int, line@.len() as int), kw@),
{
    let klen = kw.unicode_len();
    let n = line.len();
    let ghost t = line@.subrange(from as int, line@.len() as int);
    if n - from < klen {
        return false;
    }
    let mut i: usize = 0;
    while i < klen
        invariant
            n == line@.len(),
            from + klen <= n,
            i <= klen,
            klen == kw@.len(),
            t == line@.subrange(from as int, line@.len() as int),
            forall|j: int| 0 <= j < i ==> line@[from + j] == kw@[j],
        decreases klen - i,
    {
        let c = line[from + i];
        if c != kw.get_char(i) {
            proof {
                if seq_starts_with(t, kw@) {
                    assert(t.subrange(0, klen as int)[i as int] == kw@[i as int]);
                    assert(t[i as int] == line@[from + i]);
                }
            }
            return false;
        }
        i = i + 1;
    }
    proof {
        assert(t.subrange(0, klen as int) =~= kw@);
    }
    true
}

/// Whether the characters of `line` starting at `from` begin with `kw` as a
/// whole word.
fn kw_word_at(line: &Vec<char>, from: usize, kw: &str) -> (b: bool)
    requires
        from <= line@.len(),
    ensures
        b == starts_with_word(line@.subrange(from as int, line@.len() as int), kw@),
{
    let ghost t = line@.subrange(from as int, line@.len() as int);
    if !kw_prefix_at(line, from, kw) {
        return false;
    }
    let klen = kw.unicode_len();
    let n = line.len();
    proof {
        assert(t.len() >= kw@.len());
    }
    if from + klen == n {
        true
    } else {
        proof {
            assert(t[klen as int] == line@[from + klen]);
        }
        !is_word_char_exec(line[from + klen])
    }
}

/// Whether the line is a dedent trigger: its un-indented prefix is one of
/// the five keywords `return`, `pass`, `break`, `continue`, `raise`,
/// followed by a word boundary.
pub fn line_is_dedent_trigger(line: &Vec<char>) -> (b: bool)
    ensures
        b == is_dedent_line(line@),
{
    let ws = ws_count(line);
    if kw_word_at(line, ws, "return") {
        return true;
    }
    if kw_word_at(line, ws, "pass") {
        return true;
    }
    if kw_word_at(line, ws, "break") {
        return true;
    }
    if kw_word_at(line, ws, "continue") {
        return true;
    }
    kw_word_at(line, ws, "raise")
}

} // verus!
