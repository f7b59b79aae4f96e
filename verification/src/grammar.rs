//! The grep-like line grammar and its parser.
//!
//! A line is matched against, in order: an optional path-prefix group
//! (a lead segment of characters outside `:/`, an optional `/`, then the
//! captured prefix up to a `:`), a required file-path token of non-`:`
//! characters, up to two optional `:`-introduced digit groups (row and
//! column), a required `:`, optional white space, and the message body.
//! Groups are resolved by first-match semantics: a leading group is kept
//! whenever some choice of its boundaries lets the rest of the line match,
//! and greedy choices are preferred left to right.  The match may start
//! after an unmatched run of leading `:` characters, which is dropped.
//!
//! `parse_line_spec` states that parse deterministically; `parse_line`
//! computes it.

use crate::scan::{in_run, is_space, lemma_scan, scan, scan_exec, Run};
use vstd::prelude::*;

verus! {

/// The mathematical form of a parsed line: every field a character sequence.
pub ghost struct LineView {
    pub prefix: Option<Seq<char>>,
    pub filepath: Seq<char>,
    pub row: Option<Seq<char>>,
    pub column: Option<Seq<char>>,
    pub contents: Seq<char>,
}

/// The row, column and body start that follow the file-path token,
/// parsed from the `:` at index `c`.
pub ghost struct TailView {
    pub row: Option<Seq<char>>,
    pub column: Option<Seq<char>>,
    pub body: int,
}

/// One parsed line: the optional captured prefix, the file-path token,
/// optional row and column digit strings, and the message body.
pub struct ParsedLine {
    pub prefix: Option<String>,
    pub filepath: String,
    pub row: Option<String>,
    pub column: Option<String>,
    pub contents: String,
}

impl View for ParsedLine {
    type V = LineView;

    open spec fn view(&self) -> LineView {
        LineView {
            prefix: self.prefix.deep_view(),
            filepath: self.filepath@,
            row: self.row.deep_view(),
            column: self.column.deep_view(),
            contents: self.contents@,
        }
    }
}

/// The captured prefix, if the optional leading group can match over
/// `s[p..c1)`, where `p` is the match start and `c1` the first `:` after it.
/// The lead segment takes the longest run without `/`; the group needs a
/// non-empty lead and a non-empty captured part, so without a `/` the
/// capture is the segment's last character, and with a trailing `/` it is
/// the `/` itself.
pub open spec fn prefix_of(s: Seq<char>, p: int, c1: int) -> Option<Seq<char>>
    recommends
        0 <= p < c1 < s.len(),
{
    let f = scan(s, p, Run::Plain);
    if f == p {
        None
    } else if f < c1 {
        if c1 > f + 1 {
            Some(s.subrange(f + 1, c1))
        } else {
            Some(s.subrange(f, c1))
        }
    } else {
        if c1 - p >= 2 {
            Some(s.subrange(c1 - 1, c1))
        } else {
            None
        }
    }
}

/// Row, column and body start parsed from the `:` at index `c`: a digit
/// group is kept only when it is non-empty and another `:` follows it.
pub open spec fn tail_at(s: Seq<char>, c: int) -> TailView
    recommends
        0 <= c < s.len(),
{
    let d1 = scan(s, c + 1, Run::Digits);
    if d1 > c + 1 && d1 < s.len() && s[d1] == ':' {
        let d2 = scan(s, d1 + 1, Run::Digits);
        if d2 > d1 + 1 && d2 < s.len() && s[d2] == ':' {
            TailView {
                row: Some(s.subrange(c + 1, d1)),
                column: Some(s.subrange(d1 + 1, d2)),
                body: d2 + 1,
            }
        } else {
            TailView { row: Some(s.subrange(c + 1, d1)), column: None, body: d1 + 1 }
        }
    } else {
        TailView { row: None, column: None, body: c + 1 }
    }
}

/// The message body: what follows `body` with its leading white space removed.
pub open spec fn contents_from(s: Seq<char>, body: int) -> Seq<char>
    recommends
        0 <= body <= s.len(),
{
    s.subrange(scan(s, body, Run::Spaces), s.len() as int)
}

/// The whole grammar.  `None` when the line has no character other than `:`
/// followed later by a `:`; otherwise the unique first-match parse.
pub open spec fn parse_line_spec(s: Seq<char>) -> Option<LineView> {
    let p = scan(s, 0, Run::Colons);
    if p >= s.len() {
        None
    } else {
        let c1 = scan(s, p, Run::NonColons);
        if c1 >= s.len() {
            None
        } else {
            let q = c1 + 1;
            let c2 = scan(s, q, Run::NonColons);
            let pre = prefix_of(s, p, c1);
            if pre is Some && q < s.len() && s[q] != ':' && c2 < s.len() {
                let t = tail_at(s, c2);
                Some(
                    LineView {
                        prefix: pre,
                        filepath: s.subrange(q, c2),
                        row: t.row,
                        column: t.column,
                        contents: contents_from(s, t.body),
                    },
                )
            } else {
                let t = tail_at(s, c1);
                Some(
                    LineView {
                        prefix: None,
                        filepath: s.subrange(p, c1),
                        row: t.row,
                        column: t.column,
                        contents: contents_from(s, t.body),
                    },
                )
            }
        }
    }
}

/// The captured prefix over `s[p..c1)`, as `prefix_of` states it.
fn prefix_exec(line: &str, p: usize, c1: usize) -> (r: Option<String>)
    requires
        p <= c1 <= line@.len(),
    ensures
        r.deep_view() == prefix_of(line@, p as int, c1 as int),
{
    let f = scan_exec(line, p, Run::Plain);
    if f == p {
        None
    } else if f < c1 {
        if c1 > f + 1 {
            Some(line.substring_char(f + 1, c1).to_owned())
        } else {
            Some(line.substring_char(f, c1).to_owned())
        }
    } else {
        if c1 - p >= 2 {
            Some(line.substring_char(c1 - 1, c1).to_owned())
        } else {
            None
        }
    }
}

/// Row, column and body start after the `:` at index `c`, as `tail_at`
/// states them.
fn tail_exec(line: &str, c: usize) -> (r: (Option<String>, Option<String>, usize))
    requires
        c < line@.len(),
    ensures
        r.0.deep_view() == tail_at(line@, c as int).row,
        r.1.deep_view() == tail_at(line@, c as int).column,
        r.2 == tail_at(line@, c as int).body,
{
    let len = line.unicode_len();
    let d1 = scan_exec(line, c + 1, Run::Digits);
    if d1 > c + 1 && d1 < len && line.get_char(d1) == ':' {
        let d2 = scan_exec(line, d1 + 1, Run::Digits);
        if d2 > d1 + 1 && d2 < len && line.get_char(d2) == ':' {
            (
                Some(line.substring_char(c + 1, d1).to_owned()),
                Some(line.substring_char(d1 + 1, d2).to_owned()),
                d2 + 1,
            )
        } else {
            (Some(line.substring_char(c + 1, d1).to_owned()), None, d1 + 1)
        }
    } else {
        (None, None, c + 1)
    }
}

/// The message body from `body`, as `contents_from` states it.
fn contents_exec(line: &str, body: usize) -> (r: String)
    requires
        body <= line@.len(),
    ensures
        r@ == contents_from(line@, body as int),
{
    let b1 = scan_exec(line, body, Run::Spaces);
    line.substring_char(b1, line.unicode_len()).to_owned()
}

/// Parse one line (its terminator already stripped) against the grammar.
/// Returns `None`, and so leaves the line to be echoed unchanged, exactly
/// when the grammar does not match.
pub fn parse_line(line: &str) -> (r: Option<ParsedLine>)
    ensures
        match r {
            Some(pl) => parse_line_spec(line@) == Some(pl@),
            None => parse_line_spec(line@) is None,
        },
{
    let len = line.unicode_len();
    let p = scan_exec(line, 0, Run::Colons);
    if p >= len {
        return None;
    }
    let c1 = scan_exec(line, p, Run::NonColons);
    if c1 >= len {
        return None;
    }
    let q = c1 + 1;
    let c2 = scan_exec(line, q, Run::NonColons);
    let pre = prefix_exec(line, p, c1);
    let a_taken = pre.is_some() && q < len && line.get_char(q) != ':' && c2 < len;
    if a_taken {
        let filepath = line.substring_char(q, c2).to_owned();
        let (row, column, body) = tail_exec(line, c2);
        let contents = contents_exec(line, body);
        Some(ParsedLine { prefix: pre, filepath, row, column, contents })
    } else {
        let filepath = line.substring_char(p, c1).to_owned();
        let (row, column, body) = tail_exec(line, c1);
        let contents = contents_exec(line, body);
        Some(ParsedLine { prefix: None, filepath, row, column, contents })
    }
}

/// A line fails the grammar exactly when no character other than `:` is
/// followed, further right, by a `:`.  Such a line is the one the driver
/// must echo verbatim.
pub proof fn lemma_unmatched_characterization(s: Seq<char>)
    ensures
        parse_line_spec(s) is None <==> !(exists|i: int, j: int|
            #![trigger s[i], s[j]]
            0 <= i < j < s.len() && s[i] != ':' && s[j] == ':'),
{
    let p = scan(s, 0, Run::Colons);
    lemma_scan(s, 0, Run::Colons);
    if p >= s.len() {
        // every character is a ':', so no witness pair exists
        assert(forall|i: int| 0 <= i < s.len() ==> s[i] == ':');
    } else {
        let c1 = scan(s, p, Run::NonColons);
        lemma_scan(s, p, Run::NonColons);
        if c1 >= s.len() {
            if exists|i: int, j: int|
                #![trigger s[i], s[j]]
                0 <= i < j < s.len() && s[i] != ':' && s[j] == ':' {
                let (i, j) = choose|i: int, j: int|
                    #![trigger s[i], s[j]]
                    0 <= i < j < s.len() && s[i] != ':' && s[j] == ':';
                // a non-':' character sits at or after p, so j lies in the
                // colon-free run [p, c1) -- no ':' can be there
                assert(i >= p);
                assert(in_run(Run::NonColons, s[j]));
                assert(false);
            }
        } else {
            assert(s[p] != ':');
            assert(s[c1] == ':');
            assert(p < c1);
        }
    }
}

/// The digit groups that `tail_at` keeps are non-empty runs of ASCII
/// digits.
proof fn lemma_tail_digits(s: Seq<char>, c: int)
    requires
        0 <= c < s.len(),
    ensures
        tail_at(s, c).row matches Some(r) ==> r.len() > 0 && (forall|i: int|
            0 <= i < r.len() ==> '0' <= #[trigger] r[i] && r[i] <= '9'),
        tail_at(s, c).column matches Some(cl) ==> cl.len() > 0 && (forall|i: int|
            0 <= i < cl.len() ==> '0' <= #[trigger] cl[i] && cl[i] <= '9'),
{
    let d1 = scan(s, c + 1, Run::Digits);
    lemma_scan(s, c + 1, Run::Digits);
    if d1 > c + 1 && d1 < s.len() && s[d1] == ':' {
        let r = s.subrange(c + 1, d1);
        assert forall|i: int| 0 <= i < r.len() implies '0' <= #[trigger] r[i] && r[i] <= '9' by {
            assert(in_run(Run::Digits, s[c + 1 + i]));
        }
        let d2 = scan(s, d1 + 1, Run::Digits);
        lemma_scan(s, d1 + 1, Run::Digits);
        if d2 > d1 + 1 && d2 < s.len() && s[d2] == ':' {
            let cl = s.subrange(d1 + 1, d2);
            assert forall|i: int| 0 <= i < cl.len() implies '0' <= #[trigger] cl[i] && cl[i]
                <= '9' by {
                assert(in_run(Run::Digits, s[d1 + 1 + i]));
            }
        }
    }
}

/// `tail_at` hands back a body start inside the line (or just past it).
proof fn lemma_tail_body_bounds(s: Seq<char>, c: int)
    requires
        0 <= c < s.len(),
    ensures
        c < tail_at(s, c).body <= s.len(),
{
    lemma_scan(s, c + 1, Run::Digits);
    let d1 = scan(s, c + 1, Run::Digits);
    if d1 > c + 1 && d1 < s.len() && s[d1] == ':' {
        lemma_scan(s, d1 + 1, Run::Digits);
    }
}

/// A non-empty message body never begins with white space: the optional
/// white-space run after the final `:` is taken greedily and whole.
pub proof fn lemma_contents_trimmed(s: Seq<char>)
    ensures
        parse_line_spec(s) matches Some(v) ==> (v.contents.len() > 0 ==> !is_space(
            v.contents[0],
        )),
{
    if parse_line_spec(s) is Some {
        let p = scan(s, 0, Run::Colons);
        lemma_scan(s, 0, Run::Colons);
        let c1 = scan(s, p, Run::NonColons);
        lemma_scan(s, p, Run::NonColons);
        let q = c1 + 1;
        assert(p < s.len() && c1 < s.len());
        lemma_scan(s, q, Run::NonColons);
        let c2 = scan(s, q, Run::NonColons);
        let pre = prefix_of(s, p, c1);
        if pre is Some && q < s.len() && s[q] != ':' && c2 < s.len() {
            lemma_tail_body_bounds(s, c2);
            lemma_scan(s, tail_at(s, c2).body, Run::Spaces);
        } else {
            lemma_tail_body_bounds(s, c1);
            lemma_scan(s, tail_at(s, c1).body, Run::Spaces);
        }
    }
}

/// When a line matches the grammar, its captured row and column are
/// non-empty digit strings; an absent group, not an empty one, is what
/// renders as `0`.
pub proof fn lemma_row_column_digits(s: Seq<char>)
    ensures
        parse_line_spec(s) matches Some(v) ==> (v.row matches Some(r) ==> r.len() > 0 && (
        forall|i: int| 0 <= i < r.len() ==> '0' <= #[trigger] r[i] && r[i] <= '9')),
        parse_line_spec(s) matches Some(v) ==> (v.column matches Some(cl) ==> cl.len() > 0 && (
        forall|i: int| 0 <= i < cl.len() ==> '0' <= #[trigger] cl[i] && cl[i] <= '9')),
{
    if parse_line_spec(s) is Some {
        let p = scan(s, 0, Run::Colons);
        lemma_scan(s, 0, Run::Colons);
        let c1 = scan(s, p, Run::NonColons);
        lemma_scan(s, p, Run::NonColons);
        let q = c1 + 1;
        assert(p < s.len() && c1 < s.len());
        lemma_scan(s, q, Run::NonColons);
        let c2 = scan(s, q, Run::NonColons);
        let pre = prefix_of(s, p, c1);
        if pre is Some && q < s.len() && s[q] != ':' && c2 < s.len() {
            lemma_tail_digits(s, c2);
        } else {
            lemma_tail_digits(s, c1);
        }
    }
}

} // verus!
