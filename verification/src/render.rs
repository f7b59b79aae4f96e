//! Laying out one matched line for display, and the existence filter's
//! decision.
//!
//! A rendered line is `path:row:column: ` followed by the message body's
//! spans; path, row and column each carry a distinct emphasis when shown,
//! which is the display's business, not this module's.

use crate::grammar::{parse_line, parse_line_spec, ParsedLine};
use crate::highlight::{highlight_contents, span_is_match, spans_text, Span};
use crate::path::{concat_path_spec, path_diff, resolve_path};
use vstd::prelude::*;

verus! {

/// The digit text a row or column renders as: the captured digits
/// unchanged, or `0` when the group is absent from the line.
pub open spec fn field_or_zero(field: Option<Seq<char>>) -> Seq<char> {
    match field {
        Some(s) => s,
        None => seq!['0'],
    }
}

/// Render a row or column field, echoing captured digits without any
/// numeric reformatting and defaulting an absent field to `0`.
pub fn render_field(field: &Option<String>) -> (r: String)
    ensures
        r@ == field_or_zero(field.deep_view()),
{
    match field {
        Some(s) => s.clone(),
        None => {
            proof {
                reveal_strlit("0");
            }
            let z = "0".to_owned();
            proof {
                assert(z@ =~= seq!['0']);
            }
            z
        },
    }
}

/// One matched line, laid out for display.
pub struct RenderedLine {
    pub path: String,
    pub row: String,
    pub column: String,
    pub segments: Vec<Span>,
}

/// Lay out a parsed line: the resolved display path, row and column (or
/// `0` where absent), and the message body split into plain and
/// highlighted spans that reconstruct it exactly.
pub fn render_line(
    parsed: &ParsedLine,
    resolved_path: String,
    highlight: Option<&regex::Regex>,
) -> (r: RenderedLine)
    ensures
        r.path@ == resolved_path@,
        r.row@ == field_or_zero(parsed@.row),
        r.column@ == field_or_zero(parsed@.column),
        spans_text(r.segments@) == parsed@.contents,
        highlight is None ==> r.segments@.len() == 1 && !span_is_match(r.segments@[0]),
{
    let row = render_field(&parsed.row);
    let column = render_field(&parsed.column);
    let segments = highlight_contents(parsed.contents.as_str(), highlight);
    RenderedLine { path: resolved_path, row, column, segments }
}

/// The text of a rendered line with the emphasis dropped:
/// `path:row:column: ` then the message body.
pub open spec fn rendered_text_spec(
    path: Seq<char>,
    row: Seq<char>,
    column: Seq<char>,
    body: Seq<char>,
) -> Seq<char> {
    path + seq![':'] + row + seq![':'] + column + seq![':', ' '] + body
}

/// The rendered line as plain text: what the display shows, aside from
/// each part's emphasis.
pub fn rendered_text(r: &RenderedLine) -> (s: String)
    ensures
        s@ == rendered_text_spec(r.path@, r.row@, r.column@, spans_text(r.segments@)),
{
    proof {
        reveal_strlit(":");
        reveal_strlit(": ");
    }
    let mut out = String::new();
    out.append(r.path.as_str());
    out.append(":");
    out.append(r.row.as_str());
    out.append(":");
    out.append(r.column.as_str());
    out.append(": ");
    let ghost head = out@;
    proof {
        assert(head =~= r.path@ + seq![':'] + r.row@ + seq![':'] + r.column@ + seq![':', ' ']);
    }
    let n = r.segments.len();
    let mut i: usize = 0;
    while i < n
        invariant
            i <= n,
            n == r.segments@.len(),
            out@ == head + spans_text(r.segments@.subrange(0, i as int)),
        decreases n - i,
    {
        proof {
            assert(r.segments@.subrange(0, i + 1).drop_last() =~= r.segments@.subrange(0, i as int));
            assert(r.segments@.subrange(0, i + 1).last() == r.segments@[i as int]);
        }
        match &r.segments[i] {
            Span::Plain(t) => out.append(t.as_str()),
            Span::Matched(t) => out.append(t.as_str()),
        }
        i = i + 1;
    }
    proof {
        assert(r.segments@.subrange(0, n as int) =~= r.segments@);
    }
    out
}

/// Whether a line is shown, given the existence-filter flag and the
/// outcome of probing its resolved path: with the filter off every line
/// is shown, with it on only lines whose path could be opened.
pub open spec fn should_emit_spec(check_exists: bool, exists: bool) -> bool {
    !check_exists || exists
}

/// The existence filter's decision for one line.
pub fn should_emit(check_exists: bool, exists: bool) -> (b: bool)
    ensures
        b == should_emit_spec(check_exists, exists),
{
    !check_exists || exists
}

/// Existence filtering is monotonic: every line emitted with the filter
/// on is also emitted with it off, whatever the probe found; turning the
/// filter on only ever suppresses lines.
pub proof fn lemma_filter_monotone(exists: bool)
    ensures
        should_emit_spec(true, exists) ==> should_emit_spec(false, exists),
{
}

/// What one input line asks of the driver.
pub enum LineOutcome {
    /// The line did not match the grammar: echo it unchanged.
    NoMatch,
    /// The line matched, but no relative path reaches its file from the
    /// working directory: fatal for this line.
    Unresolvable,
    /// The line matched and its display path resolved; the existence
    /// filter, if configured, still decides whether it is shown.
    Resolved(ParsedLine, String),
}

/// Parse one line and resolve its display path against the configured
/// extra prefix and the working directory.
pub fn analyze_line(line: &str, extra_prefix: &Option<String>, current_dir: &str) -> (r: LineOutcome)
    ensures
        match r {
            LineOutcome::NoMatch => parse_line_spec(line@) is None,
            LineOutcome::Unresolvable => {
                &&& parse_line_spec(line@) matches Some(v)
                &&& path_diff(
                    concat_path_spec(v.prefix, extra_prefix.deep_view(), v.filepath),
                    current_dir@,
                ) is None
            },
            LineOutcome::Resolved(pl, path) => {
                &&& parse_line_spec(line@) == Some(pl@)
                &&& path_diff(
                    concat_path_spec(pl@.prefix, extra_prefix.deep_view(), pl@.filepath),
                    current_dir@,
                ) == Some(path@)
            },
        },
{
    match parse_line(line) {
        None => LineOutcome::NoMatch,
        Some(pl) => match resolve_path(&pl, extra_prefix, current_dir) {
            None => LineOutcome::Unresolvable,
            Some(path) => LineOutcome::Resolved(pl, path),
        },
    }
}

} // verus!
