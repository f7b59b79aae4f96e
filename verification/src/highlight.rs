//! Splitting a message body into plain and highlighted spans.
//!
//! The configured highlight pattern is an arbitrary regular expression, so
//! finding its matches is the pattern engine's work, taken on trust as a
//! list of well-formed match ranges.  Everything after that is verified:
//! the split marks exactly the given ranges, and the emitted spans, in
//! order, reconstruct the message body without loss.

use vstd::prelude::*;

verus! {

/// Declares regex::Regex, the compiled highlight pattern, so that verified
/// code can carry one; its values stay opaque here.
#[verifier::external_type_specification]
#[verifier::external_body]
pub struct ExRegex(regex::Regex);

/// One emitted piece of the message body: plain text, or a highlighted
/// match of the configured pattern.
pub enum Span {
    Plain(String),
    Matched(String),
}

/// The text a span carries.
pub open spec fn span_text(sp: Span) -> Seq<char> {
    match sp {
        Span::Plain(s) => s@,
        Span::Matched(s) => s@,
    }
}

/// Is the span a highlighted match?
pub open spec fn span_is_match(sp: Span) -> bool {
    sp is Matched
}

/// The concatenation of the spans' texts, in emitted order.
pub open spec fn spans_text(s: Seq<Span>) -> Seq<char>
    decreases s.len(),
{
    if s.len() == 0 {
        Seq::empty()
    } else {
        spans_text(s.drop_last()) + span_text(s.last())
    }
}

/// Appending a span appends its text.
pub proof fn lemma_spans_text_push(s: Seq<Span>, x: Span)
    ensures
        spans_text(s.push(x)) == spans_text(s) + span_text(x),
{
    assert(s.push(x).drop_last() =~= s);
    assert(s.push(x).last() == x);
}

/// Match ranges as the pattern engine hands them out: each within the
/// text, each start at or before its end, and successive ranges
/// non-overlapping, in order of position.
pub open spec fn wf_spans(spans: Seq<(usize, usize)>, len: nat) -> bool {
    &&& forall|i: int| 0 <= i < spans.len() ==> (#[trigger] spans[i]).0 <= spans[i].1
    &&& forall|i: int| 0 <= i < spans.len() ==> (#[trigger] spans[i]).1 <= len
    &&& forall|i: int, j: int|
        #![trigger spans[i], spans[j]]
        0 <= i && j == i + 1 && j < spans.len() ==> spans[i].1 <= spans[j].0
}

/// Relies on regex::Regex::find_iter: successive non-overlapping matches,
/// yielded in order of position, with offsets on character boundaries.
/// The body only re-expresses each match's byte offsets as character
/// offsets into the text.
#[verifier::external_body]
fn find_match_spans(re: &regex::Regex, text: &str) -> (r: Vec<(usize, usize)>)
    ensures
        wf_spans(r@, text@.len()),
{
    let mut spans = Vec::new();
    for m in re.find_iter(text) {
        let start = text[..m.start()].chars().count();
        let end = text[..m.end()].chars().count();
        spans.push((start, end));
    }
    spans
}

/// Where the plain gap before match `i` begins: at the previous match's
/// end, or at the start of the text for the first match.
pub open spec fn gap_start(spans: Seq<(usize, usize)>, i: int) -> int {
    if i == 0 {
        0
    } else {
        spans[i - 1].1 as int
    }
}

/// Split `contents` along the given match ranges: before each range its
/// plain gap, then the range itself highlighted, and after the last range
/// the plain tail.  The spans, in order, carry all of `contents`.
#[verifier::rlimit(100)]
pub fn split_by_spans(contents: &str, spans: &Vec<(usize, usize)>) -> (r: Vec<Span>)
    requires
        wf_spans(spans@, contents@.len()),
    ensures
        r@.len() == 2 * spans@.len() + 1,
        forall|i: int|
            0 <= i < spans@.len() ==> !span_is_match(#[trigger] r@[2 * i]) && span_text(r@[2 * i])
                == contents@.subrange(gap_start(spans@, i), spans@[i].0 as int),
        forall|i: int|
            0 <= i < spans@.len() ==> span_is_match(#[trigger] r@[2 * i + 1]) && span_text(r@[2 * i + 1])
                == contents@.subrange(spans@[i].0 as int, spans@[i].1 as int),
        !span_is_match(r@[2 * spans@.len() as int]),
        span_text(r@[2 * spans@.len() as int]) == contents@.subrange(
            gap_start(spans@, spans@.len() as int),
            contents@.len() as int,
        ),
        spans_text(r@) == contents@,
{
    let len = contents.unicode_len();
    let mut r: Vec<Span> = Vec::new();
    let mut k: usize = 0;
    let mut pos: usize = 0;
    while k < spans.len()
        invariant
            k <= spans@.len(),
            wf_spans(spans@, contents@.len()),
            len == contents@.len(),
            pos == gap_start(spans@, k as int),
            pos <= contents@.len(),
            r@.len() == 2 * k,
            spans_text(r@) == contents@.subrange(0, pos as int),
            forall|i: int|
                0 <= i < k ==> !span_is_match(#[trigger] r@[2 * i]) && span_text(r@[2 * i])
                    == contents@.subrange(gap_start(spans@, i), spans@[i].0 as int),
            forall|i: int|
                0 <= i < k ==> span_is_match(#[trigger] r@[2 * i + 1]) && span_text(r@[2 * i + 1])
                    == contents@.subrange(spans@[i].0 as int, spans@[i].1 as int),
        decreases spans@.len() - k,
    {
        let (s, e) = spans[k];
        let gap = Span::Plain(contents.substring_char(pos, s).to_owned());
        let mat = Span::Matched(contents.substring_char(s, e).to_owned());
        let ghost r0 = r@;
        let ghost g = gap;
        let ghost m = mat;
        proof {
            lemma_spans_text_push(r0, g);
            lemma_spans_text_push(r0.push(g), m);
            assert(contents@.subrange(0, pos as int) + contents@.subrange(pos as int, s as int)
                + contents@.subrange(s as int, e as int) =~= contents@.subrange(0, e as int));
        }
        r.push(gap);
        r.push(mat);
        let ghost k0 = k as int;
        pos = e;
        k = k + 1;
        proof {
            assert(r@ == r0.push(g).push(m));
            assert forall|i: int|
                0 <= i < k implies !span_is_match(#[trigger] r@[2 * i]) && span_text(r@[2 * i])
                == contents@.subrange(gap_start(spans@, i), spans@[i].0 as int) by {
                assert(spans@[i].0 <= spans@[i].1);
                if i < k0 {
                    assert(r0.push(g)[2 * i] == r0[2 * i]);
                    assert(r@[2 * i] == r0[2 * i]);
                    assert(!span_is_match(r0[2 * i]));
                    assert(span_text(r0[2 * i]) == contents@.subrange(
                        gap_start(spans@, i),
                        spans@[i].0 as int,
                    ));
                } else {
                    assert(r0.push(g)[2 * i] == g);
                    assert(r@[2 * i] == g);
                    assert(!span_is_match(g));
                }
            }
            assert forall|i: int|
                0 <= i < k implies span_is_match(#[trigger] r@[2 * i + 1]) && span_text(r@[2 * i + 1])
                == contents@.subrange(spans@[i].0 as int, spans@[i].1 as int) by {
                assert(spans@[i].0 <= spans@[i].1);
                if i < k0 {
                    assert(r0.push(g)[2 * i + 1] == r0[2 * i + 1]);
                    assert(r@[2 * i + 1] == r0[2 * i + 1]);
                    assert(span_is_match(r0[2 * i + 1]));
                    assert(span_text(r0[2 * i + 1]) == contents@.subrange(
                        spans@[i].0 as int,
                        spans@[i].1 as int,
                    ));
                } else {
                    assert(r@[2 * i + 1] == m);
                    assert(span_is_match(m));
                }
            }
        }
    }
    let tail = Span::Plain(contents.substring_char(pos, len).to_owned());
    let ghost r1 = r@;
    let ghost t = tail;
    proof {
        lemma_spans_text_push(r1, t);
        assert(contents@.subrange(0, pos as int) + contents@.subrange(pos as int, len as int)
            =~= contents@);
    }
    r.push(tail);
    proof {
        assert(r@ == r1.push(t));
        assert(r@[2 * spans@.len() as int] == t);
        assert forall|i: int| 0 <= i < spans@.len() implies !span_is_match(r@[2 * i])
            && span_text(r@[2 * i]) == contents@.subrange(
            gap_start(spans@, i),
            spans@[i].0 as int,
        ) by {
            assert(spans@[i].0 <= spans@[i].1);
            assert(r@[2 * i] == r1[2 * i]);
        }
        assert forall|i: int| 0 <= i < spans@.len() implies span_is_match(r@[2 * i + 1])
            && span_text(r@[2 * i + 1]) == contents@.subrange(
            spans@[i].0 as int,
            spans@[i].1 as int,
        ) by {
            assert(spans@[i].0 <= spans@[i].1);
            assert(r@[2 * i + 1] == r1[2 * i + 1]);
        }
    }
    r
}

/// The spans of the message body under the configured highlight pattern:
/// with no pattern, the whole body as one plain span; with a pattern, the
/// pattern's matches highlighted and the rest plain.  Either way the
/// spans, concatenated in order, are exactly the body.
pub fn highlight_contents(contents: &str, re: Option<&regex::Regex>) -> (r: Vec<Span>)
    ensures
        spans_text(r@) == contents@,
        re is None ==> r@.len() == 1 && !span_is_match(r@[0]),
{
    match re {
        None => {
            let mut v: Vec<Span> = Vec::new();
            let sp = Span::Plain(contents.to_owned());
            proof {
                lemma_spans_text_push(v@, sp);
            }
            v.push(sp);
            proof {
                assert(spans_text(v@) =~= contents@);
            }
            v
        },
        Some(rx) => {
            let spans = find_match_spans(rx, contents);
            split_by_spans(contents, &spans)
        },
    }
}

} // verus!
