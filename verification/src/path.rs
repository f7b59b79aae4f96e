//! Reassembling the display path and re-expressing it relative to the
//! working directory.

use crate::grammar::ParsedLine;
use vstd::prelude::*;

verus! {

/// A single `/`, the separator placed between a captured prefix and the
/// file-path token.
pub open spec fn slash() -> Seq<char> {
    seq!['/']
}

/// The concatenated display path.  Four cases, by which prefixes are
/// present: the configured extra prefix comes first, then the captured
/// prefix followed by `/`, then the file-path token; absent parts
/// contribute nothing, and no other separator is added.
pub open spec fn concat_path_spec(
    prefix: Option<Seq<char>>,
    extra_prefix: Option<Seq<char>>,
    filepath: Seq<char>,
) -> Seq<char> {
    match (prefix, extra_prefix) {
        (Some(p), Some(e)) => e + p + slash() + filepath,
        (Some(p), None) => p + slash() + filepath,
        (None, Some(e)) => e + filepath,
        (None, None) => filepath,
    }
}

/// Concatenate the captured prefix, the configured extra prefix and the
/// file-path token, exactly as `concat_path_spec` states.
pub fn concat_path(
    prefix: &Option<String>,
    extra_prefix: &Option<String>,
    filepath: &str,
) -> (r: String)
    ensures
        r@ == concat_path_spec(prefix.deep_view(), extra_prefix.deep_view(), filepath@),
{
    proof {
        reveal_strlit("/");
    }
    let mut out = String::new();
    match (prefix, extra_prefix) {
        (Some(p), Some(e)) => {
            out.append(e.as_str());
            out.append(p.as_str());
            out.append("/");
            out.append(filepath);
        },
        (Some(p), None) => {
            out.append(p.as_str());
            out.append("/");
            out.append(filepath);
        },
        (None, Some(e)) => {
            out.append(e.as_str());
            out.append(filepath);
        },
        (None, None) => {
            out.append(filepath);
        },
    }
    proof {
        assert(out@ =~= concat_path_spec(
            prefix.deep_view(),
            extra_prefix.deep_view(),
            filepath@,
        ));
    }
    out
}

/// The relative path that reaches `path` from `base`, or `None` where no
/// such path can be written.  The outside routine that computes it depends
/// on its two arguments alone, so its result is only named here.
pub uninterp spec fn path_diff(path: Seq<char>, base: Seq<char>) -> Option<Seq<char>>;

/// Relies on pathdiff::diff_paths: the relative path from `base` to `path`,
/// climbing common ancestors with `..` segments, `None` where none exists;
/// a function of the two path strings alone.  The body only re-expresses
/// the returned path as text.
#[verifier::external_body]
fn diff_paths_str(path: &str, base: &str) -> (r: Option<String>)
    ensures
        r.deep_view() == path_diff(path@, base@),
{
    match pathdiff::diff_paths(path, base) {
        Some(p) => match p.to_str() {
            Some(s) => Some(s.to_owned()),
            None => None,
        },
        None => None,
    }
}

/// The display path of a parsed line: the four-case concatenation,
/// re-expressed relative to `current_dir`.  `None` is the fatal per-line
/// case in which no relative path exists.
pub fn resolve_path(
    parsed: &ParsedLine,
    extra_prefix: &Option<String>,
    current_dir: &str,
) -> (r: Option<String>)
    ensures
        r.deep_view() == path_diff(
            concat_path_spec(parsed@.prefix, extra_prefix.deep_view(), parsed@.filepath),
            current_dir@,
        ),
{
    let joined = concat_path(&parsed.prefix, extra_prefix, parsed.filepath.as_str());
    diff_paths_str(joined.as_str(), current_dir)
}

} // verus!
