//! Maximal runs of characters from a fixed class, the building block of the
//! line grammar: `[^:]+`, leading `:` runs, `[^:/]+`, `\d+` and `\s*` are all
//! "scan forward while the character continues the run".

use vstd::prelude::*;

verus! {

/// The character classes the grammar scans over.
#[derive(Clone, Copy)]
pub enum Run {
    /// Characters other than `:`.
    NonColons,
    /// `:` characters.
    Colons,
    /// Characters that are neither `:` nor `/`.
    Plain,
    /// ASCII digits.
    Digits,
    /// Unicode white space.
    Spaces,
}

/// Does `c` continue a run of class `k`?
pub open spec fn in_run(k: Run, c: char) -> bool {
    match k {
        Run::NonColons => c != ':',
        Run::Colons => c == ':',
        Run::Plain => c != ':' && c != '/',
        Run::Digits => '0' <= c && c <= '9',
        Run::Spaces => is_space(c),
    }
}

/// The Unicode `White_Space` characters, the class the grammar's `\s` stands for.
pub open spec fn is_space(c: char) -> bool {
    ||| c == ' '
    ||| c == '\t'
    ||| c == '\n'
    ||| c == '\u{0B}'
    ||| c == '\u{0C}'
    ||| c == '\r'
    ||| c == '\u{85}'
    ||| c == '\u{A0}'
    ||| c == '\u{1680}'
    ||| ('\u{2000}' <= c && c <= '\u{200A}')
    ||| c == '\u{2028}'
    ||| c == '\u{2029}'
    ||| c == '\u{202F}'
    ||| c == '\u{205F}'
    ||| c == '\u{3000}'
}

/// The end of the maximal run of class `k` that starts at `from`:
/// the first index at or after `from` holding a character outside the class,
/// or `s.len()` if the run reaches the end.
pub open spec fn scan(s: Seq<char>, from: int, k: Run) -> int
    recommends
        0 <= from <= s.len(),
    decreases s.len() - from,
{
    if from < 0 || from >= s.len() {
        from
    } else if !in_run(k, s[from]) {
        from
    } else {
        scan(s, from + 1, k)
    }
}

/// What `scan` returns: it stays within bounds, every character before it
/// continues the run, and the character at it (if any) does not.
pub proof fn lemma_scan(s: Seq<char>, from: int, k: Run)
    requires
        0 <= from <= s.len(),
    ensures
        from <= scan(s, from, k) <= s.len(),
        forall|j: int| from <= j < scan(s, from, k) ==> in_run(k, s[j]),
        scan(s, from, k) < s.len() ==> !in_run(k, s[scan(s, from, k)]),
    decreases s.len() - from,
{
    if from < s.len() && in_run(k, s[from]) {
        lemma_scan(s, from + 1, k);
    }
}

/// Does `c` continue a run of class `k`?
pub fn in_run_exec(k: Run, c: char) -> (b: bool)
    ensures
        b == in_run(k, c),
{
    match k {
        Run::NonColons => c != ':',
        Run::Colons => c == ':',
        Run::Plain => c != ':' && c != '/',
        Run::Digits => '0' <= c && c <= '9',
        Run::Spaces => is_space_exec(c),
    }
}

/// Is `c` a Unicode `White_Space` character?
pub fn is_space_exec(c: char) -> (b: bool)
    ensures
        b == is_space(c),
{
    c == ' ' || c == '\t' || c == '\n' || c == '\u{0B}' || c == '\u{0C}' || c == '\r'
        || c == '\u{85}' || c == '\u{A0}' || c == '\u{1680}'
        || ('\u{2000}' <= c && c <= '\u{200A}') || c == '\u{2028}' || c == '\u{2029}'
        || c == '\u{202F}' || c == '\u{205F}' || c == '\u{3000}'
}

/// Walk `s` from `from` to the end of the maximal run of class `k`.
pub fn scan_exec(s: &str, from: usize, k: Run) -> (r: usize)
    requires
        from <= s@.len(),
    ensures
        r == scan(s@, from as int, k),
        from <= r <= s@.len(),
{
    proof {
        lemma_scan(s@, from as int, k);
    }
    let len = s.unicode_len();
    let mut i = from;
    while i < len
        invariant
            from <= i <= len,
            len == s@.len(),
            forall|j: int| from <= j < i ==> in_run(k, s@[j]),
            scan(s@, from as int, k) == scan(s@, i as int, k),
        decreases len - i,
    {
        let c = s.get_char(i);
        if !in_run_exec(k, c) {
            proof {
                lemma_scan(s@, i as int, k);
            }
            return i;
        }
        i = i + 1;
    }
    proof {
        lemma_scan(s@, i as int, k);
    }
    i
}

} // verus!
