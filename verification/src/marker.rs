//! The visual marker on listed history entries.
//!
//! The entry whose decoded content fingerprints like the current clipboard
//! is prefixed with a "current" marker (a pointer glyph and a space); every
//! other entry gets a blank marker of two spaces, keeping the columns of the
//! selector aligned.  Stripping removes exactly one leading marker of either
//! kind and leaves the rest of the line untouched.

use vstd::prelude::*;
use vstd::string::*;
use crate::fingerprint::{fingerprint, fingerprint_of};

verus! {

/// The marker on the entry matching the current clipboard.
pub open spec fn marker_current() -> Seq<char> {
    seq!['\u{25BA}', ' ']
}

/// The marker on every other entry: two spaces, the same display width.
pub open spec fn marker_blank() -> Seq<char> {
    seq![' ', ' ']
}

/// A history line with its marker in front.
pub open spec fn mark_spec(line: Seq<char>, is_current: bool) -> Seq<char> {
    if is_current {
        marker_current() + line
    } else {
        marker_blank() + line
    }
}

/// True when the string begins with a marker of either kind.
pub open spec fn has_marker(s: Seq<char>) -> bool {
    s.len() >= 2 && ((s[0] == '\u{25BA}' && s[1] == ' ') || (s[0] == ' ' && s[1] == ' '))
}

/// The string with one leading marker removed, or the string itself when no
/// marker leads it.
pub open spec fn strip_marker_spec(s: Seq<char>) -> Seq<char> {
    if has_marker(s) {
        s.skip(2)
    } else {
        s
    }
}

/// Prefixes the line with the current or the blank marker.
pub fn mark_entry(line: &str, is_current: bool) -> (r: String)
    ensures
        r@ == mark_spec(line@, is_current),
{
    if is_current {
        proof {
            reveal_strlit("\u{25BA} ");
            assert("\u{25BA} "@ =~= marker_current());
        }
        String::from_str("\u{25BA} ").concat(line)
    } else {
        proof {
            reveal_strlit("  ");
            assert("  "@ =~= marker_blank());
        }
        String::from_str("  ").concat(line)
    }
}

/// Removes exactly one leading marker of either kind, recovering the
/// history line the marker was put on; a string with no leading marker
/// comes back unchanged.
pub fn clean_marker(entry: &str) -> (r: String)
    ensures
        r@ == strip_marker_spec(entry@),
{
    let n = entry.unicode_len();
    if n >= 2 {
        let c0 = entry.get_char(0);
        let c1 = entry.get_char(1);
        if (c0 == '\u{25BA}' && c1 == ' ') || (c0 == ' ' && c1 == ' ') {
            let rest = entry.substring_char(2, n);
            proof {
                assert(rest@ =~= entry@.skip(2));
            }
            return rest.to_owned();
        }
    }
    entry.to_owned()
}

/// Marks every history line: the lines and their decoded contents come in
/// the daemon's order, pairwise, and the order is kept.  A line is marked
/// current exactly when its decoded content's fingerprint equals the
/// current clipboard's fingerprint.
pub fn mark_entries(lines: &Vec<String>, decoded: &Vec<String>, current_fp: &String) -> (r: Vec<String>)
    requires
        lines@.len() == decoded@.len(),
    ensures
        r@.len() == lines@.len(),
        forall|i: int| 0 <= i < r@.len()
            ==> r@[i]@ == mark_spec(lines@[i]@, fingerprint_of(decoded@[i]@) == current_fp@),
{
    let mut out: Vec<String> = Vec::new();
    let mut i: usize = 0;
    while i < lines.len()
        invariant
            lines@.len() == decoded@.len(),
            i <= lines@.len(),
            out@.len() == i,
            forall|j: int| 0 <= j < i as int
                ==> out@[j]@ == mark_spec(lines@[j]@, fingerprint_of(decoded@[j]@) == current_fp@),
        decreases lines@.len() - i,
    {
        let fp = fingerprint(decoded[i].as_str());
        let is_current = fp.eq(current_fp);
        let m = mark_entry(lines[i].as_str(), is_current);
        out.push(m);
        i += 1;
    }
    out
}

/// At most one entry carries the current marker: when the decoded contents
/// fingerprint pairwise differently, two entries both marked current are
/// the same entry.  (Two entries decoding to identical content share a
/// fingerprint and would both be marked.)
pub proof fn lemma_at_most_one_current(decoded: Seq<Seq<char>>, current_fp: Seq<char>, i: int, j: int)
    requires
        0 <= i < decoded.len(),
        0 <= j < decoded.len(),
        forall|a: int, b: int| 0 <= a < b < decoded.len()
            ==> fingerprint_of(decoded[a]) != fingerprint_of(decoded[b]),
        fingerprint_of(decoded[i]) == current_fp,
        fingerprint_of(decoded[j]) == current_fp,
    ensures
        i == j,
{
    if i < j {
        assert(fingerprint_of(decoded[i]) != fingerprint_of(decoded[j]));
    }
    if j < i {
        assert(fingerprint_of(decoded[j]) != fingerprint_of(decoded[i]));
    }
}

/// Stripping recovers the line a marker was put on, whichever marker it
/// was: marking then stripping is the identity.
pub proof fn lemma_strip_marker_round_trip(line: Seq<char>, is_current: bool)
    ensures
        strip_marker_spec(mark_spec(line, is_current)) == line,
{
    let m = mark_spec(line, is_current);
    assert(has_marker(m));
    assert(m.skip(2) =~= line);
}

/// Stripping twice strips no further when no marker leads the stripped
/// string: a second application is then a no-op.
pub proof fn lemma_strip_marker_idempotent(s: Seq<char>)
    requires
        !has_marker(strip_marker_spec(s)),
    ensures
        strip_marker_spec(strip_marker_spec(s)) == strip_marker_spec(s),
{
}

} // verus!
