//! Line-oriented text handling around the external tools: splitting the
//! daemon's listing into lines, joining the marked entries into the
//! selector's input, and trimming the trailing newline off the selector's
//! output.
//!
//! Splitting follows the platform newline convention: pieces end at a line
//! feed, a carriage return just before the line feed belongs to the
//! separator, and a trailing empty piece after the last newline is ignored.

use vstd::prelude::*;
use vstd::string::*;

verus! {

/// The views of a sequence of strings, element by element.
pub open spec fn views_of(l: Seq<String>) -> Seq<Seq<char>> {
    l.map_values(|s: String| s@)
}

/// The index of the first line feed in the string, or -1 when it has none.
pub open spec fn find_newline(s: Seq<char>) -> int
    decreases s.len(),
{
    if s.len() == 0 {
        -1
    } else if s[0] == '\n' {
        0
    } else {
        let r = find_newline(s.drop_first());
        if r < 0 {
            -1
        } else {
            r + 1
        }
    }
}

/// The string with a single trailing carriage return removed, as one is
/// part of a platform line separator rather than of the line.
pub open spec fn strip_cr(s: Seq<char>) -> Seq<char> {
    if s.len() > 0 && s.last() == '\r' {
        s.drop_last()
    } else {
        s
    }
}

/// The lines of a string: pieces between line feeds, each without its
/// separator, the empty piece after a trailing line feed left out.
pub open spec fn split_lines_spec(s: Seq<char>) -> Seq<Seq<char>>
    decreases s.len(),
{
    if s.len() == 0 {
        Seq::empty()
    } else {
        let i = find_newline(s);
        if 0 <= i < s.len() {
            seq![strip_cr(s.take(i))] + split_lines_spec(s.skip(i + 1))
        } else {
            seq![strip_cr(s)]
        }
    }
}

/// The lines joined back with single line feeds, no separator at either
/// end.
pub open spec fn joined_lines(l: Seq<Seq<char>>) -> Seq<char>
    decreases l.len(),
{
    if l.len() == 0 {
        Seq::empty()
    } else if l.len() == 1 {
        l[0]
    } else {
        joined_lines(l.drop_last()) + seq!['\n'] + l.last()
    }
}

/// True for the whitespace that trimming removes from the end of the
/// selector's output: space, tab, carriage return and line feed.
pub open spec fn is_line_ws(c: char) -> bool {
    c == ' ' || c == '\t' || c == '\r' || c == '\n'
}

/// The string with every trailing whitespace character removed.
pub open spec fn trim_trailing_spec(s: Seq<char>) -> Seq<char>
    decreases s.len(),
{
    if s.len() > 0 && is_line_ws(s.last()) {
        trim_trailing_spec(s.drop_last())
    } else {
        s
    }
}

/// A line feed at index `m` with none before it is the first one.
proof fn lemma_find_newline_at(s: Seq<char>, m: int)
    requires
        0 <= m < s.len(),
        s[m] == '\n',
        forall|k: int| 0 <= k < m ==> s[k] != '\n',
    ensures
        find_newline(s) == m,
    decreases s.len(),
{
    if m > 0 {
        let t = s.drop_first();
        assert(t[m - 1] == s[m]);
        assert forall|k: int| 0 <= k < m - 1 implies t[k] != '\n' by {
            assert(t[k] == s[k + 1]);
        }
        lemma_find_newline_at(t, m - 1);
    }
}

/// A string without a line feed has no first one.
proof fn lemma_find_newline_none(s: Seq<char>)
    requires
        forall|k: int| 0 <= k < s.len() ==> s[k] != '\n',
    ensures
        find_newline(s) == -1,
    decreases s.len(),
{
    if s.len() > 0 {
        let t = s.drop_first();
        assert forall|k: int| 0 <= k < t.len() implies t[k] != '\n' by {
            assert(t[k] == s[k + 1]);
        }
        lemma_find_newline_none(t);
    }
}

fn line_whitespace(c: char) -> (r: bool)
    ensures
        r == is_line_ws(c),
{
    c == ' ' || c == '\t' || c == '\r' || c == '\n'
}

/// Splits the daemon's listing into lines, in the daemon's order.
pub fn split_lines(s: &str) -> (r: Vec<String>)
    ensures
        views_of(r@) == split_lines_spec(s@),
{
    let n = s.unicode_len();
    let mut out: Vec<String> = Vec::new();
    let mut idx: usize = 0;
    proof {
        assert(s@.skip(0) =~= s@);
        assert(views_of(out@) =~= Seq::<Seq<char>>::empty());
    }
    while idx < n
        invariant
            idx <= n,
            n == s@.len(),
            split_lines_spec(s@) == views_of(out@) + split_lines_spec(s@.skip(idx as int)),
        decreases n - idx,
    {
        let ghost rem = s@.skip(idx as int);
        let mut j = idx;
        while j < n && s.get_char(j) != '\n'
            invariant
                idx <= j <= n,
                n == s@.len(),
                forall|k: int| idx <= k < j ==> s@[k] != '\n',
            decreases n - j,
        {
            j += 1;
        }
        let mut end = j;
        if end > idx && s.get_char(end - 1) == '\r' {
            end -= 1;
        }
        let piece = s.substring_char(idx, end).to_owned();
        proof {
            assert forall|k: int| 0 <= k < j - idx implies rem[k] != '\n' by {
                assert(rem[k] == s@[idx + k]);
            }
            if j < n {
                assert(rem[j - idx] == s@[j as int]);
                lemma_find_newline_at(rem, j - idx);
                assert(rem.take(j - idx) =~= s@.subrange(idx as int, j as int));
                assert(strip_cr(s@.subrange(idx as int, j as int)) =~= s@.subrange(
                    idx as int,
                    end as int,
                ));
                assert(rem.skip(j - idx + 1) =~= s@.skip(j + 1));
                assert(split_lines_spec(rem) == seq![piece@] + split_lines_spec(s@.skip(j + 1)));
            } else {
                lemma_find_newline_none(rem);
                assert(rem =~= s@.subrange(idx as int, j as int));
                assert(strip_cr(s@.subrange(idx as int, j as int)) =~= s@.subrange(
                    idx as int,
                    end as int,
                ));
                assert(split_lines_spec(rem) == seq![piece@]);
            }
        }
        let ghost prev = out@;
        out.push(piece);
        proof {
            assert(views_of(out@) =~= views_of(prev) + seq![piece@]);
        }
        if j < n {
            idx = j + 1;
            proof {
                assert(split_lines_spec(s@) == views_of(out@) + split_lines_spec(
                    s@.skip(idx as int),
                ));
            }
        } else {
            idx = n;
            proof {
                assert(s@.skip(n as int) =~= Seq::<char>::empty());
                assert(split_lines_spec(s@.skip(n as int)) == Seq::<Seq<char>>::empty());
                assert(views_of(out@) + Seq::<Seq<char>>::empty() =~= views_of(out@));
            }
        }
    }
    proof {
        assert(s@.skip(n as int) =~= Seq::<char>::empty());
        assert(views_of(out@) + split_lines_spec(s@.skip(idx as int)) =~= views_of(out@));
    }
    out
}

/// Joins the marked entries with line feeds into the selector's input.
pub fn join_lines(lines: &Vec<String>) -> (r: String)
    ensures
        r@ == joined_lines(views_of(lines@)),
{
    let ghost vs = views_of(lines@);
    let mut out = String::new();
    let mut i: usize = 0;
    while i < lines.len()
        invariant
            i <= lines@.len(),
            vs == views_of(lines@),
            out@ == joined_lines(vs.take(i as int)),
        decreases lines@.len() - i,
    {
        if i > 0 {
            out.append("\n");
            proof {
                reveal_strlit("\n");
                assert("\n"@ =~= seq!['\n']);
            }
        }
        out.append(lines[i].as_str());
        proof {
            assert(vs.take(i + 1).drop_last() =~= vs.take(i as int));
            assert(vs.take(i + 1).last() == lines@[i as int]@);
            if i == 0 {
                assert(joined_lines(vs.take(1)) == vs.take(1)[0]);
            }
        }
        i += 1;
    }
    proof {
        assert(vs.take(lines@.len() as int) =~= vs);
    }
    out
}

/// Trims trailing whitespace and newlines off the selector's output,
/// leaving the rest — a leading blank marker included — untouched.
pub fn trim_trailing(s: &str) -> (r: String)
    ensures
        r@ == trim_trailing_spec(s@),
{
    let n = s.unicode_len();
    let mut end = n;
    proof {
        assert(s@.take(n as int) =~= s@);
    }
    while end > 0 && line_whitespace(s.get_char(end - 1))
        invariant
            end <= n,
            n == s@.len(),
            trim_trailing_spec(s@.take(end as int)) == trim_trailing_spec(s@),
        decreases end,
    {
        proof {
            assert(s@.take(end as int).last() == s@[end - 1]);
            assert(s@.take(end as int).drop_last() =~= s@.take(end - 1));
        }
        end -= 1;
    }
    proof {
        if end > 0 {
            assert(s@.take(end as int).last() == s@[end - 1]);
            assert(trim_trailing_spec(s@.take(end as int)) == s@.take(end as int));
        }
    }
    let r = s.substring_char(0, end);
    proof {
        assert(r@ =~= s@.take(end as int));
    }
    r.to_owned()
}

} // verus!
