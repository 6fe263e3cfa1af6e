//! Splitting text into lines, as the rendering of a multi-line quote
//! needs it: pieces between newlines, a carriage return before a newline
//! stripped, and no empty final line for text that ends in a newline.

use vstd::prelude::*;
use vstd::string::StrSliceExecFns;

verus! {

/// Length of the prefix of `s` before its first newline; the length of
/// `s` when it has none.
pub open spec fn nl_index(s: Seq<char>) -> int
    decreases s.len(),
{
    if s.len() == 0 {
        0
    } else if s[0] == '\n' {
        0
    } else {
        1 + nl_index(s.skip(1))
    }
}

/// A piece with a final carriage return removed; such a piece stood
/// before a newline, so the return belongs to the terminator.
pub open spec fn strip_cr(l: Seq<char>) -> Seq<char> {
    if l.len() > 0 && l[l.len() - 1] == '\r' {
        l.drop_last()
    } else {
        l
    }
}

/// The lines of `s`.
pub open spec fn line_split(s: Seq<char>) -> Seq<Seq<char>>
    decreases s.len(),
{
    if s.len() == 0 {
        Seq::empty()
    } else {
        let i = nl_index(s);
        if 0 <= i && i < s.len() {
            seq![strip_cr(s.take(i))] + line_split(s.skip(i + 1))
        } else {
            seq![s]
        }
    }
}

pub proof fn lemma_nl_index(s: Seq<char>)
    ensures
        0 <= nl_index(s) <= s.len(),
        nl_index(s) < s.len() ==> s[nl_index(s)] == '\n',
        forall|k: int| 0 <= k < nl_index(s) ==> s[k] != '\n',
    decreases s.len(),
{
    if s.len() == 0 {
    } else if s[0] == '\n' {
    } else {
        lemma_nl_index(s.skip(1));
        assert forall|k: int| 0 <= k < nl_index(s) implies s[k] != '\n' by {
            if k >= 1 {
                assert(s[k] == s.skip(1)[k - 1]);
            }
        }
    }
}

pub proof fn lemma_nl_index_is(s: Seq<char>, i: int)
    requires
        0 <= i <= s.len(),
        forall|k: int| 0 <= k < i ==> s[k] != '\n',
        i < s.len() ==> s[i] == '\n',
    ensures
        nl_index(s) == i,
    decreases s.len(),
{
    if s.len() == 0 {
    } else if s[0] == '\n' {
        assert(i == 0);
    } else {
        assert(i >= 1) by {
            if i == 0 {
                assert(s[0] == '\n');
            }
        }
        assert forall|k: int| 0 <= k < i - 1 implies s.skip(1)[k] != '\n' by {
            assert(s.skip(1)[k] == s[k + 1]);
        }
        assert(i - 1 < s.skip(1).len() ==> s.skip(1)[i - 1] == '\n');
        lemma_nl_index_is(s.skip(1), i - 1);
    }
}

/// Index of the first newline of `s`; the length of `s` when it has none.
pub fn find_newline(s: &str) -> (i: usize)
    ensures
        i == nl_index(s@),
{
    let n = s.unicode_len();
    let mut i: usize = 0;
    while i < n
        invariant
            i <= n,
            n == s@.len(),
            forall|k: int| 0 <= k < i ==> s@[k] != '\n',
        decreases n - i,
    {
        if s.get_char(i) == '\n' {
            proof {
                lemma_nl_index_is(s@, i as int);
            }
            return i;
        }
        i += 1;
    }
    proof {
        lemma_nl_index_is(s@, i as int);
    }
    i
}

/// Split `s` into its lines, as `line_split` states them.
pub fn split_lines(s: &str) -> (r: Vec<String>)
    ensures
        r.deep_view() == line_split(s@),
{
    let mut r: Vec<String> = Vec::new();
    let mut rest: &str = s;
    loop
        invariant
            line_split(s@) == r.deep_view() + line_split(rest@),
        ensures
            rest@.len() == 0,
        decreases rest@.len(),
    {
        let n = rest.unicode_len();
        if n == 0 {
            break;
        }
        let ghost rest0 = rest@;
        let ghost dv0 = r.deep_view();
        let i = find_newline(rest);
        proof {
            lemma_nl_index(rest0);
        }
        if i == n {
            r.push(rest.to_owned());
            rest = rest.substring_char(n, n);
            proof {
                assert(rest@ =~= Seq::<char>::empty());
                assert(line_split(rest0) =~= seq![rest0]);
                assert(r.deep_view() =~= dv0.push(rest0));
                assert(r.deep_view() + line_split(rest@) =~= dv0 + line_split(rest0));
            }
        } else {
            let piece = rest.substring_char(0, i);
            let line = if i > 0 && piece.get_char(i - 1) == '\r' {
                rest.substring_char(0, i - 1)
            } else {
                piece
            };
            proof {
                assert(line@ =~= strip_cr(rest0.take(i as int)));
            }
            r.push(line.to_owned());
            rest = rest.substring_char(i + 1, n);
            proof {
                assert(rest@ =~= rest0.skip(i as int + 1));
                assert(line_split(rest0) =~= seq![strip_cr(rest0.take(i as int))] + line_split(
                    rest0.skip(i as int + 1),
                ));
                assert(r.deep_view() =~= dv0.push(line@));
                assert(r.deep_view() + line_split(rest@) =~= dv0 + line_split(rest0));
            }
        }
    }
    proof {
        assert(line_split(rest@) =~= Seq::<Seq<char>>::empty());
        assert(r.deep_view() + line_split(rest@) =~= r.deep_view());
    }
    r
}

} // verus!
