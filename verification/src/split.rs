//! Splitting a text into lines and into words.

use crate::text::{
    is_whitespace, lemma_run_len, rows, run_end, run_len, slice_of, strip_last, CharClass,
};
use vstd::prelude::*;

verus! {

/// The lines of `s`. A line ends at a line feed or at the end of the text;
/// the line feed is not part of the line, nor is a carriage return directly
/// before it. Nothing follows the last line feed: a text that ends in one
/// has no empty last line.
pub open spec fn lines(s: Seq<char>) -> Seq<Seq<char>>
    decreases s.len(),
    via lines_decreases
{
    if s.len() == 0 {
        Seq::empty()
    } else {
        let k = run_len(s, CharClass::Except('\n')) as int;
        if k < s.len() {
            seq![strip_last(s.take(k), '\r')] + lines(s.skip(k + 1))
        } else {
            seq![s]
        }
    }
}

#[via_fn]
proof fn lines_decreases(s: Seq<char>) {
    lemma_run_len(s, CharClass::Except('\n'));
}

/// The words of `s`: its maximal runs of characters that are not white
/// space, in order.
pub open spec fn words(s: Seq<char>) -> Seq<Seq<char>>
    decreases s.len(),
    via words_decreases
{
    let a = run_len(s, CharClass::Whitespace) as int;
    let k = run_len(s.skip(a), CharClass::Visible) as int;
    if k > 0 {
        seq![s.subrange(a, a + k)] + words(s.skip(a + k))
    } else {
        Seq::empty()
    }
}

#[via_fn]
proof fn words_decreases(s: Seq<char>) {
    lemma_run_len(s, CharClass::Whitespace);
    lemma_run_len(s.skip(run_len(s, CharClass::Whitespace) as int), CharClass::Visible);
}

/// No line holds a line feed.
pub proof fn lemma_lines_hold_no_line_feed(s: Seq<char>)
    ensures
        forall|i: int, j: int|
            0 <= i < lines(s).len() && 0 <= j < lines(s)[i].len() ==> #[trigger] lines(s)[i][j]
                != '\n',
    decreases s.len(),
{
    if s.len() > 0 {
        let k = run_len(s, CharClass::Except('\n')) as int;
        lemma_run_len(s, CharClass::Except('\n'));
        if k < s.len() {
            let head = strip_last(s.take(k), '\r');
            let tail = lines(s.skip(k + 1));
            lemma_lines_hold_no_line_feed(s.skip(k + 1));
            assert forall|i: int, j: int|
                0 <= i < lines(s).len() && 0 <= j < lines(s)[i].len() implies #[trigger] lines(
                s,
            )[i][j] != '\n' by {
                if i == 0 {
                    assert(lines(s)[0] == head);
                    assert(head[j] == s[j]);
                } else {
                    assert(lines(s)[i] == tail[i - 1]);
                }
            }
        } else {
            assert(lines(s)[0] == s);
        }
    }
}

/// Every word holds a character, and none that is white space.
pub proof fn lemma_words_are_visible(s: Seq<char>)
    ensures
        forall|i: int| 0 <= i < words(s).len() ==> (#[trigger] words(s)[i]).len() > 0,
        forall|i: int, j: int|
            0 <= i < words(s).len() && 0 <= j < words(s)[i].len() ==> !is_whitespace(
                #[trigger] words(s)[i][j],
            ),
    decreases s.len(),
{
    let a = run_len(s, CharClass::Whitespace) as int;
    lemma_run_len(s, CharClass::Whitespace);
    let rest = s.skip(a);
    let k = run_len(rest, CharClass::Visible) as int;
    lemma_run_len(rest, CharClass::Visible);
    if k > 0 {
        let head = s.subrange(a, a + k);
        let tail = words(s.skip(a + k));
        lemma_words_are_visible(s.skip(a + k));
        assert forall|i: int| 0 <= i < words(s).len() implies (#[trigger] words(s)[i]).len()
            > 0 by {
            if i == 0 {
                assert(words(s)[0] == head);
            } else {
                assert(words(s)[i] == tail[i - 1]);
            }
        }
        assert forall|i: int, j: int|
            0 <= i < words(s).len() && 0 <= j < words(s)[i].len() implies !is_whitespace(
            #[trigger] words(s)[i][j],
        ) by {
            if i == 0 {
                assert(words(s)[0] == head);
                assert(head[j] == rest[j]);
                assert(CharClass::Visible.holds(rest[j]));
            } else {
                assert(words(s)[i] == tail[i - 1]);
            }
        }
    }
}

/// Splits a text into its lines.
pub fn split_lines(v: &Vec<char>) -> (out: Vec<Vec<char>>)
    ensures
        rows(out@) == lines(v@),
{
    let n = v.len();
    let mut out: Vec<Vec<char>> = Vec::new();
    let mut start: usize = 0;
    proof {
        assert(v@.skip(0) =~= v@);
        assert(rows(out@) + lines(v@) =~= lines(v@));
    }
    while start < n
        invariant
            start <= n == v.len(),
            lines(v@) == rows(out@) + lines(v@.skip(start as int)),
        decreases n - start,
    {
        let ghost rest = v@.skip(start as int);
        let ghost before = rows(out@);
        let end = run_end(v, start, n, CharClass::Except('\n'));
        proof {
            assert(rest =~= v@.subrange(start as int, n as int));
        }
        if end < n {
            let stop = if end > start && v[end - 1] == '\r' {
                end - 1
            } else {
                end
            };
            let line = slice_of(v, start, stop);
            proof {
                let k = end - start;
                assert(rest.take(k) =~= v@.subrange(start as int, end as int));
                assert(line@ =~= strip_last(rest.take(k), '\r'));
                assert(rest.skip(k + 1) =~= v@.skip(end + 1));
            }
            out.push(line);
            proof {
                assert(rows(out@) =~= before.push(line@));
                assert(before.push(line@) + lines(v@.skip(end + 1)) =~= before + (seq![line@]
                    + lines(v@.skip(end + 1))));
            }
            start = end + 1;
        } else {
            let line = slice_of(v, start, n);
            out.push(line);
            proof {
                assert(line@ =~= rest);
                assert(rows(out@) =~= before.push(line@));
                assert(v@.skip(n as int).len() == 0);
                assert(before.push(line@) + lines(v@.skip(n as int)) =~= before + seq![rest]);
            }
            start = n;
        }
    }
    proof {
        assert(rows(out@) + lines(v@.skip(start as int)) =~= rows(out@));
    }
    out
}

/// Splits a text into its words.
pub fn split_words(v: &Vec<char>) -> (out: Vec<Vec<char>>)
    ensures
        rows(out@) == words(v@),
{
    let n = v.len();
    let mut out: Vec<Vec<char>> = Vec::new();
    let mut start: usize = 0;
    proof {
        assert(v@.skip(0) =~= v@);
        assert(rows(out@) + words(v@) =~= words(v@));
    }
    loop
        invariant
            start <= n == v.len(),
            words(v@) == rows(out@) + words(v@.skip(start as int)),
        ensures
            rows(out@) == words(v@),
        decreases n - start,
    {
        let ghost rest = v@.skip(start as int);
        let ghost before = rows(out@);
        let a = run_end(v, start, n, CharClass::Whitespace);
        let b = run_end(v, a, n, CharClass::Visible);
        proof {
            assert(rest =~= v@.subrange(start as int, n as int));
            assert(rest.skip(a - start) =~= v@.subrange(a as int, n as int));
        }
        if b == a {
            proof {
                assert(before + words(rest) =~= before);
            }
            break;
        }
        let word = slice_of(v, a, b);
        out.push(word);
        proof {
            assert(word@ =~= rest.subrange(a - start, b - start));
            assert(rest.skip(b - start) =~= v@.skip(b as int));
            assert(rows(out@) =~= before.push(word@));
            assert(before.push(word@) + words(v@.skip(b as int)) =~= before + (seq![word@] + words(
                v@.skip(b as int),
            )));
        }
        start = b;
    }
    out
}

} // verus!
