//! Lists of words: removing repeated words and joining words into a text.

use crate::text::texts;
use itertools::Itertools;
use vstd::prelude::*;

verus! {

/// `s` without every element that occurred earlier in it: of equal
/// elements the first stays, and what stays keeps its order.
pub open spec fn first_occurrences(s: Seq<Seq<char>>) -> Seq<Seq<char>>
    decreases s.len(),
{
    if s.len() == 0 {
        Seq::empty()
    } else if s.drop_last().contains(s.last()) {
        first_occurrences(s.drop_last())
    } else {
        first_occurrences(s.drop_last()).push(s.last())
    }
}

/// The elements of `parts` in order, with `sep` between each two
/// neighbours.
pub open spec fn joined(parts: Seq<Seq<char>>, sep: Seq<char>) -> Seq<char>
    decreases parts.len(),
{
    if parts.len() == 0 {
        Seq::empty()
    } else if parts.len() == 1 {
        parts[0]
    } else {
        joined(parts.drop_last(), sep) + sep + parts.last()
    }
}

/// Removes every word that occurred earlier in the list.
///
/// Trusted: `Itertools::unique` of the crate `itertools`, collected into a
/// vector. The adaptor yields the items of the underlying iterator in their
/// order and leaves out each item that is equal to one it has yielded
/// before, so the first of equal items is the one that stays.
#[verifier::external_body]
pub(crate) fn unique(words: Vec<String>) -> (r: Vec<String>)
    ensures
        texts(r@) == first_occurrences(texts(words@)),
{
    words.into_iter().unique().collect()
}

/// Joins the words into one string, with `sep` between neighbours.
///
/// Trusted: `Itertools::join` of the crate `itertools`. It writes the first
/// item, then for each further item the separator and the item; for no
/// items it returns the empty string.
#[verifier::external_body]
pub(crate) fn join(words: &Vec<String>, sep: &str) -> (r: String)
    ensures
        r@ == joined(texts(words@), sep@),
{
    words.iter().join(sep)
}

/// What stays after the removal of repeated words holds no word twice, and
/// holds exactly the words of the list.
pub proof fn lemma_first_occurrences(s: Seq<Seq<char>>)
    ensures
        first_occurrences(s).no_duplicates(),
        forall|w: Seq<char>| #[trigger] first_occurrences(s).contains(w) <==> s.contains(w),
        first_occurrences(s).len() <= s.len(),
    decreases s.len(),
{
    if s.len() > 0 {
        let init = s.drop_last();
        let last = s.last();
        let kept = first_occurrences(init);
        lemma_first_occurrences(init);
        assert forall|w: Seq<char>| first_occurrences(s).contains(w) <==> s.contains(w) by {
            if s.contains(w) {
                let i = choose|i: int| 0 <= i < s.len() && s[i] == w;
                if i < s.len() - 1 {
                    assert(init[i] == w);
                    assert(init.contains(w));
                } else {
                    assert(w == last);
                }
                if init.contains(w) {
                    assert(first_occurrences(init).contains(w));
                }
                if init.contains(last) {
                    assert(kept.contains(w));
                } else if w == last {
                    assert(kept.push(last)[kept.len() as int] == w);
                } else {
                    let j = choose|j: int| 0 <= j < kept.len() && kept[j] == w;
                    assert(kept.push(last)[j] == w);
                }
            }
            if first_occurrences(s).contains(w) {
                let j = choose|j: int|
                    0 <= j < first_occurrences(s).len() && first_occurrences(s)[j] == w;
                if !init.contains(last) && j == kept.len() {
                    assert(s[s.len() - 1] == w);
                } else {
                    assert(kept[j] == w);
                    assert(first_occurrences(init).contains(w));
                    assert(init.contains(w));
                    let i = choose|i: int| 0 <= i < init.len() && init[i] == w;
                    assert(s[i] == w);
                }
            }
        }
        if !init.contains(last) {
            assert forall|i: int, j: int|
                0 <= i < kept.len() + 1 && 0 <= j < kept.len() + 1 && i != j implies kept.push(
                last,
            )[i] != kept.push(last)[j] by {
                if i == kept.len() {
                    assert(first_occurrences(init).contains(kept[j]));
                } else if j == kept.len() {
                    assert(first_occurrences(init).contains(kept[i]));
                }
            }
        }
    }
}

} // verus!
