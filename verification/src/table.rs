//! Line-oriented `key: value` tables, as the kernel prints them.

use crate::text::{
    opt_row, remove_first, slice_of, starts_with, trim, trimmed, without_first,
};
use vstd::prelude::*;

verus! {

/// The value of a line that starts with `label`: what follows the label,
/// without its first colon and without the white space around it.
pub open spec fn field_value(line: Seq<char>, label: Seq<char>) -> Seq<char> {
    trim(remove_first(line.skip(label.len() as int), ':'))
}

/// The value of `line` under `label`, if the line starts with the label.
pub open spec fn labelled_value(line: Seq<char>, label: Seq<char>) -> Option<Seq<char>> {
    if label.is_prefix_of(line) {
        Some(field_value(line, label))
    } else {
        None
    }
}

/// The value of the first line that starts with `label`.
pub open spec fn first_labelled(lines: Seq<Seq<char>>, label: Seq<char>) -> Option<Seq<char>>
    decreases lines.len(),
{
    if lines.len() == 0 {
        None
    } else {
        match first_labelled(lines.drop_last(), label) {
            Some(v) => Some(v),
            None => labelled_value(lines.last(), label),
        }
    }
}

/// The value of the last line that starts with `label`.
pub open spec fn last_labelled(lines: Seq<Seq<char>>, label: Seq<char>) -> Option<Seq<char>>
    decreases lines.len(),
{
    if lines.len() == 0 {
        None
    } else {
        match labelled_value(lines.last(), label) {
            Some(v) => Some(v),
            None => last_labelled(lines.drop_last(), label),
        }
    }
}

/// What the first labelled line of a prefix gives, the whole table gives.
pub proof fn lemma_first_labelled_prefix(lines: Seq<Seq<char>>, label: Seq<char>, k: int)
    requires
        0 <= k <= lines.len(),
        first_labelled(lines.take(k), label) is Some,
    ensures
        first_labelled(lines, label) == first_labelled(lines.take(k), label),
    decreases lines.len(),
{
    if k == lines.len() {
        assert(lines.take(k) =~= lines);
    } else {
        assert(lines.drop_last().take(k) =~= lines.take(k));
        lemma_first_labelled_prefix(lines.drop_last(), label, k);
    }
}

/// Where no line before the line `k` starts with `label` and that line
/// does, the first labelled value of the table is the value of line `k`.
pub proof fn lemma_first_labelled_at(lines: Seq<Seq<char>>, label: Seq<char>, k: int)
    requires
        0 <= k < lines.len(),
        label.is_prefix_of(lines[k]),
        forall|j: int| 0 <= j < k ==> !label.is_prefix_of(#[trigger] lines[j]),
    ensures
        first_labelled(lines, label) == Some(field_value(lines[k], label)),
{
    lemma_first_labelled_none(lines.take(k), label);
    assert(lines.take(k + 1).drop_last() =~= lines.take(k));
    assert(lines.take(k + 1).last() == lines[k]);
    lemma_first_labelled_prefix(lines, label, k + 1);
}

/// A table without a line that starts with `label` has no first labelled
/// value.
pub proof fn lemma_first_labelled_none(lines: Seq<Seq<char>>, label: Seq<char>)
    requires
        forall|j: int| 0 <= j < lines.len() ==> !label.is_prefix_of(#[trigger] lines[j]),
    ensures
        first_labelled(lines, label) is None,
    decreases lines.len(),
{
    if lines.len() > 0 {
        assert forall|j: int| 0 <= j < lines.drop_last().len() implies !label.is_prefix_of(
            #[trigger] lines.drop_last()[j],
        ) by {
            assert(lines.drop_last()[j] == lines[j]);
        }
        lemma_first_labelled_none(lines.drop_last(), label);
        assert(!label.is_prefix_of(lines[lines.len() - 1]));
    }
}

/// Reads the value of `line` under `label`.
pub fn read_labelled(line: &Vec<char>, label: &Vec<char>) -> (r: Option<Vec<char>>)
    ensures
        opt_row(r) == labelled_value(line@, label@),
{
    if starts_with(line, label) {
        let rest = slice_of(line, label.len(), line.len());
        let bare = without_first(&rest, ':');
        Some(trimmed(&bare))
    } else {
        None
    }
}

} // verus!
