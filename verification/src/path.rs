//! The last component of a path whose separator is the slash.

use crate::text::{
    lemma_run_len_back, opt_row, run_len_back, run_start, slice_of, CharClass,
};
use vstd::prelude::*;

verus! {

/// The file name of `path`: its last component, where trailing slashes and
/// components that are a single dot do not count. A path without such a
/// component has no file name, and neither has one that ends in the
/// component `..`.
pub open spec fn file_name(path: Seq<char>) -> Option<Seq<char>>
    decreases path.len(),
    via file_name_decreases
{
    let bare = path.take(path.len() - run_len_back(path, CharClass::Is('/')));
    let k = run_len_back(bare, CharClass::Except('/')) as int;
    let last = bare.skip(bare.len() - k);
    if k == 0 {
        None
    } else if last == seq!['.'] {
        file_name(bare.take(bare.len() - k))
    } else if last == seq!['.', '.'] {
        None
    } else {
        Some(last)
    }
}

#[via_fn]
proof fn file_name_decreases(path: Seq<char>) {
    lemma_run_len_back(path, CharClass::Is('/'));
    let bare = path.take(path.len() - run_len_back(path, CharClass::Is('/')));
    lemma_run_len_back(bare, CharClass::Except('/'));
}

/// Computes `file_name`.
pub fn base_name(path: &Vec<char>) -> (r: Option<Vec<char>>)
    ensures
        opt_row(r) == file_name(path@),
{
    let mut end: usize = path.len();
    let mut found: Option<Vec<char>> = None;
    proof {
        assert(path@.take(end as int) =~= path@);
    }
    loop
        invariant
            end <= path.len(),
            file_name(path@) == file_name(path@.take(end as int)),
        ensures
            opt_row(found) == file_name(path@),
        decreases end,
    {
        let ghost whole = path@.take(end as int);
        let stop = run_start(path, 0, end, CharClass::Is('/'));
        let start = run_start(path, 0, stop, CharClass::Except('/'));
        proof {
            assert(path@.subrange(0, end as int) =~= whole);
            let bare = whole.take(stop as int);
            assert(bare =~= path@.subrange(0, stop as int));
            assert(bare.skip(start as int) =~= path@.subrange(start as int, stop as int));
            assert(bare.take(start as int) =~= path@.take(start as int));
        }
        if start == stop {
            found = None;
            break;
        }
        let last = slice_of(path, start, stop);
        if last.len() == 1 && last[0] == '.' {
            proof {
                assert(last@ =~= seq!['.']);
            }
            end = start;
        } else if last.len() == 2 && last[0] == '.' && last[1] == '.' {
            proof {
                assert(last@ =~= seq!['.', '.']);
            }
            found = None;
            break;
        } else {
            proof {
                if last@ == seq!['.'] {
                    assert(last@[0] == '.');
                }
                if last@ == seq!['.', '.'] {
                    assert(last@[0] == '.' && last@[1] == '.');
                }
            }
            found = Some(last);
            break;
        }
    }
    found
}

} // verus!
