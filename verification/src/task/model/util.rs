//! Path helpers of the data model.

use vstd::prelude::*;
use crate::text::{chars_of, last_index_of, lemma_last_index_of};

verus! {

/// The part of a dotted path after its last `.`; the whole path when it
/// holds no `.`.
pub open spec fn leaf_of(path: Seq<char>) -> Seq<char> {
    path.subrange(last_index_of(path, '.') + 1, path.len() as int)
}

/// The part of a dotted path after its last `.`.
pub fn leaf_name(path: &str) -> (r: &str)
    ensures
        r@ == leaf_of(path@),
{
    let chars = chars_of(path);
    let n = chars.len();
    let mut start: usize = n;
    while start > 0 && chars[start - 1] != '.'
        invariant
            n == chars@.len(),
            start <= n,
            forall|i: int| start <= i < n ==> #[trigger] chars@[i] != '.',
        decreases start,
    {
        start -= 1;
    }
    proof {
        lemma_last_index_of(path@, '.');
        let k = last_index_of(path@, '.');
        if start > 0 {
            assert(chars@[start - 1] == '.');
            if k < start - 1 {
                assert(path@[start - 1] != '.');
            }
            if k > start - 1 {
                assert(chars@[k] != '.');
            }
        } else {
            if k >= 0 {
                assert(chars@[k] != '.');
            }
        }
        assert(k + 1 == start);
    }
    path.substring_char(start, n)
}

} // verus!
