//! The frontier of a run: a sequence that entries leave by swap-remove.

use vstd::prelude::*;

verus! {

/// `s` after a swap-remove of entry `i`: the last entry takes its place.
pub open spec fn swap_removed<T>(s: Seq<T>, i: int) -> Seq<T> {
    s.update(i, s.last()).drop_last()
}

/// A swap-remove keeps every value but the one it takes out.
pub proof fn lemma_swap_removed_keeps<T>(s: Seq<T>, i: int, value: T)
    requires
        0 <= i < s.len(),
        s.contains(value),
        s[i] != value,
    ensures
        swap_removed(s, i).contains(value),
{
    let j = choose|j: int| 0 <= j < s.len() && s[j] == value;
    let rest = swap_removed(s, i);
    if j == s.len() - 1 {
        assert(rest[i] == value);
    } else {
        assert(rest[j] == value);
    }
}

} // verus!
