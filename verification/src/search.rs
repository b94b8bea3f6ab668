//! Finding the first item of a sequence that has a wanted property.

use vstd::prelude::*;

verus! {

/// The position of the first item that is wanted, or the length of the
/// sequence where none is.
pub open spec fn first_index<T>(list: Seq<T>, wanted: spec_fn(T) -> bool) -> int
    decreases list.len(),
{
    if list.len() == 0 || wanted(list[0]) {
        0
    } else {
        1 + first_index(list.drop_first(), wanted)
    }
}

/// Whether any item is wanted.
pub open spec fn any<T>(list: Seq<T>, wanted: spec_fn(T) -> bool) -> bool {
    first_index(list, wanted) < list.len()
}

/// The first wanted item stands inside the sequence or at its end, no item
/// before it is wanted, and it is wanted itself.
pub proof fn lemma_first_index<T>(list: Seq<T>, wanted: spec_fn(T) -> bool)
    ensures
        0 <= first_index(list, wanted) <= list.len(),
        forall|i: int| 0 <= i < first_index(list, wanted) ==> !wanted(#[trigger] list[i]),
        first_index(list, wanted) < list.len() ==> wanted(list[first_index(list, wanted)]),
    decreases list.len(),
{
    if list.len() > 0 && !wanted(list[0]) {
        let rest = list.drop_first();
        lemma_first_index(rest, wanted);
        assert forall|i: int| 0 <= i < first_index(list, wanted) implies !wanted(
            #[trigger] list[i],
        ) by {
            if i > 0 {
                assert(list[i] == rest[i - 1]);
            }
        }
        if first_index(list, wanted) < list.len() {
            assert(list[first_index(list, wanted)] == rest[first_index(rest, wanted)]);
        }
    }
}

/// A position before which no item is wanted, and which is wanted or the
/// end, is the position of the first wanted item.
pub proof fn lemma_first_index_is<T>(list: Seq<T>, wanted: spec_fn(T) -> bool, n: int)
    requires
        0 <= n <= list.len(),
        forall|i: int| 0 <= i < n ==> !wanted(#[trigger] list[i]),
        n < list.len() ==> wanted(list[n]),
    ensures
        first_index(list, wanted) == n,
{
    lemma_first_index(list, wanted);
    let m = first_index(list, wanted);
    if m < n {
        assert(!wanted(list[m]));
    } else if n < m {
        assert(wanted(list[n]));
    }
}

} // verus!
