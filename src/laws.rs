//! Properties that relate several operations of [`Bitmap`], stated over its
//! view, the sequence of its bits. Each one speaks of the states that the
//! operations' own contracts describe: `set(i)` turns `b@` into
//! `b@.update(i, true)`, and `unset(i)` turns it into `b@.update(i, false)`.

use vstd::prelude::*;
use crate::bitmap::Bitmap;

verus! {

/// On a bitmap whose bits are all unset, `set(i)` followed by `get(i)` reads
/// `true`, and `get(j)` reads `false` for every other index `j`.
pub proof fn lemma_set_then_get(b: Bitmap, i: int)
    requires
        b.wf(),
        0 <= i < b@.len(),
        forall|j: int| 0 <= j < b@.len() ==> !(#[trigger] b@[j]),
    ensures
        b@.update(i, true)[i],
        forall|j: int| 0 <= j < b@.len() && j != i ==> !(#[trigger] b@.update(i, true)[j]),
{
}

/// `set(i)` followed by `unset(i)` leaves bit `i` unset and every other bit
/// as it was before the `set`.
pub proof fn lemma_unset_reverses_set(b: Bitmap, i: int)
    requires
        b.wf(),
        0 <= i < b@.len(),
    ensures
        !b@.update(i, true).update(i, false)[i],
        forall|j: int|
            0 <= j < b@.len() && j != i ==> #[trigger] b@.update(i, true).update(i, false)[j]
                == b@[j],
{
}

/// Calling `set(i)` twice gives the same bits as calling it once, and so does
/// calling `unset(i)` twice.
pub proof fn lemma_set_unset_idempotent(b: Bitmap, i: int)
    requires
        b.wf(),
        0 <= i < b@.len(),
    ensures
        b@.update(i, true).update(i, true) == b@.update(i, true),
        b@.update(i, false).update(i, false) == b@.update(i, false),
{
    assert(b@.update(i, true).update(i, true) =~= b@.update(i, true));
    assert(b@.update(i, false).update(i, false) =~= b@.update(i, false));
}

} // verus!
