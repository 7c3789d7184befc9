//! Going round the fields of a dialog.

use vstd::prelude::*;

verus! {

/// `k` is the first place of `f` in the list.
pub open spec fn first_at<T>(fields: Seq<T>, f: T, k: int) -> bool {
    0 <= k < fields.len() && fields[k] == f && forall|j: int| 0 <= j < k ==> fields[j] != f
}

/// The first place of a field, or 0 where it is not there.
pub open spec fn place_of<T>(fields: Seq<T>, f: T) -> int {
    if fields.contains(f) {
        choose|k: int| first_at(fields, f, k)
    } else {
        0
    }
}

pub proof fn lemma_place_of<T>(fields: Seq<T>, f: T, at: int)
    requires
        first_at(fields, f, at) || (at == 0 && !fields.contains(f)),
    ensures
        place_of(fields, f) == at,
{
    if first_at(fields, f, at) {
        assert(fields.contains(f));
        let k = place_of(fields, f);
        assert(first_at(fields, f, k));
        if k < at {
            assert(fields[k] != f);
        } else if at < k {
            assert(fields[at] != f);
        }
    }
}

/// The place behind another one, or before it, all around.
pub open spec fn place_after(len: int, at: int, back: bool) -> int {
    if back {
        if at == 0 {
            len - 1
        } else {
            at - 1
        }
    } else if at + 1 < len {
        at + 1
    } else {
        0
    }
}

/// The field behind another one, or before it, all around.
pub open spec fn field_after<T>(fields: Seq<T>, f: T, back: bool) -> T {
    fields[place_after(fields.len() as int, place_of(fields, f), back)]
}

/// The place behind another one, or before it, all around.
pub fn step(len: usize, at: usize, back: bool) -> (r: usize)
    requires
        at < len,
    ensures
        r == place_after(len as int, at as int, back),
        r < len,
{
    if back {
        if at == 0 {
            len - 1
        } else {
            at - 1
        }
    } else if at + 1 < len {
        at + 1
    } else {
        0
    }
}

/// Going on and back again leads to the same place.
pub proof fn on_and_back(len: int, at: int)
    requires
        0 <= at < len,
    ensures
        place_after(len, place_after(len, at, false), true) == at,
        place_after(len, place_after(len, at, true), false) == at,
{
}

// ---------------------------------------------------------------------------
// Laws
// ---------------------------------------------------------------------------

/// The field after the last is the first again. Going on from a field and back again, or the other way round, comes to the
/// same field, and always to one of the fields.
pub proof fn on_and_back_among_the_fields<T>(fields: Seq<T>, k: int)
    requires
        0 <= k < fields.len(),
        fields.no_duplicates(),
    ensures
        field_after(fields, field_after(fields, fields[k], false), true) == fields[k],
        field_after(fields, field_after(fields, fields[k], true), false) == fields[k],
        k + 1 < fields.len() ==> field_after(fields, fields[k], false) == fields[k + 1],
        k + 1 == fields.len() ==> field_after(fields, fields[k], false) == fields[0],
        k == 0 ==> field_after(fields, fields[k], true) == fields.last(),
        k > 0 ==> field_after(fields, fields[k], true) == fields[k - 1],
{
    let n = fields.len() as int;
    let a = place_after(n, k, false);
    let b = place_after(n, k, true);
    lemma_place_at(fields, k);
    lemma_place_at(fields, a);
    lemma_place_at(fields, b);
    on_and_back(n, k);
}

proof fn lemma_place_at<T>(fields: Seq<T>, k: int)
    requires
        0 <= k < fields.len(),
        fields.no_duplicates(),
    ensures
        place_of(fields, fields[k]) == k,
{
    assert(first_at(fields, fields[k], k));
    lemma_place_of(fields, fields[k], k);
}

} // verus!
