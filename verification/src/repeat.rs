//! Items that follow one another on the wire, read one by one.

use crate::error::HdbError;
use vstd::prelude::*;

verus! {

/// What reading `count` items from `pos` gives when each item is read by
/// `item` and taken in by `step`: the first failure, or what was gathered and
/// the position behind the last item.
pub open spec fn fold_at<T, A>(
    item: spec_fn(Seq<u8>, int) -> Result<(T, int), HdbError>,
    step: spec_fn(A, T) -> A,
    init: A,
    s: Seq<u8>,
    pos: int,
    count: nat,
) -> Result<(A, int), HdbError>
    decreases count,
{
    if count == 0 {
        Ok((init, pos))
    } else {
        match fold_at(item, step, init, s, pos, (count - 1) as nat) {
            Err(e) => Err(e),
            Ok((acc, p)) => match item(s, p) {
                Err(e) => Err(e),
                Ok((x, q)) => Ok((step(acc, x), q)),
            },
        }
    }
}

/// The items themselves, in the order in which they were read.
pub open spec fn repeat_at<T>(
    item: spec_fn(Seq<u8>, int) -> Result<(T, int), HdbError>,
    s: Seq<u8>,
    pos: int,
    count: nat,
) -> Result<(Seq<T>, int), HdbError> {
    fold_at(item, |acc: Seq<T>, x: T| acc.push(x), Seq::<T>::empty(), s, pos, count)
}

/// Once an item fails, reading further items fails the same way.
pub proof fn lemma_fold_failure<T, A>(
    item: spec_fn(Seq<u8>, int) -> Result<(T, int), HdbError>,
    step: spec_fn(A, T) -> A,
    init: A,
    s: Seq<u8>,
    pos: int,
    i: nat,
    n: nat,
)
    requires
        i <= n,
        fold_at(item, step, init, s, pos, i) is Err,
    ensures
        fold_at(item, step, init, s, pos, n) == fold_at(item, step, init, s, pos, i),
    decreases n - i,
{
    if i < n {
        lemma_fold_failure(item, step, init, s, pos, i, (n - 1) as nat);
    }
}

/// Reading one more item, spelled out.
pub proof fn lemma_fold_step<T, A>(
    item: spec_fn(Seq<u8>, int) -> Result<(T, int), HdbError>,
    step: spec_fn(A, T) -> A,
    init: A,
    s: Seq<u8>,
    pos: int,
    i: nat,
)
    ensures
        fold_at(item, step, init, s, pos, i + 1) == (match fold_at(item, step, init, s, pos, i) {
            Err(e) => Err(e),
            Ok((acc, p)) => match item(s, p) {
                Err(e) => Err(e),
                Ok((x, q)) => Ok((step(acc, x), q)),
            },
        }),
{
    assert((i + 1 - 1) as nat == i);
}

/// Reading one more item of a list, spelled out.
pub proof fn lemma_repeat_step<T>(
    item: spec_fn(Seq<u8>, int) -> Result<(T, int), HdbError>,
    s: Seq<u8>,
    pos: int,
    i: nat,
)
    ensures
        repeat_at(item, s, pos, i + 1) == (match repeat_at(item, s, pos, i) {
            Err(e) => Err(e),
            Ok((acc, p)) => match item(s, p) {
                Err(e) => Err(e),
                Ok((x, q)) => Ok((acc.push(x), q)),
            },
        }),
{
    lemma_fold_step(item, |acc: Seq<T>, x: T| acc.push(x), Seq::<T>::empty(), s, pos, i);
}

/// Once an item of a list fails, the list fails the same way.
pub proof fn lemma_repeat_failure<T>(
    item: spec_fn(Seq<u8>, int) -> Result<(T, int), HdbError>,
    s: Seq<u8>,
    pos: int,
    i: nat,
    n: nat,
)
    requires
        i <= n,
        repeat_at(item, s, pos, i) is Err,
    ensures
        repeat_at(item, s, pos, n) == repeat_at(item, s, pos, i),
{
    lemma_fold_failure(item, |acc: Seq<T>, x: T| acc.push(x), Seq::<T>::empty(), s, pos, i, n);
}

/// The views of the items of a vector.
pub open spec fn views<T: View>(v: Seq<T>) -> Seq<T::V> {
    Seq::new(v.len(), |i: int| v[i]@)
}

/// The views of a vector that has grown by one item.
pub proof fn lemma_views_push<T: View>(v: Seq<T>, x: T)
    ensures
        views(v.push(x)) == views(v).push(x@),
{
    assert(views(v.push(x)) =~= views(v).push(x@));
}

/// No items have no views.
pub proof fn lemma_views_empty<T: View>(v: Seq<T>)
    requires
        v.len() == 0,
    ensures
        views(v) == Seq::<T::V>::empty(),
{
    assert(views(v) =~= Seq::<T::V>::empty());
}

/// As `fold_at`, for items whose form depends on their index.
pub open spec fn ifold_at<T, A>(
    item: spec_fn(int, Seq<u8>, int) -> Result<(T, int), HdbError>,
    step: spec_fn(A, T) -> A,
    init: A,
    s: Seq<u8>,
    pos: int,
    count: nat,
) -> Result<(A, int), HdbError>
    decreases count,
{
    if count == 0 {
        Ok((init, pos))
    } else {
        match ifold_at(item, step, init, s, pos, (count - 1) as nat) {
            Err(e) => Err(e),
            Ok((acc, p)) => match item(count - 1, s, p) {
                Err(e) => Err(e),
                Ok((x, q)) => Ok((step(acc, x), q)),
            },
        }
    }
}

/// Reading one more item whose form depends on its index, spelled out.
pub proof fn lemma_ifold_step<T, A>(
    item: spec_fn(int, Seq<u8>, int) -> Result<(T, int), HdbError>,
    step: spec_fn(A, T) -> A,
    init: A,
    s: Seq<u8>,
    pos: int,
    i: nat,
)
    ensures
        ifold_at(item, step, init, s, pos, i + 1) == (match ifold_at(item, step, init, s, pos, i) {
            Err(e) => Err(e),
            Ok((acc, p)) => match item(i as int, s, p) {
                Err(e) => Err(e),
                Ok((x, q)) => Ok((step(acc, x), q)),
            },
        }),
{
    assert((i + 1 - 1) as nat == i);
}

/// Once an item whose form depends on its index fails, reading further
/// items fails the same way.
pub proof fn lemma_ifold_failure<T, A>(
    item: spec_fn(int, Seq<u8>, int) -> Result<(T, int), HdbError>,
    step: spec_fn(A, T) -> A,
    init: A,
    s: Seq<u8>,
    pos: int,
    i: nat,
    n: nat,
)
    requires
        i <= n,
        ifold_at(item, step, init, s, pos, i) is Err,
    ensures
        ifold_at(item, step, init, s, pos, n) == ifold_at(item, step, init, s, pos, i),
    decreases n - i,
{
    if i < n {
        lemma_ifold_failure(item, step, init, s, pos, i, (n - 1) as nat);
    }
}

/// As `repeat_at`, for items whose form depends on their index.
pub open spec fn irepeat_at<T>(
    item: spec_fn(int, Seq<u8>, int) -> Result<(T, int), HdbError>,
    s: Seq<u8>,
    pos: int,
    count: nat,
) -> Result<(Seq<T>, int), HdbError> {
    ifold_at(item, |acc: Seq<T>, x: T| acc.push(x), Seq::<T>::empty(), s, pos, count)
}

/// Reading one more item of a list, spelled out.
pub proof fn lemma_irepeat_step<T>(
    item: spec_fn(int, Seq<u8>, int) -> Result<(T, int), HdbError>,
    s: Seq<u8>,
    pos: int,
    i: nat,
)
    ensures
        irepeat_at(item, s, pos, i + 1) == (match irepeat_at(item, s, pos, i) {
            Err(e) => Err(e),
            Ok((acc, p)) => match item(i as int, s, p) {
                Err(e) => Err(e),
                Ok((x, q)) => Ok((acc.push(x), q)),
            },
        }),
{
    assert((i + 1 - 1) as nat == i);
}

/// Once an item of a list fails, the list fails the same way.
pub proof fn lemma_irepeat_failure<T>(
    item: spec_fn(int, Seq<u8>, int) -> Result<(T, int), HdbError>,
    s: Seq<u8>,
    pos: int,
    i: nat,
    n: nat,
)
    requires
        i <= n,
        irepeat_at(item, s, pos, i) is Err,
    ensures
        irepeat_at(item, s, pos, n) == irepeat_at(item, s, pos, i),
    decreases n - i,
{
    if i < n {
        lemma_irepeat_failure(item, s, pos, i, (n - 1) as nat);
    }
}

} // verus!
