use vstd::prelude::*;
use rayon::iter::{IndexedParallelIterator, IntoParallelRefIterator, ParallelIterator};

verus! {

/// Relies on rayon's `par_iter().map(g).collect_into_vec(..)` over a slice:
/// `g` is called once on every item, on the worker pool, and the results are
/// collected in the items' order.
#[verifier::external_body]
pub(crate) fn par_map<T: Sync, U: Send, G: Fn(&T) -> U + Sync>(items: &Vec<T>, g: &G) -> (r: Vec<U>)
    requires
        forall|i: int| 0 <= i < items@.len() ==> g.requires((&items@[i],)),
    ensures
        r@.len() == items@.len(),
        forall|i: int| 0 <= i < items@.len() ==> g.ensures((&items@[i],), #[trigger] r@[i]),
{
    let mut out: Vec<U> = Vec::new();
    items.par_iter().map(g).collect_into_vec(&mut out);
    out
}

/// The indices `0..n`, in order.
pub(crate) fn indices(n: usize) -> (r: Vec<usize>)
    ensures
        r@.len() == n,
        forall|i: int| 0 <= i < n ==> r@[i] == i,
{
    let mut r: Vec<usize> = Vec::new();
    let mut i: usize = 0;
    while i < n
        invariant
            i <= n,
            r@.len() == i,
            forall|k: int| 0 <= k < i ==> r@[k] == k,
        decreases n - i,
    {
        r.push(i);
        i = i + 1;
    }
    r
}

/// The values of results that are all `Ok`, in order.
pub(crate) fn unwrap_all<T, E>(v: Vec<Result<T, E>>) -> (r: Vec<T>)
    requires
        forall|i: int| 0 <= i < v@.len() ==> (#[trigger] v@[i]) is Ok,
    ensures
        r@.len() == v@.len(),
        forall|i: int| 0 <= i < v@.len() ==> Ok::<T, E>(#[trigger] r@[i]) == v@[i],
{
    let ghost orig = v@;
    let mut v = v;
    let mut rev: Vec<T> = Vec::new();
    while v.len() > 0
        invariant
            forall|i: int| 0 <= i < orig.len() ==> (#[trigger] orig[i]) is Ok,
            v@ == orig.take(v@.len() as int),
            rev@.len() + v@.len() == orig.len(),
            forall|j: int| 0 <= j < rev@.len() ==> Ok::<T, E>(#[trigger] rev@[j]) == orig[orig.len() - 1 - j],
        decreases v@.len(),
    {
        let x = v.pop().unwrap();
        proof {
            assert(orig[v@.len() as int] is Ok);
        }
        match x {
            Ok(t) => rev.push(t),
            Err(_) => {},
        }
        assert(v@ =~= orig.take(v@.len() as int));
    }
    let mut out: Vec<T> = Vec::new();
    while rev.len() > 0
        invariant
            rev@.len() + out@.len() == orig.len(),
            forall|j: int| 0 <= j < rev@.len() ==> Ok::<T, E>(#[trigger] rev@[j]) == orig[orig.len() - 1 - j],
            forall|i: int| 0 <= i < out@.len() ==> Ok::<T, E>(#[trigger] out@[i]) == orig[i],
        decreases rev@.len(),
    {
        let t = rev.pop().unwrap();
        out.push(t);
    }
    out
}

} // verus!
