use vstd::prelude::*;
use crate::dtype::{DataType, get_supertype, max_nat, supertype, supertype_all};
use crate::parallel::{indices, par_map, unwrap_all};
use crate::frame::{Column, DataFrame, height_of, dtypes_of, nulls, pad};

verus! {

/// The arithmetic operator applied cell by cell.
#[derive(Clone, Copy, Debug, PartialEq, Eq, Structural)]
pub enum Op {
    Add,
    Sub,
    Mul,
    Div,
    Rem,
}

/// Why a combinator failed. No partial result is ever returned.
#[derive(Clone, Copy, Debug, PartialEq, Eq, Structural)]
pub enum ArithError {
    /// Two types have no common supertype.
    IncompatibleTypes,
    /// A value cannot be represented in the resolved type.
    CastFailure,
    /// The cell operator reported a domain error (such as integer division by zero).
    OperatorFailure,
    /// A column and the series it is combined with differ in length.
    LengthMismatch,
}

/// `y` is what casting cell `x` to `t` may give: null stays null.
pub open spec fn cast_cell<V, C: Fn(&V, DataType) -> Option<V>>(
    cast: C,
    x: Option<V>,
    t: DataType,
    y: Option<V>,
) -> bool {
    match x {
        None => y is None,
        Some(v) => y is Some && cast.ensures((&v, t), y),
    }
}

/// `ys` is a cell-by-cell cast of `xs` to `t`.
pub open spec fn cast_values<V, C: Fn(&V, DataType) -> Option<V>>(
    cast: C,
    xs: Seq<Option<V>>,
    t: DataType,
    ys: Seq<Option<V>>,
) -> bool {
    &&& ys.len() == xs.len()
    &&& forall|j: int| 0 <= j < xs.len() ==> cast_cell(cast, xs[j], t, #[trigger] ys[j])
}

/// `z` is what `op` may give on cells `x` and `y`: null if either is null.
pub open spec fn apply_cell<V, F: Fn(Op, &V, &V) -> Option<V>>(
    apply: F,
    op: Op,
    x: Option<V>,
    y: Option<V>,
    z: Option<V>,
) -> bool {
    match (x, y) {
        (Some(a), Some(b)) => z is Some && apply.ensures((op, &a, &b), z),
        _ => z is None,
    }
}

/// `zs` is `op` applied position by position to `xs` and `ys`.
pub open spec fn apply_values<V, F: Fn(Op, &V, &V) -> Option<V>>(
    apply: F,
    op: Op,
    xs: Seq<Option<V>>,
    ys: Seq<Option<V>>,
    zs: Seq<Option<V>>,
) -> bool {
    &&& xs.len() == ys.len()
    &&& zs.len() == xs.len()
    &&& forall|j: int| 0 <= j < xs.len() ==> apply_cell(apply, op, xs[j], ys[j], #[trigger] zs[j])
}

/// Casting some non-null cell of `xs` to `t` may report failure.
pub open spec fn cast_may_fail<V, C: Fn(&V, DataType) -> Option<V>>(
    cast: C,
    xs: Seq<Option<V>>,
    t: DataType,
) -> bool {
    exists|j: int| 0 <= j < xs.len() && #[trigger] xs[j] is Some && cast.ensures((&xs[j]->0, t), None::<V>)
}

/// Applying `op` at some position where both cells are non-null may report
/// a domain error.
pub open spec fn apply_may_fail<V, F: Fn(Op, &V, &V) -> Option<V>>(
    apply: F,
    op: Op,
    xs: Seq<Option<V>>,
    ys: Seq<Option<V>>,
) -> bool {
    exists|j: int|
        0 <= j < xs.len() && #[trigger] xs[j] is Some && ys[j] is Some
            && apply.ensures((op, &xs[j]->0, &ys[j]->0), None::<V>)
}

pub open spec fn cast_callable<V, C: Fn(&V, DataType) -> Option<V>>(cast: C) -> bool {
    forall|v: V, t: DataType| #[trigger] cast.requires((&v, t))
}

pub open spec fn apply_callable<V, F: Fn(Op, &V, &V) -> Option<V>>(apply: F) -> bool {
    forall|op: Op, a: V, b: V| #[trigger] apply.requires((op, &a, &b))
}

/// Casts every cell of `values` to `t`; `None` where some cell cannot be cast.
pub fn cast_values_exec<V, C: Fn(&V, DataType) -> Option<V>>(
    values: &Vec<Option<V>>,
    t: DataType,
    cast: &C,
) -> (r: Option<Vec<Option<V>>>)
    requires
        cast_callable(*cast),
    ensures
        r is Some ==> cast_values(*cast, values@, t, r->0@),
        r is None ==> cast_may_fail(*cast, values@, t),
        !cast_may_fail(*cast, values@, t) ==> r is Some,
{
    let mut out: Vec<Option<V>> = Vec::new();
    let mut j: usize = 0;
    while j < values.len()
        invariant
            cast_callable(*cast),
            j <= values@.len(),
            out@.len() == j,
            forall|k: int| 0 <= k < j ==> cast_cell(*cast, values@[k], t, #[trigger] out@[k]),
        decreases values@.len() - j,
    {
        match &values[j] {
            None => out.push(None),
            Some(v) => {
                let c = cast(v, t);
                match c {
                    None => {
                        assert(values@[j as int] is Some);
                        return None;
                    },
                    Some(w) => out.push(Some(w)),
                }
            },
        }
        j = j + 1;
    }
    Some(out)
}

/// Applies `op` position by position; `None` where the operator reports a
/// domain error on some pair of non-null cells.
pub fn apply_values_exec<V, F: Fn(Op, &V, &V) -> Option<V>>(
    op: Op,
    xs: &Vec<Option<V>>,
    ys: &Vec<Option<V>>,
    apply: &F,
) -> (r: Option<Vec<Option<V>>>)
    requires
        apply_callable(*apply),
        xs@.len() == ys@.len(),
    ensures
        r is Some ==> apply_values(*apply, op, xs@, ys@, r->0@),
        r is None ==> apply_may_fail(*apply, op, xs@, ys@),
        !apply_may_fail(*apply, op, xs@, ys@) ==> r is Some,
{
    let mut out: Vec<Option<V>> = Vec::new();
    let mut j: usize = 0;
    while j < xs.len()
        invariant
            apply_callable(*apply),
            xs@.len() == ys@.len(),
            j <= xs@.len(),
            out@.len() == j,
            forall|k: int| 0 <= k < j ==> apply_cell(*apply, op, xs@[k], ys@[k], #[trigger] out@[k]),
        decreases xs@.len() - j,
    {
        match (&xs[j], &ys[j]) {
            (Some(a), Some(b)) => {
                let c = apply(op, a, b);
                match c {
                    None => {
                        assert(xs@[j as int] is Some && ys@[j as int] is Some);
                        return None;
                    },
                    Some(w) => out.push(Some(w)),
                }
            },
            _ => out.push(None),
        }
        j = j + 1;
    }
    Some(out)
}

/// Appends nulls to `values` until it holds `n` cells.
pub fn extend_nulls<V>(values: Vec<Option<V>>, n: usize) -> (r: Vec<Option<V>>)
    ensures
        r@ == pad(values@, n as nat),
{
    let ghost start = values@;
    let mut out = values;
    if out.len() < n {
        while out.len() < n
            invariant
                start.len() <= out@.len() <= n,
                out@ == start + nulls::<V>((out@.len() - start.len()) as nat),
            decreases n - out@.len(),
        {
            out.push(None);
            assert(out@ =~= start + nulls::<V>((out@.len() - start.len()) as nat));
        }
    }
    assert(out@ =~= pad(start, n as nat));
    out
}

/// `out` is `op` applied to `l` and `r`, both cast to `t` and padded with
/// nulls to `n` cells.
pub open spec fn pair_result<V, C: Fn(&V, DataType) -> Option<V>, F: Fn(Op, &V, &V) -> Option<V>>(
    cast: C,
    apply: F,
    op: Op,
    l: Seq<Option<V>>,
    r: Seq<Option<V>>,
    t: DataType,
    n: nat,
    out: Seq<Option<V>>,
) -> bool {
    exists|lc: Seq<Option<V>>, rc: Seq<Option<V>>|
        #[trigger] cast_values(cast, l, t, lc) && #[trigger] cast_values(cast, r, t, rc)
            && apply_values(apply, op, pad(lc, n), pad(rc, n), out)
}

/// What combining columns `l` and `r` at `n` rows returns: `IncompatibleTypes`
/// exactly when they have no supertype; otherwise the combined column, unless
/// a cast of these cells or the operator on these cast cells may fail and
/// the error says which.
pub open spec fn pair_outcome<V, C: Fn(&V, DataType) -> Option<V>, F: Fn(Op, &V, &V) -> Option<V>>(
    cast: C,
    apply: F,
    op: Op,
    l: Column<V>,
    r: Column<V>,
    n: nat,
    res: Result<Column<V>, ArithError>,
) -> bool {
    &&& res == Err::<Column<V>, ArithError>(ArithError::IncompatibleTypes) <==> supertype(l.dtype, r.dtype) is None
    &&& res is Ok ==> ({
        let c = res->Ok_0;
        &&& supertype(l.dtype, r.dtype) == Some(c.dtype)
        &&& c.name@ == l.name@
        &&& c.values@.len() == n
        &&& pair_result(cast, apply, op, l.values@, r.values@, c.dtype, n, c.values@)
        &&& forall|j: int| l.values@.len() <= j < n ==> #[trigger] c.values@[j] is None
        &&& forall|j: int| r.values@.len() <= j < n ==> #[trigger] c.values@[j] is None
    })
    &&& res is Err && res->Err_0 != ArithError::IncompatibleTypes
        ==> pair_fails_with(cast, apply, op, l, r, n, res->Err_0)
    &&& supertype(l.dtype, r.dtype) is Some && !pair_may_fail(cast, apply, op, l, r, n) ==> res is Ok
}

/// Some cast of `l` and `r` to `t`, padded with nulls to `n` cells, may make
/// `op` report a domain error.
pub open spec fn pair_op_may_fail<V, C: Fn(&V, DataType) -> Option<V>, F: Fn(Op, &V, &V) -> Option<V>>(
    cast: C,
    apply: F,
    op: Op,
    l: Seq<Option<V>>,
    r: Seq<Option<V>>,
    t: DataType,
    n: nat,
) -> bool {
    exists|lc: Seq<Option<V>>, rc: Seq<Option<V>>|
        #[trigger] cast_values(cast, l, t, lc) && #[trigger] cast_values(cast, r, t, rc)
            && apply_may_fail(apply, op, pad(lc, n), pad(rc, n))
}

/// Combining the pair `l`, `r` at `n` rows may fail with error `e`: a cast to
/// the pair's supertype may fail, or the operator may fail on the cast cells.
pub open spec fn pair_fails_with<V, C: Fn(&V, DataType) -> Option<V>, F: Fn(Op, &V, &V) -> Option<V>>(
    cast: C,
    apply: F,
    op: Op,
    l: Column<V>,
    r: Column<V>,
    n: nat,
    e: ArithError,
) -> bool {
    let t = supertype(l.dtype, r.dtype)->0;
    ||| e == ArithError::CastFailure && (cast_may_fail(cast, l.values@, t) || cast_may_fail(cast, r.values@, t))
    ||| e == ArithError::OperatorFailure && pair_op_may_fail(cast, apply, op, l.values@, r.values@, t, n)
}

/// Some cast or operator call made on the pair `l`, `r` at `n` rows may fail.
pub open spec fn pair_may_fail<V, C: Fn(&V, DataType) -> Option<V>, F: Fn(Op, &V, &V) -> Option<V>>(
    cast: C,
    apply: F,
    op: Op,
    l: Column<V>,
    r: Column<V>,
    n: nat,
) -> bool {
    ||| pair_fails_with(cast, apply, op, l, r, n, ArithError::CastFailure)
    ||| pair_fails_with(cast, apply, op, l, r, n, ArithError::OperatorFailure)
}

/// `pair_outcome` for a cast and an operator held by reference.
pub open spec fn pair_outcome_by<V, C: Fn(&V, DataType) -> Option<V>, F: Fn(Op, &V, &V) -> Option<V>>(
    cast: &C,
    apply: &F,
    op: Op,
    l: Column<V>,
    r: Column<V>,
    n: nat,
    res: Result<Column<V>, ArithError>,
) -> bool {
    pair_outcome(*cast, *apply, op, l, r, n, res)
}

/// The cast and the operator accept every argument.
pub open spec fn kernel_callable<V, C: Fn(&V, DataType) -> Option<V>, F: Fn(Op, &V, &V) -> Option<V>>(
    cast: &C,
    apply: &F,
) -> bool {
    cast_callable(*cast) && apply_callable(*apply)
}

/// Combines two columns: cast both to their supertype, pad both with nulls to
/// `n` cells, apply `op`. The result keeps the left column's name.
pub fn combine_pair<V, C: Fn(&V, DataType) -> Option<V>, F: Fn(Op, &V, &V) -> Option<V>>(
    l: &Column<V>,
    r: &Column<V>,
    n: usize,
    op: Op,
    cast: &C,
    apply: &F,
) -> (res: Result<Column<V>, ArithError>)
    requires
        cast_callable(*cast),
        apply_callable(*apply),
        l.values@.len() <= n,
        r.values@.len() <= n,
    ensures
        pair_outcome(*cast, *apply, op, *l, *r, n as nat, res),
{
    let t = match get_supertype(l.dtype, r.dtype) {
        Some(t) => t,
        None => {
            return Err(ArithError::IncompatibleTypes);
        },
    };
    let lc = match cast_values_exec(&l.values, t, cast) {
        Some(v) => v,
        None => {
            return Err(ArithError::CastFailure);
        },
    };
    let rc = match cast_values_exec(&r.values, t, cast) {
        Some(v) => v,
        None => {
            return Err(ArithError::CastFailure);
        },
    };
    let ghost lcv = lc@;
    let ghost rcv = rc@;
    let lp = extend_nulls(lc, n);
    let rp = extend_nulls(rc, n);
    let out = match apply_values_exec(op, &lp, &rp, apply) {
        Some(v) => v,
        None => {
            assert(cast_values(*cast, l.values@, t, lcv) && cast_values(*cast, r.values@, t, rcv));
            assert(pair_op_may_fail(*cast, *apply, op, l.values@, r.values@, t, n as nat));
            return Err(ArithError::OperatorFailure);
        },
    };
    assert(cast_values(*cast, l.values@, t, lcv) && cast_values(*cast, r.values@, t, rcv));
    assert forall|j: int| l.values@.len() <= j < n implies #[trigger] out@[j] is None by {
        assert(lp@[j] is None);
    }
    assert forall|j: int| r.values@.len() <= j < n implies #[trigger] out@[j] is None by {
        assert(rp@[j] is None);
    }
    Ok(Column { name: l.name.clone(), dtype: t, values: out })
}

pub open spec fn min_nat(a: nat, b: nat) -> nat {
    if a <= b { a } else { b }
}

/// `c` is the combination of the paired columns `l` and `r` at `n` rows.
pub open spec fn paired_column<V, C: Fn(&V, DataType) -> Option<V>, F: Fn(Op, &V, &V) -> Option<V>>(
    cast: C,
    apply: F,
    op: Op,
    l: Column<V>,
    r: Column<V>,
    n: nat,
    c: Column<V>,
) -> bool {
    &&& supertype(l.dtype, r.dtype) == Some(c.dtype)
    &&& c.name@ == l.name@
    &&& c.values@.len() == n
    &&& pair_result(cast, apply, op, l.values@, r.values@, c.dtype, n, c.values@)
    &&& forall|j: int| l.values@.len() <= j < n ==> #[trigger] c.values@[j] is None
    &&& forall|j: int| r.values@.len() <= j < n ==> #[trigger] c.values@[j] is None
}

/// `c` is an all-null column of `n` rows, named and typed after `w`.
pub open spec fn null_column<V>(w: Column<V>, n: nat, c: Column<V>) -> bool {
    &&& c.name@ == w.name@
    &&& c.dtype == w.dtype
    &&& c.values@ == nulls::<V>(n)
}

/// `out` is the aligned combination of frames `l` and `r`: pairs first, then
/// all-null columns shaped after the wider frame's extra columns.
pub open spec fn aligned_result<V, C: Fn(&V, DataType) -> Option<V>, F: Fn(Op, &V, &V) -> Option<V>>(
    cast: C,
    apply: F,
    op: Op,
    l: Seq<Column<V>>,
    r: Seq<Column<V>>,
    out: Seq<Column<V>>,
) -> bool {
    let n = max_nat(height_of(l), height_of(r));
    let mw = min_nat(l.len(), r.len());
    let wider = if l.len() >= r.len() { l } else { r };
    &&& out.len() == max_nat(l.len(), r.len())
    &&& forall|i: int| 0 <= i < mw ==> paired_column(cast, apply, op, l[i], r[i], n, #[trigger] out[i])
    &&& forall|i: int| mw <= i < out.len() ==> null_column(wider[i], n, #[trigger] out[i])
}

/// Every paired position has a supertype.
pub open spec fn pairs_compatible<V>(l: Seq<Column<V>>, r: Seq<Column<V>>) -> bool {
    forall|i: int| 0 <= i < min_nat(l.len(), r.len()) ==> #[trigger] supertype(l[i].dtype, r[i].dtype) is Some
}

/// What combining frames `l` and `r` by `op` returns: `IncompatibleTypes`
/// exactly when a pair of columns has no supertype; otherwise the aligned
/// result, unless some pair may fail, in which case the error is one that the
/// first such pair may give.
pub open spec fn aligned_outcome<V, C: Fn(&V, DataType) -> Option<V>, F: Fn(Op, &V, &V) -> Option<V>>(
    cast: C,
    apply: F,
    op: Op,
    l: Seq<Column<V>>,
    r: Seq<Column<V>>,
    res: Result<DataFrame<V>, ArithError>,
) -> bool {
    &&& res == Err::<DataFrame<V>, ArithError>(ArithError::IncompatibleTypes) <==> !pairs_compatible(l, r)
    &&& res is Ok ==> aligned_result(cast, apply, op, l, r, res->Ok_0.columns@)
    &&& res is Err && res->Err_0 != ArithError::IncompatibleTypes
        ==> first_pair_failure(cast, apply, op, l, r, res->Err_0)
    &&& pairs_compatible(l, r) && !pairs_may_fail(cast, apply, op, l, r) ==> res is Ok
}

/// The pair `l`, `r` at `n` rows may be combined without failure into some column.
pub open spec fn pair_may_succeed<V, C: Fn(&V, DataType) -> Option<V>, F: Fn(Op, &V, &V) -> Option<V>>(
    cast: C,
    apply: F,
    op: Op,
    l: Column<V>,
    r: Column<V>,
    n: nat,
) -> bool {
    exists|c: Column<V>| #[trigger] paired_column(cast, apply, op, l, r, n, c)
}

/// Error `e` comes from the first failing pair: some pair may fail with `e`,
/// and every pair before it may succeed.
pub open spec fn first_pair_failure<V, C: Fn(&V, DataType) -> Option<V>, F: Fn(Op, &V, &V) -> Option<V>>(
    cast: C,
    apply: F,
    op: Op,
    l: Seq<Column<V>>,
    r: Seq<Column<V>>,
    e: ArithError,
) -> bool {
    let n = max_nat(height_of(l), height_of(r));
    exists|k: int|
        0 <= k < min_nat(l.len(), r.len()) && #[trigger] pair_fails_with(cast, apply, op, l[k], r[k], n, e)
            && forall|i: int| 0 <= i < k ==> #[trigger] pair_may_succeed(cast, apply, op, l[i], r[i], n)
}

/// Some cast or operator call on some pair of the two frames may fail.
pub open spec fn pairs_may_fail<V, C: Fn(&V, DataType) -> Option<V>, F: Fn(Op, &V, &V) -> Option<V>>(
    cast: C,
    apply: F,
    op: Op,
    l: Seq<Column<V>>,
    r: Seq<Column<V>>,
) -> bool {
    let n = max_nat(height_of(l), height_of(r));
    exists|i: int| 0 <= i < min_nat(l.len(), r.len()) && #[trigger] pair_may_fail(cast, apply, op, l[i], r[i], n)
}

impl<V> DataFrame<V> {
    /// Combines two frames of possibly different shape with `op`.
    /// Columns at the same position are cast to their pair's supertype, padded
    /// with nulls to the larger height and combined; columns that only the
    /// wider frame has come out entirely null, keeping their name and type.
    pub fn binary_aligned<C: Fn(&V, DataType) -> Option<V> + Sync, F: Fn(Op, &V, &V) -> Option<V> + Sync>(
        &self,
        other: &DataFrame<V>,
        op: Op,
        cast: &C,
        apply: &F,
    ) -> (res: Result<DataFrame<V>, ArithError>)
        where
            V: Send + Sync,
        requires
            cast_callable(*cast),
            apply_callable(*apply),
        ensures
            aligned_outcome(*cast, *apply, op, self.columns@, other.columns@, res),
    {
        let ghost l = self.columns@;
        let ghost r = other.columns@;
        proof {
            crate::frame::lemma_height_bounds(l);
            crate::frame::lemma_height_bounds(r);
        }
        let hl = self.height();
        let hr = other.height();
        let n: usize = if hl >= hr { hl } else { hr };
        let lw = self.columns.len();
        let rw = other.columns.len();
        let mw: usize = if lw <= rw { lw } else { rw };
        let big: usize = if lw >= rw { lw } else { rw };

        let mut i: usize = 0;
        while i < mw
            invariant
                mw == min_nat(l.len(), r.len()),
                l == self.columns@,
                r == other.columns@,
                i <= mw,
                forall|k: int| 0 <= k < i ==> #[trigger] supertype(l[k].dtype, r[k].dtype) is Some,
            decreases mw - i,
        {
            if get_supertype(self.columns[i].dtype, other.columns[i].dtype).is_none() {
                return Err(ArithError::IncompatibleTypes);
            }
            i = i + 1;
        }

        let lcols = &self.columns;
        let rcols = &other.columns;
        let job = move |k: &usize| -> (res: Result<Column<V>, ArithError>)
            requires
                (*k as int) < lcols@.len(),
                (*k as int) < rcols@.len(),
                lcols@[*k as int].values@.len() <= n,
                rcols@[*k as int].values@.len() <= n,
                kernel_callable(cast, apply),
            ensures
                pair_outcome_by(cast, apply, op, lcols@[*k as int], rcols@[*k as int], n as nat, res),
        {
            combine_pair(&lcols[*k], &rcols[*k], n, op, cast, apply)
        };
        let idx = indices(mw);
        assert forall|k: int| 0 <= k < idx@.len() implies job.requires((&idx@[k],)) by {
            assert(l[k].values@.len() <= height_of(l));
            assert(r[k].values@.len() <= height_of(r));
        }
        let results = par_map(&idx, &job);

        i = 0;
        while i < mw
            invariant
                mw == min_nat(l.len(), r.len()),
                l == self.columns@,
                r == other.columns@,
                pairs_compatible(l, r),
                idx@.len() == mw,
                forall|k: int| 0 <= k < mw ==> idx@[k] == k,
                lcols@ == l,
                rcols@ == r,
                n == max_nat(height_of(l), height_of(r)),
                forall|x: &usize, y: Result<Column<V>, ArithError>| #[trigger] job.ensures((x,), y)
                    ==> pair_outcome_by(cast, apply, op, lcols@[*x as int], rcols@[*x as int], n as nat, y),
                results@.len() == mw,
                forall|k: int| 0 <= k < mw ==> job.ensures((&idx@[k],), #[trigger] results@[k]),
                i <= mw,
                forall|k: int| 0 <= k < i ==> (#[trigger] results@[k]) is Ok,
                forall|k: int| 0 <= k < i ==> #[trigger] pair_may_succeed(*cast, *apply, op, l[k], r[k], n as nat),
            decreases mw - i,
        {
            let ghost k = i as int;
            assert(job.ensures((&idx@[k],), results@[k]));
            assert(supertype(l[k].dtype, r[k].dtype) is Some);
            if let Err(e) = &results[i] {
                assert(pair_fails_with(*cast, *apply, op, l[k], r[k], n as nat, *e));
                return Err(*e);
            }
            assert(paired_column(*cast, *apply, op, l[k], r[k], n as nat, results@[k]->Ok_0));
            i = i + 1;
        }
        let ghost res_seq = results@;
        let mut cols = unwrap_all(results);
        assert forall|k: int| 0 <= k < mw implies paired_column(*cast, *apply, op, l[k], r[k], n as nat, #[trigger] cols@[k]) by {
            assert(job.ensures((&idx@[k],), res_seq[k]));
            assert(Ok::<Column<V>, ArithError>(cols@[k]) == res_seq[k]);
        }

        let wider: &DataFrame<V> = if lw >= rw { self } else { other };
        while i < big
            invariant
                mw <= i <= big,
                big == max_nat(l.len(), r.len()),
                mw == min_nat(l.len(), r.len()),
                n == max_nat(height_of(l), height_of(r)),
                l == self.columns@,
                r == other.columns@,
                wider.columns@ == (if l.len() >= r.len() { l } else { r }),
                wider.columns@.len() == big,
                cols@.len() == i,
                forall|k: int| 0 <= k < mw ==> paired_column(*cast, *apply, op, l[k], r[k], n as nat, #[trigger] cols@[k]),
                forall|k: int| mw <= k < i ==> null_column(wider.columns@[k], n as nat, #[trigger] cols@[k]),
            decreases big - i,
        {
            let s = &wider.columns[i];
            let c: Column<V> = Column::full_null(s.name.clone(), s.dtype, n);
            cols.push(c);
            i = i + 1;
        }
        Ok(DataFrame { columns: cols })
    }
}

/// The supertype valid for every column of `df` and for `rhs`: the fold of
/// `supertype` over the columns' types, starting from the type of `rhs`.
pub fn get_supertype_all<V>(df: &DataFrame<V>, rhs: &Column<V>) -> (r: Option<DataType>)
    ensures
        r == supertype_all(rhs.dtype, dtypes_of(df.columns@)),
{
    let ghost ts = dtypes_of(df.columns@);
    let mut acc: Option<DataType> = Some(rhs.dtype);
    let mut i: usize = 0;
    while i < df.columns.len()
        invariant
            i <= df.columns@.len(),
            ts == dtypes_of(df.columns@),
            acc == supertype_all(rhs.dtype, ts.take(i as int)),
        decreases df.columns@.len() - i,
    {
        assert(ts.take(i as int + 1).drop_last() =~= ts.take(i as int));
        acc = match acc {
            Some(dt) => get_supertype(df.columns[i].dtype, dt),
            None => None,
        };
        i = i + 1;
    }
    assert(ts.take(i as int) =~= ts);
    acc
}

/// `out` is `op` applied to column cells `c` cast to `t` and the already cast
/// series cells `rc`.
pub open spec fn series_result<V, C: Fn(&V, DataType) -> Option<V>, F: Fn(Op, &V, &V) -> Option<V>>(
    cast: C,
    apply: F,
    op: Op,
    c: Seq<Option<V>>,
    rc: Seq<Option<V>>,
    t: DataType,
    out: Seq<Option<V>>,
) -> bool {
    exists|cc: Seq<Option<V>>| #[trigger] cast_values(cast, c, t, cc) && apply_values(apply, op, cc, rc, out)
}

/// `c` is column `col` combined with the cast series cells `rc` in type `t`.
pub open spec fn series_column<V, C: Fn(&V, DataType) -> Option<V>, F: Fn(Op, &V, &V) -> Option<V>>(
    cast: C,
    apply: F,
    op: Op,
    col: Column<V>,
    rc: Seq<Option<V>>,
    t: DataType,
    c: Column<V>,
) -> bool {
    &&& c.name@ == col.name@
    &&& c.dtype == t
    &&& c.values@.len() == col.values@.len()
    &&& series_result(cast, apply, op, col.values@, rc, t, c.values@)
}

/// `out` is every column of `cols` combined in type `t` with the series cells
/// `rhs`, which are cast to `t` once.
pub open spec fn series_frame_result<V, C: Fn(&V, DataType) -> Option<V>, F: Fn(Op, &V, &V) -> Option<V>>(
    cast: C,
    apply: F,
    op: Op,
    cols: Seq<Column<V>>,
    rhs: Seq<Option<V>>,
    t: DataType,
    out: Seq<Column<V>>,
) -> bool {
    &&& out.len() == cols.len()
    &&& exists|rc: Seq<Option<V>>| #[trigger] cast_values(cast, rhs, t, rc)
        && forall|i: int| 0 <= i < cols.len() ==> series_column(cast, apply, op, cols[i], rc, t, #[trigger] out[i])
}

/// What combining column `col` with the cast series cells `rc` in type `t`
/// returns: the combined column, unless the column's cast or the operator on
/// its cast cells may fail and the error says which.
pub open spec fn series_column_outcome<V, C: Fn(&V, DataType) -> Option<V>, F: Fn(Op, &V, &V) -> Option<V>>(
    cast: C,
    apply: F,
    op: Op,
    col: Column<V>,
    rc: Seq<Option<V>>,
    t: DataType,
    res: Result<Column<V>, ArithError>,
) -> bool {
    &&& res is Ok ==> series_column(cast, apply, op, col, rc, t, res->Ok_0)
    &&& res is Err ==> column_fails_with(cast, apply, op, col, rc, t, res->Err_0)
    &&& !column_fails_with(cast, apply, op, col, rc, t, ArithError::CastFailure)
        && !column_fails_with(cast, apply, op, col, rc, t, ArithError::OperatorFailure) ==> res is Ok
}

/// Combining column `col` in type `t` with the cast series cells `rc` may fail
/// with error `e`: the column's cast may fail, or the operator may fail on
/// some cast of it.
pub open spec fn column_fails_with<V, C: Fn(&V, DataType) -> Option<V>, F: Fn(Op, &V, &V) -> Option<V>>(
    cast: C,
    apply: F,
    op: Op,
    col: Column<V>,
    rc: Seq<Option<V>>,
    t: DataType,
    e: ArithError,
) -> bool {
    ||| e == ArithError::CastFailure && cast_may_fail(cast, col.values@, t)
    ||| e == ArithError::OperatorFailure && exists|cc: Seq<Option<V>>|
        #[trigger] cast_values(cast, col.values@, t, cc) && apply_may_fail(apply, op, cc, rc)
}

/// Column `col` may be combined with the cast series cells `rc` without failure.
pub open spec fn column_may_succeed<V, C: Fn(&V, DataType) -> Option<V>, F: Fn(Op, &V, &V) -> Option<V>>(
    cast: C,
    apply: F,
    op: Op,
    col: Column<V>,
    rc: Seq<Option<V>>,
    t: DataType,
) -> bool {
    exists|c: Column<V>| #[trigger] series_column(cast, apply, op, col, rc, t, c)
}

/// Error `e` comes from the first failing column: some column may fail with
/// `e`, and every column before it may succeed.
pub open spec fn first_column_failure<V, C: Fn(&V, DataType) -> Option<V>, F: Fn(Op, &V, &V) -> Option<V>>(
    cast: C,
    apply: F,
    op: Op,
    cols: Seq<Column<V>>,
    rc: Seq<Option<V>>,
    t: DataType,
    e: ArithError,
) -> bool {
    exists|k: int|
        0 <= k < cols.len() && #[trigger] column_fails_with(cast, apply, op, cols[k], rc, t, e)
            && forall|i: int| 0 <= i < k ==> #[trigger] column_may_succeed(cast, apply, op, cols[i], rc, t)
}

/// No cast of `rhs` or of a column to `t` may fail, and the operator may not
/// fail on any of their casts.
pub open spec fn series_may_not_fail<V, C: Fn(&V, DataType) -> Option<V>, F: Fn(Op, &V, &V) -> Option<V>>(
    cast: C,
    apply: F,
    op: Op,
    cols: Seq<Column<V>>,
    rhs: Seq<Option<V>>,
    t: DataType,
) -> bool {
    &&& !cast_may_fail(cast, rhs, t)
    &&& forall|rc: Seq<Option<V>>, i: int| #[trigger] cast_values(cast, rhs, t, rc) && 0 <= i < cols.len() ==> {
        &&& !column_fails_with(cast, apply, op, #[trigger] cols[i], rc, t, ArithError::CastFailure)
        &&& !column_fails_with(cast, apply, op, cols[i], rc, t, ArithError::OperatorFailure)
    }
}

/// `series_column_outcome` for a cast and an operator held by reference.
pub open spec fn series_column_outcome_by<V, C: Fn(&V, DataType) -> Option<V>, F: Fn(Op, &V, &V) -> Option<V>>(
    cast: &C,
    apply: &F,
    op: Op,
    col: Column<V>,
    rc: Seq<Option<V>>,
    t: DataType,
    res: Result<Column<V>, ArithError>,
) -> bool {
    series_column_outcome(*cast, *apply, op, col, rc, t, res)
}

/// Casts `col` to `t` and combines it by `op` with the series cells `rc`,
/// which are already of type `t`. The result keeps the column's name.
pub fn combine_with_series<V, C: Fn(&V, DataType) -> Option<V>, F: Fn(Op, &V, &V) -> Option<V>>(
    col: &Column<V>,
    rc: &Vec<Option<V>>,
    t: DataType,
    op: Op,
    cast: &C,
    apply: &F,
) -> (res: Result<Column<V>, ArithError>)
    requires
        cast_callable(*cast),
        apply_callable(*apply),
        col.values@.len() == rc@.len(),
    ensures
        series_column_outcome(*cast, *apply, op, *col, rc@, t, res),
{
    let cc = match cast_values_exec(&col.values, t, cast) {
        Some(v) => v,
        None => {
            return Err(ArithError::CastFailure);
        },
    };
    let vals = match apply_values_exec(op, &cc, rc, apply) {
        Some(v) => v,
        None => {
            return Err(ArithError::OperatorFailure);
        },
    };
    assert(cast_values(*cast, col.values@, t, cc@));
    Ok(Column { name: col.name.clone(), dtype: t, values: vals })
}

/// Every column of `cols` has as many cells as `rhs`.
pub open spec fn lengths_match<V>(cols: Seq<Column<V>>, rhs: Seq<Option<V>>) -> bool {
    forall|i: int| 0 <= i < cols.len() ==> #[trigger] cols[i].values@.len() == rhs.len()
}

/// What combining the columns `cols` with the series `rhs` by `op` returns:
/// `IncompatibleTypes` exactly when the fold of supertypes fails,
/// `LengthMismatch` exactly when it succeeds and some column differs in
/// length from `rhs`; otherwise every column combined in the one supertype,
/// unless the series' cast may fail or some column may fail, in which case
/// the error is one that the first such column may give.
pub open spec fn series_outcome<V, C: Fn(&V, DataType) -> Option<V>, F: Fn(Op, &V, &V) -> Option<V>>(
    cast: C,
    apply: F,
    op: Op,
    cols: Seq<Column<V>>,
    rhs: Column<V>,
    res: Result<DataFrame<V>, ArithError>,
) -> bool {
    let st = supertype_all(rhs.dtype, dtypes_of(cols));
    &&& res == Err::<DataFrame<V>, ArithError>(ArithError::IncompatibleTypes) <==> st is None
    &&& res == Err::<DataFrame<V>, ArithError>(ArithError::LengthMismatch)
        <==> st is Some && !lengths_match(cols, rhs.values@)
    &&& res is Ok ==> series_frame_result(cast, apply, op, cols, rhs.values@, st->0, res->Ok_0.columns@)
    &&& res is Err && st is Some && lengths_match(cols, rhs.values@) ==> {
        ||| res->Err_0 == ArithError::CastFailure && cast_may_fail(cast, rhs.values@, st->0)
        ||| exists|rc: Seq<Option<V>>| #[trigger] cast_values(cast, rhs.values@, st->0, rc)
            && first_column_failure(cast, apply, op, cols, rc, st->0, res->Err_0)
    }
    &&& st is Some && lengths_match(cols, rhs.values@) && series_may_not_fail(cast, apply, op, cols, rhs.values@, st->0)
        ==> res is Ok
}

impl<V> DataFrame<V> {
    /// Combines every column with the series `rhs` by `op`, all in the one
    /// supertype of `rhs` and of every column. Names and order are kept.
    pub fn arithmetic<C: Fn(&V, DataType) -> Option<V> + Sync, F: Fn(Op, &V, &V) -> Option<V> + Sync>(
        &self,
        rhs: &Column<V>,
        op: Op,
        cast: &C,
        apply: &F,
    ) -> (res: Result<DataFrame<V>, ArithError>)
        where
            V: Send + Sync,
        requires
            cast_callable(*cast),
            apply_callable(*apply),
        ensures
            series_outcome(*cast, *apply, op, self.columns@, *rhs, res),
    {
        let ghost cols = self.columns@;
        let st = match get_supertype_all(self, rhs) {
            Some(t) => t,
            None => {
                return Err(ArithError::IncompatibleTypes);
            },
        };
        let mut i: usize = 0;
        while i < self.columns.len()
            invariant
                cols == self.columns@,
                Some(st) == supertype_all(rhs.dtype, dtypes_of(cols)),
                i <= cols.len(),
                forall|k: int| 0 <= k < i ==> #[trigger] cols[k].values@.len() == rhs.values@.len(),
            decreases cols.len() - i,
        {
            if self.columns[i].values.len() != rhs.values.len() {
                assert(cols[i as int].values@.len() != rhs.values@.len());
                return Err(ArithError::LengthMismatch);
            }
            i = i + 1;
        }
        let rc = match cast_values_exec(&rhs.values, st, cast) {
            Some(v) => v,
            None => {
                return Err(ArithError::CastFailure);
            },
        };
        let rcv = &rc;
        let job = move |col: &Column<V>| -> (res: Result<Column<V>, ArithError>)
            requires
                col.values@.len() == rcv@.len(),
                kernel_callable(cast, apply),
            ensures
                series_column_outcome_by(cast, apply, op, *col, rcv@, st, res),
        {
            combine_with_series(col, rcv, st, op, cast, apply)
        };
        let results = par_map(&self.columns, &job);
        i = 0;
        while i < self.columns.len()
            invariant
                cols == self.columns@,
                Some(st) == supertype_all(rhs.dtype, dtypes_of(cols)),
                lengths_match(cols, rhs.values@),
                forall|x: &Column<V>, y: Result<Column<V>, ArithError>| #[trigger] job.ensures((x,), y)
                    ==> series_column_outcome_by(cast, apply, op, *x, rcv@, st, y),
                results@.len() == cols.len(),
                forall|k: int| 0 <= k < cols.len() ==> job.ensures((&cols[k],), #[trigger] results@[k]),
                cast_values(*cast, rhs.values@, st, rcv@),
                i <= cols.len(),
                forall|k: int| 0 <= k < i ==> (#[trigger] results@[k]) is Ok,
                forall|k: int| 0 <= k < i ==> #[trigger] column_may_succeed(*cast, *apply, op, cols[k], rcv@, st),
            decreases cols.len() - i,
        {
            let ghost k = i as int;
            assert(job.ensures((&cols[k],), results@[k]));
            if let Err(e) = &results[i] {
                assert(column_fails_with(*cast, *apply, op, cols[k], rcv@, st, *e));
                assert(first_column_failure(*cast, *apply, op, cols, rcv@, st, *e));
                return Err(*e);
            }
            assert(series_column(*cast, *apply, op, cols[k], rcv@, st, results@[k]->Ok_0));
            i = i + 1;
        }
        let ghost res_seq = results@;
        let out = unwrap_all(results);
        assert forall|k: int| 0 <= k < cols.len() implies series_column(*cast, *apply, op, cols[k], rc@, st, #[trigger] out@[k]) by {
            assert(job.ensures((&cols[k],), res_seq[k]));
            assert(Ok::<Column<V>, ArithError>(out@[k]) == res_seq[k]);
        }
        assert(cast_values(*cast, rhs.values@, st, rc@));
        Ok(DataFrame { columns: out })
    }
}

/// Every column of `cols` has `height_of(cols)` cells.
pub open spec fn uniform<V>(cols: Seq<Column<V>>) -> bool {
    forall|i: int| 0 <= i < cols.len() ==> #[trigger] cols[i].values@.len() == height_of(cols)
}

/// `out` is, position by position, `op` applied to the columns of `l` and
/// `r`, each pair cast to its supertype, without any padding.
pub open spec fn pairwise_result<V, C: Fn(&V, DataType) -> Option<V>, F: Fn(Op, &V, &V) -> Option<V>>(
    cast: C,
    apply: F,
    op: Op,
    l: Seq<Column<V>>,
    r: Seq<Column<V>>,
    out: Seq<Column<V>>,
) -> bool {
    &&& out.len() == l.len()
    &&& forall|i: int| 0 <= i < l.len() ==> #[trigger] pairwise_column(cast, apply, op, l[i], r[i], out[i])
}

pub open spec fn pairwise_column<V, C: Fn(&V, DataType) -> Option<V>, F: Fn(Op, &V, &V) -> Option<V>>(
    cast: C,
    apply: F,
    op: Op,
    l: Column<V>,
    r: Column<V>,
    c: Column<V>,
) -> bool {
    &&& supertype(l.dtype, r.dtype) == Some(c.dtype)
    &&& c.name@ == l.name@
    &&& exists|lc: Seq<Option<V>>, rc: Seq<Option<V>>|
        #[trigger] cast_values(cast, l.values@, c.dtype, lc) && #[trigger] cast_values(cast, r.values@, c.dtype, rc)
            && apply_values(apply, op, lc, rc, c.values@)
}

/// Two well-formed frames of equal width and equal height combine without
/// padding: the aligned combination is the plain pairwise one, each pair in
/// its own supertype.
pub proof fn lemma_same_shape_is_pairwise<V, C: Fn(&V, DataType) -> Option<V>, F: Fn(Op, &V, &V) -> Option<V>>(
    cast: C,
    apply: F,
    op: Op,
    l: Seq<Column<V>>,
    r: Seq<Column<V>>,
    res: Result<DataFrame<V>, ArithError>,
)
    requires
        uniform(l),
        uniform(r),
        l.len() == r.len(),
        height_of(l) == height_of(r),
        aligned_outcome(cast, apply, op, l, r, res),
    ensures
        res is Ok ==> pairwise_result(cast, apply, op, l, r, res->Ok_0.columns@),
{
    if res is Ok {
        let out = res->Ok_0.columns@;
        let n = height_of(l);
        assert forall|i: int| 0 <= i < l.len() implies #[trigger] pairwise_column(cast, apply, op, l[i], r[i], out[i]) by {
            assert(paired_column(cast, apply, op, l[i], r[i], n, out[i]));
            let t = out[i].dtype;
            let (lc, rc) = choose|lc: Seq<Option<V>>, rc: Seq<Option<V>>|
                #[trigger] cast_values(cast, l[i].values@, t, lc) && #[trigger] cast_values(cast, r[i].values@, t, rc)
                    && apply_values(apply, op, pad(lc, n), pad(rc, n), out[i].values@);
            assert(l[i].values@.len() == n && r[i].values@.len() == n);
            assert(pad(lc, n) == lc);
            assert(pad(rc, n) == rc);
        }
    }
}

/// Combining a frame with a series keeps the frame's shape: as many columns,
/// each with as many cells as the frame's height, each in the one supertype.
pub proof fn lemma_series_keeps_shape<V, C: Fn(&V, DataType) -> Option<V>, F: Fn(Op, &V, &V) -> Option<V>>(
    cast: C,
    apply: F,
    op: Op,
    cols: Seq<Column<V>>,
    rhs: Column<V>,
    res: Result<DataFrame<V>, ArithError>,
)
    requires
        series_outcome(cast, apply, op, cols, rhs, res),
        res is Ok,
    ensures
        ({
            let out = res->Ok_0.columns@;
            &&& out.len() == cols.len()
            &&& forall|i: int| 0 <= i < out.len() ==> (#[trigger] out[i]).values@.len() == height_of(cols)
            &&& forall|i: int| 0 <= i < out.len() ==> Some((#[trigger] out[i]).dtype) == supertype_all(rhs.dtype, dtypes_of(cols))
            &&& height_of(out) == height_of(cols)
        }),
{
    let out = res->Ok_0.columns@;
    let st = supertype_all(rhs.dtype, dtypes_of(cols))->0;
    let rc = choose|rc: Seq<Option<V>>| #[trigger] cast_values(cast, rhs.values@, st, rc)
        && forall|i: int| 0 <= i < cols.len() ==> series_column(cast, apply, op, cols[i], rc, st, #[trigger] out[i]);
    crate::frame::lemma_height_bounds(cols);
    crate::frame::lemma_height_bounds(out);
    if cols.len() > 0 {
        let w = choose|w: int| 0 <= w < cols.len() && #[trigger] cols[w].values@.len() == height_of(cols);
        assert(series_column(cast, apply, op, cols[w], rc, st, out[w]));
        assert forall|i: int| 0 <= i < out.len() implies (#[trigger] out[i]).values@.len() == height_of(cols) by {
            assert(series_column(cast, apply, op, cols[i], rc, st, out[i]));
            assert(cols[i].values@.len() == rhs.values@.len());
        }
        let v = choose|v: int| 0 <= v < out.len() && #[trigger] out[v].values@.len() == height_of(out);
    }
    assert forall|i: int| 0 <= i < out.len() implies Some((#[trigger] out[i]).dtype) == supertype_all(rhs.dtype, dtypes_of(cols)) by {
        assert(series_column(cast, apply, op, cols[i], rc, st, out[i]));
    }
}

/// Combining two frames gives a frame whose every column has the larger of
/// the two heights, and cells past a paired column's own length are null.
pub proof fn lemma_aligned_height<V, C: Fn(&V, DataType) -> Option<V>, F: Fn(Op, &V, &V) -> Option<V>>(
    cast: C,
    apply: F,
    op: Op,
    l: Seq<Column<V>>,
    r: Seq<Column<V>>,
    res: Result<DataFrame<V>, ArithError>,
)
    requires
        aligned_outcome(cast, apply, op, l, r, res),
        res is Ok,
    ensures
        ({
            let out = res->Ok_0.columns@;
            let n = max_nat(height_of(l), height_of(r));
            &&& forall|i: int| 0 <= i < out.len() ==> (#[trigger] out[i]).values@.len() == n
            &&& out.len() > 0 ==> height_of(out) == n
            &&& forall|i: int, j: int| 0 <= i < min_nat(l.len(), r.len()) && l[i].values@.len() <= j < n
                ==> (#[trigger] out[i].values@[j]) is None
            &&& forall|i: int, j: int| 0 <= i < min_nat(l.len(), r.len()) && r[i].values@.len() <= j < n
                ==> (#[trigger] out[i].values@[j]) is None
        }),
{
    let out = res->Ok_0.columns@;
    let n = max_nat(height_of(l), height_of(r));
    let mw = min_nat(l.len(), r.len());
    let wider = if l.len() >= r.len() { l } else { r };
    assert forall|i: int| 0 <= i < out.len() implies (#[trigger] out[i]).values@.len() == n by {
        if i < mw {
            assert(paired_column(cast, apply, op, l[i], r[i], n, out[i]));
        } else {
            assert(null_column(wider[i], n, out[i]));
        }
    }
    assert forall|i: int, j: int| 0 <= i < mw && l[i].values@.len() <= j < n implies (#[trigger] out[i].values@[j]) is None by {
        assert(paired_column(cast, apply, op, l[i], r[i], n, out[i]));
    }
    assert forall|i: int, j: int| 0 <= i < mw && r[i].values@.len() <= j < n implies (#[trigger] out[i].values@[j]) is None by {
        assert(paired_column(cast, apply, op, l[i], r[i], n, out[i]));
    }
    crate::frame::lemma_height_bounds(out);
}

/// When the right frame is wider, the result's columns past the left frame's
/// width are all null, with the larger height, and named and typed after the
/// right frame's columns at the same positions.
pub proof fn lemma_extra_columns_null<V, C: Fn(&V, DataType) -> Option<V>, F: Fn(Op, &V, &V) -> Option<V>>(
    cast: C,
    apply: F,
    op: Op,
    l: Seq<Column<V>>,
    r: Seq<Column<V>>,
    res: Result<DataFrame<V>, ArithError>,
)
    requires
        aligned_outcome(cast, apply, op, l, r, res),
        res is Ok,
        l.len() < r.len(),
    ensures
        ({
            let out = res->Ok_0.columns@;
            &&& out.len() == r.len()
            &&& forall|i: int| l.len() <= i < r.len() ==> {
                &&& (#[trigger] out[i]).name@ == r[i].name@
                &&& out[i].dtype == r[i].dtype
                &&& out[i].values@ == nulls::<V>(max_nat(height_of(l), height_of(r)))
            }
        }),
{
    let out = res->Ok_0.columns@;
    let n = max_nat(height_of(l), height_of(r));
    assert forall|i: int| l.len() <= i < r.len() implies {
        &&& (#[trigger] out[i]).name@ == r[i].name@
        &&& out[i].dtype == r[i].dtype
        &&& out[i].values@ == nulls::<V>(n)
    } by {
        assert(null_column(r[i], n, out[i]));
    }
}

impl<V> DataFrame<V> {
    /// Adds the frame `rhs`, aligned as in `binary_aligned`.
    pub fn add<C: Fn(&V, DataType) -> Option<V> + Sync, F: Fn(Op, &V, &V) -> Option<V> + Sync>(
        &self,
        rhs: &DataFrame<V>,
        cast: &C,
        apply: &F,
    ) -> (res: Result<DataFrame<V>, ArithError>)
        where
            V: Send + Sync,
        requires
            cast_callable(*cast),
            apply_callable(*apply),
        ensures
            aligned_outcome(*cast, *apply, Op::Add, self.columns@, rhs.columns@, res),
    {
        self.binary_aligned(rhs, Op::Add, cast, apply)
    }

    /// Adds the series `rhs` column by column, as in `arithmetic`.
    pub fn add_series<C: Fn(&V, DataType) -> Option<V> + Sync, F: Fn(Op, &V, &V) -> Option<V> + Sync>(
        &self,
        rhs: &Column<V>,
        cast: &C,
        apply: &F,
    ) -> (res: Result<DataFrame<V>, ArithError>)
        where
            V: Send + Sync,
        requires
            cast_callable(*cast),
            apply_callable(*apply),
        ensures
            series_outcome(*cast, *apply, Op::Add, self.columns@, *rhs, res),
    {
        self.arithmetic(rhs, Op::Add, cast, apply)
    }

    /// Subtracts the frame `rhs`, aligned as in `binary_aligned`.
    pub fn sub<C: Fn(&V, DataType) -> Option<V> + Sync, F: Fn(Op, &V, &V) -> Option<V> + Sync>(
        &self,
        rhs: &DataFrame<V>,
        cast: &C,
        apply: &F,
    ) -> (res: Result<DataFrame<V>, ArithError>)
        where
            V: Send + Sync,
        requires
            cast_callable(*cast),
            apply_callable(*apply),
        ensures
            aligned_outcome(*cast, *apply, Op::Sub, self.columns@, rhs.columns@, res),
    {
        self.binary_aligned(rhs, Op::Sub, cast, apply)
    }

    /// Subtracts the series `rhs` column by column, as in `arithmetic`.
    pub fn sub_series<C: Fn(&V, DataType) -> Option<V> + Sync, F: Fn(Op, &V, &V) -> Option<V> + Sync>(
        &self,
        rhs: &Column<V>,
        cast: &C,
        apply: &F,
    ) -> (res: Result<DataFrame<V>, ArithError>)
        where
            V: Send + Sync,
        requires
            cast_callable(*cast),
            apply_callable(*apply),
        ensures
            series_outcome(*cast, *apply, Op::Sub, self.columns@, *rhs, res),
    {
        self.arithmetic(rhs, Op::Sub, cast, apply)
    }

    /// Multiplies by the frame `rhs`, aligned as in `binary_aligned`.
    pub fn mul<C: Fn(&V, DataType) -> Option<V> + Sync, F: Fn(Op, &V, &V) -> Option<V> + Sync>(
        &self,
        rhs: &DataFrame<V>,
        cast: &C,
        apply: &F,
    ) -> (res: Result<DataFrame<V>, ArithError>)
        where
            V: Send + Sync,
        requires
            cast_callable(*cast),
            apply_callable(*apply),
        ensures
            aligned_outcome(*cast, *apply, Op::Mul, self.columns@, rhs.columns@, res),
    {
        self.binary_aligned(rhs, Op::Mul, cast, apply)
    }

    /// Multiplies by the series `rhs` column by column, as in `arithmetic`.
    pub fn mul_series<C: Fn(&V, DataType) -> Option<V> + Sync, F: Fn(Op, &V, &V) -> Option<V> + Sync>(
        &self,
        rhs: &Column<V>,
        cast: &C,
        apply: &F,
    ) -> (res: Result<DataFrame<V>, ArithError>)
        where
            V: Send + Sync,
        requires
            cast_callable(*cast),
            apply_callable(*apply),
        ensures
            series_outcome(*cast, *apply, Op::Mul, self.columns@, *rhs, res),
    {
        self.arithmetic(rhs, Op::Mul, cast, apply)
    }

    /// Divides by the frame `rhs`, aligned as in `binary_aligned`.
    pub fn div<C: Fn(&V, DataType) -> Option<V> + Sync, F: Fn(Op, &V, &V) -> Option<V> + Sync>(
        &self,
        rhs: &DataFrame<V>,
        cast: &C,
        apply: &F,
    ) -> (res: Result<DataFrame<V>, ArithError>)
        where
            V: Send + Sync,
        requires
            cast_callable(*cast),
            apply_callable(*apply),
        ensures
            aligned_outcome(*cast, *apply, Op::Div, self.columns@, rhs.columns@, res),
    {
        self.binary_aligned(rhs, Op::Div, cast, apply)
    }

    /// Divides by the series `rhs` column by column, as in `arithmetic`.
    pub fn div_series<C: Fn(&V, DataType) -> Option<V> + Sync, F: Fn(Op, &V, &V) -> Option<V> + Sync>(
        &self,
        rhs: &Column<V>,
        cast: &C,
        apply: &F,
    ) -> (res: Result<DataFrame<V>, ArithError>)
        where
            V: Send + Sync,
        requires
            cast_callable(*cast),
            apply_callable(*apply),
        ensures
            series_outcome(*cast, *apply, Op::Div, self.columns@, *rhs, res),
    {
        self.arithmetic(rhs, Op::Div, cast, apply)
    }

    /// Takes the remainder by the frame `rhs`, aligned as in `binary_aligned`.
    pub fn rem<C: Fn(&V, DataType) -> Option<V> + Sync, F: Fn(Op, &V, &V) -> Option<V> + Sync>(
        &self,
        rhs: &DataFrame<V>,
        cast: &C,
        apply: &F,
    ) -> (res: Result<DataFrame<V>, ArithError>)
        where
            V: Send + Sync,
        requires
            cast_callable(*cast),
            apply_callable(*apply),
        ensures
            aligned_outcome(*cast, *apply, Op::Rem, self.columns@, rhs.columns@, res),
    {
        self.binary_aligned(rhs, Op::Rem, cast, apply)
    }

    /// Takes the remainder by the series `rhs` column by column, as in `arithmetic`.
    pub fn rem_series<C: Fn(&V, DataType) -> Option<V> + Sync, F: Fn(Op, &V, &V) -> Option<V> + Sync>(
        &self,
        rhs: &Column<V>,
        cast: &C,
        apply: &F,
    ) -> (res: Result<DataFrame<V>, ArithError>)
        where
            V: Send + Sync,
        requires
            cast_callable(*cast),
            apply_callable(*apply),
        ensures
            series_outcome(*cast, *apply, Op::Rem, self.columns@, *rhs, res),
    {
        self.arithmetic(rhs, Op::Rem, cast, apply)
    }
}

} // verus!
