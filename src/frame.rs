use vstd::prelude::*;
use crate::dtype::DataType;

verus! {

/// A named, typed sequence of cells; `None` is the null marker.
pub struct Column<V> {
    pub name: String,
    pub dtype: DataType,
    pub values: Vec<Option<V>>,
}

/// An ordered sequence of columns. Columns may differ in length.
pub struct DataFrame<V> {
    pub columns: Vec<Column<V>>,
}

/// Largest column length among `cols`, or 0.
pub open spec fn height_of<V>(cols: Seq<Column<V>>) -> nat
    decreases cols.len(),
{
    if cols.len() == 0 {
        0
    } else {
        let h = height_of(cols.drop_last());
        if cols.last().values@.len() > h { cols.last().values@.len() } else { h }
    }
}

pub open spec fn dtypes_of<V>(cols: Seq<Column<V>>) -> Seq<DataType> {
    cols.map_values(|c: Column<V>| c.dtype)
}

/// A sequence of `n` nulls.
pub open spec fn nulls<V>(n: nat) -> Seq<Option<V>> {
    Seq::new(n, |j: int| None::<V>)
}

/// `s` extended with nulls up to length `n`.
pub open spec fn pad<V>(s: Seq<Option<V>>, n: nat) -> Seq<Option<V>> {
    if s.len() >= n { s } else { s + nulls::<V>((n - s.len()) as nat) }
}

pub proof fn lemma_height_bounds<V>(cols: Seq<Column<V>>)
    ensures
        forall|i: int| 0 <= i < cols.len() ==> #[trigger] cols[i].values@.len() <= height_of(cols),
        cols.len() > 0 ==> exists|i: int| 0 <= i < cols.len() && #[trigger] cols[i].values@.len() == height_of(cols),
    decreases cols.len(),
{
    if cols.len() > 0 {
        lemma_height_bounds(cols.drop_last());
        let h = height_of(cols.drop_last());
        assert forall|i: int| 0 <= i < cols.len() implies #[trigger] cols[i].values@.len() <= height_of(cols) by {
            if i < cols.len() - 1 {
                assert(cols[i] == cols.drop_last()[i]);
            }
        }
        if cols.len() > 1 && cols.last().values@.len() <= h {
            let k = choose|k: int| 0 <= k < cols.drop_last().len() && #[trigger] cols.drop_last()[k].values@.len() == h;
            assert(cols[k] == cols.drop_last()[k]);
        } else {
            assert(cols[cols.len() - 1].values@.len() == height_of(cols));
        }
    }
}

impl<V> Column<V> {
    pub fn new(name: String, dtype: DataType, values: Vec<Option<V>>) -> (r: Self)
        ensures
            r.name@ == name@,
            r.dtype == dtype,
            r.values@ == values@,
    {
        Column { name, dtype, values }
    }

    /// Number of cells, nulls included.
    pub fn len(&self) -> (r: usize)
        ensures
            r == self.values@.len(),
    {
        self.values.len()
    }

    pub fn dtype(&self) -> (r: DataType)
        ensures
            r == self.dtype,
    {
        self.dtype
    }

    /// A column of `n` nulls with the given name and type.
    pub fn full_null(name: String, dtype: DataType, n: usize) -> (r: Self)
        ensures
            r.name@ == name@,
            r.dtype == dtype,
            r.values@ == nulls::<V>(n as nat),
    {
        let mut values: Vec<Option<V>> = Vec::new();
        let mut j: usize = 0;
        while j < n
            invariant
                j <= n,
                values@ == nulls::<V>(j as nat),
            decreases n - j,
        {
            values.push(None);
            j = j + 1;
            assert(values@ =~= nulls::<V>(j as nat));
        }
        Column { name, dtype, values }
    }
}

impl<V> DataFrame<V> {
    /// A frame over the given columns, in their order; lengths are not checked.
    pub fn new(columns: Vec<Column<V>>) -> (r: Self)
        ensures
            r.columns@ == columns@,
    {
        DataFrame { columns }
    }

    /// Number of columns.
    pub fn width(&self) -> (r: usize)
        ensures
            r == self.columns@.len(),
    {
        self.columns.len()
    }

    /// Largest column length, or 0 for a frame without columns.
    pub fn height(&self) -> (r: usize)
        ensures
            r == height_of(self.columns@),
    {
        let mut h: usize = 0;
        let mut i: usize = 0;
        while i < self.columns.len()
            invariant
                i <= self.columns@.len(),
                h == height_of(self.columns@.take(i as int)),
            decreases self.columns@.len() - i,
        {
            assert(self.columns@.take(i as int + 1).drop_last() =~= self.columns@.take(i as int));
            let n = self.columns[i].values.len();
            if n > h {
                h = n;
            }
            i = i + 1;
        }
        assert(self.columns@.take(i as int) =~= self.columns@);
        h
    }

    pub fn get_columns(&self) -> (r: &Vec<Column<V>>)
        ensures
            r@ == self.columns@,
    {
        &self.columns
    }
}

/// Access to the frame behind a value.
pub trait IntoDf<V> {
    fn to_df(&self) -> &DataFrame<V>;
}

impl<V> IntoDf<V> for DataFrame<V> {
    fn to_df(&self) -> &DataFrame<V> {
        self
    }
}

/// Frame-level operations, available on everything that gives access to a frame.
pub trait DataFrameOps<V>: IntoDf<V> {}

impl<V, T: IntoDf<V>> DataFrameOps<V> for T {}

} // verus!
