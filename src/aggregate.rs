use vstd::prelude::*;

verus! {

/// An aggregation operation of an aggregate transform.
#[derive(Clone, Copy, Debug, PartialEq, Eq, Structural, Hash)]
pub enum AggregateOpSpec {
    Count,
    Valid,
    Missing,
    Distinct,
    Sum,
    Product,
    Mean,
    Average,
    Variance,
    Variancep,
    Stdev,
    Stdevp,
    Stderr,
    Median,
    Q1,
    Q3,
    Ci0,
    Ci1,
    Min,
    Max,
    Argmin,
    Argmax,
    Values,
}

/// The operation's name: its variant name in lower case.
pub open spec fn op_name(op: AggregateOpSpec) -> Seq<char> {
    match op {
        AggregateOpSpec::Count => "count"@,
        AggregateOpSpec::Valid => "valid"@,
        AggregateOpSpec::Missing => "missing"@,
        AggregateOpSpec::Distinct => "distinct"@,
        AggregateOpSpec::Sum => "sum"@,
        AggregateOpSpec::Product => "product"@,
        AggregateOpSpec::Mean => "mean"@,
        AggregateOpSpec::Average => "average"@,
        AggregateOpSpec::Variance => "variance"@,
        AggregateOpSpec::Variancep => "variancep"@,
        AggregateOpSpec::Stdev => "stdev"@,
        AggregateOpSpec::Stdevp => "stdevp"@,
        AggregateOpSpec::Stderr => "stderr"@,
        AggregateOpSpec::Median => "median"@,
        AggregateOpSpec::Q1 => "q1"@,
        AggregateOpSpec::Q3 => "q3"@,
        AggregateOpSpec::Ci0 => "ci0"@,
        AggregateOpSpec::Ci1 => "ci1"@,
        AggregateOpSpec::Min => "min"@,
        AggregateOpSpec::Max => "max"@,
        AggregateOpSpec::Argmin => "argmin"@,
        AggregateOpSpec::Argmax => "argmax"@,
        AggregateOpSpec::Values => "values"@,
    }
}

/// Operations that the aggregate transform evaluates.
pub open spec fn op_supported(op: AggregateOpSpec) -> bool {
    match op {
        AggregateOpSpec::Count | AggregateOpSpec::Valid | AggregateOpSpec::Missing | AggregateOpSpec::Distinct
        | AggregateOpSpec::Sum | AggregateOpSpec::Mean | AggregateOpSpec::Average | AggregateOpSpec::Min
        | AggregateOpSpec::Max | AggregateOpSpec::Variance | AggregateOpSpec::Variancep | AggregateOpSpec::Stdev
        | AggregateOpSpec::Stdevp => true,
        _ => false,
    }
}

impl AggregateOpSpec {
    pub fn name(&self) -> (r: String)
        ensures
            r@ == op_name(*self),
    {
        let s: &str = match self {
            AggregateOpSpec::Count => "count",
            AggregateOpSpec::Valid => "valid",
            AggregateOpSpec::Missing => "missing",
            AggregateOpSpec::Distinct => "distinct",
            AggregateOpSpec::Sum => "sum",
            AggregateOpSpec::Product => "product",
            AggregateOpSpec::Mean => "mean",
            AggregateOpSpec::Average => "average",
            AggregateOpSpec::Variance => "variance",
            AggregateOpSpec::Variancep => "variancep",
            AggregateOpSpec::Stdev => "stdev",
            AggregateOpSpec::Stdevp => "stdevp",
            AggregateOpSpec::Stderr => "stderr",
            AggregateOpSpec::Median => "median",
            AggregateOpSpec::Q1 => "q1",
            AggregateOpSpec::Q3 => "q3",
            AggregateOpSpec::Ci0 => "ci0",
            AggregateOpSpec::Ci1 => "ci1",
            AggregateOpSpec::Min => "min",
            AggregateOpSpec::Max => "max",
            AggregateOpSpec::Argmin => "argmin",
            AggregateOpSpec::Argmax => "argmax",
            AggregateOpSpec::Values => "values",
        };
        String::from_str(s)
    }

    pub fn is_supported(&self) -> (r: bool)
        ensures
            r == op_supported(*self),
    {
        matches!(
            self,
            AggregateOpSpec::Count | AggregateOpSpec::Valid | AggregateOpSpec::Missing | AggregateOpSpec::Distinct
            | AggregateOpSpec::Sum | AggregateOpSpec::Mean | AggregateOpSpec::Average | AggregateOpSpec::Min
            | AggregateOpSpec::Max | AggregateOpSpec::Variance | AggregateOpSpec::Variancep
            | AggregateOpSpec::Stdev | AggregateOpSpec::Stdevp
        )
    }
}

/// An aggregate transform: group by fields, then aggregate fields with
/// operations. Fields are given by name.
pub struct AggregateTransformSpec {
    pub groupby: Vec<String>,
    pub fields: Option<Vec<Option<String>>>,
    pub ops: Option<Vec<AggregateOpSpec>>,
    pub as_: Option<Vec<Option<String>>>,
    pub cross: Option<bool>,
    pub drop: Option<bool>,
    pub key: Option<String>,
}

/// The transform can be evaluated: every operation is supported (no list
/// means a single count), there is no cross aggregation and empty groups are
/// dropped.
pub open spec fn transform_supported(t: AggregateTransformSpec) -> bool {
    &&& match t.ops {
        Some(ops) => forall|i: int| 0 <= i < ops@.len() ==> op_supported(#[trigger] ops@[i]),
        None => op_supported(AggregateOpSpec::Count),
    }
    &&& t.cross != Some(true)
    &&& t.drop != Some(false)
}

impl AggregateTransformSpec {
    pub fn supported(&self) -> (r: bool)
        ensures
            r == transform_supported(*self),
    {
        match &self.ops {
            Some(ops) => {
                let mut i: usize = 0;
                while i < ops.len()
                    invariant
                        self.ops == Some(*ops),
                        i <= ops@.len(),
                        forall|k: int| 0 <= k < i ==> op_supported(#[trigger] ops@[k]),
                    decreases ops@.len() - i,
                {
                    if !ops[i].is_supported() {
                        assert(!op_supported(ops@[i as int]));
                        assert(self.ops->0@[i as int] == ops@[i as int]);
                        return false;
                    }
                    i = i + 1;
                }
            },
            None => {},
        }
        if let Some(true) = self.cross {
            return false;
        }
        if let Some(false) = self.drop {
            return false;
        }
        true
    }
}

} // verus!
