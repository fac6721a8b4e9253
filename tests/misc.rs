use frame_arith::aggregate::{AggregateOpSpec, AggregateTransformSpec};
use frame_arith::funcs;

#[test]
fn it_works() {
    assert_eq!(funcs::add(2, 2), 4);
}

fn spec(ops: Option<Vec<AggregateOpSpec>>, cross: Option<bool>, drop: Option<bool>) -> AggregateTransformSpec {
    AggregateTransformSpec {
        groupby: vec!["g".to_string()],
        fields: None,
        ops,
        as_: None,
        cross,
        drop,
        key: None,
    }
}

#[test]
fn aggregate_op_names() {
    assert_eq!(AggregateOpSpec::Count.name(), "count");
    assert_eq!(AggregateOpSpec::Variancep.name(), "variancep");
    assert_eq!(AggregateOpSpec::Q1.name(), "q1");
    assert_eq!(AggregateOpSpec::Argmax.name(), "argmax");
}

#[test]
fn aggregate_supported() {
    assert!(spec(None, None, None).supported());
    assert!(spec(Some(vec![AggregateOpSpec::Sum, AggregateOpSpec::Stdevp]), Some(false), Some(true)).supported());
    assert!(!spec(Some(vec![AggregateOpSpec::Sum, AggregateOpSpec::Median]), None, None).supported());
    assert!(!spec(None, Some(true), None).supported());
    assert!(!spec(None, None, Some(false)).supported());
    assert!(spec(Some(vec![]), None, None).supported());
}
