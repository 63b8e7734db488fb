use daneel::config::SpreadingAggregation;

#[test]
fn spreading_aggregation_default_is_max() {
    let agg = SpreadingAggregation::default();
    assert_eq!(agg, SpreadingAggregation::Max);
}
