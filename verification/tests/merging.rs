//! The merge decision table and the flag reader it builds on.

use hq_tracker::merge::{boolean, decide, MergeAction, NeighborRow};

fn same(id: i64) -> Option<NeighborRow> {
    Some(NeighborRow { id, same_location: Some(1) })
}

fn different(id: i64) -> Option<NeighborRow> {
    Some(NeighborRow { id, same_location: Some(0) })
}

#[test]
fn boolean_reads_nullable_sql_integers() {
    assert!(!boolean(None));
    assert!(!boolean(Some(0)));
    assert!(boolean(Some(1)));
    assert!(boolean(Some(-7)));
}

#[test]
fn both_neighbours_same_position_deletes_the_earlier() {
    assert_eq!(decide(same(4), same(9)), MergeAction::DeleteBefore { id: 4 });
}

#[test]
fn earlier_same_position_updates_it() {
    assert_eq!(decide(same(4), None), MergeAction::UpdateBefore { id: 4 });
    assert_eq!(decide(same(4), different(9)), MergeAction::UpdateBefore { id: 4 });
}

#[test]
fn later_same_position_skips_the_reading() {
    assert_eq!(decide(None, same(9)), MergeAction::Skip);
    assert_eq!(decide(different(4), same(9)), MergeAction::Skip);
}

#[test]
fn no_same_position_neighbour_inserts() {
    assert_eq!(decide(None, None), MergeAction::Insert);
    assert_eq!(decide(different(4), different(9)), MergeAction::Insert);
    assert_eq!(decide(different(4), None), MergeAction::Insert);
    assert_eq!(decide(None, different(9)), MergeAction::Insert);
}

#[test]
fn null_equality_verdict_counts_as_different() {
    let unknown = Some(NeighborRow { id: 4, same_location: None });
    assert_eq!(decide(unknown, None), MergeAction::Insert);
}
