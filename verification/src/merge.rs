//! The temporal-spatial merge decision.
//!
//! The protocol re-sends the position at a fixed cadence even while the
//! device is stationary.  To keep one persisted row per stay, each new
//! reading is weighed against its two stored neighbours — the latest earlier
//! row and the earliest later row for the same device, each carrying the
//! store's own position-equality verdict — and exactly one of four actions
//! is chosen.

use vstd::prelude::*;

verus! {

/// A neighbouring stored row, as the store reports it: its row id and its
/// position-equality verdict against the new reading (a nullable integer,
/// as SQL returns it).
#[derive(Clone, Copy, Debug, PartialEq, Eq, Structural)]
pub struct NeighborRow {
    pub id: i64,
    pub same_location: Option<i32>,
}

/// The store operation a new reading calls for.
#[derive(Clone, Copy, Debug, PartialEq, Eq, Structural)]
pub enum MergeAction {
    /// Delete the earlier neighbour; keep the later row, drop the reading.
    DeleteBefore { id: i64 },
    /// Move the earlier neighbour's timestamp and battery to the reading's.
    UpdateBefore { id: i64 },
    /// Do nothing: a later same-position row already covers the reading.
    Skip,
    /// Insert the reading as a new row.
    Insert,
}

/// What [`boolean`] returns: a nullable SQL integer read as a flag — absent
/// counts as false, any non-zero value as true.
pub open spec fn spec_boolean(v: Option<i32>) -> bool {
    match v {
        Some(x) => x != 0,
        None => false,
    }
}

/// Reads a nullable SQL integer as a flag, exactly as [`spec_boolean`]
/// states.
pub fn boolean(v: Option<i32>) -> (r: bool)
    ensures
        r == spec_boolean(v),
{
    match v {
        Some(x) => x != 0,
        None => false,
    }
}

/// The neighbour exists and the store found its position equal to the new
/// reading's.
pub open spec fn same_position(n: Option<NeighborRow>) -> bool {
    n matches Some(row) && spec_boolean(row.same_location)
}

/// The decision table, evaluated top-down, first match winning:
/// both neighbours same-position → delete the earlier one and drop the
/// reading; earlier neighbour same-position → update it in place; later
/// neighbour same-position → drop the reading; otherwise → insert.
pub open spec fn spec_decide(before: Option<NeighborRow>, after: Option<NeighborRow>) -> MergeAction {
    if same_position(before) && same_position(after) {
        MergeAction::DeleteBefore { id: before->Some_0.id }
    } else if same_position(before) {
        MergeAction::UpdateBefore { id: before->Some_0.id }
    } else if same_position(after) {
        MergeAction::Skip
    } else {
        MergeAction::Insert
    }
}

/// Picks the store operation for a new reading, exactly as [`spec_decide`]
/// states.
pub fn decide(before: Option<NeighborRow>, after: Option<NeighborRow>) -> (r: MergeAction)
    ensures
        r == spec_decide(before, after),
{
    match (before, after) {
        (Some(b), Some(a)) => {
            if boolean(b.same_location) && boolean(a.same_location) {
                MergeAction::DeleteBefore { id: b.id }
            } else if boolean(b.same_location) {
                MergeAction::UpdateBefore { id: b.id }
            } else if boolean(a.same_location) {
                MergeAction::Skip
            } else {
                MergeAction::Insert
            }
        },
        (Some(b), None) => {
            if boolean(b.same_location) {
                MergeAction::UpdateBefore { id: b.id }
            } else {
                MergeAction::Insert
            }
        },
        (None, Some(a)) => {
            if boolean(a.same_location) {
                MergeAction::Skip
            } else {
                MergeAction::Insert
            }
        },
        (None, None) => MergeAction::Insert,
    }
}

} // verus!
