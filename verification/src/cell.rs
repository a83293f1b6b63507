//! Cells that are read and written in one step: the state of a reward and
//! the message that shows a giveaway are kept in such cells.

use vstd::prelude::*;
use crossbeam::atomic::AtomicCell;
use crate::models::ObjectState;

verus! {

/// `crossbeam::atomic::AtomicCell`, of which nothing is known but what the
/// functions below say.
#[verifier::external_type_specification]
#[verifier::external_body]
#[verifier::reject_recursive_types(T)]
pub struct ExAtomicCell<T>(AtomicCell<T>);

/// The state that the cell holds.
pub uninterp spec fn state_in(cell: AtomicCell<ObjectState>) -> ObjectState;

/// The message that the cell holds, if it holds one.
pub uninterp spec fn message_in(cell: AtomicCell<Option<u64>>) -> Option<u64>;

/// `AtomicCell::new`: a cell that holds the state.
#[verifier::external_body]
pub(crate) fn state_cell(state: ObjectState) -> (cell: AtomicCell<ObjectState>)
    ensures
        state_in(cell) == state,
{
    AtomicCell::new(state)
}

/// `AtomicCell::load`: the state that the cell holds.
#[verifier::external_body]
pub(crate) fn load_state(cell: &AtomicCell<ObjectState>) -> (state: ObjectState)
    ensures
        state == state_in(*cell),
{
    cell.load()
}

/// `AtomicCell::store`: the cell holds the state from now on.
#[verifier::external_body]
pub(crate) fn store_state(cell: &mut AtomicCell<ObjectState>, state: ObjectState)
    ensures
        state_in(*final(cell)) == state,
{
    cell.store(state);
}

/// `AtomicCell::new`: a cell that holds the message, or none.
#[verifier::external_body]
pub(crate) fn message_cell(message_id: Option<u64>) -> (cell: AtomicCell<Option<u64>>)
    ensures
        message_in(cell) == message_id,
{
    AtomicCell::new(message_id)
}

/// `AtomicCell::load`: the message that the cell holds, or none.
#[verifier::external_body]
pub(crate) fn load_message(cell: &AtomicCell<Option<u64>>) -> (message_id: Option<u64>)
    ensures
        message_id == message_in(*cell),
{
    cell.load()
}

/// `AtomicCell::store`: the cell holds the message, or none, from now on.
#[verifier::external_body]
pub(crate) fn store_message(cell: &mut AtomicCell<Option<u64>>, message_id: Option<u64>)
    ensures
        message_in(*final(cell)) == message_id,
{
    cell.store(message_id);
}

} // verus!
