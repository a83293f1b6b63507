//! The list in which the manager keeps its giveaways: a concurrent vector
//! that grows and shrinks at its end.

use vstd::prelude::*;
use orx_concurrent_vec::ConcurrentVec;
use crate::giveaway::{Giveaway, GiveawayView};

verus! {

/// An `orx_concurrent_vec::ConcurrentVec` of giveaways, of which nothing
/// is known but what the functions below say. The vector is kept behind
/// this struct because its type cannot be declared on its own: a field of
/// that type asks for its storage type `SplitVec` to be declared as well,
/// and `SplitVec` is bounded by the trait `Growth`, which
/// `orx_concurrent_vec` does not hand on.
#[verifier::external_body]
#[derive(Debug)]
pub struct GiveawayList {
    inner: ConcurrentVec<Giveaway>,
}

/// The giveaways that the list holds, in order.
pub uninterp spec fn listed(list: GiveawayList) -> Seq<GiveawayView>;

/// How many giveaways the list can hold at most.
pub uninterp spec fn room(list: GiveawayList) -> nat;

/// `ConcurrentVec::new`: a list that holds nothing and has room for
/// something.
#[verifier::external_body]
pub(crate) fn new_list() -> (fresh: GiveawayList)
    ensures
        listed(fresh).len() == 0,
        room(fresh) > 0,
{
    GiveawayList { inner: ConcurrentVec::new() }
}

/// `ConcurrentVec::len`: how many giveaways the list holds.
#[verifier::external_body]
pub(crate) fn list_len(list: &GiveawayList) -> (len: usize)
    ensures
        len == listed(*list).len(),
{
    list.inner.len()
}

/// `ConcurrentVec::maximum_capacity`: how many giveaways the list can hold
/// at most, which is never less than it holds.
#[verifier::external_body]
pub(crate) fn list_room(list: &GiveawayList) -> (limit: usize)
    ensures
        limit == room(*list),
        listed(*list).len() <= limit,
{
    list.inner.maximum_capacity()
}

/// `ConcurrentVec::push`: the giveaway is put behind the others, which
/// stay as they are. The call panics on a list that is full.
#[verifier::external_body]
pub(crate) fn list_push(list: &mut GiveawayList, giveaway: Giveaway)
    requires
        listed(*old(list)).len() < room(*old(list)),
    ensures
        listed(*final(list)) == listed(*old(list)).push(giveaway@),
        room(*final(list)) == room(*old(list)),
{
    list.inner.push(giveaway);
}

/// `ConcurrentVec::pop`: the last giveaway leaves the list and is handed
/// out; an empty list stays empty and hands out nothing.
#[verifier::external_body]
pub(crate) fn list_pop(list: &mut GiveawayList) -> (last: Option<Giveaway>)
    ensures
        last is Some <==> listed(*old(list)).len() > 0,
        last is Some ==> last->Some_0@ == listed(*old(list)).last(),
        last is Some ==> listed(*final(list)) == listed(*old(list)).drop_last(),
        last is None ==> listed(*final(list)) == listed(*old(list)),
        room(*final(list)) == room(*old(list)),
{
    list.inner.pop()
}

/// `ConcurrentVec::index` and `ConcurrentElement::replace`: the giveaway
/// takes the place of the one at the position, which is handed out; the
/// others stay as they are. The call panics on a position behind the end.
#[verifier::external_body]
pub(crate) fn list_replace(
    list: &mut GiveawayList,
    position: usize,
    giveaway: Giveaway,
) -> (former: Giveaway)
    requires
        position < listed(*old(list)).len(),
    ensures
        former@ == listed(*old(list))[position as int],
        listed(*final(list)) == listed(*old(list)).update(position as int, giveaway@),
        room(*final(list)) == room(*old(list)),
{
    list.inner[position].replace(giveaway)
}

/// `ConcurrentVec::get_cloned`: a copy of the giveaway at the position, or
/// `None` for a position behind the end.
#[verifier::external_body]
pub(crate) fn list_copy(list: &GiveawayList, position: usize) -> (found: Option<Giveaway>)
    ensures
        found is Some <==> position < listed(*list).len(),
        found is Some ==> found->Some_0@ == listed(*list)[position as int],
{
    list.inner.get_cloned(position)
}

} // verus!
