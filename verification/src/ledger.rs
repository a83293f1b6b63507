//! The table of ledgers of a giveaway: one ledger for each participant who
//! ever asked for a reward, kept in a concurrent map.

use vstd::prelude::*;
use dashmap::DashMap;
use crate::models::{ParticipantStats, StatsView};

verus! {

/// `dashmap::DashMap`, a concurrent map, of which nothing is known but what
/// the functions below say.
#[verifier::external_type_specification]
#[verifier::external_body]
#[verifier::reject_recursive_types(K)]
#[verifier::reject_recursive_types(V)]
#[verifier::reject_recursive_types(S)]
pub struct ExDashMap<K, V, S>(DashMap<K, V, S>);

/// The ledgers that the table holds, by the identifier of their participant.
pub uninterp spec fn ledgers(table: DashMap<u64, ParticipantStats>) -> Map<u64, StatsView>;

/// The ledgers of a giveaway in which nobody asked for a reward yet.
pub open spec fn no_ledgers() -> Map<u64, StatsView> {
    Map::empty()
}

/// `DashMap::new`: a table that holds nothing.
#[verifier::external_body]
pub(crate) fn new_table() -> (fresh: DashMap<u64, ParticipantStats>)
    ensures
        ledgers(fresh) == no_ledgers(),
{
    DashMap::new()
}

/// `DashMap::get`: a copy of the ledger stored under the identifier, or
/// `None` where the table holds none for it.
#[verifier::external_body]
pub(crate) fn ledger_of(table: &DashMap<u64, ParticipantStats>, user_id: u64) -> (found: Option<
    ParticipantStats,
>)
    ensures
        found is Some <==> ledgers(*table).contains_key(user_id),
        found is Some ==> found->Some_0@ == ledgers(*table)[user_id],
{
    table.get(&user_id).map(|entry| entry.value().clone())
}

/// `DashMap::insert`: the ledger is stored under the identifier, in place of
/// the one that was there; the other entries stay.
#[verifier::external_body]
pub(crate) fn put_ledger(
    table: &mut DashMap<u64, ParticipantStats>,
    user_id: u64,
    stats: ParticipantStats,
)
    ensures
        ledgers(*final(table)) == ledgers(*old(table)).insert(user_id, stats@),
{
    table.insert(user_id, stats);
}

/// `DashMap::iter`: the identifiers under which the table holds a ledger,
/// each once, in no particular order.
#[verifier::external_body]
pub(crate) fn users_of(table: &DashMap<u64, ParticipantStats>) -> (users: Vec<u64>)
    ensures
        users@.no_duplicates(),
        users@.to_set() == ledgers(*table).dom(),
{
    table.iter().map(|entry| *entry.key()).collect()
}

/// A second table with copies of the same ledgers.
pub fn copy_table(table: &DashMap<u64, ParticipantStats>) -> (copy: DashMap<u64, ParticipantStats>)
    ensures
        ledgers(copy) == ledgers(*table),
{
    let users = users_of(table);
    let mut copy = new_table();
    let mut i: usize = 0;
    while i < users.len()
        invariant
            i <= users.len(),
            users@.to_set() == ledgers(*table).dom(),
            forall|user_id: u64|
                ledgers(copy).contains_key(user_id) <==> users@.subrange(0, i as int).contains(
                    user_id,
                ),
            forall|user_id: u64|
                ledgers(copy).contains_key(user_id) ==> ledgers(copy)[user_id] == ledgers(
                    *table,
                )[user_id],
        decreases users.len() - i,
    {
        let user_id = users[i];
        assert(users@.contains(user_id));
        assert(users@.to_set().contains(user_id));
        let ghost before = ledgers(copy);
        match ledger_of(table, user_id) {
            Some(ledger) => {
                put_ledger(&mut copy, user_id, ledger);
            },
            None => {},
        }
        assert forall|other: u64|
            ledgers(copy).contains_key(other) <==> users@.subrange(0, i + 1).contains(other) by {
            let upto = users@.subrange(0, i + 1);
            let sofar = users@.subrange(0, i as int);
            if upto.contains(other) {
                let at = choose|at: int| 0 <= at < upto.len() && upto[at] == other;
                if at < i {
                    assert(sofar[at] == other);
                }
            }
            if sofar.contains(other) {
                let at = choose|at: int| 0 <= at < sofar.len() && sofar[at] == other;
                assert(upto[at] == other);
            }
            assert(upto[i as int] == user_id);
        }
        i += 1;
    }
    assert(users@.subrange(0, users.len() as int) == users@);
    assert(ledgers(copy).dom() =~= ledgers(*table).dom()) by {
        assert forall|user_id: u64|
            ledgers(copy).dom().contains(user_id) == ledgers(*table).dom().contains(user_id) by {
            assert(users@.to_set().contains(user_id) == users@.contains(user_id));
        }
    }
    assert(ledgers(copy) =~= ledgers(*table));
    copy
}

} // verus!
