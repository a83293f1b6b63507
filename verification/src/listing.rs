//! The listings: the state of a giveaway as its participants see it, one
//! line for each reward with a note on who took it; the list of giveaways;
//! and the rewards of a giveaway in full, for its owner.

use vstd::prelude::*;
use dashmap::DashMap;
use crate::formatters::{debug_text, pretty_text, DefaultRewardFormatter, RewardFormatter};
use crate::giveaway::{giveaway_line, giveaway_views, Giveaway, GiveawayView};
use crate::ledger::{ledger_of, ledgers, users_of};
use crate::models::{ParticipantStats, Reward, RewardView, StatsView};
use crate::strategies::reward_views;
use crate::text::{append, chars_of, decimal, string_of, to_decimal};

verus! {

/// Whether the ledger of the participant lists the reward: as pending, or
/// as retrieved.
pub open spec fn lists(stats: Map<u64, StatsView>, user_id: u64, id: u128, pending: bool) -> bool {
    stats.contains_key(user_id) && if pending {
        stats[user_id].pending.contains(id)
    } else {
        stats[user_id].retrieved.contains(id)
    }
}

/// Whether the participant is the one with the least identifier among
/// those whose ledger lists the reward.
pub open spec fn is_first_lister(
    stats: Map<u64, StatsView>,
    user_id: u64,
    id: u128,
    pending: bool,
) -> bool {
    &&& lists(stats, user_id, id, pending)
    &&& forall|other: u64| lists(stats, other, id, pending) ==> user_id <= other
}

/// The participant with the least identifier among those whose ledger
/// lists the reward, if any ledger does.
pub open spec fn first_lister(stats: Map<u64, StatsView>, id: u128, pending: bool) -> Option<u64> {
    if exists|user_id: u64| is_first_lister(stats, user_id, id, pending) {
        Some(choose|user_id: u64| is_first_lister(stats, user_id, id, pending))
    } else {
        None
    }
}

/// The note behind a reward: who took it, where somebody holds it as
/// pending and nobody as retrieved; who activated it, where somebody holds
/// it as retrieved and nobody as pending; else nothing.
pub open spec fn holder_note(stats: Map<u64, StatsView>, id: u128) -> Seq<char> {
    note_on(first_lister(stats, id, true), first_lister(stats, id, false))
}

/// The note that names who took a reward, or who activated it, where there
/// is exactly one of the two.
pub open spec fn note_on(taken: Option<u64>, activated: Option<u64>) -> Seq<char> {
    match (taken, activated) {
        (Some(user_id), None) => "  [taken by <@"@ + decimal(user_id as nat) + ">]"@,
        (None, Some(user_id)) => "  [activated by <@"@ + decimal(user_id as nat) + ">]"@,
        _ => Seq::empty(),
    }
}

/// The first `count` of the given lines, each behind its number, counted
/// from 1, with a line break between them.
pub open spec fn numbered_lines(lines: Seq<Seq<char>>, count: int) -> Seq<char>
    decreases count,
{
    if count <= 0 {
        Seq::empty()
    } else if count == 1 {
        decimal(1) + ". "@ + lines[0]
    } else {
        numbered_lines(lines, count - 1) + seq!['\n'] + decimal(count as nat) + ". "@ + lines[count
            - 1]
    }
}

/// The rewards as participants see them, one line each, with the note on
/// the holder of each.
pub open spec fn state_lines(
    rewards: Seq<RewardView>,
    stats: Map<u64, StatsView>,
) -> Seq<Seq<char>> {
    Seq::new(rewards.len(), |i: int| pretty_text(rewards[i]) + holder_note(stats, rewards[i].id))
}

/// The state of the giveaway with the given number as participants see it:
/// a heading and one numbered line for each reward.
pub open spec fn giveaway_state(giveaway_index: usize, giveaway: GiveawayView) -> Seq<char> {
    "Giveaway #"@ + decimal(giveaway_index as nat) + ":\n"@ + numbered_lines(
        state_lines(giveaway.rewards, giveaway.stats),
        giveaway.rewards.len() as int,
    )
}

/// Whether the entries are the ledgers of the table, each with the
/// identifier of its participant.
pub open spec fn entries_of(
    entries: Seq<(u64, ParticipantStats)>,
    stats: Map<u64, StatsView>,
) -> bool {
    &&& forall|k: int|
        0 <= k < entries.len() ==> stats.contains_key((#[trigger] entries[k]).0) && entries[k].1@
            == stats[entries[k].0]
    &&& forall|user_id: u64|
        stats.contains_key(user_id) ==> exists|k: int|
            0 <= k < entries.len() && (#[trigger] entries[k]).0 == user_id
}

/// The ledgers of the table, each with the identifier of its participant.
fn collect_ledgers(table: &DashMap<u64, ParticipantStats>) -> (entries: Vec<
    (u64, ParticipantStats),
>)
    ensures
        entries_of(entries@, ledgers(*table)),
{
    let users = users_of(table);
    let mut entries: Vec<(u64, ParticipantStats)> = Vec::new();
    let mut i: usize = 0;
    while i < users.len()
        invariant
            i <= users.len(),
            entries.len() == i,
            users@.to_set() == ledgers(*table).dom(),
            forall|k: int|
                0 <= k < i ==> (#[trigger] entries@[k]).0 == users@[k] && ledgers(
                    *table,
                ).contains_key(entries@[k].0) && entries@[k].1@ == ledgers(*table)[entries@[k].0],
        decreases users.len() - i,
    {
        let user_id = users[i];
        assert(users@.contains(user_id));
        assert(users@.to_set().contains(user_id));
        let ledger = match ledger_of(table, user_id) {
            Some(found) => found,
            None => ParticipantStats::new(),
        };
        entries.push((user_id, ledger));
        i += 1;
    }
    assert forall|user_id: u64| ledgers(*table).contains_key(user_id) implies exists|k: int|
        0 <= k < entries@.len() && (#[trigger] entries@[k]).0 == user_id by {
        assert(users@.to_set().contains(user_id));
        assert(users@.contains(user_id));
        let at = choose|at: int| 0 <= at < users@.len() && users@[at] == user_id;
        assert(entries@[at].0 == user_id);
    }
    entries
}

/// The participant with the least identifier among those whose ledger
/// lists the reward.
fn least_lister(
    entries: &Vec<(u64, ParticipantStats)>,
    id: u128,
    pending: bool,
    Ghost(stats): Ghost<Map<u64, StatsView>>,
) -> (found: Option<u64>)
    requires
        entries_of(entries@, stats),
    ensures
        found == first_lister(stats, id, pending),
{
    let mut found: Option<u64> = None;
    let mut i: usize = 0;
    while i < entries.len()
        invariant
            i <= entries.len(),
            entries_of(entries@, stats),
            found is Some ==> lists(stats, found->Some_0, id, pending),
            forall|k: int|
                0 <= k < i && lists(stats, (#[trigger] entries@[k]).0, id, pending)
                    ==> found is Some
                    && found->Some_0 <= entries@[k].0,
        decreases entries.len() - i,
    {
        let listed = if pending {
            entries[i].1.has_pending_reward(id)
        } else {
            entries[i].1.has_retrieved_reward(id)
        };
        assert(listed == lists(stats, entries@[i as int].0, id, pending));
        if listed {
            let smaller = match found {
                Some(least) => entries[i].0 < least,
                None => true,
            };
            if smaller {
                found = Some(entries[i].0);
            }
        }
        i += 1;
    }
    proof {
        assert forall|other: u64| lists(stats, other, id, pending) implies found is Some
            && found->Some_0 <= other by {
            let at = choose|at: int| 0 <= at < entries@.len()
                && (#[trigger] entries@[at]).0 == other;
            assert(lists(stats, entries@[at].0, id, pending));
        }
        match found {
            Some(least) => {
                assert(is_first_lister(stats, least, id, pending));
                let chosen = choose|user_id: u64| is_first_lister(stats, user_id, id, pending);
                assert(is_first_lister(stats, chosen, id, pending));
                assert(chosen <= least && least <= chosen);
            },
            None => {
                assert(forall|user_id: u64| !is_first_lister(stats, user_id, id, pending));
            },
        }
    }
    found
}

/// For each reward, the participant who holds it as pending.
fn extract_pending_rewards(
    entries: &Vec<(u64, ParticipantStats)>,
    rewards: &Vec<Reward>,
    Ghost(stats): Ghost<Map<u64, StatsView>>,
) -> (holders: Vec<Option<u64>>)
    requires
        entries_of(entries@, stats),
    ensures
        holders.len() == rewards.len(),
        forall|i: int|
            0 <= i < rewards.len() ==> #[trigger] holders@[i] == first_lister(
                stats,
                rewards@[i]@.id,
                true,
            ),
{
    let mut holders: Vec<Option<u64>> = Vec::new();
    let mut i: usize = 0;
    while i < rewards.len()
        invariant
            i <= rewards.len(),
            holders.len() == i,
            entries_of(entries@, stats),
            forall|k: int|
                0 <= k < i ==> #[trigger] holders@[k] == first_lister(stats, rewards@[k]@.id, true),
        decreases rewards.len() - i,
    {
        holders.push(least_lister(entries, rewards[i].id(), true, Ghost(stats)));
        i += 1;
    }
    holders
}

/// For each reward, the participant who holds it as retrieved.
fn extract_retrieved_rewards(
    entries: &Vec<(u64, ParticipantStats)>,
    rewards: &Vec<Reward>,
    Ghost(stats): Ghost<Map<u64, StatsView>>,
) -> (holders: Vec<Option<u64>>)
    requires
        entries_of(entries@, stats),
    ensures
        holders.len() == rewards.len(),
        forall|i: int|
            0 <= i < rewards.len() ==> #[trigger] holders@[i] == first_lister(
                stats,
                rewards@[i]@.id,
                false,
            ),
{
    let mut holders: Vec<Option<u64>> = Vec::new();
    let mut i: usize = 0;
    while i < rewards.len()
        invariant
            i <= rewards.len(),
            holders.len() == i,
            entries_of(entries@, stats),
            forall|k: int|
                0 <= k < i
                    ==> #[trigger] holders@[k] == first_lister(stats, rewards@[k]@.id, false),
        decreases rewards.len() - i,
    {
        holders.push(least_lister(entries, rewards[i].id(), false, Ghost(stats)));
        i += 1;
    }
    holders
}

/// Appends the note on the holder of a reward.
fn append_note(line: &mut Vec<char>, taken: Option<u64>, activated: Option<u64>)
    ensures
        final(line)@ == old(line)@ + note_on(taken, activated),
{
    let mut note: Vec<char> = Vec::new();
    match (taken, activated) {
        (Some(user_id), None) => {
            append(&mut note, &chars_of("  [taken by <@"));
            append(&mut note, &to_decimal(user_id));
            append(&mut note, &chars_of(">]"));
        },
        (None, Some(user_id)) => {
            append(&mut note, &chars_of("  [activated by <@"));
            append(&mut note, &to_decimal(user_id));
            append(&mut note, &chars_of(">]"));
        },
        _ => {},
    }
    assert(note@ =~= note_on(taken, activated));
    append(line, &note);
}

/// The texts of the given strings, in order.
pub open spec fn texts_of(lines: Seq<String>) -> Seq<Seq<char>> {
    Seq::new(lines.len(), |i: int| lines[i]@)
}

/// The given lines, each behind its number, counted from 1, with a line
/// break between them.
pub fn number_lines(lines: &Vec<String>) -> (text: Vec<char>)
    ensures
        text@ == numbered_lines(texts_of(lines@), lines.len() as int),
{
    let mut text: Vec<char> = Vec::new();
    let mut i: usize = 0;
    while i < lines.len()
        invariant
            i <= lines.len(),
            text@ == numbered_lines(texts_of(lines@), i as int),
        decreases lines.len() - i,
    {
        if i > 0 {
            text.push('\n');
        }
        append(&mut text, &to_decimal((i + 1) as u64));
        append(&mut text, &chars_of(". "));
        append(&mut text, &chars_of(lines[i].as_str()));
        assert(text@ =~= numbered_lines(texts_of(lines@), i + 1));
        i += 1;
    }
    text
}

/// The state of the giveaway as participants see it, under the number by
/// which they reach it.
pub fn print_state(giveaway: &Giveaway, giveaway_index: usize) -> (state: String)
    ensures
        state@ == giveaway_state(giveaway_index, giveaway@),
{
    let rewards = giveaway.raw_rewards();
    let entries = collect_ledgers(giveaway.stats());
    let ghost stats = giveaway@.stats;
    let pending_rewards = extract_pending_rewards(&entries, rewards, Ghost(stats));
    let retrieved_rewards = extract_retrieved_rewards(&entries, rewards, Ghost(stats));
    let formatter = giveaway.reward_formatter();
    let mut lines: Vec<String> = Vec::new();
    let mut i: usize = 0;
    while i < rewards.len()
        invariant
            i <= rewards.len(),
            lines.len() == i,
            pending_rewards.len() == rewards.len(),
            retrieved_rewards.len() == rewards.len(),
            forall|k: int|
                0 <= k < rewards.len() ==> #[trigger] pending_rewards@[k] == first_lister(
                    stats,
                    rewards@[k]@.id,
                    true,
                ),
            forall|k: int|
                0 <= k < rewards.len() ==> #[trigger] retrieved_rewards@[k] == first_lister(
                    stats,
                    rewards@[k]@.id,
                    false,
                ),
            forall|k: int|
                0 <= k < i ==> (#[trigger] lines@[k])@ == pretty_text(rewards@[k]@) + holder_note(
                    stats,
                    rewards@[k]@.id,
                ),
        decreases rewards.len() - i,
    {
        let shown = formatter.pretty_print(&rewards[i]);
        let mut line = chars_of(shown.as_str());
        append_note(&mut line, pending_rewards[i], retrieved_rewards[i]);
        lines.push(string_of(&line));
        i += 1;
    }
    assert(texts_of(lines@) =~= state_lines(giveaway@.rewards, stats));
    let mut state: Vec<char> = chars_of("Giveaway #");
    append(&mut state, &to_decimal(giveaway_index as u64));
    append(&mut state, &chars_of(":\n"));
    append(&mut state, &number_lines(&lines));
    string_of(&state)
}

/// The lines that stand for the giveaways in the list of giveaways.
pub open spec fn giveaway_lines(giveaways: Seq<GiveawayView>) -> Seq<Seq<char>> {
    Seq::new(giveaways.len(), |i: int| giveaway_line(giveaways[i]))
}

/// The list of giveaways as it is shown: a heading and one numbered line
/// for each giveaway, or a sentence that says that there is none.
pub open spec fn giveaways_text(giveaways: Seq<GiveawayView>) -> Seq<char> {
    if giveaways.len() == 0 {
        "There are no active giveaways."@
    } else {
        "Giveaways:\n"@ + numbered_lines(giveaway_lines(giveaways), giveaways.len() as int)
    }
}

/// The rewards in full, one line each.
pub open spec fn debug_lines(rewards: Seq<RewardView>) -> Seq<Seq<char>> {
    Seq::new(rewards.len(), |i: int| debug_text(rewards[i]))
}

/// The rewards of a giveaway as its owner sees them: a heading and one
/// numbered line for each reward in full, or a sentence that says that
/// there is none.
pub open spec fn rewards_text(rewards: Seq<RewardView>) -> Seq<char> {
    if rewards.len() == 0 {
        "There are no added rewards."@
    } else {
        "Rewards:\n"@ + numbered_lines(debug_lines(rewards), rewards.len() as int)
    }
}

/// The list of giveaways as it is shown.
pub fn print_giveaways(giveaways: &Vec<Giveaway>) -> (text: String)
    ensures
        text@ == giveaways_text(giveaway_views(giveaways@)),
{
    if giveaways.len() == 0 {
        return "There are no active giveaways.".to_owned();
    }
    let ghost views = giveaway_views(giveaways@);
    let mut lines: Vec<String> = Vec::new();
    let mut i: usize = 0;
    while i < giveaways.len()
        invariant
            i <= giveaways.len(),
            lines.len() == i,
            views == giveaway_views(giveaways@),
            forall|k: int| 0 <= k < i ==> (#[trigger] lines@[k])@ == giveaway_line(views[k]),
        decreases giveaways.len() - i,
    {
        lines.push(giveaways[i].pretty_print());
        i += 1;
    }
    assert(texts_of(lines@) =~= giveaway_lines(views));
    let mut text = chars_of("Giveaways:\n");
    append(&mut text, &number_lines(&lines));
    string_of(&text)
}

/// The rewards of a giveaway as its owner sees them.
pub fn print_rewards(rewards: &Vec<Reward>) -> (text: String)
    ensures
        text@ == rewards_text(reward_views(rewards@)),
{
    if rewards.len() == 0 {
        return "There are no added rewards.".to_owned();
    }
    let formatter = DefaultRewardFormatter::new();
    let mut lines: Vec<String> = Vec::new();
    let mut i: usize = 0;
    while i < rewards.len()
        invariant
            i <= rewards.len(),
            lines.len() == i,
            forall|k: int| 0 <= k < i ==> (#[trigger] lines@[k])@ == debug_text(rewards@[k]@),
        decreases rewards.len() - i,
    {
        lines.push(formatter.debug_print(&rewards[i]));
        i += 1;
    }
    assert(texts_of(lines@) =~= debug_lines(reward_views(rewards@)));
    let mut text = chars_of("Rewards:\n");
    append(&mut text, &number_lines(&lines));
    string_of(&text)
}

} // verus!
