//! A giveaway: an owned container of rewards with the ledgers of those who
//! took part, a switch that opens it to participants, and a counter that
//! says when its state should be shown again.

use vstd::prelude::*;
use vstd::string::*;
use crossbeam::atomic::AtomicCell;
use dashmap::DashMap;
use crate::cell::{load_message, message_cell, message_in, store_message};
use crate::error::{Error, ErrorKind};
use crate::formatters::DefaultRewardFormatter;
use crate::ledger::{copy_table, ledger_of, ledgers, new_table, no_ledgers, put_ledger};
use crate::models::{
    reward_of, rewards_follow_graph, ObjectState, ObjectType, Participant,
    ParticipantStats, ParticipantView, Reward, RewardView, StatsView,
};
use crate::strategies::{
    holds_pending, manual_roll, reward_views, GiveawayStrategy, ManualSelectStrategy, RollOptions,
    RollView,
};
use crate::parser::{key_groups, parsed};
use crate::text::{append, chars_of, decimal, line_views, lines, split_lines, string_of, to_decimal};

verus! {

/// After how many participant commands a giveaway asks to be shown again.
pub const OUTPUT_AFTER_GIVEAWAY_COMMANDS: u64 = 15;

/// An owned container of rewards.
#[derive(Debug)]
pub struct Giveaway {
    active: bool,
    owner: Participant,
    description: String,
    rewards: Vec<Reward>,
    stats: DashMap<u64, ParticipantStats>,
    strategy: ManualSelectStrategy,
    message_id: AtomicCell<Option<u64>>,
    actions_required_to_output: u64,
    actions_processed: u64,
    reward_formatter: DefaultRewardFormatter,
}

/// A giveaway as plain values.
pub struct GiveawayView {
    pub active: bool,
    pub owner: ParticipantView,
    pub description: Seq<char>,
    pub rewards: Seq<RewardView>,
    pub stats: Map<u64, StatsView>,
    pub message_id: Option<u64>,
    pub actions_required_to_output: u64,
    pub actions_processed: u64,
}

impl View for Giveaway {
    type V = GiveawayView;

    closed spec fn view(&self) -> GiveawayView {
        GiveawayView {
            active: self.active,
            owner: self.owner@,
            description: self.description@,
            rewards: reward_views(self.rewards@),
            stats: ledgers(self.stats),
            message_id: message_in(self.message_id),
            actions_required_to_output: self.actions_required_to_output,
            actions_processed: self.actions_processed,
        }
    }
}

/// The giveaways of a list as plain values, in order.
pub open spec fn giveaway_views(giveaways: Seq<Giveaway>) -> Seq<GiveawayView> {
    Seq::new(giveaways.len(), |i: int| giveaways[i]@)
}

/// The giveaway that its owner has just created: paused, without
/// description, rewards or ledgers.
pub open spec fn created_by(owner: ParticipantView) -> GiveawayView {
    GiveawayView {
        active: false,
        owner,
        description: Seq::empty(),
        rewards: Seq::empty(),
        stats: no_ledgers(),
        message_id: None,
        actions_required_to_output: OUTPUT_AFTER_GIVEAWAY_COMMANDS,
        actions_processed: 0,
    }
}

/// The counter of commands after one more command.
pub open spec fn counted_up(actions_processed: u64) -> u64 {
    if actions_processed == u64::MAX {
        0
    } else {
        (actions_processed + 1) as u64
    }
}

/// The line that stands for a giveaway in the list of giveaways.
pub open spec fn giveaway_line(giveaway: GiveawayView) -> Seq<char> {
    giveaway.description + " [owner: <@"@ + decimal(giveaway.owner.user_id as nat) + ">]"@
}

/// The ledger of the participant, or an empty one where the participant has
/// none yet.
pub open spec fn ledger_or_new(stats: Map<u64, StatsView>, user_id: u64) -> StatsView {
    if stats.contains_key(user_id) {
        stats[user_id]
    } else {
        StatsView { pending: Set::empty(), retrieved: Set::empty() }
    }
}

/// What the strategy gets to see when the participant rolls for the reward
/// with the given number.
pub open spec fn roll_request(
    giveaway: GiveawayView,
    user: ParticipantView,
    reward_number: usize,
) -> RollView {
    RollView { user, rewards: giveaway.rewards, reward_number, stats: giveaway.stats }
}

/// The state in which a roll leaves the reward that it hands out: a
/// pre-order is activated at once, anything else waits for an answer.
pub open spec fn state_after_roll(reward: RewardView) -> ObjectState {
    if reward.object_type == ObjectType::KeyPreorder {
        ObjectState::Activated
    } else {
        ObjectState::Pending
    }
}

/// The ledger once the reward that a roll handed out is noted in it: a
/// pre-order as retrieved, anything else as pending.
pub open spec fn ledger_after_roll(ledger: StatsView, reward: RewardView) -> StatsView {
    if reward.object_type == ObjectType::KeyPreorder {
        StatsView { retrieved: ledger.retrieved.insert(reward.id), ..ledger }
    } else {
        StatsView { pending: ledger.pending.insert(reward.id), ..ledger }
    }
}

/// The giveaway once the participant has taken the reward at the given
/// position: the reward changes its state, the participant's ledger notes
/// it, and nothing else changes.
pub open spec fn claimed(giveaway: GiveawayView, user_id: u64, position: int) -> GiveawayView {
    let reward = giveaway.rewards[position];
    GiveawayView {
        rewards: giveaway.rewards.update(
            position,
            RewardView { object_state: state_after_roll(reward), ..reward },
        ),
        stats: giveaway.stats.insert(
            user_id,
            ledger_after_roll(ledger_or_new(giveaway.stats, user_id), reward),
        ),
        ..giveaway
    }
}

/// Whether the holder of the ledger may answer for the reward, by
/// confirming it or by returning it: the reward must be pending and the
/// ledger must list it as pending.
pub open spec fn answer_verdict(reward: RewardView, ledger: StatsView, confirming: bool) -> Result<
    (),
    ErrorKind,
> {
    match reward.object_state {
        ObjectState::Activated => Err(ErrorKind::RewardActivated),
        ObjectState::Pending => if ledger.pending.contains(reward.id) {
            Ok(())
        } else if confirming {
            Err(ErrorKind::ConfirmByOthers)
        } else {
            Err(ErrorKind::DenyByOthers)
        },
        ObjectState::Unused => if confirming {
            Err(ErrorKind::ConfirmBeforeRoll)
        } else {
            Err(ErrorKind::DenyBeforeRoll)
        },
    }
}

/// What an answer for the reward with the given number, counted from 1,
/// comes to: the position of the reward, or the first refusal that applies.
/// The number names no reward; the participant never rolled in this
/// giveaway; the reward is not one that the participant may answer for.
pub open spec fn answer_outcome(
    giveaway: GiveawayView,
    user_id: u64,
    reward_index: usize,
    confirming: bool,
) -> Result<int, ErrorKind> {
    if !(1 <= reward_index <= giveaway.rewards.len()) {
        Err(ErrorKind::RewardNotFound)
    } else if !giveaway.stats.contains_key(user_id) {
        if confirming {
            Err(ErrorKind::ConfirmBeforeRoll)
        } else {
            Err(ErrorKind::DenyBeforeRoll)
        }
    } else {
        match answer_verdict(
            giveaway.rewards[reward_index - 1],
            giveaway.stats[user_id],
            confirming,
        ) {
            Ok(_) => Ok(reward_index - 1),
            Err(kind) => Err(kind),
        }
    }
}

/// The ledger once a pending reward is confirmed: retrieved, and pending
/// no more.
pub open spec fn ledger_after_confirm(ledger: StatsView, id: u128) -> StatsView {
    StatsView { pending: ledger.pending.remove(id), retrieved: ledger.retrieved.insert(id) }
}

/// The ledger once a pending reward is returned: pending no more.
pub open spec fn ledger_after_deny(ledger: StatsView, id: u128) -> StatsView {
    StatsView { pending: ledger.pending.remove(id), ..ledger }
}

/// The giveaway once the participant has confirmed the pending reward at
/// the given position.
pub open spec fn confirmed(giveaway: GiveawayView, user_id: u64, position: int) -> GiveawayView {
    let reward = giveaway.rewards[position];
    GiveawayView {
        rewards: giveaway.rewards.update(
            position,
            RewardView { object_state: ObjectState::Activated, ..reward },
        ),
        stats: giveaway.stats.insert(
            user_id,
            ledger_after_confirm(giveaway.stats[user_id], reward.id),
        ),
        ..giveaway
    }
}

/// The giveaway once the participant has returned the pending reward at
/// the given position.
pub open spec fn denied(giveaway: GiveawayView, user_id: u64, position: int) -> GiveawayView {
    let reward = giveaway.rewards[position];
    GiveawayView {
        rewards: giveaway.rewards.update(
            position,
            RewardView { object_state: ObjectState::Unused, ..reward },
        ),
        stats: giveaway.stats.insert(
            user_id,
            ledger_after_deny(giveaway.stats[user_id], reward.id),
        ),
        ..giveaway
    }
}

/// Whether an outcome without a value is the one expected: success, or a
/// refusal of the expected kind.
pub open spec fn meets(outcome: Result<(), Error>, expected: Result<(), ErrorKind>) -> bool {
    match expected {
        Ok(_) => outcome is Ok,
        Err(kind) => outcome is Err && outcome->Err_0.is_kind(kind),
    }
}

/// The lines that are not empty, in order.
pub open spec fn nonempty_lines(pieces: Seq<Seq<char>>) -> Seq<Seq<char>>
    decreases pieces.len(),
{
    if pieces.len() == 0 {
        Seq::empty()
    } else {
        let before = nonempty_lines(pieces.drop_last());
        if pieces.last().len() > 0 {
            before.push(pieces.last())
        } else {
            before
        }
    }
}

/// The reward texts that a message of several lines holds: its lines that
/// are not empty.
pub open spec fn reward_texts(data: Seq<char>) -> Seq<Seq<char>> {
    nonempty_lines(lines(data))
}

/// Whether the rewards are new rewards made of the given texts, one for
/// each text and in the same order: unused, with the parts that the text
/// parses to, each under an identifier of its own choosing.
pub open spec fn made_of(rewards: Seq<RewardView>, texts: Seq<Seq<char>>) -> bool {
    &&& rewards.len() == texts.len()
    &&& forall|k: int|
        0 <= k < rewards.len() ==> #[trigger] rewards[k] == reward_of(
            rewards[k].id,
            parsed(texts[k], key_groups(texts[k])),
        )
}

/// Whether `after` is `before` with new rewards made of the given texts
/// behind the rewards that were there, and nothing else changed.
pub open spec fn extended_by(
    before: GiveawayView,
    after: GiveawayView,
    texts: Seq<Seq<char>>,
) -> bool {
    &&& after == (GiveawayView { rewards: after.rewards, ..before })
    &&& after.rewards.len() == before.rewards.len() + texts.len()
    &&& after.rewards.subrange(0, before.rewards.len() as int) == before.rewards
    &&& made_of(
        after.rewards.subrange(before.rewards.len() as int, after.rewards.len() as int),
        texts,
    )
}

impl Giveaway {
    /// A new giveaway of the given owner: paused, with no rewards.
    pub fn new(owner: &Participant) -> (giveaway: Giveaway)
        ensures
            giveaway@ == created_by(owner@),
    {
        let giveaway = Giveaway {
            active: false,
            owner: owner.clone(),
            description: String::new(),
            rewards: Vec::new(),
            stats: new_table(),
            strategy: ManualSelectStrategy::new(),
            message_id: message_cell(None),
            actions_required_to_output: OUTPUT_AFTER_GIVEAWAY_COMMANDS,
            actions_processed: 0,
            reward_formatter: DefaultRewardFormatter::new(),
        };
        assert(giveaway@.rewards =~= Seq::empty());
        giveaway
    }

    /// The giveaway with the given description in place of its own.
    pub fn with_description(self, description: &str) -> (giveaway: Giveaway)
        ensures
            giveaway@ == (GiveawayView { description: description@, ..self@ }),
    {
        let mut giveaway = self;
        giveaway.description = description.to_owned();
        giveaway
    }

    /// Who created the giveaway.
    pub fn owner(&self) -> (owner: &Participant)
        ensures
            owner@ == self@.owner,
    {
        &self.owner
    }

    /// The ledgers of those who took part.
    pub fn stats(&self) -> (stats: &DashMap<u64, ParticipantStats>)
        ensures
            ledgers(*stats) == self@.stats,
    {
        &self.stats
    }

    /// The rewards, in order.
    pub fn raw_rewards(&self) -> (rewards: &Vec<Reward>)
        ensures
            reward_views(rewards@) == self@.rewards,
    {
        &self.rewards
    }

    /// The message that shows the giveaway, where one was noted.
    pub fn get_message_id(&self) -> (message_id: Option<u64>)
        ensures
            message_id == self@.message_id,
    {
        load_message(&self.message_id)
    }

    /// Notes the message that shows the giveaway.
    pub fn set_message_id(&mut self, message_id: Option<u64>)
        ensures
            final(self)@ == (GiveawayView { message_id, ..old(self)@ }),
    {
        store_message(&mut self.message_id, message_id);
    }

    /// The strategy by which rolls pick their reward.
    pub fn strategy(&self) -> (strategy: &ManualSelectStrategy) {
        &self.strategy
    }

    /// The formatter that writes out the rewards.
    pub fn reward_formatter(&self) -> (formatter: &DefaultRewardFormatter) {
        &self.reward_formatter
    }

    /// The description of the giveaway.
    pub fn description(&self) -> (description: String)
        ensures
            description@ == self@.description,
    {
        self.description.clone()
    }

    /// How many participant commands were counted since the last reset.
    pub fn actions_processed(&self) -> (actions_processed: u64)
        ensures
            actions_processed == self@.actions_processed,
    {
        self.actions_processed
    }

    /// Whether the giveaway is open to participants.
    pub fn is_activated(&self) -> (active: bool)
        ensures
            active == self@.active,
    {
        self.active
    }

    /// Opens the giveaway to participants.
    pub fn activate(&mut self)
        ensures
            final(self)@ == (GiveawayView { active: true, ..old(self)@ }),
    {
        self.active = true;
    }

    /// Closes the giveaway to participants and starts counting commands anew.
    pub fn deactivate(&mut self)
        ensures
            final(self)@ == (GiveawayView { active: false, actions_processed: 0, ..old(self)@ }),
    {
        self.active = false;
        self.reset_actions_processed();
    }

    /// Counts one more command; the counter starts again at zero when it is
    /// full.
    pub fn update_actions_processed(&mut self)
        ensures
            final(self)@ == (GiveawayView {
                actions_processed: counted_up(old(self)@.actions_processed),
                ..old(self)@
            }),
    {
        self.actions_processed = if self.actions_processed == u64::MAX {
            0
        } else {
            self.actions_processed + 1
        };
    }

    /// Starts counting commands anew.
    pub fn reset_actions_processed(&mut self)
        ensures
            final(self)@ == (GiveawayView { actions_processed: 0, ..old(self)@ }),
    {
        self.actions_processed = 0;
    }

    /// Whether the state of the giveaway should be shown now: the counter
    /// stands exactly at the threshold.
    pub fn is_required_state_output(&self) -> (required: bool)
        ensures
            required == (self@.actions_processed == self@.actions_required_to_output),
    {
        self.actions_processed == self.actions_required_to_output
    }

    /// The rewards, each as a value of its own.
    pub fn get_available_rewards(&self) -> (rewards: Vec<Reward>)
        ensures
            reward_views(rewards@) == self@.rewards,
    {
        let mut rewards: Vec<Reward> = Vec::new();
        let mut i: usize = 0;
        while i < self.rewards.len()
            invariant
                i <= self.rewards.len(),
                rewards.len() == i,
                reward_views(rewards@) == reward_views(self.rewards@).subrange(0, i as int),
            decreases self.rewards.len() - i,
        {
            let ghost before = rewards@;
            rewards.push(self.rewards[i].clone());
            assert(forall|j: int| 0 <= j < i ==> rewards@[j]@ == reward_views(before)[j]);
            assert(reward_views(rewards@) =~= reward_views(self.rewards@).subrange(0, i + 1));
            i += 1;
        }
        assert(reward_views(self.rewards@).subrange(0, self.rewards.len() as int) =~= reward_views(
            self.rewards@,
        ));
        rewards
    }

    /// Puts a copy of the reward, as it is, behind the rewards of the giveaway.
    pub fn add_reward(&mut self, obj: &Reward)
        ensures
            final(self)@ == (GiveawayView { rewards: old(self)@.rewards.push(obj@), ..old(self)@ }),
    {
        self.rewards.push(obj.clone());
        assert(reward_views(self.rewards@) =~= reward_views(old(self).rewards@).push(obj@));
    }

    /// Takes out the reward with the given number, counted from 1; the
    /// rewards behind it move up. A number that names no reward is refused.
    pub fn remove_reward_by_index(&mut self, index: usize) -> (outcome: Result<(), Error>)
        ensures
            1 <= index <= old(self)@.rewards.len()
                ==> outcome is Ok && final(self)@ == (GiveawayView {
                rewards: old(self)@.rewards.remove(index - 1),
                ..old(self)@
            }),
            !(1 <= index <= old(self)@.rewards.len()) ==> outcome is Err && outcome->Err_0.is_kind(
                ErrorKind::RewardNotFound,
            ) && final(self)@ == old(self)@,
    {
        if index > 0 && index <= self.rewards.len() {
            self.rewards.remove(index - 1);
            assert(reward_views(self.rewards@)
                =~= reward_views(old(self).rewards@).remove(index - 1));
            Ok(())
        } else {
            Err(Error::from_kind(ErrorKind::RewardNotFound))
        }
    }

    /// The line that stands for the giveaway in the list of giveaways.
    pub fn pretty_print(&self) -> (line: String)
        ensures
            line@ == giveaway_line(self@),
    {
        let mut line = chars_of(self.description.as_str());
        append(&mut line, &chars_of(" [owner: <@"));
        append(&mut line, &to_decimal(self.owner.get_user_id()));
        append(&mut line, &chars_of(">]"));
        string_of(&line)
    }

    /// Parses the text into a new reward and puts it behind the rewards of
    /// the giveaway.
    pub fn add_reward_from_text(&mut self, data: &str)
        ensures
            extended_by(old(self)@, final(self)@, seq![data@]),
    {
        let reward = Reward::new(data);
        self.add_reward(&reward);
        assert(self@.rewards.subrange(0, old(self)@.rewards.len() as int) =~= old(self)@.rewards);
        assert(self@.rewards.subrange(
            old(self)@.rewards.len() as int,
            self@.rewards.len() as int,
        ) =~= seq![reward@]);
    }

    /// Parses each line of the text that is not empty into a new reward
    /// and puts them, in the order of the lines, behind the rewards of the
    /// giveaway.
    pub fn add_multiple_rewards(&mut self, data: &str)
        ensures
            extended_by(old(self)@, final(self)@, reward_texts(data@)),
    {
        let pieces = split_lines(&chars_of(data));
        let mut i: usize = 0;
        assert(self@.rewards.subrange(0, old(self)@.rewards.len() as int) =~= old(self)@.rewards);
        assert(line_views(pieces@).subrange(0, 0) =~= Seq::<Seq<char>>::empty());
        while i < pieces.len()
            invariant
                i <= pieces.len(),
                line_views(pieces@) == lines(data@),
                extended_by(
                    old(self)@,
                    self@,
                    nonempty_lines(line_views(pieces@).subrange(0, i as int)),
                ),
            decreases pieces.len() - i,
        {
            let ghost before = self@;
            let ghost texts = nonempty_lines(line_views(pieces@).subrange(0, i as int));
            let ghost upto = line_views(pieces@).subrange(0, i + 1);
            assert(upto.drop_last() =~= line_views(pieces@).subrange(0, i as int));
            assert(upto.last() == pieces@[i as int]@);
            if pieces[i].len() > 0 {
                let line = string_of(&pieces[i]);
                let reward = Reward::new(line.as_str());
                self.add_reward(&reward);
                let ghost start = old(self)@.rewards.len() as int;
                assert(self@.rewards.subrange(0, start) =~= before.rewards.subrange(0, start));
                let ghost added = self@.rewards.subrange(start, self@.rewards.len() as int);
                assert(added =~= before.rewards.subrange(start, before.rewards.len() as int).push(
                    reward@,
                ));
                assert(made_of(added, texts.push(pieces@[i as int]@)));
            }
            i += 1;
        }
        assert(line_views(pieces@).subrange(0, pieces.len() as int) =~= line_views(pieces@));
    }

    /// Notes in the ledger the reward that a roll hands out, and says in
    /// which state the roll leaves it.
    fn get_next_reward_state_after_roll(
        reward: &Reward,
        user_data: &mut ParticipantStats,
    ) -> (state: ObjectState)
        ensures
            state == state_after_roll(reward@),
            final(user_data)@ == ledger_after_roll(old(user_data)@, reward@),
    {
        if reward.is_preorder() {
            user_data.add_retrieved_reward(reward.id());
            ObjectState::Activated
        } else {
            user_data.add_pending_reward(reward.id());
            ObjectState::Pending
        }
    }

    /// Confirms the reward for the holder of the ledger, where the holder
    /// may answer for it.
    fn move_reward_to_retrieved(
        data: &mut ParticipantStats,
        reward: &mut Reward,
    ) -> (outcome: Result<(), Error>)
        ensures
            meets(outcome, answer_verdict(old(reward)@, old(data)@, true)),
            outcome is Ok ==> final(data)@ == ledger_after_confirm(old(data)@, old(reward)@.id)
                && final(reward)@ == (RewardView {
                object_state: ObjectState::Activated,
                ..old(reward)@
            }),
            outcome is Err ==> final(data)@ == old(data)@ && final(reward)@ == old(reward)@,
    {
        match reward.object_state() {
            ObjectState::Activated => Err(Error::from_kind(ErrorKind::RewardActivated)),
            ObjectState::Pending => {
                if data.has_pending_reward(reward.id()) {
                    data.remove_pending_reward(reward.id());
                    data.add_retrieved_reward(reward.id());
                    reward.set_object_state(ObjectState::Activated);
                    Ok(())
                } else {
                    Err(Error::from_kind(ErrorKind::ConfirmByOthers))
                }
            },
            ObjectState::Unused => Err(Error::from_kind(ErrorKind::ConfirmBeforeRoll)),
        }
    }

    /// Returns the reward for the holder of the ledger, where the holder
    /// may answer for it.
    fn rollback_reward_to_unused(
        data: &mut ParticipantStats,
        reward: &mut Reward,
    ) -> (outcome: Result<(), Error>)
        ensures
            meets(outcome, answer_verdict(old(reward)@, old(data)@, false)),
            outcome is Ok ==> final(data)@ == ledger_after_deny(old(data)@, old(reward)@.id)
                && final(reward)@
                    == (RewardView { object_state: ObjectState::Unused, ..old(reward)@ }),
            outcome is Err ==> final(data)@ == old(data)@ && final(reward)@ == old(reward)@,
    {
        match reward.object_state() {
            ObjectState::Activated => Err(Error::from_kind(ErrorKind::RewardActivated)),
            ObjectState::Pending => {
                if data.has_pending_reward(reward.id()) {
                    data.remove_pending_reward(reward.id());
                    reward.set_object_state(ObjectState::Unused);
                    Ok(())
                } else {
                    Err(Error::from_kind(ErrorKind::DenyByOthers))
                }
            },
            ObjectState::Unused => Err(Error::from_kind(ErrorKind::DenyBeforeRoll)),
        }
    }

    /// Hands out the reward that the participant names by its number,
    /// counted from 1, where the strategy allows it. The reward becomes
    /// pending, or activated at once where it is a pre-order, and the
    /// participant's ledger notes it. A refused roll changes nothing.
    pub fn roll(&mut self, user: &Participant, reward_number: usize) -> (outcome: Result<
        Option<String>,
        Error,
    >)
        ensures
            rewards_follow_graph(old(self)@.rewards, final(self)@.rewards),
            match manual_roll(roll_request(old(self)@, user@, reward_number)) {
                Ok(position) => outcome is Ok && outcome->Ok_0 is None && final(self)@ == claimed(
                    old(self)@,
                    user@.user_id,
                    position,
                ),
                Err(kind) => outcome is Err && outcome->Err_0.is_kind(kind)
                    && final(self)@ == old(self)@,
            },
    {
        proof {
            lemma_roll_follows_graph(self@, user@, reward_number);
        }
        let options = RollOptions::new(user, &self.rewards, reward_number, &self.stats);
        let position = match self.strategy.roll(&options) {
            Ok(position) => position,
            Err(refusal) => {
                return Err(refusal);
            },
        };
        let user_id = user.get_user_id();
        let mut data = match ledger_of(&self.stats, user_id) {
            Some(found) => found,
            None => ParticipantStats::new(),
        };
        assert(self@.rewards[position as int] == self.rewards@[position as int]@);
        let next_state =
            Giveaway::get_next_reward_state_after_roll(&self.rewards[position], &mut data);
        put_ledger(&mut self.stats, user_id, data);
        set_state_at(&mut self.rewards, position, next_state);
        let response = self.strategy.to_message(&self.rewards[position]);
        Ok(response)
    }

    /// Confirms that the pending reward with the given number, counted from
    /// 1, worked for the participant who rolled it: the reward becomes
    /// activated and moves, in the participant's ledger, from pending to
    /// retrieved. A refused confirmation changes nothing.
    pub fn confirm(&mut self, user: &Participant, reward_index: usize) -> (outcome: Result<
        (),
        Error,
    >)
        ensures
            rewards_follow_graph(old(self)@.rewards, final(self)@.rewards),
            match answer_outcome(old(self)@, user@.user_id, reward_index, true) {
                Ok(position) => outcome is Ok && final(self)@ == confirmed(
                    old(self)@,
                    user@.user_id,
                    position,
                ),
                Err(kind) => outcome is Err && outcome->Err_0.is_kind(kind)
                    && final(self)@ == old(self)@,
            },
    {
        proof {
            lemma_confirm_follows_graph(self@, user@.user_id, reward_index);
        }
        if !(reward_index > 0 && reward_index <= self.rewards.len()) {
            return Err(Error::from_kind(ErrorKind::RewardNotFound));
        }
        let user_id = user.get_user_id();
        let position: usize = reward_index - 1;
        assert(self@.rewards[position as int] == self.rewards@[position as int]@);
        match ledger_of(&self.stats, user_id) {
            Some(found) => {
                let mut data = found;
                let ghost before = self.rewards@;
                let outcome =
                    Giveaway::move_reward_to_retrieved(&mut data, &mut self.rewards[position]);
                assert(reward_views(self.rewards@) =~= reward_views(before).update(
                    position as int,
                    self.rewards@[position as int]@,
                ));
                match outcome {
                    Ok(_) => {
                        put_ledger(&mut self.stats, user_id, data);
                        Ok(())
                    },
                    Err(refusal) => {
                        assert(reward_views(self.rewards@) =~= reward_views(before));
                        Err(refusal)
                    },
                }
            },
            None => Err(Error::from_kind(ErrorKind::ConfirmBeforeRoll)),
        }
    }

    /// Returns the pending reward with the given number, counted from 1,
    /// because it did not work for the participant who rolled it: the reward
    /// becomes unused again and leaves the pending rewards of the
    /// participant's ledger. A refused return changes nothing.
    pub fn deny(&mut self, user: &Participant, reward_index: usize) -> (outcome: Result<(), Error>)
        ensures
            rewards_follow_graph(old(self)@.rewards, final(self)@.rewards),
            match answer_outcome(old(self)@, user@.user_id, reward_index, false) {
                Ok(position) => outcome is Ok && final(self)@ == denied(
                    old(self)@,
                    user@.user_id,
                    position,
                ),
                Err(kind) => outcome is Err && outcome->Err_0.is_kind(kind)
                    && final(self)@ == old(self)@,
            },
    {
        proof {
            lemma_deny_follows_graph(self@, user@.user_id, reward_index);
        }
        if !(reward_index > 0 && reward_index <= self.rewards.len()) {
            return Err(Error::from_kind(ErrorKind::RewardNotFound));
        }
        let user_id = user.get_user_id();
        let position: usize = reward_index - 1;
        assert(self@.rewards[position as int] == self.rewards@[position as int]@);
        match ledger_of(&self.stats, user_id) {
            Some(found) => {
                let mut data = found;
                let ghost before = self.rewards@;
                let outcome =
                    Giveaway::rollback_reward_to_unused(&mut data, &mut self.rewards[position]);
                assert(reward_views(self.rewards@) =~= reward_views(before).update(
                    position as int,
                    self.rewards@[position as int]@,
                ));
                match outcome {
                    Ok(_) => {
                        put_ledger(&mut self.stats, user_id, data);
                        Ok(())
                    },
                    Err(refusal) => {
                        assert(reward_views(self.rewards@) =~= reward_views(before));
                        Err(refusal)
                    },
                }
            },
            None => Err(Error::from_kind(ErrorKind::DenyBeforeRoll)),
        }
    }
}

/// Puts the reward at the given position in the given state.
fn set_state_at(rewards: &mut Vec<Reward>, position: usize, state: ObjectState)
    requires
        position < old(rewards).len(),
    ensures
        final(rewards).len() == old(rewards).len(),
        reward_views(final(rewards)@) == reward_views(old(rewards)@).update(
            position as int,
            RewardView { object_state: state, ..old(rewards)@[position as int]@ },
        ),
{
    rewards[position].set_object_state(state);
    assert(reward_views(rewards@) =~= reward_views(old(rewards)@).update(
        position as int,
        RewardView { object_state: state, ..old(rewards)@[position as int]@ },
    ));
}

/// Whether two giveaways have the same description and the same rewards,
/// told by their identifiers, in the same order.
pub open spec fn alike(one: GiveawayView, other: GiveawayView) -> bool {
    &&& one.description == other.description
    &&& one.rewards.len() == other.rewards.len()
    &&& forall|i: int| 0 <= i < one.rewards.len() ==> one.rewards[i].id == other.rewards[i].id
}

impl PartialEq for Giveaway {
    /// Two giveaways are equal where they have the same description and
    /// the same rewards.
    fn eq(&self, other: &Giveaway) -> (equal: bool) {
        if self.description != other.description || self.rewards.len() != other.rewards.len() {
            return false;
        }
        let mut i: usize = 0;
        while i < self.rewards.len()
            invariant
                i <= self.rewards.len() == other.rewards.len(),
                forall|k: int| 0 <= k < i ==> self@.rewards[k].id == other@.rewards[k].id,
            decreases self.rewards.len() - i,
        {
            assert(self@.rewards[i as int] == self.rewards@[i as int]@);
            assert(other@.rewards[i as int] == other.rewards@[i as int]@);
            if self.rewards[i].id() != other.rewards[i].id() {
                return false;
            }
            i += 1;
        }
        true
    }
}

impl vstd::std_specs::cmp::PartialEqSpecImpl for Giveaway {
    open spec fn obeys_eq_spec() -> bool {
        true
    }

    open spec fn eq_spec(&self, other: &Giveaway) -> bool {
        alike(self@, other@)
    }
}

impl Eq for Giveaway {

}

impl Clone for Giveaway {
    /// A second giveaway with the same owner, rewards and ledgers.
    fn clone(&self) -> (same: Giveaway)
        ensures
            same@ == self@,
    {
        Giveaway {
            active: self.active,
            owner: self.owner.clone(),
            description: self.description.clone(),
            rewards: self.get_available_rewards(),
            stats: copy_table(&self.stats),
            strategy: ManualSelectStrategy::new(),
            message_id: message_cell(load_message(&self.message_id)),
            actions_required_to_output: self.actions_required_to_output,
            actions_processed: self.actions_processed,
            reward_formatter: DefaultRewardFormatter::new(),
        }
    }
}

/// A roll moves no reward but along the graph of states: the reward that it
/// hands out goes from unused to pending, or to activated where it is a
/// pre-order, and every other reward stays as it is.
pub proof fn lemma_roll_follows_graph(
    giveaway: GiveawayView,
    user: ParticipantView,
    reward_number: usize,
)
    ensures
        match manual_roll(roll_request(giveaway, user, reward_number)) {
            Ok(position) => rewards_follow_graph(
                giveaway.rewards,
                claimed(giveaway, user.user_id, position).rewards,
            ) && giveaway.rewards[position].object_state == ObjectState::Unused,
            Err(_) => true,
        },
{
}

/// A confirmation moves no reward but along the graph of states: the reward
/// that it confirms goes from pending to activated, and every other reward
/// stays as it is.
pub proof fn lemma_confirm_follows_graph(giveaway: GiveawayView, user_id: u64, reward_index: usize)
    ensures
        match answer_outcome(giveaway, user_id, reward_index, true) {
            Ok(position) => rewards_follow_graph(
                giveaway.rewards,
                confirmed(giveaway, user_id, position).rewards,
            ) && giveaway.rewards[position].object_state == ObjectState::Pending,
            Err(_) => true,
        },
{
}

/// A return moves no reward but along the graph of states: the reward that
/// is returned goes from pending to unused, and every other reward stays as
/// it is.
pub proof fn lemma_deny_follows_graph(giveaway: GiveawayView, user_id: u64, reward_index: usize)
    ensures
        match answer_outcome(giveaway, user_id, reward_index, false) {
            Ok(position) => rewards_follow_graph(
                giveaway.rewards,
                denied(giveaway, user_id, position).rewards,
            ) && giveaway.rewards[position].object_state == ObjectState::Pending,
            Err(_) => true,
        },
{
}

/// An activated reward is never confirmed and never returned, whoever asks.
pub proof fn lemma_activated_is_final(
    giveaway: GiveawayView,
    user_id: u64,
    reward_index: usize,
    confirming: bool,
)
    requires
        1 <= reward_index <= giveaway.rewards.len(),
        giveaway.rewards[reward_index - 1].object_state == ObjectState::Activated,
    ensures
        answer_outcome(giveaway, user_id, reward_index, confirming) is Err,
{
}

/// Who holds a pending reward cannot roll: whatever number the participant
/// names, the roll is refused because of the pending reward.
pub proof fn lemma_pending_blocks_roll(
    giveaway: GiveawayView,
    user: ParticipantView,
    reward_number: usize,
)
    requires
        holds_pending(giveaway.rewards, giveaway.stats, user.user_id),
    ensures
        manual_roll(roll_request(giveaway, user, reward_number)) == Err::<int, ErrorKind>(
            ErrorKind::DuplicatePending,
        ),
{
}

/// After a roll that handed out a reward which is no pre-order, the same
/// participant holds a pending reward, so that a second roll is refused
/// whatever number it names.
pub proof fn lemma_second_roll_is_refused(
    giveaway: GiveawayView,
    user: ParticipantView,
    first_number: usize,
    second_number: usize,
)
    requires
        manual_roll(roll_request(giveaway, user, first_number)) is Ok,
        giveaway.rewards[manual_roll(
            roll_request(giveaway, user, first_number),
        )->Ok_0].object_type != ObjectType::KeyPreorder,
    ensures
        manual_roll(
            roll_request(
                claimed(
                    giveaway,
                    user.user_id,
                    manual_roll(roll_request(giveaway, user, first_number))->Ok_0,
                ),
                user,
                second_number,
            ),
        ) == Err::<int, ErrorKind>(ErrorKind::DuplicatePending),
{
    let position = manual_roll(roll_request(giveaway, user, first_number))->Ok_0;
    let after = claimed(giveaway, user.user_id, position);
    assert(after.rewards[position].object_state == ObjectState::Pending);
    assert(after.stats[user.user_id].pending.contains(after.rewards[position].id));
    assert(holds_pending(after.rewards, after.stats, user.user_id));
}

/// Whether the ledger of the participant lists the reward at the given
/// position as pending.
pub open spec fn lists_pending(giveaway: GiveawayView, user_id: u64, position: int) -> bool {
    giveaway.stats.contains_key(user_id) && giveaway.stats[user_id].pending.contains(
        giveaway.rewards[position].id,
    )
}

/// Whether the ledger of the participant lists the reward at the given
/// position as retrieved.
pub open spec fn lists_retrieved(giveaway: GiveawayView, user_id: u64, position: int) -> bool {
    giveaway.stats.contains_key(user_id) && giveaway.stats[user_id].retrieved.contains(
        giveaway.rewards[position].id,
    )
}

/// Whether the ledgers of the giveaway and the states of its rewards agree:
/// no two rewards share an identifier; a reward that a ledger lists as
/// pending is pending, and one that a ledger lists as retrieved is
/// activated; and no reward is listed as pending, or as retrieved, by the
/// ledgers of two participants.
pub open spec fn ledgers_agree(giveaway: GiveawayView) -> bool {
    &&& forall|i: int, j: int|
        0 <= i < j < giveaway.rewards.len() ==> (#[trigger] giveaway.rewards[i]).id
            != (#[trigger] giveaway.rewards[j]).id
    &&& forall|user_id: u64, i: int|
        0 <= i < giveaway.rewards.len() && #[trigger] lists_pending(giveaway, user_id, i)
            ==> giveaway.rewards[i].object_state == ObjectState::Pending
    &&& forall|user_id: u64, i: int|
        0 <= i < giveaway.rewards.len() && #[trigger] lists_retrieved(giveaway, user_id, i)
            ==> giveaway.rewards[i].object_state == ObjectState::Activated
    &&& forall|one: u64, other: u64, i: int|
        0 <= i < giveaway.rewards.len() && one != other
            && #[trigger] lists_pending(giveaway, one, i)
            ==> !#[trigger] lists_pending(giveaway, other, i)
    &&& forall|one: u64, other: u64, i: int|
        0 <= i < giveaway.rewards.len() && one != other && #[trigger] lists_retrieved(
            giveaway,
            one,
            i,
        ) ==> !#[trigger] lists_retrieved(giveaway, other, i)
}

/// In a new giveaway the ledgers and the rewards agree: there are none.
pub proof fn lemma_new_giveaway_agrees(owner: ParticipantView)
    ensures
        ledgers_agree(created_by(owner)),
{
}

/// Where the ledgers and the rewards agree, no ledger lists a reward of the
/// giveaway both as pending and as retrieved, and an unused reward is in
/// nobody's ledger.
pub proof fn lemma_agreement_separates(giveaway: GiveawayView, user_id: u64, position: int)
    requires
        ledgers_agree(giveaway),
        0 <= position < giveaway.rewards.len(),
    ensures
        !(lists_pending(giveaway, user_id, position)
            && lists_retrieved(giveaway, user_id, position)),
        giveaway.rewards[position].object_state == ObjectState::Unused ==> !lists_pending(
            giveaway,
            user_id,
            position,
        ) && !lists_retrieved(giveaway, user_id, position),
{
}

/// A roll keeps the ledgers and the rewards in agreement.
pub proof fn lemma_roll_keeps_agreement(
    giveaway: GiveawayView,
    user: ParticipantView,
    reward_number: usize,
)
    requires
        ledgers_agree(giveaway),
        manual_roll(roll_request(giveaway, user, reward_number)) is Ok,
    ensures
        ledgers_agree(
            claimed(
                giveaway,
                user.user_id,
                manual_roll(roll_request(giveaway, user, reward_number))->Ok_0,
            ),
        ),
{
    let position = manual_roll(roll_request(giveaway, user, reward_number))->Ok_0;
    let after = claimed(giveaway, user.user_id, position);
    assert forall|other: u64, i: int| 0 <= i < after.rewards.len() implies (lists_pending(
        after,
        other,
        i,
    ) ==> lists_pending(giveaway, other, i) || (i == position && other == user.user_id
        && after.rewards[i].object_state == ObjectState::Pending)) && (lists_retrieved(
        after,
        other,
        i,
    ) ==> lists_retrieved(giveaway, other, i) || (i == position && other == user.user_id
        && after.rewards[i].object_state == ObjectState::Activated)) by {
        if i != position {
            assert(giveaway.rewards[i].id != giveaway.rewards[position].id);
        }
    }
}

/// A confirmation keeps the ledgers and the rewards in agreement.
pub proof fn lemma_confirm_keeps_agreement(
    giveaway: GiveawayView,
    user_id: u64,
    reward_index: usize,
)
    requires
        ledgers_agree(giveaway),
        answer_outcome(giveaway, user_id, reward_index, true) is Ok,
    ensures
        ledgers_agree(confirmed(giveaway, user_id, reward_index - 1)),
{
    let position = reward_index - 1;
    let after = confirmed(giveaway, user_id, position);
    assert(lists_pending(giveaway, user_id, position));
    assert forall|other: u64, i: int| 0 <= i < after.rewards.len() implies (lists_pending(
        after,
        other,
        i,
    ) ==> lists_pending(giveaway, other, i) && i != position) && (lists_retrieved(after, other, i)
        ==> lists_retrieved(giveaway, other, i) || (i == position && other == user_id)) by {
        if i != position {
            assert(giveaway.rewards[i].id != giveaway.rewards[position].id);
        } else if other != user_id && lists_pending(after, other, i) {
            assert(lists_pending(giveaway, other, position));
        }
    }
    assert forall|other: u64| user_id != other implies !lists_retrieved(
        after,
        other,
        position,
    ) by {
        if lists_retrieved(after, other, position) {
            assert(lists_retrieved(giveaway, other, position));
        }
    }
}

/// A return keeps the ledgers and the rewards in agreement.
pub proof fn lemma_deny_keeps_agreement(giveaway: GiveawayView, user_id: u64, reward_index: usize)
    requires
        ledgers_agree(giveaway),
        answer_outcome(giveaway, user_id, reward_index, false) is Ok,
    ensures
        ledgers_agree(denied(giveaway, user_id, reward_index - 1)),
{
    let position = reward_index - 1;
    let after = denied(giveaway, user_id, position);
    assert(lists_pending(giveaway, user_id, position));
    assert forall|other: u64, i: int| 0 <= i < after.rewards.len() implies (lists_pending(
        after,
        other,
        i,
    ) ==> lists_pending(giveaway, other, i) && i != position) && (lists_retrieved(after, other, i)
        ==> lists_retrieved(giveaway, other, i)) by {
        if i != position {
            assert(giveaway.rewards[i].id != giveaway.rewards[position].id);
        } else if other != user_id && lists_pending(after, other, i) {
            assert(lists_pending(giveaway, other, position));
        }
    }
}

/// A new unused reward whose identifier no reward of the giveaway has and
/// no ledger lists keeps the ledgers and the rewards in agreement.
pub proof fn lemma_add_keeps_agreement(giveaway: GiveawayView, reward: RewardView)
    requires
        ledgers_agree(giveaway),
        reward.object_state == ObjectState::Unused,
        forall|i: int| 0 <= i < giveaway.rewards.len()
            ==> (#[trigger] giveaway.rewards[i]).id != reward.id,
        forall|user_id: u64| #[trigger]
            giveaway.stats.contains_key(user_id) ==> !giveaway.stats[user_id].pending.contains(
                reward.id,
            ) && !giveaway.stats[user_id].retrieved.contains(reward.id),
    ensures
        ledgers_agree(GiveawayView { rewards: giveaway.rewards.push(reward), ..giveaway }),
{
    let after = GiveawayView { rewards: giveaway.rewards.push(reward), ..giveaway };
    assert forall|other: u64, i: int| 0 <= i < after.rewards.len() implies (lists_pending(
        after,
        other,
        i,
    ) ==> i < giveaway.rewards.len() && lists_pending(giveaway, other, i)) && (lists_retrieved(
        after,
        other,
        i,
    ) ==> i < giveaway.rewards.len() && lists_retrieved(giveaway, other, i)) by {}
}

/// Taking a reward out keeps the ledgers and the rewards in agreement.
pub proof fn lemma_remove_keeps_agreement(giveaway: GiveawayView, position: int)
    requires
        ledgers_agree(giveaway),
        0 <= position < giveaway.rewards.len(),
    ensures
        ledgers_agree(GiveawayView { rewards: giveaway.rewards.remove(position), ..giveaway }),
{
    let after = GiveawayView { rewards: giveaway.rewards.remove(position), ..giveaway };
    assert forall|other: u64, i: int| 0 <= i < after.rewards.len() implies (lists_pending(
        after,
        other,
        i,
    ) ==> lists_pending(giveaway, other, if i < position {
        i
    } else {
        i + 1
    })) && (lists_retrieved(after, other, i) ==> lists_retrieved(
        giveaway,
        other,
        if i < position {
            i
        } else {
            i + 1
        },
    )) by {}
}

} // verus!
