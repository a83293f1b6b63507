//! How a roll picks its reward. The one strategy there is lets the
//! participant name the reward by its number.

use vstd::prelude::*;
use dashmap::DashMap;
use crate::error::{Error, ErrorKind};
use crate::ledger::{ledger_of, ledgers};
use crate::models::{
    ObjectState, Participant, ParticipantStats, ParticipantView, Reward, RewardView, StatsView,
};

verus! {

/// The rewards of a collection as plain values, in order.
pub open spec fn reward_views(rewards: Seq<Reward>) -> Seq<RewardView> {
    Seq::new(rewards.len(), |i: int| rewards[i]@)
}

/// What a strategy gets to see of a roll: who asks, the rewards, the number
/// that the participant named, and the ledgers.
pub struct RollOptions<'a> {
    user: &'a Participant,
    rewards: &'a Vec<Reward>,
    reward_number: usize,
    stats: &'a DashMap<u64, ParticipantStats>,
}

/// A roll request as plain values.
pub struct RollView {
    pub user: ParticipantView,
    pub rewards: Seq<RewardView>,
    pub reward_number: usize,
    pub stats: Map<u64, StatsView>,
}

impl<'a> View for RollOptions<'a> {
    type V = RollView;

    closed spec fn view(&self) -> RollView {
        RollView {
            user: self.user@,
            rewards: reward_views(self.rewards@),
            reward_number: self.reward_number,
            stats: ledgers(*self.stats),
        }
    }
}

impl<'a> RollOptions<'a> {
    pub fn new(
        user: &'a Participant,
        rewards: &'a Vec<Reward>,
        reward_number: usize,
        stats: &'a DashMap<u64, ParticipantStats>,
    ) -> (options: RollOptions<'a>)
        ensures
            options@ == (RollView {
                user: user@,
                rewards: reward_views(rewards@),
                reward_number,
                stats: ledgers(*stats),
            }),
    {
        RollOptions { user, rewards, reward_number, stats }
    }

    /// Who asks for a reward.
    pub fn user(&self) -> (user: &'a Participant)
        ensures
            user@ == self@.user,
    {
        self.user
    }

    /// The rewards of the giveaway.
    pub fn rewards(&self) -> (rewards: &'a Vec<Reward>)
        ensures
            reward_views(rewards@) == self@.rewards,
    {
        self.rewards
    }

    /// The number of the reward that the participant named, counted from 1.
    pub fn reward_number(&self) -> (reward_number: usize)
        ensures
            reward_number == self@.reward_number,
    {
        self.reward_number
    }

    /// The ledgers of the giveaway.
    pub fn stats(&self) -> (stats: &'a DashMap<u64, ParticipantStats>)
        ensures
            ledgers(*stats) == self@.stats,
    {
        self.stats
    }
}

/// Whether the participant holds a reward of the collection that is neither
/// confirmed nor returned: a pending reward that the participant's ledger
/// lists as pending.
pub open spec fn holds_pending(
    rewards: Seq<RewardView>,
    stats: Map<u64, StatsView>,
    user_id: u64,
) -> bool {
    exists|i: int|
        0 <= i < rewards.len() && rewards[i].object_state == ObjectState::Pending
            && stats.contains_key(user_id) && stats[user_id].pending.contains(
            #[trigger] rewards[i].id,
        )
}

/// Whether some reward of the collection is unused.
pub open spec fn any_unused(rewards: Seq<RewardView>) -> bool {
    exists|i: int| 0 <= i < rewards.len()
        && (#[trigger] rewards[i]).object_state == ObjectState::Unused
}

/// What a roll by number comes to: the position of the reward to hand out,
/// or the first of these refusals that applies. The giveaway has no rewards;
/// the participant holds a pending reward; no reward is unused; the number
/// names no reward; the reward named is not unused.
pub open spec fn manual_roll(options: RollView) -> Result<int, ErrorKind> {
    if options.rewards.len() == 0 {
        Err(ErrorKind::NoRewards)
    } else if holds_pending(options.rewards, options.stats, options.user.user_id) {
        Err(ErrorKind::DuplicatePending)
    } else if !any_unused(options.rewards) {
        Err(ErrorKind::AllRewardsHandedOut)
    } else if !(1 <= options.reward_number <= options.rewards.len()) {
        Err(ErrorKind::RewardNotFound)
    } else if options.rewards[options.reward_number - 1].object_state != ObjectState::Unused {
        Err(ErrorKind::RewardTaken)
    } else {
        Ok(options.reward_number - 1)
    }
}

/// Whether an outcome is the one that is expected: the same
/// position, or a refusal of the same kind.
pub open spec fn roll_meets(
    outcome: Result<usize, Error>,
    expected: Result<int, ErrorKind>,
) -> bool {
    match expected {
        Ok(position) => outcome == Ok::<usize, Error>(position as usize)
            && 0 <= position <= usize::MAX,
        Err(kind) => outcome is Err && outcome->Err_0.is_kind(kind),
    }
}

/// An algorithm that picks the reward of a roll.
pub trait GiveawayStrategy {
    /// The position, in the collection of the roll, of the reward to hand
    /// out; or why there is none.
    fn roll(&self, options: &RollOptions) -> Result<usize, Error>;

    /// What to tell the participant directly about the reward, if anything.
    fn to_message(&self, reward: &Reward) -> Option<String>;
}

/// The strategy by which the participant names the reward.
#[derive(Debug)]
pub struct ManualSelectStrategy;

impl ManualSelectStrategy {
    pub fn new() -> (strategy: ManualSelectStrategy) {
        ManualSelectStrategy {  }
    }

    fn check_rewards_are_defined(&self, options: &RollOptions) -> (outcome: Result<(), Error>)
        ensures
            options@.rewards.len() > 0 ==> outcome is Ok,
            options@.rewards.len() == 0 ==> outcome is Err && outcome->Err_0.is_kind(
                ErrorKind::NoRewards,
            ),
    {
        if options.rewards().len() == 0 {
            return Err(Error::from_kind(ErrorKind::NoRewards));
        }
        Ok(())
    }

    fn check_user_has_pending_rewards(&self, options: &RollOptions) -> (outcome: Result<(), Error>)
        ensures
            !holds_pending(options@.rewards, options@.stats, options@.user.user_id)
                ==> outcome is Ok,
            holds_pending(options@.rewards, options@.stats, options@.user.user_id)
                ==> outcome is Err
                && outcome->Err_0.is_kind(ErrorKind::DuplicatePending),
    {
        let user_id = options.user().get_user_id();
        let rewards = options.rewards();
        match ledger_of(options.stats(), user_id) {
            None => Ok(()),
            Some(ledger) => {
                let mut i: usize = 0;
                while i < rewards.len()
                    invariant
                        i <= rewards.len(),
                        reward_views(rewards@) == options@.rewards,
                        options@.stats.contains_key(user_id),
                        options@.stats[user_id] == ledger@,
                        user_id == options@.user.user_id,
                        forall|j: int|
                            0 <= j < i
                                ==> !(options@.rewards[j].object_state == ObjectState::Pending
                                && ledger@.pending.contains(#[trigger] options@.rewards[j].id)),
                    decreases rewards.len() - i,
                {
                    assert(options@.rewards[i as int] == rewards@[i as int]@);
                    let is_pending = match rewards[i].object_state() {
                        ObjectState::Pending => true,
                        _ => false,
                    };
                    if is_pending && ledger.has_pending_reward(rewards[i].id()) {
                        return Err(Error::from_kind(ErrorKind::DuplicatePending));
                    }
                    i += 1;
                }
                Ok(())
            },
        }
    }

    fn check_no_unused_rewards(&self, options: &RollOptions) -> (outcome: Result<(), Error>)
        ensures
            any_unused(options@.rewards) ==> outcome is Ok,
            !any_unused(options@.rewards) ==> outcome is Err && outcome->Err_0.is_kind(
                ErrorKind::AllRewardsHandedOut,
            ),
    {
        let rewards = options.rewards();
        let mut i: usize = 0;
        while i < rewards.len()
            invariant
                i <= rewards.len(),
                reward_views(rewards@) == options@.rewards,
                forall|j: int|
                    0 <= j < i
                        ==> (#[trigger] options@.rewards[j]).object_state != ObjectState::Unused,
            decreases rewards.len() - i,
        {
            assert(options@.rewards[i as int] == rewards@[i as int]@);
            match rewards[i].object_state() {
                ObjectState::Unused => {
                    return Ok(());
                },
                _ => {},
            }
            i += 1;
        }
        Err(Error::from_kind(ErrorKind::AllRewardsHandedOut))
    }

    fn get_reward(&self, options: &RollOptions) -> (outcome: Result<usize, Error>)
        ensures
            roll_meets(
                outcome,
                if !(1 <= options@.reward_number <= options@.rewards.len()) {
                    Err(ErrorKind::RewardNotFound)
                } else if options@.rewards[options@.reward_number - 1].object_state
                    != ObjectState::Unused {
                    Err(ErrorKind::RewardTaken)
                } else {
                    Ok(options@.reward_number - 1)
                },
            ),
    {
        let index = options.reward_number();
        let rewards = options.rewards();
        if index > 0 && index <= rewards.len() {
            assert(options@.rewards[index - 1] == rewards@[index - 1]@);
            match rewards[index - 1].object_state() {
                ObjectState::Unused => Ok(index - 1),
                _ => Err(Error::from_kind(ErrorKind::RewardTaken)),
            }
        } else {
            Err(Error::from_kind(ErrorKind::RewardNotFound))
        }
    }
}

impl GiveawayStrategy for ManualSelectStrategy {
    fn roll(&self, options: &RollOptions) -> (outcome: Result<usize, Error>)
        ensures
            roll_meets(outcome, manual_roll(options@)),
    {
        match self.check_rewards_are_defined(options) {
            Err(refusal) => {
                return Err(refusal);
            },
            Ok(_) => {},
        }
        match self.check_user_has_pending_rewards(options) {
            Err(refusal) => {
                return Err(refusal);
            },
            Ok(_) => {},
        }
        match self.check_no_unused_rewards(options) {
            Err(refusal) => {
                return Err(refusal);
            },
            Ok(_) => {},
        }
        self.get_reward(options)
    }

    fn to_message(&self, reward: &Reward) -> (message: Option<String>)
        ensures
            message is None,
    {
        None
    }
}

} // verus!
