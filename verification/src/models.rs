//! The entities that a giveaway is made of: participants, their ledgers
//! and rewards.

use vstd::prelude::*;
use vstd::string::*;
use std::collections::HashSet;
use crossbeam::atomic::AtomicCell;
use crate::cell::{load_state, state_cell, state_in, store_state};
use crate::parser::{key_groups, parse_message, parsed, ParsedInput, ParsedText};

verus! {

/// What a reward is: a key, a key of a game not yet released, or plain text.
#[derive(Copy, Clone, Debug, PartialEq, Eq, Structural)]
pub enum ObjectType {
    Key,
    KeyPreorder,
    Other,
}

impl ObjectType {
    /// The name of the type.
    pub fn as_str(&self) -> (name: &'static str)
        ensures
            name@ == match *self {
                ObjectType::Key => "Key"@,
                ObjectType::KeyPreorder => "KeyPreorder"@,
                ObjectType::Other => "Other"@,
            },
    {
        match self {
            ObjectType::Key => "Key",
            ObjectType::KeyPreorder => "KeyPreorder",
            ObjectType::Other => "Other",
        }
    }
}

/// Where a reward stands in its life.
#[derive(Copy, Clone, Debug, PartialEq, Eq, Structural)]
pub enum ObjectState {
    /// Somebody took the reward and it worked.
    Activated,
    /// Somebody took the reward and has not said yet whether it worked.
    Pending,
    /// Nobody has taken the reward.
    Unused,
}

impl ObjectState {
    /// The three characters that mark the state in listings.
    pub open spec fn glyph(self) -> Seq<char> {
        match self {
            ObjectState::Activated => seq!['[', '+', ']'],
            ObjectState::Pending => seq!['[', '?', ']'],
            ObjectState::Unused => seq!['[', ' ', ']'],
        }
    }

    /// The three characters that mark the state in listings.
    pub fn as_str(&self) -> (mark: &'static str)
        ensures
            mark@ == self.glyph(),
    {
        proof {
            reveal_strlit("[+]");
            reveal_strlit("[?]");
            reveal_strlit("[ ]");
        }
        let mark = match self {
            ObjectState::Activated => "[+]",
            ObjectState::Pending => "[?]",
            ObjectState::Unused => "[ ]",
        };
        assert(mark@ =~= self.glyph());
        mark
    }
}

/// Who takes part: an identifier that never changes and a name to show.
#[derive(Debug, PartialEq, Eq)]
pub struct Participant {
    user_id: u64,
    username: String,
}

/// A participant as plain values.
pub struct ParticipantView {
    pub user_id: u64,
    pub username: Seq<char>,
}

impl View for Participant {
    type V = ParticipantView;

    closed spec fn view(&self) -> ParticipantView {
        ParticipantView { user_id: self.user_id, username: self.username@ }
    }
}

impl Participant {
    /// The participant with the given identifier and name.
    pub fn new(user_id: u64, username: &str) -> (participant: Participant)
        ensures
            participant@ == (ParticipantView { user_id, username: username@ }),
    {
        Participant { user_id, username: username.to_owned() }
    }

    /// The identifier of the participant.
    pub fn get_user_id(&self) -> (user_id: u64)
        ensures
            user_id == self@.user_id,
    {
        self.user_id
    }

    /// The name of the participant.
    pub fn get_username(&self) -> (username: String)
        ensures
            username@ == self@.username,
    {
        self.username.clone()
    }

}

impl Clone for Participant {
    /// A second value for the same participant.
    fn clone(&self) -> (same: Participant)
        ensures
            same@ == self@,
    {
        Participant { user_id: self.user_id, username: self.username.clone() }
    }
}

/// `HashSet::clone`: the copy holds the elements of the set that it was made
/// from.
#[verifier::external_body]
fn clone_ids(ids: &HashSet<u128>) -> (copy: HashSet<u128>)
    ensures
        copy@ == ids@,
{
    ids.clone()
}

/// What one participant took in one giveaway: the rewards that wait for an
/// answer and the rewards that worked.
#[derive(Debug)]
pub struct ParticipantStats {
    pending_rewards: HashSet<u128>,
    retrieved_rewards: HashSet<u128>,
}

/// A ledger as plain values.
pub struct StatsView {
    pub pending: Set<u128>,
    pub retrieved: Set<u128>,
}

impl View for ParticipantStats {
    type V = StatsView;

    closed spec fn view(&self) -> StatsView {
        StatsView { pending: self.pending_rewards@, retrieved: self.retrieved_rewards@ }
    }
}

impl ParticipantStats {
    /// The ledger of somebody who took nothing yet.
    pub fn new() -> (stats: ParticipantStats)
        ensures
            stats@ == (StatsView { pending: Set::empty(), retrieved: Set::empty() }),
    {
        ParticipantStats { pending_rewards: HashSet::new(), retrieved_rewards: HashSet::new() }
    }

    /// The rewards that were taken and wait for an answer.
    pub fn pending_rewards(&self) -> (ids: HashSet<u128>)
        ensures
            ids@ == self@.pending,
    {
        clone_ids(&self.pending_rewards)
    }

    /// The rewards that were taken and worked.
    pub fn retrieved_rewards(&self) -> (ids: HashSet<u128>)
        ensures
            ids@ == self@.retrieved,
    {
        clone_ids(&self.retrieved_rewards)
    }

    /// Whether the reward waits for this participant's answer.
    pub fn has_pending_reward(&self, value: u128) -> (held: bool)
        ensures
            held == self@.pending.contains(value),
    {
        broadcast use vstd::std_specs::hash::group_hash_axioms;

        self.pending_rewards.contains(&value)
    }

    /// Whether the reward worked for this participant.
    pub fn has_retrieved_reward(&self, value: u128) -> (held: bool)
        ensures
            held == self@.retrieved.contains(value),
    {
        broadcast use vstd::std_specs::hash::group_hash_axioms;

        self.retrieved_rewards.contains(&value)
    }

    /// Notes that the reward was taken and waits for an answer.
    pub fn add_pending_reward(&mut self, value: u128)
        ensures
            final(self)@ == (StatsView { pending: old(self)@.pending.insert(value), ..old(self)@ }),
    {
        broadcast use vstd::std_specs::hash::group_hash_axioms;

        self.pending_rewards.insert(value);
    }

    /// Forgets that the reward waits for an answer.
    pub fn remove_pending_reward(&mut self, value: u128)
        ensures
            final(self)@ == (StatsView { pending: old(self)@.pending.remove(value), ..old(self)@ }),
    {
        broadcast use vstd::std_specs::hash::group_hash_axioms;

        self.pending_rewards.remove(&value);
    }

    /// Notes that the reward worked.
    pub fn add_retrieved_reward(&mut self, value: u128)
        ensures
            final(self)@ == (StatsView {
                retrieved: old(self)@.retrieved.insert(value),
                ..old(self)@
            }),
    {
        broadcast use vstd::std_specs::hash::group_hash_axioms;

        self.retrieved_rewards.insert(value);
    }

}

impl Clone for ParticipantStats {
    /// A second ledger with the same entries.
    fn clone(&self) -> (same: ParticipantStats)
        ensures
            same@ == self@,
    {
        ParticipantStats {
            pending_rewards: clone_ids(&self.pending_rewards),
            retrieved_rewards: clone_ids(&self.retrieved_rewards),
        }
    }
}

/// `uuid::Uuid::new_v4` and `Uuid::as_u128`: a random identifier, as a
/// number. Nothing is promised of it.
#[verifier::external_body]
fn fresh_id() -> u128 {
    uuid::Uuid::new_v4().as_u128()
}

/// One thing that can be claimed.
#[derive(Debug)]
pub struct Reward {
    id: u128,
    value: String,
    description: Option<String>,
    object_info: Option<String>,
    object_type: ObjectType,
    object_state: AtomicCell<ObjectState>,
}

/// A reward as plain values.
pub struct RewardView {
    pub id: u128,
    pub value: Seq<char>,
    pub description: Option<Seq<char>>,
    pub object_info: Option<Seq<char>>,
    pub object_type: ObjectType,
    pub object_state: ObjectState,
}

impl View for Reward {
    type V = RewardView;

    closed spec fn view(&self) -> RewardView {
        RewardView {
            id: self.id,
            value: self.value@,
            description: self.description.deep_view(),
            object_info: self.object_info.deep_view(),
            object_type: self.object_type,
            object_state: state_in(self.object_state),
        }
    }
}

/// The unused reward with the given identifier that a parsed text describes.
pub open spec fn reward_of(id: u128, text: ParsedText) -> RewardView {
    RewardView {
        id,
        value: text.value,
        description: text.description,
        object_info: text.object_info,
        object_type: text.object_type,
        object_state: ObjectState::Unused,
    }
}

fn copy_text(text: &Option<String>) -> (same: Option<String>)
    ensures
        same.deep_view() == text.deep_view(),
{
    match text {
        Some(words) => Some(words.clone()),
        None => None,
    }
}

impl Reward {
    /// A new unused reward, described by the text, under a random identifier.
    pub fn new(value: &str) -> (reward: Reward)
        ensures
            reward@ == reward_of(reward@.id, parsed(value@, key_groups(value@))),
    {
        Reward::with_id(fresh_id(), value)
    }

    /// A new unused reward, described by the text, under the given identifier.
    pub fn with_id(id: u128, value: &str) -> (reward: Reward)
        ensures
            reward@ == reward_of(id, parsed(value@, key_groups(value@))),
    {
        let input = parse_message(value);
        Reward::from_parsed(id, &input)
    }

    /// A new unused reward with the parts of a parsed text, under the given
    /// identifier.
    pub fn from_parsed(id: u128, input: &ParsedInput) -> (reward: Reward)
        ensures
            reward@ == reward_of(id, input@),
    {
        Reward {
            id,
            value: input.value.clone(),
            description: copy_text(&input.description),
            object_info: copy_text(&input.object_info),
            object_type: input.object_type,
            object_state: state_cell(ObjectState::Unused),
        }
    }

    /// The identifier under which ledgers know the reward.
    pub fn id(&self) -> (id: u128)
        ensures
            id == self@.id,
    {
        self.id
    }

    /// The key or the plain text.
    pub fn value(&self) -> (value: String)
        ensures
            value@ == self@.value,
    {
        self.value.clone()
    }

    /// What the reward is, where the text said so.
    pub fn description(&self) -> (description: Option<String>)
        ensures
            description.deep_view() == self@.description,
    {
        copy_text(&self.description)
    }

    /// Where the key can be used, where the text said so.
    pub fn object_info(&self) -> (object_info: Option<String>)
        ensures
            object_info.deep_view() == self@.object_info,
    {
        copy_text(&self.object_info)
    }

    /// Whether the reward is a key, a pre-order or plain text.
    pub fn object_type(&self) -> (object_type: ObjectType)
        ensures
            object_type == self@.object_type,
    {
        self.object_type
    }

    /// Where the reward stands in its life.
    pub fn object_state(&self) -> (object_state: ObjectState)
        ensures
            object_state == self@.object_state,
    {
        load_state(&self.object_state)
    }

    /// Puts the reward in the given state.
    pub fn set_object_state(&mut self, state: ObjectState)
        ensures
            final(self)@ == (RewardView { object_state: state, ..old(self)@ }),
    {
        store_state(&mut self.object_state, state);
    }

    /// Whether the reward is a pre-order, which needs no confirmation.
    pub fn is_preorder(&self) -> (preorder: bool)
        ensures
            preorder == (self@.object_type == ObjectType::KeyPreorder),
    {
        match self.object_type {
            ObjectType::KeyPreorder => true,
            _ => false,
        }
    }
}

impl Clone for Reward {
    /// A second handle on the same reward: same identifier, same state.
    fn clone(&self) -> (same: Reward)
        ensures
            same@ == self@,
    {
        Reward {
            id: self.id,
            value: self.value.clone(),
            description: copy_text(&self.description),
            object_info: copy_text(&self.object_info),
            object_type: self.object_type,
            object_state: state_cell(load_state(&self.object_state)),
        }
    }
}

impl PartialEq for Reward {
    /// Two rewards are the same reward where they have the same identifier.
    fn eq(&self, other: &Reward) -> (equal: bool) {
        self.id == other.id
    }
}

impl vstd::std_specs::cmp::PartialEqSpecImpl for Reward {
    open spec fn obeys_eq_spec() -> bool {
        true
    }

    open spec fn eq_spec(&self, other: &Reward) -> bool {
        self@.id == other@.id
    }
}

impl Eq for Reward {

}

/// Whether `after` is `before` one step later in the life of a reward: the
/// same reward, in the same state or in one that the graph of states leads
/// to. An unused reward becomes pending when it is rolled, or activated at
/// once where it is a pre-order; a pending reward becomes activated when it
/// is confirmed and unused when it is returned; an activated reward stays
/// activated.
pub open spec fn follows_graph(before: RewardView, after: RewardView) -> bool {
    &&& after == (RewardView { object_state: after.object_state, ..before })
    &&& match (before.object_state, after.object_state) {
        (ObjectState::Unused, ObjectState::Unused) => true,
        (ObjectState::Unused, ObjectState::Pending) => before.object_type
            != ObjectType::KeyPreorder,
        (ObjectState::Unused, ObjectState::Activated) => before.object_type
            == ObjectType::KeyPreorder,
        (ObjectState::Pending, _) => true,
        (ObjectState::Activated, ObjectState::Activated) => true,
        (ObjectState::Activated, _) => false,
    }
}

/// Whether the rewards are the same rewards, each one step later in its life.
pub open spec fn rewards_follow_graph(before: Seq<RewardView>, after: Seq<RewardView>) -> bool {
    &&& after.len() == before.len()
    &&& forall|i: int| 0 <= i < before.len() ==> follows_graph(#[trigger] before[i], after[i])
}

} // verus!
