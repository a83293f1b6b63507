//! The registry of giveaways: the one place through which owners and
//! participants reach a giveaway, by its number in the list.

use vstd::prelude::*;
use crate::error::{Error, ErrorKind};
use crate::giveaway::{
    answer_outcome, claimed, confirmed, counted_up, denied, extended_by, giveaway_views,
    ledgers_agree, lemma_confirm_keeps_agreement, lemma_deny_keeps_agreement,
    lemma_roll_keeps_agreement, lists_pending, lists_retrieved, reward_texts, roll_request,
    Giveaway, GiveawayView,
};
use crate::listing::{giveaway_state, print_state};
use crate::models::{rewards_follow_graph, Participant, ParticipantView, Reward};
use crate::registry::{
    list_copy, list_len, list_pop, list_push, list_replace, list_room, listed, new_list, room,
    GiveawayList,
};
use crate::strategies::{manual_roll, reward_views};

verus! {

/// The registry of giveaways.
#[derive(Debug)]
pub struct GiveawayManager {
    giveaways: GiveawayList,
}

impl View for GiveawayManager {
    type V = Seq<GiveawayView>;

    closed spec fn view(&self) -> Seq<GiveawayView> {
        listed(self.giveaways)
    }
}

/// Where the giveaway with the given number, counted from 1, stands in the
/// list; or that there is none.
pub open spec fn located(giveaways: Seq<GiveawayView>, index: usize) -> Result<int, ErrorKind> {
    if 1 <= index <= giveaways.len() {
        Ok(index - 1)
    } else {
        Err(ErrorKind::GiveawayNotFound)
    }
}

/// The two checks before anything that only the owner may do, in their
/// order: the giveaway exists, and the caller owns it.
pub open spec fn owner_gate(giveaways: Seq<GiveawayView>, user_id: u64, index: usize) -> Result<
    int,
    ErrorKind,
> {
    match located(giveaways, index) {
        Err(kind) => Err(kind),
        Ok(position) => if giveaways[position].owner.user_id != user_id {
            Err(ErrorKind::NotOwner)
        } else {
            Ok(position)
        },
    }
}

/// The two checks before anything that participants do, in their order: the
/// giveaway exists, and it is open.
pub open spec fn active_gate(giveaways: Seq<GiveawayView>, index: usize) -> Result<int, ErrorKind> {
    match located(giveaways, index) {
        Err(kind) => Err(kind),
        Ok(position) => if !giveaways[position].active {
            Err(ErrorKind::NotActive)
        } else {
            Ok(position)
        },
    }
}

/// The giveaway after one more participant command was counted.
pub open spec fn counted(giveaway: GiveawayView) -> GiveawayView {
    GiveawayView { actions_processed: counted_up(giveaway.actions_processed), ..giveaway }
}

/// The two checks before a giveaway is deleted, in their order: the
/// giveaway exists, and the caller owns it.
pub open spec fn delete_gate(giveaways: Seq<GiveawayView>, user_id: u64, index: usize) -> Result<
    int,
    ErrorKind,
> {
    match located(giveaways, index) {
        Err(kind) => Err(kind),
        Ok(position) => if giveaways[position].owner.user_id != user_id {
            Err(ErrorKind::NotOwnerOnDelete)
        } else {
            Ok(position)
        },
    }
}

/// Whether the two lists hold the same giveaways but at the given position.
pub open spec fn same_but_at(
    before: Seq<GiveawayView>,
    after: Seq<GiveawayView>,
    position: int,
) -> bool {
    &&& after.len() == before.len()
    &&& forall|i: int| 0 <= i < before.len() && i != position ==> after[i] == before[i]
}

/// What a roll comes to: the position, in the giveaway, of the reward that
/// it hands out; or the first refusal that applies. The giveaway does not
/// exist; it is not open; the strategy refuses the roll.
pub open spec fn roll_verdict(
    giveaways: Seq<GiveawayView>,
    user: ParticipantView,
    index: usize,
    reward_number: usize,
) -> Result<int, ErrorKind> {
    match active_gate(giveaways, index) {
        Err(kind) => Err(kind),
        Ok(position) => manual_roll(
            roll_request(counted(giveaways[position]), user, reward_number),
        ),
    }
}

/// The registry after a roll: an open giveaway counts the command, and
/// where the roll is allowed the participant takes the reward. Nothing
/// changes where the giveaway does not exist or is not open.
pub open spec fn after_roll(
    giveaways: Seq<GiveawayView>,
    user: ParticipantView,
    index: usize,
    reward_number: usize,
) -> Seq<GiveawayView> {
    match active_gate(giveaways, index) {
        Err(_) => giveaways,
        Ok(position) => giveaways.update(
            position,
            match roll_verdict(giveaways, user, index, reward_number) {
                Ok(reward) => claimed(counted(giveaways[position]), user.user_id, reward),
                Err(_) => counted(giveaways[position]),
            },
        ),
    }
}

/// What an answer for a reward comes to, a confirmation or a return: the
/// position of the reward in the giveaway, or the first refusal that
/// applies. The giveaway does not exist; it is not open; the participant
/// may not answer for the reward.
pub open spec fn answer_verdict_at(
    giveaways: Seq<GiveawayView>,
    user_id: u64,
    index: usize,
    reward_index: usize,
    confirming: bool,
) -> Result<int, ErrorKind> {
    match active_gate(giveaways, index) {
        Err(kind) => Err(kind),
        Ok(position) => answer_outcome(
            counted(giveaways[position]),
            user_id,
            reward_index,
            confirming,
        ),
    }
}

/// The registry after an answer for a reward: an open giveaway counts the
/// command, and where the answer is allowed the reward is confirmed or
/// returned. Nothing changes where the giveaway does not exist or is not
/// open.
pub open spec fn after_answer(
    giveaways: Seq<GiveawayView>,
    user_id: u64,
    index: usize,
    reward_index: usize,
    confirming: bool,
) -> Seq<GiveawayView> {
    match active_gate(giveaways, index) {
        Err(_) => giveaways,
        Ok(position) => giveaways.update(
            position,
            match answer_verdict_at(giveaways, user_id, index, reward_index, confirming) {
                Ok(reward) => if confirming {
                    confirmed(counted(giveaways[position]), user_id, reward)
                } else {
                    denied(counted(giveaways[position]), user_id, reward)
                },
                Err(_) => counted(giveaways[position]),
            },
        ),
    }
}

impl GiveawayManager {
    /// How many giveaways the registry can hold at most.
    pub closed spec fn room(&self) -> nat {
        room(self.giveaways)
    }

    /// A registry without giveaways, with room for some.
    pub fn new() -> (manager: GiveawayManager)
        ensures
            manager@ == Seq::<GiveawayView>::empty(),
            manager.room() > 0,
    {
        let manager = GiveawayManager { giveaways: new_list() };
        assert(manager@ =~= Seq::<GiveawayView>::empty());
        manager
    }

    /// Whether the registry can take one more giveaway.
    pub fn has_room(&self) -> (free: bool)
        ensures
            free == (self@.len() < self.room()),
            self@.len() <= self.room(),
    {
        list_len(&self.giveaways) < list_room(&self.giveaways)
    }

    /// Puts the giveaway behind the others.
    pub fn add_giveaway(&mut self, giveaway: Giveaway)
        requires
            old(self)@.len() < old(self).room(),
        ensures
            final(self)@ == old(self)@.push(giveaway@),
            final(self).room() == old(self).room(),
    {
        list_push(&mut self.giveaways, giveaway);
    }

    /// Puts the giveaway behind the others where the registry has room for
    /// it, and hands it back where it has none.
    pub fn try_add_giveaway(&mut self, giveaway: Giveaway) -> (refused: Option<Giveaway>)
        ensures
            final(self).room() == old(self).room(),
            old(self)@.len() < old(self).room()
                ==> refused is None && final(self)@ == old(self)@.push(
                giveaway@,
            ),
            old(self)@.len() >= old(self).room()
                ==> refused == Some(giveaway) && final(self)@ == old(self)@,
    {
        if self.has_room() {
            self.add_giveaway(giveaway);
            None
        } else {
            Some(giveaway)
        }
    }

    /// All giveaways, paused and running, each as a value of its own.
    pub fn get_giveaways(&self) -> (giveaways: Vec<Giveaway>)
        ensures
            giveaway_views(giveaways@) == self@,
    {
        let count = list_len(&self.giveaways);
        let mut giveaways: Vec<Giveaway> = Vec::new();
        let mut i: usize = 0;
        while i < count
            invariant
                count == self@.len(),
                i <= count,
                giveaways.len() == i,
                giveaway_views(giveaways@) == self@.subrange(0, i as int),
            decreases count - i,
        {
            let ghost before = giveaways@;
            match list_copy(&self.giveaways, i) {
                Some(giveaway) => {
                    giveaways.push(giveaway);
                },
                None => {},
            }
            assert(forall|j: int| 0 <= j < i ==> giveaways@[j]@ == giveaway_views(before)[j]);
            assert(giveaway_views(giveaways@) =~= self@.subrange(0, i + 1));
            i += 1;
        }
        assert(self@.subrange(0, count as int) =~= self@);
        giveaways
    }

    /// The giveaway with the given number, counted from 1, as a value of
    /// its own.
    pub fn get_giveaway_by_index(&self, index: usize) -> (outcome: Result<Giveaway, Error>)
        ensures
            match located(self@, index) {
                Ok(position) => outcome is Ok && outcome->Ok_0@ == self@[position],
                Err(kind) => outcome is Err && outcome->Err_0.is_kind(kind),
            },
    {
        if index > 0 && index <= list_len(&self.giveaways) {
            match list_copy(&self.giveaways, index - 1) {
                Some(giveaway) => Ok(giveaway),
                None => Err(Error::from_kind(ErrorKind::GiveawayNotFound)),
            }
        } else {
            Err(Error::from_kind(ErrorKind::GiveawayNotFound))
        }
    }

    fn check_giveaway_owner(user: &Participant, giveaway: &Giveaway) -> (outcome: Result<(), Error>)
        ensures
            user@.user_id == giveaway@.owner.user_id ==> outcome is Ok,
            user@.user_id != giveaway@.owner.user_id ==> outcome is Err && outcome->Err_0.is_kind(
                ErrorKind::NotOwner,
            ),
    {
        if user.get_user_id() != giveaway.owner().get_user_id() {
            return Err(Error::from_kind(ErrorKind::NotOwner));
        }
        Ok(())
    }

    fn check_giveaway_is_active(giveaway: &Giveaway) -> (outcome: Result<(), Error>)
        ensures
            giveaway@.active ==> outcome is Ok,
            !giveaway@.active ==> outcome is Err && outcome->Err_0.is_kind(ErrorKind::NotActive),
    {
        if !giveaway.is_activated() {
            return Err(Error::from_kind(ErrorKind::NotActive));
        }
        Ok(())
    }

    /// Takes the giveaway at the position out of the list for a change; a
    /// paused giveaway without rewards keeps its place meanwhile.
    fn take(&mut self, user: &Participant, position: usize) -> (giveaway: Giveaway)
        requires
            position < old(self)@.len(),
        ensures
            giveaway@ == old(self)@[position as int],
            final(self)@.len() == old(self)@.len(),
            forall|i: int| 0 <= i < old(self)@.len() && i != position
                ==> final(self)@[i] == old(self)@[i],
            final(self).room() == old(self).room(),
    {
        list_replace(&mut self.giveaways, position, Giveaway::new(user))
    }

    /// Puts the giveaway back at its position.
    fn put(&mut self, position: usize, giveaway: Giveaway)
        requires
            position < old(self)@.len(),
        ensures
            final(self)@ == old(self)@.update(position as int, giveaway@),
            final(self).room() == old(self).room(),
    {
        let _ = list_replace(&mut self.giveaways, position, giveaway);
    }

    /// Opens the giveaway to participants. Only its owner may.
    pub fn activate_giveaway(&mut self, user: &Participant, index: usize) -> (outcome: Result<
        (),
        Error,
    >)
        ensures
            final(self).room() == old(self).room(),
            match owner_gate(old(self)@, user@.user_id, index) {
                Ok(position) => outcome is Ok && final(self)@ == old(self)@.update(
                    position,
                    GiveawayView { active: true, ..old(self)@[position] },
                ),
                Err(kind) => outcome is Err && outcome->Err_0.is_kind(kind)
                    && final(self)@ == old(self)@,
            },
    {
        if !(index > 0 && index <= list_len(&self.giveaways)) {
            return Err(Error::from_kind(ErrorKind::GiveawayNotFound));
        }
        let mut giveaway = self.take(user, index - 1);
        let outcome = match GiveawayManager::check_giveaway_owner(user, &giveaway) {
            Ok(_) => {
                giveaway.activate();
                Ok(())
            },
            Err(refusal) => Err(refusal),
        };
        self.put(index - 1, giveaway);
        proof {
            if outcome is Err {
                assert(self@ =~= old(self)@);
            } else {
                assert(self@ =~= old(self)@.update(
                    index - 1,
                    GiveawayView { active: true, ..old(self)@[index - 1] },
                ));
            }
        }
        outcome
    }
    /// Closes the giveaway to participants and starts counting its commands
    /// anew. Only its owner may.
    pub fn deactivate_giveaway(&mut self, user: &Participant, index: usize) -> (outcome: Result<
        (),
        Error,
    >)
        ensures
            final(self).room() == old(self).room(),
            match owner_gate(old(self)@, user@.user_id, index) {
                Ok(position) => outcome is Ok && final(self)@ == old(self)@.update(
                    position,
                    GiveawayView { active: false, actions_processed: 0, ..old(self)@[position] },
                ),
                Err(kind) => outcome is Err && outcome->Err_0.is_kind(kind)
                    && final(self)@ == old(self)@,
            },
    {
        if !(index > 0 && index <= list_len(&self.giveaways)) {
            return Err(Error::from_kind(ErrorKind::GiveawayNotFound));
        }
        let mut giveaway = self.take(user, index - 1);
        let outcome = match GiveawayManager::check_giveaway_owner(user, &giveaway) {
            Ok(_) => {
                giveaway.deactivate();
                Ok(())
            },
            Err(refusal) => Err(refusal),
        };
        self.put(index - 1, giveaway);
        proof {
            if outcome is Err {
                assert(self@ =~= old(self)@);
            } else {
                assert(self@ =~= old(self)@.update(
                    index - 1,
                    GiveawayView { active: false, actions_processed: 0, ..old(self)@[index - 1] },
                ));
            }
        }
        outcome
    }

    /// Takes the giveaway out of the registry; the giveaways behind it move
    /// up by one number. Only its owner may.
    pub fn delete_giveaway(&mut self, user: &Participant, index: usize) -> (outcome: Result<
        (),
        Error,
    >)
        ensures
            final(self).room() == old(self).room(),
            match delete_gate(old(self)@, user@.user_id, index) {
                Ok(position) => outcome is Ok && final(self)@ == old(self)@.remove(position),
                Err(kind) => outcome is Err && outcome->Err_0.is_kind(kind)
                    && final(self)@ == old(self)@,
            },
    {
        let count = list_len(&self.giveaways);
        if !(index > 0 && index <= count) {
            return Err(Error::from_kind(ErrorKind::GiveawayNotFound));
        }
        let position: usize = index - 1;
        let giveaway = self.take(user, position);
        let owned = user.get_user_id() == giveaway.owner().get_user_id();
        self.put(position, giveaway);
        assert(self@ =~= old(self)@);
        if !owned {
            return Err(Error::from_kind(ErrorKind::NotOwnerOnDelete));
        }
        let limit = list_room(&self.giveaways);
        let mut held: Vec<Giveaway> = Vec::new();
        let mut upto: usize = count;
        while upto > position
            invariant
                position < count == old(self)@.len(),
                position <= upto <= count,
                count <= limit == self.room() == old(self).room(),
                self@ == old(self)@.subrange(0, upto as int),
                held.len() == count - upto,
                forall|j: int| 0 <= j < held.len()
                    ==> (#[trigger] held@[j])@ == old(self)@[count - 1 - j],
            decreases upto,
        {
            let ghost before = held@;
            match list_pop(&mut self.giveaways) {
                Some(last) => {
                    held.push(last);
                },
                None => {},
            }
            upto -= 1;
            assert(self@ =~= old(self)@.subrange(0, upto as int));
            assert(forall|j: int| 0 <= j < before.len() ==> held@[j] == before[j]);
        }
        let _ = held.pop();
        let mut done: usize = 0;
        let rest: usize = count - position - 1;
        while done < rest
            invariant
                position < count == old(self)@.len(),
                rest == count - position - 1,
                done <= rest,
                count <= limit == self.room() == old(self).room(),
                self@ == old(self)@.subrange(0, position as int) + old(self)@.subrange(
                    position + 1,
                    position + 1 + done,
                ),
                held.len() == rest - done,
                forall|j: int| 0 <= j < held.len()
                    ==> (#[trigger] held@[j])@ == old(self)@[count - 1 - j],
            decreases rest - done,
        {
            let ghost before = self@;
            match held.pop() {
                Some(next) => {
                    assert(next@ == old(self)@[position + 1 + done]);
                    list_push(&mut self.giveaways, next);
                },
                None => {},
            }
            done += 1;
            assert(self@ =~= old(self)@.subrange(0, position as int) + old(self)@.subrange(
                position + 1,
                position + 1 + done,
            ));
        }
        assert(self@ =~= old(self)@.remove(position as int));
        Ok(())
    }

    /// The rewards of the giveaway, each as a value of its own. Only the
    /// owner of the giveaway may see them.
    pub fn get_giveaway_rewards(&self, user: &Participant, index: usize) -> (outcome: Result<
        Vec<Reward>,
        Error,
    >)
        ensures
            match owner_gate(self@, user@.user_id, index) {
                Ok(position) => outcome is Ok && reward_views(outcome->Ok_0@)
                    == self@[position].rewards,
                Err(kind) => outcome is Err && outcome->Err_0.is_kind(kind),
            },
    {
        let giveaway = match self.get_giveaway_by_index(index) {
            Ok(found) => found,
            Err(refusal) => {
                return Err(refusal);
            },
        };
        match GiveawayManager::check_giveaway_owner(user, &giveaway) {
            Ok(_) => Ok(giveaway.get_available_rewards()),
            Err(refusal) => Err(refusal),
        }
    }

    /// Parses the text into a new reward and puts it behind the rewards of
    /// the giveaway. Only the owner of the giveaway may.
    pub fn add_giveaway_reward(
        &mut self,
        user: &Participant,
        index: usize,
        data: &str,
    ) -> (outcome: Result<(), Error>)
        ensures
            final(self).room() == old(self).room(),
            match owner_gate(old(self)@, user@.user_id, index) {
                Ok(position) => outcome is Ok && same_but_at(old(self)@, final(self)@, position)
                    && extended_by(old(self)@[position], final(self)@[position], seq![data@]),
                Err(kind) => outcome is Err && outcome->Err_0.is_kind(kind)
                    && final(self)@ == old(self)@,
            },
    {
        if !(index > 0 && index <= list_len(&self.giveaways)) {
            return Err(Error::from_kind(ErrorKind::GiveawayNotFound));
        }
        let mut giveaway = self.take(user, index - 1);
        let outcome = match GiveawayManager::check_giveaway_owner(user, &giveaway) {
            Ok(_) => {
                giveaway.add_reward_from_text(data);
                Ok(())
            },
            Err(refusal) => Err(refusal),
        };
        self.put(index - 1, giveaway);
        proof {
            if outcome is Err {
                assert(self@ =~= old(self)@);
            }
        }
        outcome
    }

    /// Parses each line of the text that is not empty into a new reward and
    /// puts them, in the order of the lines, behind the rewards of the
    /// giveaway. Only the owner of the giveaway may.
    pub fn add_multiple_giveaway_rewards(
        &mut self,
        user: &Participant,
        index: usize,
        data: &str,
    ) -> (outcome: Result<(), Error>)
        ensures
            final(self).room() == old(self).room(),
            match owner_gate(old(self)@, user@.user_id, index) {
                Ok(position) => outcome is Ok && same_but_at(old(self)@, final(self)@, position)
                    && extended_by(
                    old(self)@[position],
                    final(self)@[position],
                    reward_texts(data@),
                ),
                Err(kind) => outcome is Err && outcome->Err_0.is_kind(kind)
                    && final(self)@ == old(self)@,
            },
    {
        if !(index > 0 && index <= list_len(&self.giveaways)) {
            return Err(Error::from_kind(ErrorKind::GiveawayNotFound));
        }
        let mut giveaway = self.take(user, index - 1);
        let outcome = match GiveawayManager::check_giveaway_owner(user, &giveaway) {
            Ok(_) => {
                giveaway.add_multiple_rewards(data);
                Ok(())
            },
            Err(refusal) => Err(refusal),
        };
        self.put(index - 1, giveaway);
        proof {
            if outcome is Err {
                assert(self@ =~= old(self)@);
            }
        }
        outcome
    }

    /// The giveaway at the position once the reward with the given number,
    /// counted from 1, is taken out of it, where there is such a reward.
    pub open spec fn without_reward(
        giveaways: Seq<GiveawayView>,
        position: int,
        reward_index: usize,
    ) -> Seq<GiveawayView> {
        giveaways.update(
            position,
            GiveawayView {
                rewards: giveaways[position].rewards.remove(reward_index - 1),
                ..giveaways[position]
            },
        )
    }

    /// Takes the reward with the given number, counted from 1, out of the
    /// giveaway. Only the owner of the giveaway may.
    pub fn remove_giveaway_reward(
        &mut self,
        user: &Participant,
        index: usize,
        reward_index: usize,
    ) -> (outcome: Result<(), Error>)
        ensures
            final(self).room() == old(self).room(),
            match owner_gate(old(self)@, user@.user_id, index) {
                Ok(position) => if 1 <= reward_index <= old(self)@[position].rewards.len() {
                    outcome is Ok && final(self)@ == GiveawayManager::without_reward(
                        old(self)@,
                        position,
                        reward_index,
                    )
                } else {
                    outcome is Err && outcome->Err_0.is_kind(ErrorKind::RewardNotFound)
                        && final(self)@ == old(self)@
                },
                Err(kind) => outcome is Err && outcome->Err_0.is_kind(kind)
                    && final(self)@ == old(self)@,
            },
    {
        if !(index > 0 && index <= list_len(&self.giveaways)) {
            return Err(Error::from_kind(ErrorKind::GiveawayNotFound));
        }
        let mut giveaway = self.take(user, index - 1);
        let outcome = match GiveawayManager::check_giveaway_owner(user, &giveaway) {
            Ok(_) => giveaway.remove_reward_by_index(reward_index),
            Err(refusal) => Err(refusal),
        };
        self.put(index - 1, giveaway);
        proof {
            if outcome is Err {
                assert(self@ =~= old(self)@);
            } else {
                assert(self@
                    =~= GiveawayManager::without_reward(old(self)@, index - 1, reward_index));
            }
        }
        outcome
    }

    /// Hands out the reward that the participant names by its number, where
    /// the giveaway is open and its strategy allows it. Every roll on an
    /// open giveaway counts as a command, also a refused one.
    pub fn roll_reward(
        &mut self,
        user: &Participant,
        index: usize,
        reward_number: usize,
    ) -> (outcome: Result<Option<String>, Error>)
        ensures
            final(self).room() == old(self).room(),
            final(self)@.len() == old(self)@.len(),
            forall|i: int|
                0 <= i < old(self)@.len() ==> rewards_follow_graph(
                    (#[trigger] old(self)@[i]).rewards,
                    final(self)@[i].rewards,
                ),
            final(self)@ == after_roll(old(self)@, user@, index, reward_number),
            match roll_verdict(old(self)@, user@, index, reward_number) {
                Ok(_) => outcome is Ok && outcome->Ok_0 is None,
                Err(kind) => outcome is Err && outcome->Err_0.is_kind(kind),
            },
    {
        if !(index > 0 && index <= list_len(&self.giveaways)) {
            return Err(Error::from_kind(ErrorKind::GiveawayNotFound));
        }
        let mut giveaway = self.take(user, index - 1);
        let outcome = match GiveawayManager::check_giveaway_is_active(&giveaway) {
            Ok(_) => {
                giveaway.update_actions_processed();
                giveaway.roll(user, reward_number)
            },
            Err(refusal) => Err(refusal),
        };
        self.put(index - 1, giveaway);
        proof {
            if active_gate(old(self)@, index) is Err {
                assert(self@ =~= old(self)@);
            }
        }
        outcome
    }

    /// Confirms that the pending reward with the given number worked for
    /// the participant who rolled it, where the giveaway is open. Every
    /// confirmation on an open giveaway counts as a command, also a refused
    /// one.
    pub fn confirm_reward(
        &mut self,
        user: &Participant,
        index: usize,
        reward_index: usize,
    ) -> (outcome: Result<(), Error>)
        ensures
            final(self).room() == old(self).room(),
            final(self)@.len() == old(self)@.len(),
            forall|i: int|
                0 <= i < old(self)@.len() ==> rewards_follow_graph(
                    (#[trigger] old(self)@[i]).rewards,
                    final(self)@[i].rewards,
                ),
            final(self)@ == after_answer(old(self)@, user@.user_id, index, reward_index, true),
            match answer_verdict_at(old(self)@, user@.user_id, index, reward_index, true) {
                Ok(_) => outcome is Ok,
                Err(kind) => outcome is Err && outcome->Err_0.is_kind(kind),
            },
    {
        if !(index > 0 && index <= list_len(&self.giveaways)) {
            return Err(Error::from_kind(ErrorKind::GiveawayNotFound));
        }
        let mut giveaway = self.take(user, index - 1);
        let outcome = match GiveawayManager::check_giveaway_is_active(&giveaway) {
            Ok(_) => {
                giveaway.update_actions_processed();
                giveaway.confirm(user, reward_index)
            },
            Err(refusal) => Err(refusal),
        };
        self.put(index - 1, giveaway);
        proof {
            if active_gate(old(self)@, index) is Err {
                assert(self@ =~= old(self)@);
            }
        }
        outcome
    }

    /// Returns the pending reward with the given number for the participant
    /// who rolled it, where the giveaway is open. Every return on an open
    /// giveaway counts as a command, also a refused one.
    pub fn deny_reward(
        &mut self,
        user: &Participant,
        index: usize,
        reward_index: usize,
    ) -> (outcome: Result<(), Error>)
        ensures
            final(self).room() == old(self).room(),
            final(self)@.len() == old(self)@.len(),
            forall|i: int|
                0 <= i < old(self)@.len() ==> rewards_follow_graph(
                    (#[trigger] old(self)@[i]).rewards,
                    final(self)@[i].rewards,
                ),
            final(self)@ == after_answer(old(self)@, user@.user_id, index, reward_index, false),
            match answer_verdict_at(old(self)@, user@.user_id, index, reward_index, false) {
                Ok(_) => outcome is Ok,
                Err(kind) => outcome is Err && outcome->Err_0.is_kind(kind),
            },
    {
        if !(index > 0 && index <= list_len(&self.giveaways)) {
            return Err(Error::from_kind(ErrorKind::GiveawayNotFound));
        }
        let mut giveaway = self.take(user, index - 1);
        let outcome = match GiveawayManager::check_giveaway_is_active(&giveaway) {
            Ok(_) => {
                giveaway.update_actions_processed();
                giveaway.deny(user, reward_index)
            },
            Err(refusal) => Err(refusal),
        };
        self.put(index - 1, giveaway);
        proof {
            if active_gate(old(self)@, index) is Err {
                assert(self@ =~= old(self)@);
            }
        }
        outcome
    }

    /// Whether the state of the giveaway should be shown now.
    pub fn is_required_state_output(&self, index: usize) -> (outcome: Result<bool, Error>)
        ensures
            match located(self@, index) {
                Ok(position) => outcome is Ok && outcome->Ok_0 == (self@[position].actions_processed
                    == self@[position].actions_required_to_output),
                Err(kind) => outcome is Err && outcome->Err_0.is_kind(kind),
            },
    {
        match self.get_giveaway_by_index(index) {
            Ok(giveaway) => Ok(giveaway.is_required_state_output()),
            Err(refusal) => Err(refusal),
        }
    }
    /// The state of the giveaway as participants see it: a heading with the
    /// number of the giveaway and one line for each reward, with a note on
    /// who took or activated it.
    pub fn pretty_print_giveaway(&self, giveaway_index: usize) -> (outcome: Result<String, Error>)
        ensures
            match located(self@, giveaway_index) {
                Ok(position) => outcome is Ok && outcome->Ok_0@ == giveaway_state(
                    giveaway_index,
                    self@[position],
                ),
                Err(kind) => outcome is Err && outcome->Err_0.is_kind(kind),
            },
    {
        match self.get_giveaway_by_index(giveaway_index) {
            Ok(giveaway) => Ok(print_state(&giveaway, giveaway_index)),
            Err(refusal) => Err(refusal),
        }
    }
    /// Notes the message that shows the giveaway, so that it can be updated
    /// in place.
    pub fn set_message_id(&mut self, index: usize, message_id: Option<u64>) -> (outcome: Result<
        (),
        Error,
    >)
        ensures
            final(self).room() == old(self).room(),
            match located(old(self)@, index) {
                Ok(position) => outcome is Ok && final(self)@ == old(self)@.update(
                    position,
                    GiveawayView { message_id, ..old(self)@[position] },
                ),
                Err(kind) => outcome is Err && outcome->Err_0.is_kind(kind) && final(self)@ == old(
                    self,
                )@,
            },
    {
        if !(index > 0 && index <= list_len(&self.giveaways)) {
            return Err(Error::from_kind(ErrorKind::GiveawayNotFound));
        }
        let owner = Participant::new(0, "");
        let mut giveaway = self.take(&owner, index - 1);
        giveaway.set_message_id(message_id);
        self.put(index - 1, giveaway);
        assert(self@ =~= old(self)@.update(
            index - 1,
            GiveawayView { message_id, ..old(self)@[index - 1] },
        ));
        Ok(())
    }

    /// Starts counting the participant commands of the giveaway anew.
    pub fn reset_actions_processed(&mut self, index: usize) -> (outcome: Result<(), Error>)
        ensures
            final(self).room() == old(self).room(),
            match located(old(self)@, index) {
                Ok(position) => outcome is Ok && final(self)@ == old(self)@.update(
                    position,
                    GiveawayView { actions_processed: 0, ..old(self)@[position] },
                ),
                Err(kind) => outcome is Err && outcome->Err_0.is_kind(kind) && final(self)@ == old(
                    self,
                )@,
            },
    {
        if !(index > 0 && index <= list_len(&self.giveaways)) {
            return Err(Error::from_kind(ErrorKind::GiveawayNotFound));
        }
        let owner = Participant::new(0, "");
        let mut giveaway = self.take(&owner, index - 1);
        giveaway.reset_actions_processed();
        self.put(index - 1, giveaway);
        assert(self@ =~= old(self)@.update(
            index - 1,
            GiveawayView { actions_processed: 0, ..old(self)@[index - 1] },
        ));
        Ok(())
    }
}

/// Who does not own a giveaway is refused by everything that only the owner
/// may do: opening and closing it, adding and removing rewards, reading its
/// rewards, and deleting it.
pub proof fn lemma_stranger_is_refused(giveaways: Seq<GiveawayView>, user_id: u64, index: usize)
    requires
        1 <= index <= giveaways.len(),
        giveaways[index - 1].owner.user_id != user_id,
    ensures
        owner_gate(giveaways, user_id, index) == Err::<int, ErrorKind>(ErrorKind::NotOwner),
        delete_gate(giveaways, user_id, index)
            == Err::<int, ErrorKind>(ErrorKind::NotOwnerOnDelete),
{
}

/// The checks come in their order: a number that names no giveaway is
/// refused as such whoever asks, before ownership or activation is looked at.
pub proof fn lemma_existence_comes_first(giveaways: Seq<GiveawayView>, user_id: u64, index: usize)
    requires
        !(1 <= index <= giveaways.len()),
    ensures
        owner_gate(giveaways, user_id, index) == Err::<int, ErrorKind>(ErrorKind::GiveawayNotFound),
        delete_gate(giveaways, user_id, index)
            == Err::<int, ErrorKind>(ErrorKind::GiveawayNotFound),
        active_gate(giveaways, index) == Err::<int, ErrorKind>(ErrorKind::GiveawayNotFound),
{
}

/// Whether in every giveaway of the registry the ledgers and the rewards
/// agree.
pub open spec fn all_agree(giveaways: Seq<GiveawayView>) -> bool {
    forall|i: int| 0 <= i < giveaways.len() ==> ledgers_agree(#[trigger] giveaways[i])
}

/// Counting a command leaves the ledgers and the rewards of a giveaway in
/// agreement.
pub proof fn lemma_counting_keeps_agreement(giveaway: GiveawayView)
    requires
        ledgers_agree(giveaway),
    ensures
        ledgers_agree(counted(giveaway)),
{
    let after = counted(giveaway);
    assert forall|user_id: u64, i: int| 0 <= i < after.rewards.len() implies lists_pending(
        after,
        user_id,
        i,
    ) == lists_pending(giveaway, user_id, i) && lists_retrieved(after, user_id, i)
        == lists_retrieved(giveaway, user_id, i) by {}
}

/// A roll, allowed or refused, leaves the ledgers and the rewards of every
/// giveaway in agreement.
pub proof fn lemma_roll_keeps_all_agreeing(
    giveaways: Seq<GiveawayView>,
    user: ParticipantView,
    index: usize,
    reward_number: usize,
)
    requires
        all_agree(giveaways),
    ensures
        all_agree(after_roll(giveaways, user, index, reward_number)),
{
    if let Ok(position) = active_gate(giveaways, index) {
        lemma_counting_keeps_agreement(giveaways[position]);
        if roll_verdict(giveaways, user, index, reward_number) is Ok {
            lemma_roll_keeps_agreement(counted(giveaways[position]), user, reward_number);
        }
    }
}

/// A confirmation or a return, allowed or refused, leaves the ledgers and
/// the rewards of every giveaway in agreement.
pub proof fn lemma_answer_keeps_all_agreeing(
    giveaways: Seq<GiveawayView>,
    user_id: u64,
    index: usize,
    reward_index: usize,
    confirming: bool,
)
    requires
        all_agree(giveaways),
    ensures
        all_agree(after_answer(giveaways, user_id, index, reward_index, confirming)),
{
    if let Ok(position) = active_gate(giveaways, index) {
        lemma_counting_keeps_agreement(giveaways[position]);
        if answer_verdict_at(giveaways, user_id, index, reward_index, confirming) is Ok {
            if confirming {
                lemma_confirm_keeps_agreement(counted(giveaways[position]), user_id, reward_index);
            } else {
                lemma_deny_keeps_agreement(counted(giveaways[position]), user_id, reward_index);
            }
        }
    }
}

} // verus!
