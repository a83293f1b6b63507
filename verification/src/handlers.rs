//! The commands of the owner's surface: each changes the registry as the
//! caller asks and says what to answer.

use vstd::prelude::*;
use vstd::string::*;
use crate::error::ErrorKind;
use crate::giveaway::{created_by, extended_by, reward_texts, Giveaway, GiveawayView};
use crate::listing::{giveaway_state, giveaways_text, print_giveaways, print_rewards, rewards_text};
use crate::manager::{
    after_answer, after_roll, answer_verdict_at, delete_gate, owner_gate, roll_verdict, same_but_at,
    GiveawayManager,
};
use crate::models::Participant;

verus! {

/// The list of all giveaways.
pub fn list_giveaways(manager: &GiveawayManager) -> (content: String)
    ensures
        content@ == giveaways_text(manager@),
{
    print_giveaways(&manager.get_giveaways())
}

/// Creates a paused giveaway with the given description, owned by the
/// author of the command.
pub fn create_giveaway(
    manager: &mut GiveawayManager,
    author: &Participant,
    description: &str,
) -> (content: String)
    requires
        old(manager)@.len() < old(manager).room(),
    ensures
        final(manager).room() == old(manager).room(),
        final(manager)@ == old(manager)@.push(
            GiveawayView { description: description@, ..created_by(author@) },
        ),
        content@ == "The giveaway has been created!"@,
{
    let giveaway = Giveaway::new(author).with_description(description);
    manager.add_giveaway(giveaway);
    "The giveaway has been created!".to_owned()
}

/// Opens the giveaway to participants and answers with its state, or with
/// the reason of the refusal.
pub fn start_giveaway(
    manager: &mut GiveawayManager,
    author: &Participant,
    giveaway_number: usize,
) -> (content: String)
    ensures
        final(manager).room() == old(manager).room(),
        match owner_gate(old(manager)@, author@.user_id, giveaway_number) {
            Ok(position) => final(manager)@ == old(manager)@.update(
                position,
                GiveawayView { active: true, ..old(manager)@[position] },
            ) && content@ == giveaway_state(giveaway_number, final(manager)@[position]),
            Err(kind) => final(manager)@ == old(manager)@ && content@ == kind.text(),
        },
{
    match manager.activate_giveaway(author, giveaway_number) {
        Ok(_) => match manager.pretty_print_giveaway(giveaway_number) {
            Ok(state) => state,
            Err(refusal) => refusal.to_string(),
        },
        Err(refusal) => refusal.to_string(),
    }
}

/// Closes the giveaway to participants.
pub fn deactivate_giveaway(
    manager: &mut GiveawayManager,
    author: &Participant,
    giveaway_number: usize,
) -> (content: String)
    ensures
        final(manager).room() == old(manager).room(),
        match owner_gate(old(manager)@, author@.user_id, giveaway_number) {
            Ok(position) => final(manager)@ == old(manager)@.update(
                position,
                GiveawayView { active: false, actions_processed: 0, ..old(manager)@[position] },
            ) && content@ == "The giveaway has been deactivated."@,
            Err(kind) => final(manager)@ == old(manager)@ && content@ == kind.text(),
        },
{
    match manager.deactivate_giveaway(author, giveaway_number) {
        Ok(_) => "The giveaway has been deactivated.".to_owned(),
        Err(refusal) => refusal.to_string(),
    }
}

/// Finishes the giveaway: it leaves the registry.
pub fn finish_giveaway(
    manager: &mut GiveawayManager,
    author: &Participant,
    giveaway_number: usize,
) -> (content: String)
    ensures
        final(manager).room() == old(manager).room(),
        match delete_gate(old(manager)@, author@.user_id, giveaway_number) {
            Ok(position) => final(manager)@ == old(manager)@.remove(position) && content@
                == "The giveaway has been finished."@,
            Err(kind) => final(manager)@ == old(manager)@ && content@ == kind.text(),
        },
{
    match manager.delete_giveaway(author, giveaway_number) {
        Ok(_) => "The giveaway has been finished.".to_owned(),
        Err(refusal) => refusal.to_string(),
    }
}

/// The rewards of the giveaway in full, for its owner.
pub fn list_rewards(
    manager: &GiveawayManager,
    author: &Participant,
    giveaway_number: usize,
) -> (content: String)
    ensures
        match owner_gate(manager@, author@.user_id, giveaway_number) {
            Ok(position) => content@ == rewards_text(manager@[position].rewards),
            Err(kind) => content@ == kind.text(),
        },
{
    match manager.get_giveaway_rewards(author, giveaway_number) {
        Ok(items) => print_rewards(&items),
        Err(refusal) => refusal.to_string(),
    }
}

/// Adds the reward that the text describes to the giveaway.
pub fn add_reward(
    manager: &mut GiveawayManager,
    author: &Participant,
    giveaway_number: usize,
    reward: &str,
) -> (content: String)
    ensures
        final(manager).room() == old(manager).room(),
        match owner_gate(old(manager)@, author@.user_id, giveaway_number) {
            Ok(position) => same_but_at(old(manager)@, final(manager)@, position) && extended_by(
                old(manager)@[position],
                final(manager)@[position],
                seq![reward@],
            ) && content@ == "The reward has been added to the giveaway."@,
            Err(kind) => final(manager)@ == old(manager)@ && content@ == kind.text(),
        },
{
    match manager.add_giveaway_reward(author, giveaway_number, reward) {
        Ok(_) => "The reward has been added to the giveaway.".to_owned(),
        Err(refusal) => refusal.to_string(),
    }
}

/// Adds the rewards that the lines of the text describe to the giveaway.
pub fn add_multiple_rewards(
    manager: &mut GiveawayManager,
    author: &Participant,
    giveaway_number: usize,
    rewards: &str,
) -> (content: String)
    ensures
        final(manager).room() == old(manager).room(),
        match owner_gate(old(manager)@, author@.user_id, giveaway_number) {
            Ok(position) => same_but_at(old(manager)@, final(manager)@, position) && extended_by(
                old(manager)@[position],
                final(manager)@[position],
                reward_texts(rewards@),
            ) && content@ == "The reward has been added to the giveaway."@,
            Err(kind) => final(manager)@ == old(manager)@ && content@ == kind.text(),
        },
{
    match manager.add_multiple_giveaway_rewards(author, giveaway_number, rewards) {
        Ok(_) => "The reward has been added to the giveaway.".to_owned(),
        Err(refusal) => refusal.to_string(),
    }
}

/// Takes the reward with the given number out of the giveaway.
pub fn remove_reward(
    manager: &mut GiveawayManager,
    author: &Participant,
    giveaway_number: usize,
    reward_index: usize,
) -> (content: String)
    ensures
        final(manager).room() == old(manager).room(),
        match owner_gate(old(manager)@, author@.user_id, giveaway_number) {
            Ok(position) => if 1 <= reward_index <= old(manager)@[position].rewards.len() {
                final(manager)@ == GiveawayManager::without_reward(
                    old(manager)@,
                    position,
                    reward_index,
                ) && content@ == "The reward has been removed from the giveaway."@
            } else {
                final(manager)@ == old(manager)@ && content@ == ErrorKind::RewardNotFound.text()
            },
            Err(kind) => final(manager)@ == old(manager)@ && content@ == kind.text(),
        },
{
    match manager.remove_giveaway_reward(author, giveaway_number, reward_index) {
        Ok(_) => "The reward has been removed from the giveaway.".to_owned(),
        Err(refusal) => refusal.to_string(),
    }
}

/// Rolls for the reward with the given number and says what to answer:
/// what the strategy has to tell about the reward, if anything, or the
/// reason of the refusal.
pub fn roll_reward(
    manager: &mut GiveawayManager,
    author: &Participant,
    giveaway_number: usize,
    reward_number: usize,
) -> (content: Option<String>)
    ensures
        final(manager).room() == old(manager).room(),
        final(manager)@ == after_roll(old(manager)@, author@, giveaway_number, reward_number),
        match roll_verdict(old(manager)@, author@, giveaway_number, reward_number) {
            Ok(_) => content is None,
            Err(kind) => content is Some && content->Some_0@ == kind.text(),
        },
{
    match manager.roll_reward(author, giveaway_number, reward_number) {
        Ok(response) => response,
        Err(refusal) => Some(refusal.to_string()),
    }
}

/// Confirms the reward with the given number and says what to answer:
/// nothing, or the reason of the refusal.
pub fn confirm_reward(
    manager: &mut GiveawayManager,
    author: &Participant,
    giveaway_number: usize,
    reward_index: usize,
) -> (content: Option<String>)
    ensures
        final(manager).room() == old(manager).room(),
        final(manager)@ == after_answer(
            old(manager)@,
            author@.user_id,
            giveaway_number,
            reward_index,
            true,
        ),
        match answer_verdict_at(
            old(manager)@,
            author@.user_id,
            giveaway_number,
            reward_index,
            true,
        ) {
            Ok(_) => content is None,
            Err(kind) => content is Some && content->Some_0@ == kind.text(),
        },
{
    match manager.confirm_reward(author, giveaway_number, reward_index) {
        Ok(_) => None,
        Err(refusal) => Some(refusal.to_string()),
    }
}

/// Returns the reward with the given number and says what to answer:
/// nothing, or the reason of the refusal.
pub fn deny_reward(
    manager: &mut GiveawayManager,
    author: &Participant,
    giveaway_number: usize,
    reward_index: usize,
) -> (content: Option<String>)
    ensures
        final(manager).room() == old(manager).room(),
        final(manager)@ == after_answer(
            old(manager)@,
            author@.user_id,
            giveaway_number,
            reward_index,
            false,
        ),
        match answer_verdict_at(
            old(manager)@,
            author@.user_id,
            giveaway_number,
            reward_index,
            false,
        ) {
            Ok(_) => content is None,
            Err(kind) => content is Some && content->Some_0@ == kind.text(),
        },
{
    match manager.deny_reward(author, giveaway_number, reward_index) {
        Ok(_) => None,
        Err(refusal) => Some(refusal.to_string()),
    }
}

} // verus!
