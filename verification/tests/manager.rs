use giveaways::error::Error;
use giveaways::giveaway::{Giveaway, OUTPUT_AFTER_GIVEAWAY_COMMANDS};
use giveaways::manager::GiveawayManager;
use giveaways::models::{ObjectState, Participant, Reward};

fn member(user_id: u64, username: &str) -> Participant {
    Participant::new(user_id, username)
}

#[test]
fn manager_test_read_an_new_state() {
    let mut manager = GiveawayManager::new();
    let giveaways = manager.get_giveaways();

    assert_eq!(giveaways.len(), 0);
}

#[test]
fn manager_test_read_after_giveaway_update() {
    let mut manager = GiveawayManager::new();

    let mut giveaways = manager.get_giveaways();
    assert_eq!(giveaways.len(), 0);

    let user = member(1, "Test");
    let mut giveaway = Giveaway::new(&user).with_description("test giveaway");
    manager.add_giveaway(giveaway);
    giveaways = manager.get_giveaways();
    assert_eq!(giveaways.len(), 1);
}

#[test]
fn manager_test_get_error_for_invalid_index_on_read() {
    let mut manager = GiveawayManager::new();

    let result = manager.get_giveaway_by_index(10);
    assert_eq!(result.is_err(), true);
    assert_eq!(
        result.unwrap_err(),
        Error::Giveaway("The requested giveaway was not found.".to_string())
    );
}

#[test]
fn manager_test_delete_giveaway() {
    let mut manager = GiveawayManager::new();
    let user = member(1, "Test");
    let mut giveaway = Giveaway::new(&user).with_description("test giveaway");
    manager.add_giveaway(giveaway);

    let result = manager.delete_giveaway(&user, 1);
    assert_eq!(result.is_ok(), true);
    assert_eq!(result.unwrap(), ());
}

#[test]
fn manager_test_get_error_for_invalid_owner_on_deletion() {
    let mut manager = GiveawayManager::new();
    let owner = member(1, "Owner");
    let mut giveaway = Giveaway::new(&owner).with_description("test giveaway");
    manager.add_giveaway(giveaway);

    let user = member(2, "Test");
    let result = manager.delete_giveaway(&user, 1);
    assert_eq!(result.is_err(), true);
    assert_eq!(
        result.unwrap_err(),
        Error::Giveaway("For deleting this giveaway you need to be its owner.".to_string())
    );
}

#[test]
fn manager_test_get_error_for_invalid_index_on_deletion() {
    let mut manager = GiveawayManager::new();

    let user = member(1, "Test");
    let result = manager.delete_giveaway(&user, 10);
    assert_eq!(result.is_err(), true);
    assert_eq!(
        result.unwrap_err(),
        Error::Giveaway("The requested giveaway was not found.".to_string())
    );
}

#[test]
fn test_activate_giveaway() {
    let mut manager = GiveawayManager::new();
    let user = member(1, "Test");
    let mut giveaway = Giveaway::new(&user).with_description("test giveaway");
    manager.add_giveaway(giveaway);

    let result = manager.activate_giveaway(&user, 1);
    assert_eq!(result.is_ok(), true);

    let giveaway_after_changes = manager.get_giveaway_by_index(1).unwrap();
    assert_eq!(giveaway_after_changes.is_activated(), true);
}

#[test]
fn test_get_error_for_invalid_index_on_activate() {
    let mut manager = GiveawayManager::new();
    let user = member(1, "Test");
    let mut giveaway = Giveaway::new(&user).with_description("test giveaway");
    manager.add_giveaway(giveaway);

    let result = manager.activate_giveaway(&user, 2);
    assert_eq!(result.is_err(), true);
    assert_eq!(
        result.unwrap_err(),
        Error::Giveaway("The requested giveaway was not found.".to_string())
    );
}

#[test]
fn test_get_error_for_invalid_owner_on_activate() {
    let mut manager = GiveawayManager::new();
    let owner = member(1, "Owner");
    let user = member(2, "Test");
    let mut giveaway = Giveaway::new(&owner).with_description("test giveaway");
    manager.add_giveaway(giveaway);

    let result = manager.activate_giveaway(&user, 1);
    assert_eq!(result.is_err(), true);
    assert_eq!(
        result.unwrap_err(),
        Error::Giveaway("For interacting with this giveaway you need to be its owner.".to_string())
    );
}

#[test]
fn test_deactivate_giveaway() {
    let mut manager = GiveawayManager::new();
    let user = member(1, "Test");
    let mut giveaway = Giveaway::new(&user).with_description("test giveaway");
    giveaway.activate();
    manager.add_giveaway(giveaway);

    let result = manager.deactivate_giveaway(&user, 1);
    assert_eq!(result.is_ok(), true);

    let giveaway_after_changes = manager.get_giveaway_by_index(1).unwrap();
    assert_eq!(giveaway_after_changes.is_activated(), false);
}

#[test]
fn test_get_error_for_invalid_index_on_deactivate() {
    let mut manager = GiveawayManager::new();
    let user = member(1, "Test");
    let mut giveaway = Giveaway::new(&user).with_description("test giveaway");
    manager.add_giveaway(giveaway);

    let result = manager.deactivate_giveaway(&user, 2);
    assert_eq!(result.is_err(), true);
    assert_eq!(
        result.unwrap_err(),
        Error::Giveaway("The requested giveaway was not found.".to_string())
    );
}

#[test]
fn test_get_error_for_invalid_owner_on_deactivate() {
    let mut manager = GiveawayManager::new();
    let owner = member(1, "Owner");
    let user = member(2, "Test");
    let mut giveaway = Giveaway::new(&owner).with_description("test giveaway");
    manager.add_giveaway(giveaway);

    let result = manager.deactivate_giveaway(&user, 1);
    assert_eq!(result.is_err(), true);
    assert_eq!(
        result.unwrap_err(),
        Error::Giveaway("For interacting with this giveaway you need to be its owner.".to_string())
    );
}

#[test]
fn manager_test_get_giveaway_rewards() {
    let mut manager = GiveawayManager::new();
    let user = member(1, "Test");
    let mut giveaway = Giveaway::new(&user).with_description("test giveaway");
    manager.add_giveaway(giveaway);

    manager.add_giveaway_reward(&user, 1, "test").unwrap();
    let result = manager.get_giveaway_rewards(&user, 1);
    assert_eq!(result.is_ok(), true);
    assert_eq!(result.unwrap().len(), 1);
}

#[test]
fn test_get_error_for_invalid_index_on_get_giveaway_rewards() {
    let mut manager = GiveawayManager::new();
    let user = member(1, "Test");
    let mut giveaway = Giveaway::new(&user).with_description("test giveaway");
    manager.add_giveaway(giveaway);

    let result = manager.get_giveaway_rewards(&user, 2);
    assert_eq!(result.is_err(), true);
    assert_eq!(
        result.unwrap_err(),
        Error::Giveaway("The requested giveaway was not found.".to_string())
    );
}

#[test]
fn test_get_error_for_invalid_owner_on_get_giveaway_rewards() {
    let mut manager = GiveawayManager::new();
    let owner = member(1, "Owner");
    let user = member(2, "Test");
    let mut giveaway = Giveaway::new(&owner).with_description("test giveaway");
    manager.add_giveaway(giveaway);

    let result = manager.get_giveaway_rewards(&user, 1);
    assert_eq!(result.is_err(), true);
    assert_eq!(
        result.unwrap_err(),
        Error::Giveaway("For interacting with this giveaway you need to be its owner.".to_string())
    );
}

#[test]
fn test_add_giveaway_reward() {
    let mut manager = GiveawayManager::new();
    let owner = member(1, "Owner");
    let mut giveaway = Giveaway::new(&owner).with_description("test giveaway");
    manager.add_giveaway(giveaway);

    let result = manager.add_giveaway_reward(&owner, 1, "test");
    assert_eq!(result.is_ok(), true);

    let updated_giveaway = manager.get_giveaway_by_index(1).unwrap();
    assert_eq!(updated_giveaway.get_available_rewards().len(), 1);
}

#[test]
fn test_get_error_for_invalid_index_on_add_new_giveaway_reward() {
    let mut manager = GiveawayManager::new();
    let user = member(1, "Test");
    let mut giveaway = Giveaway::new(&user).with_description("test giveaway");
    manager.add_giveaway(giveaway);

    let result = manager.add_giveaway_reward(&user, 2, "");
    assert_eq!(result.is_err(), true);
    assert_eq!(
        result.unwrap_err(),
        Error::Giveaway("The requested giveaway was not found.".to_string())
    );
}

#[test]
fn test_get_error_for_invalid_owner_on_add_giveaway_reward() {
    let mut manager = GiveawayManager::new();
    let owner = member(1, "Owner");
    let user = member(2, "Test");
    let mut giveaway = Giveaway::new(&owner).with_description("test giveaway");
    manager.add_giveaway(giveaway);

    let result = manager.add_giveaway_reward(&user, 1, "test");
    assert_eq!(result.is_err(), true);
    assert_eq!(
        result.unwrap_err(),
        Error::Giveaway("For interacting with this giveaway you need to be its owner.".to_string())
    );
}

#[test]
fn test_add_multiple_giveaway_rewards() {
    let mut manager = GiveawayManager::new();
    let owner = member(1, "Owner");
    let mut giveaway = Giveaway::new(&owner).with_description("test giveaway");
    manager.add_giveaway(giveaway);
    let text = "reward #1 \n reward #2 \n reward #3";

    let result = manager.add_multiple_giveaway_rewards(&owner, 1, text);
    assert_eq!(result.is_ok(), true);

    let updated_giveaway = manager.get_giveaway_by_index(1).unwrap();
    assert_eq!(updated_giveaway.get_available_rewards().len(), 3);
}

#[test]
fn test_get_error_for_invalid_index_on_add_multiple_giveaway_rewards() {
    let mut manager = GiveawayManager::new();
    let user = member(1, "Test");
    let mut giveaway = Giveaway::new(&user).with_description("test giveaway");
    manager.add_giveaway(giveaway);

    let result = manager.add_multiple_giveaway_rewards(&user, 2, "");
    assert_eq!(result.is_err(), true);
    assert_eq!(
        result.unwrap_err(),
        Error::Giveaway("The requested giveaway was not found.".to_string())
    );
}

#[test]
fn test_get_error_for_invalid_owner_on_add_multiple_giveaway_rewards() {
    let mut manager = GiveawayManager::new();
    let owner = member(1, "Owner");
    let user = member(2, "Test");
    let mut giveaway = Giveaway::new(&owner).with_description("test giveaway");
    manager.add_giveaway(giveaway);

    let result = manager.add_multiple_giveaway_rewards(&user, 1, "test");
    assert_eq!(result.is_err(), true);
    assert_eq!(
        result.unwrap_err(),
        Error::Giveaway("For interacting with this giveaway you need to be its owner.".to_string())
    );
}

#[test]
fn test_remove_reward() {
    let mut manager = GiveawayManager::new();
    let user = member(1, "Test");
    let mut giveaway = Giveaway::new(&user).with_description("test giveaway");
    manager.add_giveaway(giveaway);

    manager.add_giveaway_reward(&user, 1, "test").unwrap();
    let reward_before_deletion = manager.get_giveaway_rewards(&user, 1).unwrap();
    assert_eq!(reward_before_deletion.len(), 1);

    manager.remove_giveaway_reward(&user, 1, 1).unwrap();
    let reward_after_deletion = manager.get_giveaway_rewards(&user, 1).unwrap();
    assert_eq!(reward_after_deletion.len(), 0);
}

#[test]
fn test_get_error_for_invalid_index_on_remove_reward() {
    let mut manager = GiveawayManager::new();
    let user = member(1, "Test");
    let mut giveaway = Giveaway::new(&user).with_description("test giveaway");
    manager.add_giveaway(giveaway);

    manager.add_giveaway_reward(&user, 1, "test").unwrap();
    let result = manager.remove_giveaway_reward(&user, 1, 2);
    assert_eq!(result.is_err(), true);
    assert_eq!(
        result.unwrap_err(),
        Error::Giveaway("The requested reward was not found.".to_string())
    );
}

#[test]
fn test_get_error_for_invalid_owner_on_remove_reward() {
    let mut manager = GiveawayManager::new();
    let owner = member(1, "Owner");
    let user = member(2, "Test");
    let mut giveaway = Giveaway::new(&owner).with_description("test giveaway");
    manager.add_giveaway(giveaway);

    let result = manager.remove_giveaway_reward(&user, 1, 1);
    assert_eq!(result.is_err(), true);
    assert_eq!(
        result.unwrap_err(),
        Error::Giveaway("For interacting with this giveaway you need to be its owner.".to_string())
    );
}

#[test]
fn test_roll_reward_with_manual_select_strategy_by_default() {
    let mut manager = GiveawayManager::new();
    let owner = member(1, "Owner");
    let mut giveaway = Giveaway::new(&owner).with_description("test giveaway");
    let reward = Reward::new("something");
    giveaway.add_reward(&reward);
    giveaway.activate();
    manager.add_giveaway(giveaway);

    let result = manager.roll_reward(&owner, 1, 1);
    assert_eq!(result.is_ok(), true);
    assert_eq!(result.unwrap(), None);
    let updated_giveaway = manager.get_giveaway_by_index(1).unwrap();
    let updated_rewards = updated_giveaway.get_available_rewards();
    assert_eq!(updated_rewards[0].object_state(), ObjectState::Pending);
}

#[test]
fn test_roll_preorder_reward_with_manual_select_strategy_by_default() {
    let mut manager = GiveawayManager::new();
    let owner = member(1, "Owner");
    let mut giveaway = Giveaway::new(&owner).with_description("test giveaway");
    let reward = Reward::new("AAAAA-BBBBB-CCCCC -> Pre-order something");
    assert_eq!(reward.is_preorder(), true);

    giveaway.add_reward(&reward);
    giveaway.activate();
    manager.add_giveaway(giveaway);

    let result = manager.roll_reward(&owner, 1, 1);
    assert_eq!(result.is_ok(), true);
    assert_eq!(result.unwrap(), None);
    let updated_giveaway = manager.get_giveaway_by_index(1).unwrap();
    let updated_rewards = updated_giveaway.get_available_rewards();
    assert_eq!(updated_rewards[0].object_state(), ObjectState::Activated);
}

#[test]
fn test_get_error_for_inactive_giveaway_on_roll_reward() {
    let mut manager = GiveawayManager::new();
    let owner = member(1, "Owner");
    let mut giveaway = Giveaway::new(&owner).with_description("test giveaway");
    manager.add_giveaway(giveaway);

    let result = manager.roll_reward(&owner, 1, 1);
    assert_eq!(result.is_err(), true);
    assert_eq!(
        result.unwrap_err(),
        Error::Giveaway("The giveaway hasn't started yet or has been suspended by the owner.".to_string())
    );
}

#[test]
fn test_confirm_reward() {
    let mut manager = GiveawayManager::new();
    let owner = member(1, "Owner");
    let mut giveaway = Giveaway::new(&owner).with_description("test giveaway");
    let reward = Reward::new("something");
    giveaway.add_reward(&reward);
    giveaway.activate();
    manager.add_giveaway(giveaway);

    manager.roll_reward(&owner, 1, 1).unwrap();
    let result = manager.confirm_reward(&owner, 1, 1);
    assert_eq!(result.is_ok(), true);
    assert_eq!(result.unwrap(), ());
}

#[test]
fn test_get_error_for_invalid_giveaway_index_on_confirm_reward() {
    let mut manager = GiveawayManager::new();
    let owner = member(1, "Owner");
    let mut giveaway = Giveaway::new(&owner).with_description("test giveaway");
    giveaway.activate();
    manager.add_giveaway(giveaway);

    let result = manager.confirm_reward(&owner, 2, 1);
    assert_eq!(result.is_err(), true);
    assert_eq!(
        result.unwrap_err(),
        Error::Giveaway("The requested giveaway was not found.".to_string())
    );
}

#[test]
fn test_get_error_for_giveaway_in_the_inactive_state_on_confirm_reward() {
    let mut manager = GiveawayManager::new();
    let owner = member(1, "Owner");
    let mut giveaway = Giveaway::new(&owner).with_description("test giveaway");
    manager.add_giveaway(giveaway);

    let result = manager.confirm_reward(&owner, 1, 1);
    assert_eq!(result.is_err(), true);
    assert_eq!(
        result.unwrap_err(),
        Error::Giveaway("The giveaway hasn't started yet or has been suspended by the owner.".to_string())
    );
}

#[test]
fn test_get_error_for_invalid_reward_index_on_confirm_reward() {
    let mut manager = GiveawayManager::new();
    let owner = member(1, "Owner");
    let reward = Reward::new("something");
    let mut giveaway = Giveaway::new(&owner).with_description("test giveaway");
    giveaway.add_reward(&reward);
    giveaway.activate();
    manager.add_giveaway(giveaway);

    let result = manager.confirm_reward(&owner, 1, 10);
    assert_eq!(result.is_err(), true);
    assert_eq!(
        result.unwrap_err(),
        Error::Giveaway("The requested reward was not found.".to_string())
    );
}

#[test]
fn test_get_error_for_already_activated_reward_on_confirm_reward() {
    let mut manager = GiveawayManager::new();
    let owner = member(1, "Owner");
    let reward = Reward::new("something");
    let mut giveaway = Giveaway::new(&owner).with_description("test giveaway");
    giveaway.add_reward(&reward);
    giveaway.activate();
    manager.add_giveaway(giveaway);

    manager.roll_reward(&owner, 1, 1).unwrap();
    manager.confirm_reward(&owner, 1, 1).unwrap();
    let result = manager.confirm_reward(&owner, 1, 1);
    assert_eq!(result.is_err(), true);
    assert_eq!(
        result.unwrap_err(),
        Error::Giveaway("The reward has been activated already.".to_string())
    );
}

#[test]
fn test_get_error_for_invalid_user_on_confirm_reward() {
    let mut manager = GiveawayManager::new();
    let owner = member(1, "Owner");
    let user = member(2, "SomeUser");
    let reward_1 = Reward::new("something");
    let reward_2 = Reward::new("something else");
    let mut giveaway = Giveaway::new(&owner).with_description("test giveaway");
    giveaway.add_reward(&reward_1);
    giveaway.add_reward(&reward_2);
    giveaway.activate();
    manager.add_giveaway(giveaway);

    manager.roll_reward(&owner, 1, 1).unwrap();
    manager.roll_reward(&user, 1, 2).unwrap();
    let result = manager.confirm_reward(&user, 1, 1);
    assert_eq!(result.is_err(), true);
    assert_eq!(
        result.unwrap_err(),
        Error::Giveaway("This reward can't be activated by others.".to_string())
    );
}

#[test]
fn test_get_error_for_unused_reward_on_confirm_reward() {
    let mut manager = GiveawayManager::new();
    let owner = member(1, "Owner");
    let reward_1 = Reward::new("something");
    let reward_2 = Reward::new("something else");
    let mut giveaway = Giveaway::new(&owner).with_description("test giveaway");
    giveaway.add_reward(&reward_1);
    giveaway.add_reward(&reward_2);
    giveaway.activate();
    manager.add_giveaway(giveaway);

    manager.roll_reward(&owner, 1, 1).unwrap();
    let result = manager.confirm_reward(&owner, 1, 2);
    assert_eq!(result.is_err(), true);
    assert_eq!(
        result.unwrap_err(),
        Error::Giveaway("The reward must be rolled before confirming.".to_string())
    );
}

#[test]
fn test_get_error_for_first_command_by_user_in_giveaway_on_confirm_reward() {
    let mut manager = GiveawayManager::new();
    let owner = member(1, "Owner");
    let user = member(2, "SomeUser");
    let reward = Reward::new("something");
    let mut giveaway = Giveaway::new(&owner).with_description("test giveaway");
    giveaway.add_reward(&reward);
    giveaway.activate();
    manager.add_giveaway(giveaway);

    manager.roll_reward(&owner, 1, 1).unwrap();
    let result = manager.confirm_reward(&user, 1, 1);
    assert_eq!(result.is_err(), true);
    assert_eq!(
        result.unwrap_err(),
        Error::Giveaway("The reward must be rolled before confirming.".to_string())
    );
}

#[test]
fn test_deny_reward() {
    let mut manager = GiveawayManager::new();
    let owner = member(1, "Owner");
    let mut giveaway = Giveaway::new(&owner).with_description("test giveaway");
    let reward = Reward::new("something");
    giveaway.add_reward(&reward);
    giveaway.activate();
    manager.add_giveaway(giveaway);

    manager.roll_reward(&owner, 1, 1).unwrap();
    let result = manager.deny_reward(&owner, 1, 1);
    assert_eq!(result.is_ok(), true);
    assert_eq!(result.unwrap(), ());
}

#[test]
fn test_get_error_for_invalid_giveaway_index_on_deny_reward() {
    let mut manager = GiveawayManager::new();
    let owner = member(1, "Owner");
    let mut giveaway = Giveaway::new(&owner).with_description("test giveaway");
    giveaway.activate();
    manager.add_giveaway(giveaway);

    let result = manager.deny_reward(&owner, 2, 1);
    assert_eq!(result.is_err(), true);
    assert_eq!(
        result.unwrap_err(),
        Error::Giveaway("The requested giveaway was not found.".to_string())
    );
}

#[test]
fn test_get_error_for_giveaway_in_the_inactive_state_on_deny_reward() {
    let mut manager = GiveawayManager::new();
    let owner = member(1, "Owner");
    let mut giveaway = Giveaway::new(&owner).with_description("test giveaway");
    manager.add_giveaway(giveaway);

    let result = manager.deny_reward(&owner, 1, 1);
    assert_eq!(result.is_err(), true);
    assert_eq!(
        result.unwrap_err(),
        Error::Giveaway("The giveaway hasn't started yet or has been suspended by the owner.".to_string())
    );
}

#[test]
fn test_get_error_for_invalid_reward_index_on_deny_reward() {
    let mut manager = GiveawayManager::new();
    let owner = member(1, "Owner");
    let reward = Reward::new("something");
    let mut giveaway = Giveaway::new(&owner).with_description("test giveaway");
    giveaway.add_reward(&reward);
    giveaway.activate();
    manager.add_giveaway(giveaway);

    let result = manager.deny_reward(&owner, 1, 10);
    assert_eq!(result.is_err(), true);
    assert_eq!(
        result.unwrap_err(),
        Error::Giveaway("The requested reward was not found.".to_string())
    );
}

#[test]
fn test_get_error_for_already_activated_reward_on_deny_reward() {
    let mut manager = GiveawayManager::new();
    let owner = member(1, "Owner");
    let reward = Reward::new("something");
    let mut giveaway = Giveaway::new(&owner).with_description("test giveaway");
    giveaway.add_reward(&reward);
    giveaway.activate();
    manager.add_giveaway(giveaway);

    manager.roll_reward(&owner, 1, 1).unwrap();
    manager.confirm_reward(&owner, 1, 1).unwrap();
    let result = manager.deny_reward(&owner, 1, 1);
    assert_eq!(result.is_err(), true);
    assert_eq!(
        result.unwrap_err(),
        Error::Giveaway("The reward has been activated already.".to_string())
    );
}

#[test]
fn test_get_error_for_invalid_user_on_deny_reward() {
    let mut manager = GiveawayManager::new();
    let owner = member(1, "Owner");
    let user = member(2, "SomeUser");
    let reward_1 = Reward::new("something");
    let reward_2 = Reward::new("something else");
    let mut giveaway = Giveaway::new(&owner).with_description("test giveaway");
    giveaway.add_reward(&reward_1);
    giveaway.add_reward(&reward_2);
    giveaway.activate();
    manager.add_giveaway(giveaway);

    manager.roll_reward(&owner, 1, 1).unwrap();
    manager.roll_reward(&user, 1, 2).unwrap();
    let result = manager.deny_reward(&user, 1, 1);
    assert_eq!(result.is_err(), true);
    assert_eq!(
        result.unwrap_err(),
        Error::Giveaway("This reward can't be returned by others.".to_string())
    );
}

#[test]
fn test_get_error_for_unused_reward_on_deny_reward() {
    let mut manager = GiveawayManager::new();
    let owner = member(1, "Owner");
    let user = member(2, "SomeUser");
    let reward = Reward::new("something");
    let mut giveaway = Giveaway::new(&owner).with_description("test giveaway");
    giveaway.add_reward(&reward);
    giveaway.activate();
    manager.add_giveaway(giveaway);

    let result = manager.deny_reward(&user, 1, 1);
    assert_eq!(result.is_err(), true);
    assert_eq!(
        result.unwrap_err(),
        Error::Giveaway("The reward must be rolled before return.".to_string())
    );
}

#[test]
fn test_get_error_for_first_command_by_user_in_giveaway_on_deny_reward() {
    let mut manager = GiveawayManager::new();
    let owner = member(1, "Owner");
    let user = member(2, "SomeUser");
    let reward = Reward::new("something");
    let mut giveaway = Giveaway::new(&owner).with_description("test giveaway");
    giveaway.add_reward(&reward);
    giveaway.activate();
    manager.add_giveaway(giveaway);

    manager.roll_reward(&owner, 1, 1).unwrap();
    let result = manager.deny_reward(&user, 1, 1);
    assert_eq!(result.is_err(), true);
    assert_eq!(
        result.unwrap_err(),
        Error::Giveaway("The reward must be rolled before return.".to_string())
    );
}

#[test]
fn test_actions_processing_is_growing_after_roll_command() {
    let mut manager = GiveawayManager::new();
    let owner = member(1, "Owner");
    let reward = Reward::new("something");
    let mut giveaway = Giveaway::new(&owner).with_description("test giveaway");
    giveaway.add_reward(&reward);
    giveaway.activate();
    manager.add_giveaway(giveaway);

    for _ in 0..OUTPUT_AFTER_GIVEAWAY_COMMANDS {
        manager.roll_reward(&owner, 1, 1).ok();
    }

    let updated_giveaway = manager.get_giveaway_by_index(1).unwrap();
    assert_eq!(updated_giveaway.is_required_state_output(), true);
}

#[test]
fn test_actions_processing_is_growing_after_confirm_command() {
    let mut manager = GiveawayManager::new();
    let owner = member(1, "Owner");
    let reward = Reward::new("something");
    let mut giveaway = Giveaway::new(&owner).with_description("test giveaway");
    giveaway.add_reward(&reward);
    giveaway.activate();
    manager.add_giveaway(giveaway);

    for _ in 0..OUTPUT_AFTER_GIVEAWAY_COMMANDS {
        manager.confirm_reward(&owner, 1, 1).ok();
    }

    let updated_giveaway = manager.get_giveaway_by_index(1).unwrap();
    assert_eq!(updated_giveaway.is_required_state_output(), true);
}

#[test]
fn test_actions_processing_is_growing_after_deny_command() {
    let mut manager = GiveawayManager::new();
    let owner = member(1, "Owner");
    let reward = Reward::new("something");
    let mut giveaway = Giveaway::new(&owner).with_description("test giveaway");
    giveaway.add_reward(&reward);
    giveaway.activate();
    manager.add_giveaway(giveaway);

    for _ in 0..OUTPUT_AFTER_GIVEAWAY_COMMANDS {
        manager.deny_reward(&owner, 1, 1).ok();
    }

    let updated_giveaway = manager.get_giveaway_by_index(1).unwrap();
    assert_eq!(updated_giveaway.is_required_state_output(), true);
}
