use giveaways::formatters::{DefaultRewardFormatter, RewardFormatter};
use giveaways::giveaway::{Giveaway, OUTPUT_AFTER_GIVEAWAY_COMMANDS};
use giveaways::models::{ObjectState, ObjectType, Participant, Reward};

fn person(user_id: u64, username: &str) -> Participant {
    Participant::new(user_id, username)
}

#[test]
fn models_test_get_giveaway_rewards() {
    let user = person(1, "Test");
    let mut giveaway = Giveaway::new(&user);
    let formatter = DefaultRewardFormatter::new();
    let reward_1 = Reward::new("AAAAA-BBBBB-CCCCC-DDDD [Store] -> Some game");
    let reward_2 = Reward::new("BBBBB-CCCCC-DDDDD-FFFF [Store] -> Some game");
    let reward_3 = Reward::new("CCCCC-DDDDD-FFFFF-EEEE [Store] -> Some game");
    let concurrecy_reward_1 = reward_1.clone();
    let concurrecy_reward_2 = reward_2.clone();
    let concurrecy_reward_3 = reward_3.clone();
    let expected_item_1 = formatter.pretty_print(&concurrecy_reward_1);
    let expected_item_2 = formatter.pretty_print(&concurrecy_reward_2);
    let expected_item_3 = formatter.pretty_print(&concurrecy_reward_3);
    giveaway.add_reward(&reward_1);
    giveaway.add_reward(&reward_2);
    giveaway.add_reward(&reward_3);

    let rewards = giveaway
        .get_available_rewards()
        .iter()
        .map(|obj| formatter.pretty_print(obj))
        .collect::<Vec<String>>();
    assert_eq!(rewards.contains(&expected_item_1), true);
    assert_eq!(rewards.contains(&expected_item_2), true);
    assert_eq!(rewards.contains(&expected_item_3), true);
}

#[test]
fn test_get_giveaway_rewards_for_a_new_giveaway() {
    let user = person(1, "Test");
    let mut giveaway = Giveaway::new(&user);

    let rewards = giveaway.get_available_rewards();
    assert_eq!(rewards.is_empty(), true);
}

#[test]
fn test_add_giveaway_reward_to_the_giveaway() {
    let user = person(1, "Test");
    let mut giveaway = Giveaway::new(&user);
    let reward = Reward::new("AAAAA-BBBBB-CCCCC-DDDD [Store] -> Some game");
    let formatter = DefaultRewardFormatter::new();
    let concurrecy_reward = reward.clone();
    let expected_item = formatter.pretty_print(&concurrecy_reward);

    let old_giveaway_rewards = giveaway.get_available_rewards();
    assert_eq!(old_giveaway_rewards.is_empty(), true);

    giveaway.add_reward(&reward);
    let updated_giveaway_rewards = giveaway
        .get_available_rewards()
        .iter()
        .map(|obj| formatter.pretty_print(obj))
        .collect::<Vec<String>>();
    assert_eq!(updated_giveaway_rewards.contains(&expected_item), true);
}

#[test]
fn test_remove_giveaway_reward_by_index_from_the_giveaway() {
    let user = person(1, "Test");
    let mut giveaway = Giveaway::new(&user);
    let reward = Reward::new("AAAAA-BBBBB-CCCCC-DDDD [Store] -> Some game");
    let formatter = DefaultRewardFormatter::new();
    let concurrecy_reward = reward.clone();
    let expected_item = formatter.pretty_print(&concurrecy_reward);

    let old_giveaway_rewards = giveaway.get_available_rewards();
    assert_eq!(old_giveaway_rewards.is_empty(), true);

    giveaway.add_reward(&reward);
    let updated_giveaway_rewards = giveaway
        .get_available_rewards()
        .iter()
        .map(|obj| formatter.pretty_print(obj))
        .collect::<Vec<String>>();
    assert_eq!(updated_giveaway_rewards.contains(&expected_item), true);

    giveaway.remove_reward_by_index(1).unwrap();
    let latest_giveaway_rewards = giveaway
        .get_available_rewards()
        .iter()
        .map(|obj| formatter.pretty_print(obj))
        .collect::<Vec<String>>();
    assert_eq!(latest_giveaway_rewards.contains(&expected_item), false);
    assert_eq!(latest_giveaway_rewards.is_empty(), true);
}

#[test]
fn test_update_giveaway_actions_processed_counter() {
    let user = person(1, "Test");
    let mut giveaway = Giveaway::new(&user);
    let reward = Reward::new("AAAAA-BBBBB-CCCCC-DDDD [Store] -> Some game");
    giveaway.add_reward(&reward);
    giveaway.activate();

    assert_eq!(giveaway.actions_processed(), 0);

    giveaway.update_actions_processed();
    giveaway.update_actions_processed();
    giveaway.update_actions_processed();
    assert_eq!(giveaway.actions_processed(), 3);
}

#[test]
fn test_reset_giveaway_actions_processed() {
    let user = person(1, "Test");
    let mut giveaway = Giveaway::new(&user);
    let reward = Reward::new("AAAAA-BBBBB-CCCCC-DDDD [Store] -> Some game");
    giveaway.add_reward(&reward);
    giveaway.activate();

    assert_eq!(giveaway.actions_processed(), 0);

    giveaway.update_actions_processed();
    giveaway.update_actions_processed();
    giveaway.update_actions_processed();
    assert_eq!(giveaway.actions_processed(), 3);

    giveaway.reset_actions_processed();
    assert_eq!(giveaway.actions_processed(), 0);
}

#[test]
fn test_reset_giveaway_actions_processed_after_deactivate() {
    let user = person(1, "Test");
    let mut giveaway = Giveaway::new(&user);
    let reward = Reward::new("AAAAA-BBBBB-CCCCC-DDDD [Store] -> Some game");
    giveaway.add_reward(&reward);
    giveaway.activate();

    assert_eq!(giveaway.actions_processed(), 0);

    giveaway.update_actions_processed();
    giveaway.update_actions_processed();
    giveaway.update_actions_processed();
    assert_eq!(giveaway.actions_processed(), 3);

    giveaway.deactivate();
    assert_eq!(giveaway.actions_processed(), 0);
}

#[test]
fn test_is_required_giveaway_state_output_before_reaching_limits_is_false() {
    let user = person(1, "Test");
    let mut giveaway = Giveaway::new(&user);
    let reward = Reward::new("AAAAA-BBBBB-CCCCC-DDDD [Store] -> Some game");
    giveaway.add_reward(&reward);
    giveaway.activate();

    assert_eq!(giveaway.actions_processed(), 0);

    let commands_count = OUTPUT_AFTER_GIVEAWAY_COMMANDS - 1;
    for _ in 0..commands_count {
        giveaway.update_actions_processed();
    }

    assert_eq!(giveaway.is_required_state_output(), false);
    assert_eq!(
        giveaway.actions_processed(),
        commands_count
    );
}

#[test]
fn test_is_required_giveaway_state_output_after_reaching_limits_is_true() {
    let user = person(1, "Test");
    let mut giveaway = Giveaway::new(&user);
    let reward = Reward::new("AAAAA-BBBBB-CCCCC-DDDD [Store] -> Some game");
    giveaway.add_reward(&reward);
    giveaway.activate();

    assert_eq!(giveaway.actions_processed(), 0);

    for _ in 0..OUTPUT_AFTER_GIVEAWAY_COMMANDS {
        giveaway.update_actions_processed();
    }

    assert_eq!(giveaway.is_required_state_output(), true);
    assert_eq!(
        giveaway.actions_processed(),
        OUTPUT_AFTER_GIVEAWAY_COMMANDS
    );
}


#[test]
fn test_get_reward_value() {
    let text = "AAAAA-BBBBB-CCCCC-DDDD [Store] -> Some game";
    let reward = Reward::new(text);

    assert_eq!(reward.value().as_str(), "AAAAA-BBBBB-CCCCC-DDDD")
}

#[test]
fn test_get_reward_value_for_other_type() {
    let text = "just a text";
    let reward = Reward::new(text);

    assert_eq!(reward.value().as_str(), text);
}

#[test]
fn test_get_reward_object_type() {
    let text = "AAAAA-BBBBB-CCCCC-DDDD [Store] -> Some game";
    let reward = Reward::new(text);

    assert_eq!(reward.object_type(), ObjectType::Key)
}

#[test]
fn test_get_reward_type_value_for_other_type() {
    let text = "just a text";
    let reward = Reward::new(text);

    assert_eq!(reward.object_type(), ObjectType::Other);
}

#[test]
fn test_get_reward_state() {
    let text = "AAAAA-BBBBB-CCCCC-DDDD [Store] -> Some game";
    let reward = Reward::new(text);

    assert_eq!(reward.object_state(), ObjectState::Unused)
}

#[test]
fn test_get_reward_state_for_other_type() {
    let text = "just a text";
    let reward = Reward::new(text);

    assert_eq!(reward.object_state(), ObjectState::Unused);
}

#[test]
fn test_set_reward_state() {
    let text = "AAAAA-BBBBB-CCCCC-DDDD [Store] -> Some game";
    let mut reward = Reward::new(text);

    assert_eq!(reward.object_state(), ObjectState::Unused);
    reward.set_object_state(ObjectState::Pending);
    assert_eq!(reward.object_state(), ObjectState::Pending);
}

#[test]
fn test_set_reward_state_for_other_type() {
    let text = "just a text";
    let mut reward = Reward::new(text);

    assert_eq!(reward.object_state(), ObjectState::Unused);
    reward.set_object_state(ObjectState::Pending);
    assert_eq!(reward.object_state(), ObjectState::Pending);
}

#[test]
fn test_is_pre_order_key_returns_true() {
    let text = "AAAAA-BBBBB-CCCCC-DDDD -> Preorder game key";
    let reward = Reward::new(text);

    assert_eq!(reward.is_preorder(), true);
}

#[test]
fn test_is_pre_order_key_returns_false() {
    let text = "AAAAA-BBBBB-CCCCC-DDDD -> Just a regular game key";
    let reward = Reward::new(text);

    assert_eq!(reward.is_preorder(), false);
}
