use giveaways::formatters::{DefaultRewardFormatter, RewardFormatter};
use giveaways::models::{ObjectState, ObjectType, Participant, ParticipantStats, Reward};
use giveaways::text::{
    chars_of, contains, find, is_space_char, mask, parse_index, split_lines, string_of, strip_end,
    strip_start, to_decimal, to_lower, trim,
};

fn chars(text: &str) -> Vec<char> {
    text.chars().collect()
}

fn text(chars: &Vec<char>) -> String {
    chars.iter().collect()
}

#[test]
fn strings_and_characters_convert_both_ways() {
    assert_eq!(chars_of("héllo → wörld"), chars("héllo → wörld"));
    assert_eq!(string_of(&chars("héllo → wörld")), "héllo → wörld");
    assert_eq!(string_of(&vec![]), "");
    assert_eq!(chars_of(""), vec![]);
}

#[test]
fn trim_cuts_what_std_cuts() {
    for sample in [
        "",
        " ",
        "  a  b  ",
        "\t\n\r x \u{b}\u{c}",
        "\u{85}\u{a0}\u{1680}z\u{2000}\u{200a}\u{2028}\u{2029}\u{202f}\u{205f}\u{3000}",
        "\u{200b}kept\u{feff}",
        "no space",
    ] {
        assert_eq!(text(&trim(&chars(sample))), sample.trim());
    }
    for code in 0..0x3100u32 {
        if let Some(c) = char::from_u32(code) {
            assert_eq!(is_space_char(c), c.is_whitespace());
        }
    }
}

#[test]
fn search_finds_what_std_finds() {
    let cases = [
        ("", "", true),
        ("abc", "", true),
        ("", "a", false),
        ("key -> game", "->", true),
        ("key - > game", "->", false),
        ("->", "->", true),
        ("aab", "ab", true),
        ("ab", "abc", false),
        ("xx-", "->", false),
    ];
    for (haystack, needle, found) in cases {
        assert_eq!(contains(&chars(haystack), &chars(needle)), found);
        assert_eq!(haystack.contains(needle), found);
    }
}

#[test]
fn lower_case_touches_ascii_letters_only() {
    assert_eq!(text(&to_lower(&chars("Pre-ORDER Ünïcode Z@[`{"))), "pre-order Ünïcode z@[`{");
}

#[test]
fn numbers_are_written_in_decimal() {
    assert_eq!(text(&to_decimal(0)), "0");
    assert_eq!(text(&to_decimal(9)), "9");
    assert_eq!(text(&to_decimal(10)), "10");
    assert_eq!(text(&to_decimal(1090)), "1090");
    assert_eq!(text(&to_decimal(u64::MAX)), "18446744073709551615");
}

#[test]
fn numbers_are_read_as_std_reads_them() {
    for sample in [
        "", "+", "0", "7", "+7", "007", "42", "-1", "4 2", " 42", "42 ", "4a", "++1", "1+",
        "18446744073709551615", "18446744073709551616", "99999999999999999999999", "٣",
    ] {
        assert_eq!(parse_index(&chars(sample)), sample.parse::<usize>().ok());
    }
}

#[test]
fn lines_are_cut_as_std_cuts_them() {
    for sample in ["", "\n", "a", "a\n", "\na", "a\nb", "a\n\nb\n", "\n\n"] {
        let pieces: Vec<String> = split_lines(&chars(sample)).iter().map(text).collect();
        let expected: Vec<String> = sample.split('\n').map(|piece| piece.to_string()).collect();
        assert_eq!(pieces, expected);
    }
}

#[test]
fn stripping_removes_every_copy() {
    assert_eq!(text(&strip_start(&chars("ababac"), &chars("ab"))), "ac");
    assert_eq!(text(&strip_start(&chars("abab"), &chars("ab"))), "");
    assert_eq!(text(&strip_start(&chars("xab"), &chars("ab"))), "xab");
    assert_eq!(text(&strip_start(&chars("abc"), &chars(""))), "abc");
    assert_eq!(text(&strip_end(&chars("12:::"), ':')), "12");
    assert_eq!(text(&strip_end(&chars(":::"), ':')), "");
    assert_eq!(text(&strip_end(&chars("1:2"), ':')), "1:2");
}

#[test]
fn the_mask_hides_the_last_segment_only() {
    assert_eq!(text(&mask(&chars("AAAAA-BBBBB-CCCCC-DDDD"))), "AAAAA-BBBBB-CCCCC-xxxx");
    assert_eq!(text(&mask(&chars("DDDD"))), "xxxx");
    assert_eq!(text(&mask(&chars("AAAA-"))), "AAAA-");
    assert_eq!(text(&mask(&chars("-é→"))), "-xx");
    assert_eq!(text(&mask(&chars(""))), "");
    let formatter = DefaultRewardFormatter::new();
    assert_eq!(
        formatter.generate_key_with_mask(&Reward::new("AAAAA-BBBBB -> game")),
        "AAAAA-xxxxx"
    );
}

#[test]
fn unused_keys_that_differ_in_the_last_segment_look_alike() {
    let formatter = DefaultRewardFormatter::new();
    let mut one = Reward::new("AAAAA-BBBBB-1111 [Store] -> One game");
    let mut other = Reward::new("AAAAA-BBBBB-2222 [Store] -> Another game");
    assert_eq!(formatter.pretty_print(&one), formatter.pretty_print(&other));
    assert_eq!(formatter.pretty_print(&one), "[ ] AAAAA-BBBBB-xxxx [Store]");
    assert!(!formatter.pretty_print(&one).contains("1111"));

    one.set_object_state(ObjectState::Activated);
    other.set_object_state(ObjectState::Activated);
    assert!(formatter.pretty_print(&one).contains("AAAAA-BBBBB-1111"));
    assert!(formatter.pretty_print(&other).contains("AAAAA-BBBBB-2222"));
    assert_eq!(
        formatter.pretty_print(&one),
        "~~[+] AAAAA-BBBBB-1111 [Store] -> One game~~"
    );
}

#[test]
fn the_owner_sees_every_reward_in_full() {
    let formatter = DefaultRewardFormatter::new();
    assert_eq!(
        formatter.debug_print(&Reward::new("AAAAA-BBBBB-CCCCC-DDDD [Store] -> Some game")),
        "AAAAA-BBBBB-CCCCC-DDDD [Store] -> Some game"
    );
    assert_eq!(formatter.debug_print(&Reward::new("KEY-1->Pre-order")), "KEY-1 -> Pre-order");
    assert_eq!(formatter.debug_print(&Reward::new("KEY-1 [S] ->")), "KEY-1 [S] -> ");
    assert_eq!(formatter.debug_print(&Reward::new("just a text")), "just a text");
}

#[test]
fn a_preorder_key_is_shown_like_a_key() {
    let formatter = DefaultRewardFormatter::new();
    let mut reward = Reward::new("KEY-1234 -> Preorder of a game");
    assert_eq!(reward.object_type(), ObjectType::KeyPreorder);
    assert_eq!(formatter.pretty_print(&reward), "[ ] KEY-xxxx");
    reward.set_object_state(ObjectState::Pending);
    assert_eq!(formatter.pretty_print(&reward), "[?] KEY-1234");
    reward.set_object_state(ObjectState::Activated);
    assert_eq!(formatter.pretty_print(&reward), "~~[+] KEY-1234 -> Preorder of a game~~");
    assert_eq!(ObjectType::Key.as_str(), "Key");
    assert_eq!(ObjectType::KeyPreorder.as_str(), "KeyPreorder");
    assert_eq!(ObjectType::Other.as_str(), "Other");
    assert_eq!(ObjectState::Unused.as_str(), "[ ]");
    assert_eq!(ObjectState::Pending.as_str(), "[?]");
    assert_eq!(ObjectState::Activated.as_str(), "[+]");
}

#[test]
fn rewards_are_told_apart_by_their_identifier() {
    let one = Reward::with_id(1, "same text");
    let other = Reward::with_id(2, "same text");
    let mut again = one.clone();
    again.set_object_state(ObjectState::Pending);
    assert!(one != other);
    assert!(one == again);
    assert_eq!(one.id(), 1);
    assert_eq!(again.object_state(), ObjectState::Pending);
    assert_eq!(one.object_state(), ObjectState::Unused);
    assert!(Reward::new("a").id() != Reward::new("a").id());
}

#[test]
fn a_ledger_keeps_two_sets() {
    let mut stats = ParticipantStats::new();
    assert!(stats.pending_rewards().is_empty());
    stats.add_pending_reward(3);
    stats.add_pending_reward(3);
    stats.add_pending_reward(4);
    stats.add_retrieved_reward(5);
    stats.remove_pending_reward(4);
    stats.remove_pending_reward(9);
    let pending: Vec<u128> = stats.pending_rewards().into_iter().collect();
    let retrieved: Vec<u128> = stats.retrieved_rewards().into_iter().collect();
    assert_eq!(pending, vec![3]);
    assert_eq!(retrieved, vec![5]);
    assert!(stats.has_pending_reward(3) && !stats.has_pending_reward(5));
    assert!(stats.has_retrieved_reward(5) && !stats.has_retrieved_reward(3));
    let copy = stats.clone();
    stats.remove_pending_reward(3);
    assert!(copy.has_pending_reward(3));
}

#[test]
fn a_participant_is_an_identifier_and_a_name() {
    let participant = Participant::new(42, "Name");
    assert_eq!(participant.get_user_id(), 42);
    assert_eq!(participant.get_username(), "Name");
    assert_eq!(participant.clone(), participant);
}

#[test]
fn the_first_position_is_where_std_finds_it() {
    for (haystack, needle) in [
        ("", ""),
        ("abc", ""),
        ("", "a"),
        ("key -> game -> more", "->"),
        ("no arrow", "->"),
        ("aab", "ab"),
        ("-->", "->"),
        ("xx-", "->"),
    ] {
        let expected = haystack.find(needle).unwrap_or(haystack.len());
        assert_eq!(find(&chars(haystack), &chars(needle)), expected);
    }
}
