//! How a reward is written out: in full for the owner, with unused keys
//! partly hidden for everybody else.

use vstd::prelude::*;
use vstd::string::*;
use crate::models::{ObjectState, ObjectType, Reward, RewardView};
use crate::text::{append, chars_of, hyphen_follows, mask, masked, occurs_at, occurs_in, string_of};

verus! {

/// The ways of writing out a reward.
pub trait RewardFormatter {
    /// The reward in full, for the owner of the giveaway.
    fn debug_print(&self, reward: &Reward) -> String;

    /// The reward as the participants of a running giveaway see it.
    fn pretty_print(&self, reward: &Reward) -> String;
}

/// The text, or nothing where there is none.
pub open spec fn text_or_nothing(text: Option<Seq<char>>) -> Seq<char> {
    match text {
        Some(words) => words,
        None => Seq::empty(),
    }
}

/// The key, followed by a blank and the object info where there is one.
pub open spec fn with_info(key: Seq<char>, object_info: Option<Seq<char>>) -> Seq<char> {
    match object_info {
        Some(info) => key + seq![' '] + info,
        None => key,
    }
}

/// The reward in full: a key with its object info, an arrow and its
/// description; a plain reward with its value and description.
pub open spec fn debug_text(reward: RewardView) -> Seq<char> {
    match reward.object_type {
        ObjectType::Other => reward.value + text_or_nothing(reward.description),
        _ => with_info(reward.value, reward.object_info) + seq![' ', '-', '>', ' ']
            + text_or_nothing(reward.description),
    }
}

/// What stands behind the mark of the state: an unused key with its last
/// segment hidden, a pending key as it is, an activated key with its
/// description; a plain reward with its value and description.
pub open spec fn pretty_body(reward: RewardView) -> Seq<char> {
    match reward.object_type {
        ObjectType::Other => reward.value + text_or_nothing(reward.description),
        _ => match reward.object_state {
            ObjectState::Unused => with_info(masked(reward.value), reward.object_info),
            ObjectState::Pending => with_info(reward.value, reward.object_info),
            ObjectState::Activated => with_info(reward.value, reward.object_info) + seq![
                ' ',
                '-',
                '>',
                ' ',
            ] + text_or_nothing(reward.description),
        },
    }
}

/// The reward as participants see it: the mark of its state, a blank and
/// the body, struck through where the reward is activated.
pub open spec fn pretty_text(reward: RewardView) -> Seq<char> {
    let line = reward.object_state.glyph() + seq![' '] + pretty_body(reward);
    if reward.object_state == ObjectState::Activated {
        seq!['~', '~'] + line + seq!['~', '~']
    } else {
        line
    }
}

/// The formatter that giveaways use unless told otherwise.
#[derive(Debug)]
pub struct DefaultRewardFormatter;

fn append_option(text: &mut Vec<char>, tail: &Option<String>)
    ensures
        final(text)@ == old(text)@ + text_or_nothing(tail.deep_view()),
{
    match tail {
        Some(words) => {
            let chars = chars_of(words.as_str());
            append(text, &chars);
        },
        None => {
            assert(text@ + Seq::<char>::empty() == text@);
        },
    }
}

fn append_info(text: &mut Vec<char>, object_info: &Option<String>)
    ensures
        final(text)@ == old(text)@ + with_info(Seq::empty(), object_info.deep_view()),
{
    match object_info {
        Some(info) => {
            text.push(' ');
            let chars = chars_of(info.as_str());
            append(text, &chars);
            assert(text@ == old(text)@ + (Seq::<char>::empty() + seq![' '] + info@));
        },
        None => {
            assert(text@ + Seq::<char>::empty() == text@);
        },
    }
}

fn append_arrow(text: &mut Vec<char>)
    ensures
        final(text)@ == old(text)@ + seq![' ', '-', '>', ' '],
{
    text.push(' ');
    text.push('-');
    text.push('>');
    text.push(' ');
    assert(text@ == old(text)@ + seq![' ', '-', '>', ' ']);
}

proof fn lemma_with_info_splits(key: Seq<char>, object_info: Option<Seq<char>>)
    ensures
        with_info(key, object_info) == key + with_info(Seq::empty(), object_info),
{
    match object_info {
        Some(info) => {
            assert(key + seq![' '] + info == key + (Seq::<char>::empty() + seq![' '] + info));
        },
        None => {
            assert(key + Seq::<char>::empty() == key);
        },
    }
}

impl DefaultRewardFormatter {
    pub fn new() -> (formatter: DefaultRewardFormatter) {
        DefaultRewardFormatter {  }
    }

    /// The key of the reward with its last segment hidden.
    pub fn generate_key_with_mask(&self, reward: &Reward) -> (hidden: String)
        ensures
            hidden@ == masked(reward@.value),
    {
        let value = reward.value();
        string_of(&mask(&chars_of(value.as_str())))
    }

    fn body(&self, reward: &Reward) -> (text: Vec<char>)
        ensures
            text@ == pretty_body(reward@),
    {
        let value = reward.value();
        let mut text = chars_of(value.as_str());
        match reward.object_type() {
            ObjectType::Other => {
                append_option(&mut text, &reward.description());
            },
            _ => {
                proof {
                    lemma_with_info_splits(masked(reward@.value), reward@.object_info);
                    lemma_with_info_splits(reward@.value, reward@.object_info);
                }
                match reward.object_state() {
                    ObjectState::Unused => {
                        text = mask(&text);
                        append_info(&mut text, &reward.object_info());
                    },
                    ObjectState::Pending => {
                        append_info(&mut text, &reward.object_info());
                    },
                    ObjectState::Activated => {
                        append_info(&mut text, &reward.object_info());
                        append_arrow(&mut text);
                        append_option(&mut text, &reward.description());
                    },
                }
            },
        }
        text
    }
}

impl RewardFormatter for DefaultRewardFormatter {
    fn debug_print(&self, reward: &Reward) -> (text: String)
        ensures
            text@ == debug_text(reward@),
    {
        let value = reward.value();
        let mut text = chars_of(value.as_str());
        match reward.object_type() {
            ObjectType::Other => {
                append_option(&mut text, &reward.description());
            },
            _ => {
                proof {
                    lemma_with_info_splits(reward@.value, reward@.object_info);
                }
                append_info(&mut text, &reward.object_info());
                append_arrow(&mut text);
                append_option(&mut text, &reward.description());
            },
        }
        string_of(&text)
    }

    fn pretty_print(&self, reward: &Reward) -> (text: String)
        ensures
            text@ == pretty_text(reward@),
    {
        let state = reward.object_state();
        let mut line: Vec<char> = Vec::new();
        let struck = match state {
            ObjectState::Activated => true,
            _ => false,
        };
        if struck {
            line.push('~');
            line.push('~');
        }
        let mark = chars_of(state.as_str());
        append(&mut line, &mark);
        line.push(' ');
        let body = self.body(reward);
        append(&mut line, &body);
        if struck {
            line.push('~');
            line.push('~');
            assert(line@ == seq!['~', '~'] + (state.glyph() + seq![' '] + pretty_body(reward@))
                + seq!['~', '~']);
        } else {
            assert(line@ == state.glyph() + seq![' '] + pretty_body(reward@));
        }
        string_of(&line)
    }
}

/// Whether two keys have the same length and differ at most behind their
/// last hyphen (anywhere, where they hold no hyphen).
pub open spec fn same_but_last_segment(one: Seq<char>, other: Seq<char>) -> bool {
    &&& one.len() == other.len()
    &&& forall|i: int|
        0 <= i < one.len() ==> (one[i] == '-' <==> other[i] == '-')
    &&& forall|i: int|
        0 <= i < one.len() && hyphen_follows(one, i) ==> one[i] == other[i]
}

/// An unused key never shows its last segment: two unused keys that differ
/// only there, and in what describes them, are written out alike.
pub proof fn lemma_unused_key_hides_last_segment(one: RewardView, other: RewardView)
    requires
        one.object_type != ObjectType::Other,
        other.object_type != ObjectType::Other,
        one.object_state == ObjectState::Unused,
        other.object_state == ObjectState::Unused,
        one.object_info == other.object_info,
        same_but_last_segment(one.value, other.value),
    ensures
        pretty_text(one) == pretty_text(other),
{
    assert forall|i: int| 0 <= i < one.value.len() implies hyphen_follows(one.value, i)
        == hyphen_follows(other.value, i) by {
        if hyphen_follows(one.value, i) {
            let at = choose|at: int| i <= at < one.value.len() && one.value[at] == '-';
            assert(i <= at < other.value.len() && other.value[at] == '-');
        }
        if hyphen_follows(other.value, i) {
            let at = choose|at: int| i <= at < other.value.len() && other.value[at] == '-';
            assert(i <= at < one.value.len() && one.value[at] == '-');
        }
    }
    assert(masked(one.value) =~= masked(other.value));
}

/// An activated reward always shows its value in full.
pub proof fn lemma_activated_reward_shows_value(reward: RewardView)
    requires
        reward.object_state == ObjectState::Activated,
    ensures
        occurs_in(pretty_text(reward), reward.value),
{
    let shown = pretty_text(reward);
    let body = pretty_body(reward);
    let value = reward.value;
    assert(body.subrange(0, value.len() as int) =~= value) by {
        match reward.object_type {
            ObjectType::Other => {},
            _ => {
                match reward.object_info {
                    Some(info) => {},
                    None => {},
                }
            },
        }
    }
    assert(shown.subrange(6, 6 + value.len() as int) =~= value);
    assert(occurs_at(shown, value, 6));
}

} // verus!
