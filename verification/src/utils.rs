//! What the chat side needs to mirror a giveaway into a channel: which
//! message shows it, what to write there, and when to show it again.

use vstd::prelude::*;
use vstd::string::*;
use crate::error::Error;
use crate::giveaway::GiveawayView;
use crate::listing::{giveaway_state, numbered_lines, state_lines};
use crate::manager::{located, GiveawayManager};
use crate::text::{
    chars_of, decimal, index_of, is_digit, lemma_decimal_writes_number, lemma_first_line,
    lemma_first_line_exists, lines, matches_at, occurs_at, parse_index, split_lines, strip_end,
    strip_start, stripped_end, stripped_start, unsigned,
};

verus! {

/// The number of the giveaway whose state a message shows: the message
/// starts with the heading of a state, and what stands on its first line
/// between the heading's words and its colon writes the number. A message
/// that does not start so, or writes no number that fits, shows none.
pub open spec fn heading_index(content: Seq<char>) -> Option<usize> {
    if occurs_at(content, "Giveaway #"@, 0) {
        index_of(stripped_end(stripped_start(lines(content)[0], "Giveaway #"@), ':'))
    } else {
        None
    }
}

/// The number of the giveaway whose state the message shows, where the
/// message is one of the bot's own and shows a state.
pub fn state_message_index(author_id: u64, bot_id: u64, content: &str) -> (index: Option<usize>)
    ensures
        index == if author_id == bot_id {
            heading_index(content@)
        } else {
            None
        },
{
    if author_id != bot_id {
        return None;
    }
    let heading = chars_of("Giveaway #");
    let text = chars_of(content);
    if !matches_at(&text, &heading, 0) {
        return None;
    }
    let substrings = split_lines(&text);
    proof {
        lemma_first_line_exists(text@);
    }
    assert(lines(text@)[0] == substrings@[0]@);
    parse_index(&strip_end(&strip_start(&substrings[0], &heading), ':'))
}

/// What to do with the channel so that it shows the state of a giveaway.
#[derive(Debug)]
pub enum MessageUpdate {
    /// Put the text in place of the message that shows the giveaway.
    Edit { message_id: u64, content: String },
    /// Send the text as a new message.
    Say { content: String },
}

/// How the channel is brought up to date with the giveaway: by editing the
/// message that shows it, where one was noted, else by a new message; either
/// way with the state of the giveaway as participants see it.
pub fn update_giveaway_message(manager: &GiveawayManager, index: usize) -> (outcome: Result<
    MessageUpdate,
    Error,
>)
    ensures
        match located(manager@, index) {
            Ok(position) => outcome is Ok && match manager@[position].message_id {
                Some(message_id) => outcome->Ok_0 matches MessageUpdate::Edit {
                    message_id: edited,
                    content,
                } && edited == message_id && content@ == giveaway_state(index, manager@[position]),
                None => outcome->Ok_0 matches MessageUpdate::Say { content } && content@
                    == giveaway_state(index, manager@[position]),
            },
            Err(kind) => outcome is Err && outcome->Err_0.is_kind(kind),
        },
{
    let giveaway = match manager.get_giveaway_by_index(index) {
        Ok(giveaway) => giveaway,
        Err(refusal) => {
            return Err(refusal);
        },
    };
    let content = match manager.pretty_print_giveaway(index) {
        Ok(output) => output,
        Err(refusal) => {
            return Err(refusal);
        },
    };
    match giveaway.get_message_id() {
        Some(message_id) => Ok(MessageUpdate::Edit { message_id, content }),
        None => Ok(MessageUpdate::Say { content }),
    }
}

/// The state of the giveaway to show now, where its counter of commands
/// stands at the threshold; the counter then starts anew. Nothing to show
/// and nothing changed where it does not.
pub fn periodic_giveaway_state_output(
    manager: &mut GiveawayManager,
    index: usize,
) -> (outcome: Result<Option<String>, Error>)
    ensures
        final(manager).room() == old(manager).room(),
        match located(old(manager)@, index) {
            Ok(position) => outcome is Ok && if old(manager)@[position].actions_processed == old(
                manager,
            )@[position].actions_required_to_output {
                &&& outcome->Ok_0 is Some
                &&& outcome->Ok_0->Some_0@ == giveaway_state(index, old(manager)@[position])
                &&& final(manager)@ == old(manager)@.update(
                    position,
                    GiveawayView { actions_processed: 0, ..old(manager)@[position] },
                )
            } else {
                outcome->Ok_0 is None && final(manager)@ == old(manager)@
            },
            Err(kind) => outcome is Err && outcome->Err_0.is_kind(kind) && final(manager)@ == old(
                manager,
            )@,
        },
{
    let required = match manager.is_required_state_output(index) {
        Ok(required) => required,
        Err(refusal) => {
            return Err(refusal);
        },
    };
    if !required {
        return Ok(None);
    }
    match manager.reset_actions_processed(index) {
        Ok(_) => {},
        Err(refusal) => {
            return Err(refusal);
        },
    }
    match manager.pretty_print_giveaway(index) {
        Ok(response) => Ok(Some(response)),
        Err(refusal) => Err(refusal),
    }
}

/// The state that the registry writes for a giveaway is recognised as the
/// state of that giveaway: its heading gives the number back.
pub proof fn lemma_written_state_is_recognised(index: usize, giveaway: GiveawayView)
    ensures
        heading_index(giveaway_state(index, giveaway)) == Some(index),
{
    reveal_strlit("Giveaway #");
    reveal_strlit(":\n");
    let heading = "Giveaway #"@;
    let digits = decimal(index as nat);
    let rest = numbered_lines(
        state_lines(giveaway.rewards, giveaway.stats),
        giveaway.rewards.len() as int,
    );
    let state = giveaway_state(index, giveaway);
    let head = heading + digits + seq![':'];
    lemma_decimal_writes_number(index as nat);
    assert(state =~= head + seq!['\n'] + rest);
    assert(state.subrange(0, heading.len() as int) =~= heading);
    assert forall|i: int| 0 <= i < head.len() implies head[i] != '\n' by {
        if heading.len() <= i < heading.len() + digits.len() {
            assert(is_digit(digits[i - heading.len()]));
        }
    }
    lemma_first_line(head, rest);
    let behind = head.subrange(heading.len() as int, head.len() as int);
    assert(behind =~= digits + seq![':']);
    assert(head.subrange(0, heading.len() as int) =~= heading);
    assert(is_digit(digits[0]));
    assert(!occurs_at(behind, heading, 0)) by {
        if occurs_at(behind, heading, 0) {
            assert(behind.subrange(0, heading.len() as int)[0] == heading[0]);
        }
    }
    assert(stripped_start(behind, heading) == behind);
    assert(stripped_start(head, heading) == behind);
    assert(behind.drop_last() =~= digits);
    assert(is_digit(digits.last()));
    assert(stripped_end(digits, ':') == digits);
    assert(stripped_end(behind, ':') == digits);
    assert(unsigned(digits) == digits);
}

} // verus!
