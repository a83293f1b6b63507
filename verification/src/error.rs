//! The failures the giveaway registry reports to its callers.

use vstd::prelude::*;
use vstd::string::*;

verus! {

/// Every way an operation of the registry can be turned down.
#[derive(Copy, Clone, Debug, PartialEq, Eq, Structural)]
pub enum ErrorKind {
    /// The giveaway index is out of range.
    GiveawayNotFound,
    /// The reward index is out of range.
    RewardNotFound,
    /// The caller is not the owner of the giveaway.
    NotOwner,
    /// The caller tried to delete a giveaway owned by someone else.
    NotOwnerOnDelete,
    /// The giveaway is paused or was never started.
    NotActive,
    /// The giveaway has no rewards at all.
    NoRewards,
    /// Every reward of the giveaway is pending or activated.
    AllRewardsHandedOut,
    /// The caller already holds a reward that is neither confirmed nor denied.
    DuplicatePending,
    /// The requested reward is not unused any more.
    RewardTaken,
    /// The reward is activated: it can be neither confirmed nor denied.
    RewardActivated,
    /// The pending reward is held by someone else and cannot be confirmed.
    ConfirmByOthers,
    /// The pending reward is held by someone else and cannot be returned.
    DenyByOthers,
    /// The reward was not rolled by the caller before confirming.
    ConfirmBeforeRoll,
    /// The reward was not rolled by the caller before returning.
    DenyBeforeRoll,
}

impl ErrorKind {
    /// The text shown to the requester for this kind of failure.
    pub open spec fn text(self) -> Seq<char> {
        match self {
            ErrorKind::GiveawayNotFound => "The requested giveaway was not found."@,
            ErrorKind::RewardNotFound => "The requested reward was not found."@,
            ErrorKind::NotOwner => "For interacting with this giveaway you need to be its owner."@,
            ErrorKind::NotOwnerOnDelete => "For deleting this giveaway you need to be its owner."@,
            ErrorKind::NotActive => "The giveaway hasn't started yet or has been suspended by the owner."@,
            ErrorKind::NoRewards => "The giveaway doesn't have any rewards. Please, add rewards or ask to do an owner."@,
            ErrorKind::AllRewardsHandedOut => "All possible rewards have been handed out."@,
            ErrorKind::DuplicatePending => "It's not possible to have more than one reward in the pending state. Please, activate the previous reward, or invoke the `!groll` command."@,
            ErrorKind::RewardTaken => "This reward has already been taken by someone."@,
            ErrorKind::RewardActivated => "The reward has been activated already."@,
            ErrorKind::ConfirmByOthers => "This reward can't be activated by others."@,
            ErrorKind::DenyByOthers => "This reward can't be returned by others."@,
            ErrorKind::ConfirmBeforeRoll => "The reward must be rolled before confirming."@,
            ErrorKind::DenyBeforeRoll => "The reward must be rolled before return."@,
        }
    }

    /// The text shown to the requester for this kind of failure.
    pub fn message(self) -> (text: String)
        ensures
            text@ == self.text(),
    {
        match self {
            ErrorKind::GiveawayNotFound => String::from_str("The requested giveaway was not found."),
            ErrorKind::RewardNotFound => String::from_str("The requested reward was not found."),
            ErrorKind::NotOwner => String::from_str("For interacting with this giveaway you need to be its owner."),
            ErrorKind::NotOwnerOnDelete => String::from_str("For deleting this giveaway you need to be its owner."),
            ErrorKind::NotActive => String::from_str("The giveaway hasn't started yet or has been suspended by the owner."),
            ErrorKind::NoRewards => String::from_str("The giveaway doesn't have any rewards. Please, add rewards or ask to do an owner."),
            ErrorKind::AllRewardsHandedOut => String::from_str("All possible rewards have been handed out."),
            ErrorKind::DuplicatePending => String::from_str("It's not possible to have more than one reward in the pending state. Please, activate the previous reward, or invoke the `!groll` command."),
            ErrorKind::RewardTaken => String::from_str("This reward has already been taken by someone."),
            ErrorKind::RewardActivated => String::from_str("The reward has been activated already."),
            ErrorKind::ConfirmByOthers => String::from_str("This reward can't be activated by others."),
            ErrorKind::DenyByOthers => String::from_str("This reward can't be returned by others."),
            ErrorKind::ConfirmBeforeRoll => String::from_str("The reward must be rolled before confirming."),
            ErrorKind::DenyBeforeRoll => String::from_str("The reward must be rolled before return."),
        }
    }
}

/// A failure as it travels to the command layer: a family and the text to show.
#[derive(Clone, Debug, PartialEq, Eq)]
pub enum Error {
    /// The chat platform failed.
    SerenityError(String),
    /// A lock could not be taken.
    RwLock(String),
    /// The giveaway registry turned the request down.
    Giveaway(String),
}

impl Error {
    /// Whether this failure is the registry's refusal of the given kind.
    pub open spec fn is_kind(self, kind: ErrorKind) -> bool {
        self matches Error::Giveaway(message) && message@ == kind.text()
    }

    /// The registry's refusal of the given kind.
    pub fn from_kind(kind: ErrorKind) -> (error: Error)
        ensures
            error.is_kind(kind),
    {
        Error::Giveaway(kind.message())
    }

    /// The text to show to the requester.
    pub fn to_string(&self) -> (text: String)
        ensures
            text@ == match *self {
                Error::SerenityError(message) => message@,
                Error::RwLock(message) => message@,
                Error::Giveaway(message) => message@,
            },
    {
        match self {
            Error::SerenityError(message) => message.clone(),
            Error::RwLock(message) => message.clone(),
            Error::Giveaway(message) => message.clone(),
        }
    }
}

} // verus!
