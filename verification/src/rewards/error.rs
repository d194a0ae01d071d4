//! Why the rewards of a cycle cannot be told.
use crate::mutez::InvalidAmount;
use crate::rewards::schedule::{read_snapshot, snapshot_refusal};
use vstd::prelude::*;
use vstd::string::*;

verus! {

/// Why the rewards of a cycle cannot be told.
#[derive(Debug)]
pub enum RewardsError {
    /// The current head cannot be read.
    HeadUnavailable,
    /// The protocol of the current head is not one whose rewards are known.
    UnsupportedProtocol { protocol: String },
    /// No cycle eras are saved for the protocol.
    NoSavedCycleEras,
    /// None of the saved cycle eras fits the cycle.
    NoMatchingCycleEra,
    /// The receipt of a block holds no balance updates.
    BalanceUpdatesNotFound,
    /// The balance updates in the receipt of a block are no array.
    BalanceUpdatesNotArray,
    /// A number of mutez cannot be read.
    InvalidAmount { error: InvalidAmount },
    /// An operation cannot be read.
    InvalidOperation { message: String },
    /// The reply that should be the number of a snapshot cannot be read.
    InvalidSnapshot { reply: String },
    /// The description of a delegate cannot be read.
    InvalidDelegateInfo { message: String },
    /// Something outside failed to answer.
    Service { message: String },
}

impl RewardsError {
    /// What the error says.
    pub open spec fn text(&self) -> Seq<char> {
        match *self {
            RewardsError::HeadUnavailable => "Cannot access current head"@,
            RewardsError::UnsupportedProtocol { protocol } => "Protocol "@ + protocol@
                + " is not yet supported!"@,
            RewardsError::NoSavedCycleEras => "No saved cycle eras found for protocol"@,
            RewardsError::NoMatchingCycleEra => "No matching cycle era found"@,
            RewardsError::BalanceUpdatesNotFound => "Balance updates not found"@,
            RewardsError::BalanceUpdatesNotArray => "Balance updates not an array"@,
            RewardsError::InvalidAmount { error } => error.text(),
            RewardsError::InvalidOperation { message } => message@,
            RewardsError::InvalidSnapshot { reply } => snapshot_refusal(reply@),
            RewardsError::InvalidDelegateInfo { message } => message@,
            RewardsError::Service { message } => message@,
        }
    }

    /// What the error says.
    pub fn message(&self) -> (r: String)
        ensures
            r@ == self.text(),
            *self is HeadUnavailable ==> r@ == "Cannot access current head"@,
            *self is NoSavedCycleEras ==> r@ == "No saved cycle eras found for protocol"@,
            *self is NoMatchingCycleEra ==> r@ == "No matching cycle era found"@,
            *self is BalanceUpdatesNotFound ==> r@ == "Balance updates not found"@,
            *self is BalanceUpdatesNotArray ==> r@ == "Balance updates not an array"@,
            *self matches RewardsError::UnsupportedProtocol { protocol } ==> r@ == "Protocol "@
                + protocol@ + " is not yet supported!"@,
            *self matches RewardsError::InvalidAmount { error } ==> r@ == (if error is Empty {
                "cannot parse integer from empty string"@
            } else {
                "invalid digit found in string"@
            }),
            *self matches RewardsError::InvalidOperation { message } ==> r@ == message@,
            *self matches RewardsError::InvalidDelegateInfo { message } ==> r@ == message@,
            *self matches RewardsError::Service { message } ==> r@ == message@,
    {
        match self {
            RewardsError::HeadUnavailable => "Cannot access current head".to_owned(),
            RewardsError::UnsupportedProtocol { protocol } => "Protocol ".to_owned().concat(
                protocol.as_str(),
            ).concat(" is not yet supported!"),
            RewardsError::NoSavedCycleEras => "No saved cycle eras found for protocol".to_owned(),
            RewardsError::NoMatchingCycleEra => "No matching cycle era found".to_owned(),
            RewardsError::BalanceUpdatesNotFound => "Balance updates not found".to_owned(),
            RewardsError::BalanceUpdatesNotArray => "Balance updates not an array".to_owned(),
            RewardsError::InvalidAmount { error } => error.message(),
            RewardsError::InvalidOperation { message } => message.clone(),
            RewardsError::InvalidSnapshot { reply } => match read_snapshot(reply.as_str()) {
                Ok(_) => "".to_owned(),
                Err(refusal) => refusal,
            },
            RewardsError::InvalidDelegateInfo { message } => message.clone(),
            RewardsError::Service { message } => message.clone(),
        }
    }
}

} // verus!
