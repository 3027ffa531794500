use vstd::prelude::*;

use crate::address::Address;
use crate::message::{Metadata, metadata_view};

verus! {

/// Who holds tokens on one side of a transfer.
#[derive(Debug, PartialEq, Eq)]
pub enum Holder {
    /// The tip jar's own escrow account.
    Contract,
    /// Some other account.
    Account(Address),
}

/// A movement of tokens that the token contract has to carry out.
#[derive(Debug, PartialEq, Eq)]
pub struct TokenTransfer {
    pub token: Address,
    pub from: Holder,
    pub to: Holder,
    pub amount: i128,
}

/// What the tip jar announces after a request succeeds.
#[derive(Debug, PartialEq, Eq)]
pub enum Event {
    /// Topics ("tip", creator); data (sender, amount).
    Tip { creator: Address, sender: Address, amount: i128 },
    /// Topics ("tip_msg", creator); data (sender, amount, message, metadata).
    TipMessage {
        creator: Address,
        sender: Address,
        amount: i128,
        message: Vec<u8>,
        metadata: Metadata,
    },
    /// Topics ("withdraw", creator); data amount.
    Withdraw { creator: Address, amount: i128 },
}

/// What the host has to do for an accepted request: obtain the
/// authorization of `authorizer`, carry out `transfer`, and publish `event`.
#[derive(Debug, PartialEq, Eq)]
pub struct Effects {
    pub authorizer: Address,
    pub transfer: TokenTransfer,
    pub event: Event,
}

impl Holder {
    /// This holder is the account `a`.
    pub open spec fn is_account(self, a: Seq<u8>) -> bool {
        match self {
            Holder::Account(x) => x@ == a,
            Holder::Contract => false,
        }
    }
}

impl Effects {
    /// `sender` authorizes moving `amount` of `token` from `sender` into escrow.
    pub open spec fn deposits(self, token: Seq<u8>, sender: Seq<u8>, amount: int) -> bool {
        &&& self.authorizer@ == sender
        &&& self.transfer.token@ == token
        &&& self.transfer.from.is_account(sender)
        &&& self.transfer.to is Contract
        &&& self.transfer.amount == amount
    }

    /// `creator` authorizes paying `amount` of `token` out of escrow to `creator`.
    pub open spec fn pays_out(self, token: Seq<u8>, creator: Seq<u8>, amount: int) -> bool {
        &&& self.authorizer@ == creator
        &&& self.transfer.token@ == token
        &&& self.transfer.from is Contract
        &&& self.transfer.to.is_account(creator)
        &&& self.transfer.amount == amount
    }

    /// The event announces a plain tip.
    pub open spec fn announces_tip(self, creator: Seq<u8>, sender: Seq<u8>, amount: int) -> bool {
        match self.event {
            Event::Tip { creator: c, sender: s, amount: a } => c@ == creator && s@ == sender && a
                == amount,
            _ => false,
        }
    }

    /// The event announces a tip with a message.
    pub open spec fn announces_tip_message(
        self,
        creator: Seq<u8>,
        sender: Seq<u8>,
        amount: int,
        message: Seq<u8>,
        metadata: Seq<(Seq<u8>, Seq<u8>)>,
    ) -> bool {
        match self.event {
            Event::TipMessage { creator: c, sender: s, amount: a, message: m, metadata: d } => {
                &&& c@ == creator
                &&& s@ == sender
                &&& a == amount
                &&& m@ == message
                &&& metadata_view(d@) == metadata
            },
            _ => false,
        }
    }

    /// The event announces a withdrawal.
    pub open spec fn announces_withdraw(self, creator: Seq<u8>, amount: int) -> bool {
        match self.event {
            Event::Withdraw { creator: c, amount: a } => c@ == creator && a == amount,
            _ => false,
        }
    }
}

} // verus!
