use vstd::prelude::*;

use crate::error::{Refusal, TipJarError};
use crate::message::{TipNote, char_count};

verus! {

/// The longest message, in characters, that a tip may carry.
pub const MAX_MESSAGE_LEN: usize = 280;

/// What the ledger holds for one creator. A creator that was never tipped
/// reads as [`empty_account`].
pub struct AccountView {
    /// Tips held in escrow that the creator may still withdraw.
    pub balance: int,
    /// Every tip the creator ever received.
    pub total: int,
    /// The notes that came with tips, oldest first.
    pub messages: Seq<TipNote>,
}

pub open spec fn empty_account() -> AccountView {
    AccountView { balance: 0, total: 0, messages: Seq::empty() }
}

/// The abstract state of the tip jar: its settings and the per-creator
/// accounts.
pub struct LedgerView {
    /// The token in which all tips are paid, once set up.
    pub token: Option<Seq<u8>>,
    /// The administrator, once set up.
    pub admin: Option<Seq<u8>>,
    /// The pause flag, once written.
    pub paused: Option<bool>,
    /// The creators that hold an account.
    pub accounts: Map<Seq<u8>, AccountView>,
}

impl LedgerView {
    /// Whether state-changing requests are currently refused.
    pub open spec fn is_paused(self) -> bool {
        self.paused == Some(true)
    }

    pub open spec fn account(self, c: Seq<u8>) -> AccountView {
        if self.accounts.dom().contains(c) {
            self.accounts[c]
        } else {
            empty_account()
        }
    }

    pub open spec fn balance_of(self, c: Seq<u8>) -> int {
        self.account(c).balance
    }

    pub open spec fn total_of(self, c: Seq<u8>) -> int {
        self.account(c).total
    }

    pub open spec fn messages_of(self, c: Seq<u8>) -> Seq<TipNote> {
        self.account(c).messages
    }

    /// The same ledger with creator `c`'s account replaced by `a`.
    pub open spec fn with_account(self, c: Seq<u8>, a: AccountView) -> LedgerView {
        LedgerView {
            token: self.token,
            admin: self.admin,
            paused: self.paused,
            accounts: self.accounts.insert(c, a),
        }
    }

    /// The same ledger with the pause flag set to `p`.
    pub open spec fn with_paused(self, p: bool) -> LedgerView {
        LedgerView { token: self.token, admin: self.admin, paused: Some(p), accounts: self.accounts }
    }

    /// The ledger after `amount` is credited to creator `c`: both the
    /// withdrawable balance and the all-time total grow by `amount`.
    pub open spec fn credit(self, c: Seq<u8>, amount: int) -> LedgerView {
        let a = self.account(c);
        self.with_account(
            c,
            AccountView { balance: a.balance + amount, total: a.total + amount, messages: a.messages },
        )
    }

    /// The ledger after `amount` is credited to creator `c` together with `note`,
    /// which joins the end of the creator's messages.
    pub open spec fn credit_with_note(self, c: Seq<u8>, amount: int, note: TipNote) -> LedgerView {
        let a = self.account(c);
        self.with_account(
            c,
            AccountView {
                balance: a.balance + amount,
                total: a.total + amount,
                messages: a.messages.push(note),
            },
        )
    }

    // ---- setup ----
    pub open spec fn init_result(self, token: Seq<u8>, admin: Seq<u8>) -> Result<LedgerView, Refusal> {
        if self.token is Some {
            Err(Refusal::Contract(TipJarError::AlreadyInitialized))
        } else {
            Ok(
                LedgerView {
                    token: Some(token),
                    admin: Some(admin),
                    paused: Some(false),
                    accounts: self.accounts,
                },
            )
        }
    }

    // ---- tipping ----
    /// Why a plain tip of `amount` would be refused, checked in order.
    pub open spec fn tip_refusal(self, amount: int) -> Option<Refusal> {
        if self.is_paused() {
            Some(Refusal::Paused)
        } else if amount <= 0 {
            Some(Refusal::Contract(TipJarError::InvalidAmount))
        } else if self.token is None {
            Some(Refusal::Contract(TipJarError::TokenNotInitialized))
        } else {
            None
        }
    }

    pub open spec fn tip_result(self, c: Seq<u8>, amount: int) -> Result<LedgerView, Refusal> {
        match self.tip_refusal(amount) {
            Some(r) => Err(r),
            None => Ok(self.credit(c, amount)),
        }
    }

    /// Why a tip with a message of `message_chars` characters would be refused,
    /// checked in order.
    pub open spec fn tip_with_message_refusal(self, amount: int, message_chars: int) -> Option<
        Refusal,
    > {
        if self.is_paused() {
            Some(Refusal::Paused)
        } else if amount <= 0 {
            Some(Refusal::Contract(TipJarError::InvalidAmount))
        } else if message_chars > MAX_MESSAGE_LEN {
            Some(Refusal::Contract(TipJarError::MessageTooLong))
        } else if self.token is None {
            Some(Refusal::Contract(TipJarError::TokenNotInitialized))
        } else {
            None
        }
    }

    pub open spec fn tip_with_message_result(self, c: Seq<u8>, amount: int, note: TipNote) -> Result<
        LedgerView,
        Refusal,
    > {
        match self.tip_with_message_refusal(amount, char_count(note.message)) {
            Some(r) => Err(r),
            None => Ok(self.credit_with_note(c, amount, note)),
        }
    }

    /// A tip of `amount` to `c` that passes the checks fits in the counters.
    pub open spec fn tip_fits(self, c: Seq<u8>, amount: int) -> bool {
        self.tip_refusal(amount) is Some || self.total_of(c) + amount <= i128::MAX
    }

    /// A tip with a message that passes the checks fits in the counters.
    pub open spec fn tip_with_message_fits(self, c: Seq<u8>, amount: int, message_chars: int) -> bool {
        self.tip_with_message_refusal(amount, message_chars) is Some || self.total_of(c) + amount
            <= i128::MAX
    }

    // ---- withdrawing ----
    /// Why a withdrawal by `c` would be refused, checked in order.
    pub open spec fn withdraw_refusal(self, c: Seq<u8>) -> Option<Refusal> {
        if self.is_paused() {
            Some(Refusal::Paused)
        } else if self.balance_of(c) <= 0 {
            Some(Refusal::Contract(TipJarError::NothingToWithdraw))
        } else if self.token is None {
            Some(Refusal::Contract(TipJarError::TokenNotInitialized))
        } else {
            None
        }
    }

    /// The ledger after `c` withdraws, and the amount paid out: the whole
    /// balance, which drops to zero while the total stays.
    pub open spec fn withdraw_result(self, c: Seq<u8>) -> Result<(LedgerView, int), Refusal> {
        match self.withdraw_refusal(c) {
            Some(r) => Err(r),
            None => {
                let a = self.account(c);
                Ok(
                    (
                        self.with_account(
                            c,
                            AccountView { balance: 0, total: a.total, messages: a.messages },
                        ),
                        a.balance,
                    ),
                )
            },
        }
    }

    // ---- pausing ----
    /// Why `caller` may not change the pause flag.
    pub open spec fn admin_refusal(self, caller: Seq<u8>) -> Option<Refusal> {
        match self.admin {
            None => Some(Refusal::AdminMissing),
            Some(a) => if a == caller {
                None
            } else {
                Some(Refusal::Unauthorized)
            },
        }
    }

    pub open spec fn set_paused_result(self, caller: Seq<u8>, p: bool) -> Result<LedgerView, Refusal> {
        match self.admin_refusal(caller) {
            Some(r) => Err(r),
            None => Ok(self.with_paused(p)),
        }
    }
}


/// A request to the tip jar, as far as it bears on the ledger.
pub enum Request {
    Init { token: Seq<u8>, admin: Seq<u8> },
    Tip { creator: Seq<u8>, amount: i128 },
    TipWithMessage { creator: Seq<u8>, amount: i128, note: TipNote },
    Withdraw { creator: Seq<u8> },
    Pause { caller: Seq<u8> },
    Unpause { caller: Seq<u8> },
}

impl LedgerView {
    /// The ledger after `req`, or why it is refused.
    pub open spec fn apply(self, req: Request) -> Result<LedgerView, Refusal> {
        match req {
            Request::Init { token, admin } => self.init_result(token, admin),
            Request::Tip { creator, amount } => self.tip_result(creator, amount as int),
            Request::TipWithMessage { creator, amount, note } => self.tip_with_message_result(
                creator,
                amount as int,
                note,
            ),
            Request::Withdraw { creator } => match self.withdraw_result(creator) {
                Ok((after, _)) => Ok(after),
                Err(r) => Err(r),
            },
            Request::Pause { caller } => self.set_paused_result(caller, true),
            Request::Unpause { caller } => self.set_paused_result(caller, false),
        }
    }
}
} // verus!
