use vstd::prelude::*;

use crate::contract::account_consistent;
use crate::error::{Refusal, TipJarError};
use crate::ledger::{LedgerView, Request};
use crate::message::{TipNote, char_count, char_scan, continuation_len, lemma_char_scan_bounds};
use crate::ledger::MAX_MESSAGE_LEN;

verus! {

impl Request {
    /// The creator whose account the request addresses, if any.
    pub open spec fn subject(self) -> Option<Seq<u8>> {
        match self {
            Request::Tip { creator, .. } => Some(creator),
            Request::TipWithMessage { creator, .. } => Some(creator),
            Request::Withdraw { creator } => Some(creator),
            _ => None,
        }
    }

    /// A note, if any, is the one the tip jar builds: it names the creator
    /// and the amount of the tip.
    pub open spec fn well_formed(self) -> bool {
        match self {
            Request::TipWithMessage { creator, amount, note } => note.creator == creator
                && note.amount == amount,
            _ => true,
        }
    }

    /// The request moves tokens (a tip or a withdrawal).
    pub open spec fn moves_tokens(self) -> bool {
        self is Tip || self is TipWithMessage || self is Withdraw
    }
}

/// Setup happens once: after it succeeded, every further setup is refused
/// with `AlreadyInitialized`.
pub proof fn law_init_once(s: LedgerView, t1: Seq<u8>, a1: Seq<u8>, t2: Seq<u8>, a2: Seq<u8>)
    requires
        s.init_result(t1, a1) is Ok,
    ensures
        s.init_result(t1, a1)->Ok_0.init_result(t2, a2) == Err::<LedgerView, Refusal>(
            Refusal::Contract(TipJarError::AlreadyInitialized),
        ),
{
}

/// Every accepted request keeps the ledger consistent (each balance between
/// zero and the total, each note with its creator and a positive amount) and
/// never lowers any creator's all-time total.
pub proof fn law_requests_keep_ledger_consistent(s: LedgerView, req: Request, c: Seq<u8>)
    requires
        s.consistent(),
        req.well_formed(),
        s.apply(req) is Ok,
    ensures
        s.apply(req)->Ok_0.consistent(),
        s.apply(req)->Ok_0.total_of(c) >= s.total_of(c),
{
    let s2 = s.apply(req)->Ok_0;
    assert forall|k: Seq<u8>| #[trigger] s2.accounts.dom().contains(k) implies account_consistent(
        k,
        s2.accounts[k],
    ) by {
        if Some(k) != req.subject() {
            assert(s2.accounts[k] == s.accounts[k]);
        } else {
            let a = s.account(k);
            assert(account_consistent(k, a));
            match req {
                Request::TipWithMessage { creator, amount, note } => {
                    let ms = a.messages.push(note);
                    assert forall|i: int| 0 <= i < ms.len() implies (#[trigger] ms[i]).creator == k
                        && ms[i].amount > 0 by {
                        if i < a.messages.len() {
                            assert(ms[i] == a.messages[i]);
                        }
                    }
                },
                _ => {},
            }
        }
    }
}

/// A request about one creator leaves every other creator's account (balance,
/// total and messages) as it was; setup and pausing leave all accounts alone.
pub proof fn law_other_accounts_untouched(s: LedgerView, req: Request, other: Seq<u8>)
    requires
        s.apply(req) is Ok,
        req.subject() != Some(other),
    ensures
        s.apply(req)->Ok_0.account(other) == s.account(other),
{
}

/// While paused, every tip and every withdrawal is refused with `Paused`.
pub proof fn law_paused_refuses_moves(s: LedgerView, req: Request)
    requires
        s.is_paused(),
        req.moves_tokens(),
    ensures
        s.apply(req) == Err::<LedgerView, Refusal>(Refusal::Paused),
{
}

/// Changing the pause flag leaves what every read returns unchanged: each
/// creator's balance, total and messages, the token and the administrator.
pub proof fn law_pause_keeps_reads(s: LedgerView, caller: Seq<u8>, p: bool, c: Seq<u8>)
    requires
        s.set_paused_result(caller, p) is Ok,
    ensures
        s.set_paused_result(caller, p)->Ok_0.account(c) == s.account(c),
        s.set_paused_result(caller, p)->Ok_0.token == s.token,
        s.set_paused_result(caller, p)->Ok_0.admin == s.admin,
{
}

/// Only the recorded administrator may pause or unpause.
pub proof fn law_only_admin_sets_pause(s: LedgerView, caller: Seq<u8>, p: bool)
    ensures
        s.set_paused_result(caller, p) is Ok <==> s.admin == Some(caller),
{
}

/// Pausing and then unpausing restores a working tip jar: nothing but the
/// flag changed, and tips and withdrawals are decided as they would have
/// been had the jar never been paused.
pub proof fn law_pause_then_unpause(s: LedgerView, admin: Seq<u8>, req: Request)
    requires
        !s.is_paused(),
        s.set_paused_result(admin, true) is Ok,
        req.moves_tokens(),
    ensures
        ({
            let paused = s.set_paused_result(admin, true)->Ok_0;
            let resumed = paused.set_paused_result(admin, false);
            &&& resumed is Ok
            &&& resumed->Ok_0 == s.with_paused(false)
            &&& (resumed->Ok_0.apply(req) is Ok <==> s.apply(req) is Ok)
            &&& (s.apply(req) is Ok ==> resumed->Ok_0.apply(req)->Ok_0.accounts == s.apply(
                req,
            )->Ok_0.accounts)
            &&& (s.apply(req) is Err ==> resumed->Ok_0.apply(req) == s.apply(req))
        }),
{
}

/// What tips put in, a withdrawal takes out: after an accepted tip of
/// `amount`, the creator can withdraw, is paid the earlier balance plus
/// `amount`, and is left with a zero balance and the grown total.
pub proof fn law_tip_then_withdraw(s: LedgerView, c: Seq<u8>, amount: i128)
    requires
        s.consistent(),
        s.tip_result(c, amount as int) is Ok,
    ensures
        ({
            let s2 = s.tip_result(c, amount as int)->Ok_0;
            let w = s2.withdraw_result(c);
            &&& w is Ok
            &&& w->Ok_0.1 == s.balance_of(c) + amount
            &&& w->Ok_0.0.balance_of(c) == 0
            &&& w->Ok_0.0.total_of(c) == s.total_of(c) + amount
            &&& w->Ok_0.0.messages_of(c) == s.messages_of(c)
        }),
{
    if s.accounts.dom().contains(c) {
        assert(account_consistent(c, s.accounts[c]));
    }
}

/// A withdrawal empties the balance: right after one, another is refused
/// with `NothingToWithdraw`.
pub proof fn law_withdraw_empties(s: LedgerView, c: Seq<u8>)
    requires
        s.withdraw_result(c) is Ok,
    ensures
        s.withdraw_result(c)->Ok_0.0.withdraw_result(c) == Err::<(LedgerView, int), Refusal>(
            Refusal::Contract(TipJarError::NothingToWithdraw),
        ),
{
}

/// A tip with a message adds its note after all earlier notes of the creator;
/// a plain tip leaves the creator's notes as they were.
pub proof fn law_notes_append_in_order(
    s: LedgerView,
    c: Seq<u8>,
    amount: i128,
    note: TipNote,
    plain: i128,
)
    requires
        s.tip_with_message_result(c, amount as int, note) is Ok,
        s.tip_result(c, plain as int) is Ok,
    ensures
        s.tip_with_message_result(c, amount as int, note)->Ok_0.messages_of(c) == s.messages_of(
            c,
        ).push(note),
        s.tip_result(c, plain as int)->Ok_0.messages_of(c) == s.messages_of(c),
{
}

/// Messages of up to `MAX_MESSAGE_LEN` characters are accepted where a plain tip
/// would be, and longer ones are refused with `MessageTooLong` unless an
/// earlier check (pause, amount) refuses first.
pub proof fn law_message_length_limit(s: LedgerView, c: Seq<u8>, amount: i128, note: TipNote)
    ensures
        char_count(note.message) <= crate::ledger::MAX_MESSAGE_LEN ==> (s.tip_with_message_result(
            c,
            amount as int,
            note,
        ) is Ok <==> s.tip_result(c, amount as int) is Ok),
        (char_count(note.message) > crate::ledger::MAX_MESSAGE_LEN && !s.is_paused() && amount > 0) ==> s.tip_with_message_result(c, amount as int, note)
            == Err::<LedgerView, Refusal>(Refusal::Contract(TipJarError::MessageTooLong)),
{
}


impl LedgerView {
    /// The sum of the withdrawable balances of the creators in `keys`.
    pub open spec fn balances_sum(self, keys: Seq<Seq<u8>>) -> int
        decreases keys.len(),
    {
        if keys.len() == 0 {
            0
        } else {
            self.balances_sum(keys.drop_last()) + self.balance_of(keys.last())
        }
    }

    /// The tokens that an accepted `req` moves into escrow (negative when
    /// they leave it): a tip's amount, or minus the balance withdrawn.
    pub open spec fn escrow_change(self, req: Request) -> int {
        match req {
            Request::Tip { amount, .. } => amount as int,
            Request::TipWithMessage { amount, .. } => amount as int,
            Request::Withdraw { creator } => -self.balance_of(creator),
            _ => 0,
        }
    }
}

proof fn lemma_sum_shift(s: LedgerView, t: LedgerView, c: Seq<u8>, d: int, keys: Seq<Seq<u8>>)
    requires
        keys.no_duplicates(),
        forall|k: Seq<u8>| k != c ==> #[trigger] t.balance_of(k) == s.balance_of(k),
        t.balance_of(c) == s.balance_of(c) + d,
    ensures
        t.balances_sum(keys) == s.balances_sum(keys) + if keys.contains(c) {
            d
        } else {
            0
        },
    decreases keys.len(),
{
    if keys.len() > 0 {
        let init = keys.drop_last();
        assert(init.no_duplicates()) by {
            assert forall|i: int, j: int| 0 <= i < init.len() && 0 <= j < init.len() && i != j implies init[i] != init[j] by {
                assert(init[i] == keys[i] && init[j] == keys[j]);
            }
        }
        lemma_sum_shift(s, t, c, d, init);
        if keys.last() == c {
            if init.contains(c) {
                let i = choose|i: int| 0 <= i < init.len() && init[i] == c;
                assert(keys[i] == c && keys[keys.len() - 1] == c);
            }
        } else {
            assert(keys.contains(c) <==> init.contains(c)) by {
                if keys.contains(c) {
                    let i = choose|i: int| 0 <= i < keys.len() && keys[i] == c;
                    assert(init[i] == c);
                }
                if init.contains(c) {
                    let i = choose|i: int| 0 <= i < init.len() && init[i] == c;
                    assert(keys[i] == c);
                }
            }
        }
    }
}

proof fn lemma_sum_same(s: LedgerView, t: LedgerView, keys: Seq<Seq<u8>>)
    requires
        forall|k: Seq<u8>| #[trigger] t.balance_of(k) == s.balance_of(k),
    ensures
        t.balances_sum(keys) == s.balances_sum(keys),
    decreases keys.len(),
{
    if keys.len() > 0 {
        lemma_sum_same(s, t, keys.drop_last());
        assert(t.balance_of(keys.last()) == s.balance_of(keys.last()));
    }
}

/// Escrow follows the tokens: over any list of distinct creators, the sum of
/// withdrawable balances changes by exactly the tokens that an accepted
/// request moves into or out of escrow when the list holds the request's
/// creator, and not at all otherwise.
pub proof fn law_escrow_follows_transfers(s: LedgerView, req: Request, keys: Seq<Seq<u8>>)
    requires
        keys.no_duplicates(),
        s.apply(req) is Ok,
    ensures
        s.apply(req)->Ok_0.balances_sum(keys) == s.balances_sum(keys) + match req.subject() {
            Some(c) => if keys.contains(c) {
                s.escrow_change(req)
            } else {
                0
            },
            None => 0,
        },
{
    let t = s.apply(req)->Ok_0;
    match req.subject() {
        Some(c) => {
            assert forall|k: Seq<u8>| k != c implies #[trigger] t.balance_of(k) == s.balance_of(k) by {
                law_other_accounts_untouched(s, req, k);
            }
            lemma_sum_shift(s, t, c, s.escrow_change(req), keys);
        },
        None => {
            assert forall|k: Seq<u8>| #[trigger] t.balance_of(k) == s.balance_of(k) by {
                law_other_accounts_untouched(s, req, k);
            }
            lemma_sum_same(s, t, keys);
        },
    }
}

impl Request {
    /// The amount a tip request offers; zero for other requests.
    pub open spec fn tip_amount(self) -> int {
        match self {
            Request::Tip { amount, .. } => amount as int,
            Request::TipWithMessage { amount, .. } => amount as int,
            _ => 0,
        }
    }
}

impl LedgerView {
    /// The state after the requests in order; refused requests change nothing.
    pub open spec fn run(self, reqs: Seq<Request>) -> LedgerView
        decreases reqs.len(),
    {
        if reqs.len() == 0 {
            self
        } else {
            let next = match self.apply(reqs[0]) {
                Ok(t) => t,
                Err(_) => self,
            };
            next.run(reqs.drop_first())
        }
    }

    /// What creator `c` is credited by the first request, if accepted.
    pub open spec fn credited_by(self, req: Request, c: Seq<u8>) -> int {
        if self.apply(req) is Ok && req.subject() == Some(c) {
            req.tip_amount()
        } else {
            0
        }
    }

    /// What creator `c` is paid out by the request, if it is an accepted withdrawal.
    pub open spec fn paid_by(self, req: Request, c: Seq<u8>) -> int {
        if self.apply(req) is Ok && req == (Request::Withdraw { creator: c }) {
            self.balance_of(c)
        } else {
            0
        }
    }

    /// The sum of the tips credited to `c` by the accepted requests among `reqs`.
    pub open spec fn tipped(self, reqs: Seq<Request>, c: Seq<u8>) -> int
        decreases reqs.len(),
    {
        if reqs.len() == 0 {
            0
        } else {
            let next = match self.apply(reqs[0]) {
                Ok(t) => t,
                Err(_) => self,
            };
            self.credited_by(reqs[0], c) + next.tipped(reqs.drop_first(), c)
        }
    }

    /// The sum of what the accepted withdrawals among `reqs` paid out to `c`.
    pub open spec fn withdrawn(self, reqs: Seq<Request>, c: Seq<u8>) -> int
        decreases reqs.len(),
    {
        if reqs.len() == 0 {
            0
        } else {
            let next = match self.apply(reqs[0]) {
                Ok(t) => t,
                Err(_) => self,
            };
            self.paid_by(reqs[0], c) + next.withdrawn(reqs.drop_first(), c)
        }
    }
}

proof fn lemma_one_request(s: LedgerView, req: Request, c: Seq<u8>)
    ensures
        ({
            let next = match s.apply(req) {
                Ok(t) => t,
                Err(_) => s,
            };
            &&& next.total_of(c) == s.total_of(c) + s.credited_by(req, c)
            &&& next.balance_of(c) == s.balance_of(c) + s.credited_by(req, c) - s.paid_by(req, c)
        }),
{
    if s.apply(req) is Ok && req.subject() != Some(c) {
        law_other_accounts_untouched(s, req, c);
    }
}

/// The ledger remembers every tip: after any run of requests, a creator's
/// all-time total has grown by exactly the tips accepted for them, and the
/// withdrawable balance by those tips less what the accepted withdrawals
/// paid out.
pub proof fn law_counters_follow_history(s: LedgerView, reqs: Seq<Request>, c: Seq<u8>)
    ensures
        s.run(reqs).total_of(c) == s.total_of(c) + s.tipped(reqs, c),
        s.run(reqs).balance_of(c) == s.balance_of(c) + s.tipped(reqs, c) - s.withdrawn(reqs, c),
    decreases reqs.len(),
{
    if reqs.len() > 0 {
        let next = match s.apply(reqs[0]) {
            Ok(t) => t,
            Err(_) => s,
        };
        lemma_one_request(s, reqs[0], c);
        law_counters_follow_history(next, reqs.drop_first(), c);
    }
}

/// Once set up, the token and the administrator never change: after any run
/// of requests, accepted or refused, they are the ones setup chose.
pub proof fn law_setup_is_permanent(s: LedgerView, reqs: Seq<Request>)
    requires
        s.token is Some,
    ensures
        s.run(reqs).token == s.token,
        s.run(reqs).admin == s.admin,
    decreases reqs.len(),
{
    if reqs.len() > 0 {
        let next = match s.apply(reqs[0]) {
            Ok(t) => t,
            Err(_) => s,
        };
        assert(next.token == s.token && next.admin == s.admin);
        law_setup_is_permanent(next, reqs.drop_first());
    }
}

impl LedgerView {
    /// The note that the first request adds for creator `c`, if accepted.
    pub open spec fn notes_added_by(self, req: Request, c: Seq<u8>) -> Seq<TipNote> {
        match req {
            Request::TipWithMessage { creator, note, .. } => if self.apply(req) is Ok && creator
                == c {
                seq![note]
            } else {
                Seq::empty()
            },
            _ => Seq::empty(),
        }
    }

    /// The notes that the accepted tips with a message among `reqs` add for
    /// creator `c`, in request order.
    pub open spec fn notes_added(self, reqs: Seq<Request>, c: Seq<u8>) -> Seq<TipNote>
        decreases reqs.len(),
    {
        if reqs.len() == 0 {
            Seq::empty()
        } else {
            let next = match self.apply(reqs[0]) {
                Ok(t) => t,
                Err(_) => self,
            };
            self.notes_added_by(reqs[0], c) + next.notes_added(reqs.drop_first(), c)
        }
    }

    /// The tips credited to `c` after the last accepted withdrawal by `c`
    /// among `reqs`; `None` when `reqs` holds no accepted withdrawal by `c`.
    pub open spec fn tipped_since_withdrawal(self, reqs: Seq<Request>, c: Seq<u8>) -> Option<int>
        decreases reqs.len(),
    {
        if reqs.len() == 0 {
            None
        } else {
            let next = match self.apply(reqs[0]) {
                Ok(t) => t,
                Err(_) => self,
            };
            match next.tipped_since_withdrawal(reqs.drop_first(), c) {
                Some(x) => Some(x),
                None => if self.apply(reqs[0]) is Ok && reqs[0] == (Request::Withdraw {
                    creator: c,
                }) {
                    Some(next.tipped(reqs.drop_first(), c))
                } else {
                    None
                },
            }
        }
    }
}

/// A creator's notes after any run of requests are the earlier notes followed
/// by the note of each accepted tip with a message to that creator, in
/// request order; plain tips, withdrawals, refused requests and requests for
/// other creators add none and remove none.
pub proof fn law_notes_follow_history(s: LedgerView, reqs: Seq<Request>, c: Seq<u8>)
    ensures
        s.run(reqs).messages_of(c) == s.messages_of(c) + s.notes_added(reqs, c),
    decreases reqs.len(),
{
    if reqs.len() == 0 {
        assert(s.messages_of(c) + Seq::<TipNote>::empty() =~= s.messages_of(c));
    } else {
        let r = reqs[0];
        let next = match s.apply(r) {
            Ok(t) => t,
            Err(_) => s,
        };
        if s.apply(r) is Ok && r.subject() != Some(c) {
            law_other_accounts_untouched(s, r, c);
        }
        assert(next.messages_of(c) == s.messages_of(c) + s.notes_added_by(r, c)) by {
            if s.notes_added_by(r, c).len() == 0 {
                assert(s.messages_of(c) + Seq::<TipNote>::empty() =~= s.messages_of(c));
            }
        }
        law_notes_follow_history(next, reqs.drop_first(), c);
        assert(s.messages_of(c) + s.notes_added(reqs, c) =~= s.messages_of(c)
            + s.notes_added_by(r, c) + next.notes_added(reqs.drop_first(), c));
    }
}

/// The withdrawable balance holds exactly the tips since the last
/// withdrawal: after a run with an accepted withdrawal by the creator, it is
/// the sum of the tips accepted for them after the last such withdrawal;
/// after a run without one, the earlier balance plus the tips accepted.
pub proof fn law_balance_since_last_withdrawal(s: LedgerView, reqs: Seq<Request>, c: Seq<u8>)
    ensures
        s.run(reqs).balance_of(c) == match s.tipped_since_withdrawal(reqs, c) {
            Some(x) => x,
            None => s.balance_of(c) + s.tipped(reqs, c),
        },
    decreases reqs.len(),
{
    if reqs.len() > 0 {
        let r = reqs[0];
        let next = match s.apply(r) {
            Ok(t) => t,
            Err(_) => s,
        };
        lemma_one_request(s, r, c);
        law_balance_since_last_withdrawal(next, reqs.drop_first(), c);
        if !(s.apply(r) is Ok && r == (Request::Withdraw { creator: c })) {
            assert(s.paid_by(r, c) == 0);
        }
    }
}

proof fn lemma_withdrawn_nonnegative(s: LedgerView, reqs: Seq<Request>, c: Seq<u8>)
    ensures
        s.withdrawn(reqs, c) >= 0,
    decreases reqs.len(),
{
    if reqs.len() > 0 {
        let next = match s.apply(reqs[0]) {
            Ok(t) => t,
            Err(_) => s,
        };
        lemma_withdrawn_nonnegative(next, reqs.drop_first(), c);
    }
}

/// No double payout: after an accepted withdrawal, as long as no tip to the
/// creator is accepted, any later withdrawal by the creator is refused, with
/// `NothingToWithdraw` whenever the jar is not paused, whatever other requests
/// come in between.
pub proof fn law_no_double_payout(s: LedgerView, c: Seq<u8>, reqs: Seq<Request>)
    requires
        s.withdraw_result(c) is Ok,
        s.withdraw_result(c)->Ok_0.0.tipped(reqs, c) == 0,
    ensures
        ({
            let later = s.withdraw_result(c)->Ok_0.0.run(reqs);
            &&& later.balance_of(c) <= 0
            &&& later.withdraw_result(c) is Err
            &&& !later.is_paused() ==> later.withdraw_result(c) == Err::<(LedgerView, int), Refusal>(
                Refusal::Contract(TipJarError::NothingToWithdraw),
            )
        }),
{
    let s1 = s.withdraw_result(c)->Ok_0.0;
    law_counters_follow_history(s1, reqs, c);
    lemma_withdrawn_nonnegative(s1, reqs, c);
}

/// A tip with a message is a plain tip plus its note: for a message within
/// the limit, one is accepted exactly when the other is, and then every
/// creator's balance and total agree, every other creator's notes agree, and
/// the creator's notes differ only by the new note at the end.
pub proof fn law_message_tip_is_tip_plus_note(
    s: LedgerView,
    c: Seq<u8>,
    amount: i128,
    note: TipNote,
    x: Seq<u8>,
)
    requires
        char_count(note.message) <= crate::ledger::MAX_MESSAGE_LEN,
    ensures
        s.tip_with_message_result(c, amount as int, note) is Ok <==> s.tip_result(c, amount as int) is Ok,
        s.tip_result(c, amount as int) is Ok ==> ({
            let with_note = s.tip_with_message_result(c, amount as int, note)->Ok_0;
            let plain = s.tip_result(c, amount as int)->Ok_0;
            &&& with_note.balance_of(x) == plain.balance_of(x)
            &&& with_note.total_of(x) == plain.total_of(x)
            &&& x != c ==> with_note.messages_of(x) == plain.messages_of(x)
            &&& with_note.messages_of(c) == plain.messages_of(c).push(note)
            &&& with_note.token == plain.token && with_note.admin == plain.admin
                && with_note.paused == plain.paused
        }),
{
}

/// Escrow stays covered: if the tokens held in escrow cover the balances of
/// a list of distinct creators that includes the request's creator, they
/// still cover them after an accepted request once the token moves exactly
/// the amount the request reports; the surplus is unchanged.
pub proof fn law_escrow_stays_covered(s: LedgerView, req: Request, keys: Seq<Seq<u8>>, held: int)
    requires
        keys.no_duplicates(),
        s.apply(req) is Ok,
        req.subject() matches Some(c) ==> keys.contains(c),
        held >= s.balances_sum(keys),
    ensures
        held + s.escrow_change(req) - s.apply(req)->Ok_0.balances_sum(keys) == held
            - s.balances_sum(keys),
        held + s.escrow_change(req) >= s.apply(req)->Ok_0.balances_sum(keys),
{
    law_escrow_follows_transfers(s, req, keys);
    if req.subject() is None {
        assert(s.escrow_change(req) == 0);
    }
}
/// A character spans at most four bytes, so a message of more than four
/// times `MAX_MESSAGE_LEN` bytes is always too long, whatever its bytes are:
/// where the pause flag and the amount let it through, it is refused with
/// `MessageTooLong`.
pub proof fn law_long_byte_strings_refused(s: LedgerView, c: Seq<u8>, amount: i128, note: TipNote)
    requires
        note.message.len() > 4 * crate::ledger::MAX_MESSAGE_LEN,
    ensures
        char_count(note.message) > crate::ledger::MAX_MESSAGE_LEN,
        (!s.is_paused() && amount > 0) ==> s.tip_with_message_result(c, amount as int, note)
            == Err::<LedgerView, Refusal>(Refusal::Contract(TipJarError::MessageTooLong)),
{
    lemma_char_scan_bounds(note.message);
}


/// Setup succeeds exactly on a jar without a token, whatever the token and
/// administrator chosen; it records them, leaves the jar unpaused and the
/// accounts as they were.
pub proof fn law_init_sets_up_unpaused(s: LedgerView, token: Seq<u8>, admin: Seq<u8>)
    ensures
        s.init_result(token, admin) is Ok <==> s.token is None,
        s.init_result(token, admin) matches Ok(after) ==> {
            &&& after.token == Some(token)
            &&& after.admin == Some(admin)
            &&& after.paused == Some(false)
            &&& !after.is_paused()
            &&& after.accounts == s.accounts
        },
        s.init_result(token, admin) matches Err(r) ==> r == Refusal::Contract(
            TipJarError::AlreadyInitialized,
        ),
{
}

/// A plain tip is accepted exactly when the jar is not paused, the amount is
/// positive and the token is set, whatever the creator's balance, total and
/// notes. Then the creator's balance and total both grow by the amount, their
/// notes stay, and everything else is as before.
pub proof fn law_tip_accepted_and_credited(s: LedgerView, c: Seq<u8>, amount: i128, x: Seq<u8>)
    ensures
        s.tip_result(c, amount as int) is Ok <==> (!s.is_paused() && amount > 0 && s.token is Some),
        s.is_paused() ==> s.tip_result(c, amount as int) == Err::<LedgerView, Refusal>(Refusal::Paused),
        !s.is_paused() && amount <= 0 ==> s.tip_result(c, amount as int) == Err::<LedgerView, Refusal>(
            Refusal::Contract(TipJarError::InvalidAmount),
        ),
        !s.is_paused() && amount > 0 && s.token is None ==> s.tip_result(c, amount as int) == Err::<
            LedgerView,
            Refusal,
        >(Refusal::Contract(TipJarError::TokenNotInitialized)),
        s.tip_result(c, amount as int) matches Ok(after) ==> {
            &&& after.balance_of(c) == s.balance_of(c) + amount
            &&& after.total_of(c) == s.total_of(c) + amount
            &&& after.messages_of(c) == s.messages_of(c)
            &&& x != c ==> after.account(x) == s.account(x)
            &&& after.token == s.token && after.admin == s.admin && after.paused == s.paused
        },
{
}

/// A tip with a message is accepted exactly when the jar is not paused, the
/// amount is positive, the message has at most `MAX_MESSAGE_LEN` characters
/// and the token is set, whatever the creator's balance, total and earlier
/// notes. Then the balance and total grow by the amount, the note joins the
/// end of the creator's notes, and everything else is as before.
pub proof fn law_tip_with_message_accepted_and_recorded(
    s: LedgerView,
    c: Seq<u8>,
    amount: i128,
    note: TipNote,
    x: Seq<u8>,
)
    ensures
        s.tip_with_message_result(c, amount as int, note) is Ok <==> (!s.is_paused() && amount > 0
            && char_count(note.message) <= MAX_MESSAGE_LEN && s.token is Some),
        s.is_paused() ==> s.tip_with_message_result(c, amount as int, note) == Err::<
            LedgerView,
            Refusal,
        >(Refusal::Paused),
        !s.is_paused() && amount <= 0 ==> s.tip_with_message_result(c, amount as int, note) == Err::<
            LedgerView,
            Refusal,
        >(Refusal::Contract(TipJarError::InvalidAmount)),
        !s.is_paused() && amount > 0 && char_count(note.message) > MAX_MESSAGE_LEN
            ==> s.tip_with_message_result(c, amount as int, note) == Err::<LedgerView, Refusal>(
            Refusal::Contract(TipJarError::MessageTooLong),
        ),
        s.tip_with_message_result(c, amount as int, note) matches Ok(after) ==> {
            &&& after.balance_of(c) == s.balance_of(c) + amount
            &&& after.total_of(c) == s.total_of(c) + amount
            &&& after.messages_of(c).len() == s.messages_of(c).len() + 1
            &&& after.messages_of(c).last() == note
            &&& after.messages_of(c).drop_last() == s.messages_of(c)
            &&& x != c ==> after.account(x) == s.account(x)
            &&& after.token == s.token && after.admin == s.admin && after.paused == s.paused
        },
{
    if s.tip_with_message_result(c, amount as int, note) is Ok {
        let after = s.tip_with_message_result(c, amount as int, note)->Ok_0;
        assert(after.messages_of(c).drop_last() =~= s.messages_of(c));
    }
}

/// A withdrawal is accepted exactly when the jar is not paused, the creator's
/// balance is positive and the token is set. It then pays out the whole
/// balance and leaves it at zero, keeping the total, the notes and
/// everything else.
pub proof fn law_withdraw_pays_whole_balance(s: LedgerView, c: Seq<u8>, x: Seq<u8>)
    ensures
        s.withdraw_result(c) is Ok <==> (!s.is_paused() && s.balance_of(c) > 0 && s.token is Some),
        s.is_paused() ==> s.withdraw_result(c) == Err::<(LedgerView, int), Refusal>(Refusal::Paused),
        !s.is_paused() && s.balance_of(c) <= 0 ==> s.withdraw_result(c) == Err::<
            (LedgerView, int),
            Refusal,
        >(Refusal::Contract(TipJarError::NothingToWithdraw)),
        s.withdraw_result(c) matches Ok((after, paid)) ==> {
            &&& paid == s.balance_of(c)
            &&& paid > 0
            &&& after.balance_of(c) == 0
            &&& after.total_of(c) == s.total_of(c)
            &&& after.messages_of(c) == s.messages_of(c)
            &&& x != c ==> after.account(x) == s.account(x)
            &&& after.token == s.token && after.admin == s.admin && after.paused == s.paused
        },
{
}

/// Setting the pause flag succeeds exactly for the recorded administrator,
/// and then leaves the flag at the value asked for, whatever it was before:
/// after an accepted pause the jar is paused, after an accepted unpause it is
/// not. Nothing else changes.
pub proof fn law_pause_flag_is_what_was_asked(s: LedgerView, caller: Seq<u8>, p: bool)
    ensures
        s.set_paused_result(caller, p) is Ok <==> s.admin == Some(caller),
        s.admin is None ==> s.set_paused_result(caller, p) == Err::<LedgerView, Refusal>(
            Refusal::AdminMissing,
        ),
        s.admin is Some && s.admin != Some(caller) ==> s.set_paused_result(caller, p) == Err::<
            LedgerView,
            Refusal,
        >(Refusal::Unauthorized),
        s.set_paused_result(caller, p) matches Ok(after) ==> {
            &&& after.paused == Some(p)
            &&& after.is_paused() == p
            &&& after.token == s.token && after.admin == s.admin
            &&& after.accounts == s.accounts
        },
{
}

/// Pausing twice keeps the jar paused, and unpausing an unpaused jar keeps it
/// unpaused: the flag is set, not toggled.
pub proof fn law_pause_is_idempotent(s: LedgerView, admin: Seq<u8>, p: bool)
    requires
        s.admin == Some(admin),
    ensures
        s.set_paused_result(admin, p)->Ok_0.set_paused_result(admin, p) == s.set_paused_result(
            admin,
            p,
        ),
        s.set_paused_result(admin, p)->Ok_0.is_paused() == p,
{
}

/// Text of plain ASCII bytes has one character per byte.
pub proof fn law_ascii_counts_bytes(text: Seq<u8>)
    requires
        forall|i: int| 0 <= i < text.len() ==> #[trigger] text[i] < 0x80,
    ensures
        char_count(text) == text.len(),
        char_scan(text).1 == 0,
    decreases text.len(),
{
    if text.len() > 0 {
        assert forall|i: int| 0 <= i < text.drop_last().len() implies #[trigger] text.drop_last()[i]
            < 0x80 by {
            assert(text.drop_last()[i] == text[i]);
        }
        law_ascii_counts_bytes(text.drop_last());
        assert(text[text.len() - 1] < 0x80);
    }
}

/// Appending a byte adds at most one character, and appending a byte that no
/// lead byte announces (one that is not of the form `10xxxxxx`) adds exactly one.
pub proof fn law_char_count_grows_by_bytes(text: Seq<u8>, b: u8)
    ensures
        char_count(text) <= char_count(text.push(b)) <= char_count(text) + 1,
        !(0x80 <= b && b < 0xC0) ==> char_count(text.push(b)) == char_count(text) + 1,
{
    assert(text.push(b).drop_last() =~= text);
}

/// At a character boundary (no continuation byte still announced), a
/// continuation byte that nothing announced is a character of its own, and a
/// whole two-, three- or four-byte UTF-8 sequence is exactly one character
/// that ends at a boundary again.
pub proof fn law_encoded_character_counts_once(text: Seq<u8>, lead: u8, c1: u8, c2: u8, c3: u8)
    requires
        char_scan(text).1 == 0,
        0x80 <= c1 < 0xC0,
        0x80 <= c2 < 0xC0,
        0x80 <= c3 < 0xC0,
    ensures
        char_count(text.push(c1)) == char_count(text) + 1,
        0xC0 <= lead < 0xE0 ==> char_count(text.push(lead).push(c1)) == char_count(text) + 1
            && char_scan(text.push(lead).push(c1)).1 == 0,
        0xE0 <= lead < 0xF0 ==> char_count(text.push(lead).push(c1).push(c2)) == char_count(text)
            + 1 && char_scan(text.push(lead).push(c1).push(c2)).1 == 0,
        0xF0 <= lead < 0xF8 ==> char_count(text.push(lead).push(c1).push(c2).push(c3)) == char_count(
            text,
        ) + 1 && char_scan(text.push(lead).push(c1).push(c2).push(c3)).1 == 0,
{
    let t1 = text.push(lead);
    let t2 = t1.push(c1);
    let t3 = t2.push(c2);
    let t4 = t3.push(c3);
    assert(text.push(c1).drop_last() =~= text);
    assert(t1.drop_last() =~= text);
    assert(t2.drop_last() =~= t1);
    assert(t3.drop_last() =~= t2);
    assert(t4.drop_last() =~= t3);
    let n = char_count(text);
    assert(char_scan(t1) == (n + 1, continuation_len(lead)));
    if 0xC0 <= lead < 0xE0 {
        assert(char_scan(t2) == (n + 1, 0int));
    }
    if 0xE0 <= lead < 0xF0 {
        assert(char_scan(t2) == (n + 1, 1int));
        assert(char_scan(t3) == (n + 1, 0int));
    }
    if 0xF0 <= lead < 0xF8 {
        assert(char_scan(t2) == (n + 1, 2int));
        assert(char_scan(t3) == (n + 1, 1int));
        assert(char_scan(t4) == (n + 1, 0int));
    }
}
} // verus!
