use vstd::prelude::*;

use crate::address::Address;
use crate::effects::{Effects, Event, Holder, TokenTransfer};
use crate::error::{Refusal, TipJarError};
use crate::ledger::{AccountView, LedgerView, MAX_MESSAGE_LEN, empty_account};
use crate::message::{
    Metadata, TipNote, TipWithMessage, char_count, copy_bytes, count_chars, copy_messages, copy_metadata, metadata_view,
    notes_view,
};

verus! {

/// The stored record of one creator.
struct CreatorAccount {
    creator: Address,
    balance: i128,
    total: i128,
    messages: Vec<TipWithMessage>,
}

impl CreatorAccount {
    closed spec fn summary(self) -> AccountView {
        AccountView {
            balance: self.balance as int,
            total: self.total as int,
            messages: notes_view(self.messages@),
        }
    }
}

/// Every note of creator `c` names `c` as its creator and carries a positive amount.
pub open spec fn notes_belong_to(c: Seq<u8>, notes: Seq<TipNote>) -> bool {
    forall|i: int| 0 <= i < notes.len() ==> (#[trigger] notes[i]).creator == c && notes[i].amount > 0
}

/// The invariant of one creator's account.
pub open spec fn account_consistent(c: Seq<u8>, a: AccountView) -> bool {
    &&& 0 <= a.balance <= a.total
    &&& notes_belong_to(c, a.messages)
}

impl LedgerView {
    /// Every account satisfies [`account_consistent`].
    pub open spec fn consistent(self) -> bool {
        forall|c: Seq<u8>| #[trigger]
            self.accounts.dom().contains(c) ==> account_consistent(c, self.accounts[c])
    }
}

spec fn distinct(s: Seq<CreatorAccount>) -> bool {
    forall|i: int, j: int|
        0 <= i < s.len() && 0 <= j < s.len() && i != j ==> (#[trigger] s[i]).creator@ != (
        #[trigger] s[j]).creator@
}

spec fn account_map(s: Seq<CreatorAccount>) -> Map<Seq<u8>, AccountView>
    decreases s.len(),
{
    if s.len() == 0 {
        Map::empty()
    } else {
        account_map(s.drop_last()).insert(s.last().creator@, s.last().summary())
    }
}

proof fn lemma_distinct_prefix(s: Seq<CreatorAccount>)
    requires
        s.len() > 0,
        distinct(s),
    ensures
        distinct(s.drop_last()),
{
    assert forall|i: int, j: int|
        0 <= i < s.drop_last().len() && 0 <= j < s.drop_last().len() && i != j implies (
        #[trigger] s.drop_last()[i]).creator@ != (#[trigger] s.drop_last()[j]).creator@ by {
        assert(s.drop_last()[i] == s[i]);
        assert(s.drop_last()[j] == s[j]);
    }
}

proof fn lemma_map_get(s: Seq<CreatorAccount>, i: int)
    requires
        distinct(s),
        0 <= i < s.len(),
    ensures
        account_map(s).dom().contains(s[i].creator@),
        account_map(s)[s[i].creator@] == s[i].summary(),
    decreases s.len(),
{
    if i < s.len() - 1 {
        lemma_distinct_prefix(s);
        lemma_map_get(s.drop_last(), i);
        assert(s.drop_last()[i] == s[i]);
        assert(s[s.len() - 1].creator@ != s[i].creator@);
    }
}

proof fn lemma_map_absent(s: Seq<CreatorAccount>, k: Seq<u8>)
    requires
        forall|i: int| 0 <= i < s.len() ==> (#[trigger] s[i]).creator@ != k,
    ensures
        !account_map(s).dom().contains(k),
    decreases s.len(),
{
    if s.len() > 0 {
        assert(s[s.len() - 1].creator@ != k);
        assert forall|i: int| 0 <= i < s.drop_last().len() implies (
        #[trigger] s.drop_last()[i]).creator@ != k by {
            assert(s.drop_last()[i] == s[i]);
        }
        lemma_map_absent(s.drop_last(), k);
    }
}

proof fn lemma_map_has_only(s: Seq<CreatorAccount>, k: Seq<u8>)
    requires
        account_map(s).dom().contains(k),
    ensures
        exists|i: int| 0 <= i < s.len() && (#[trigger] s[i]).creator@ == k,
{
    if !(exists|i: int| 0 <= i < s.len() && (#[trigger] s[i]).creator@ == k) {
        lemma_map_absent(s, k);
    }
}

proof fn lemma_map_update(s: Seq<CreatorAccount>, i: int, a: CreatorAccount)
    requires
        distinct(s),
        0 <= i < s.len(),
        a.creator@ == s[i].creator@,
    ensures
        account_map(s.update(i, a)) == account_map(s).insert(a.creator@, a.summary()),
    decreases s.len(),
{
    let t = s.update(i, a);
    if i == s.len() - 1 {
        assert(t.drop_last() =~= s.drop_last());
        assert(account_map(t) =~= account_map(s).insert(a.creator@, a.summary()));
    } else {
        lemma_distinct_prefix(s);
        lemma_map_update(s.drop_last(), i, a);
        assert(t.drop_last() =~= s.drop_last().update(i, a));
        assert(s.last().creator@ != s[i].creator@);
        assert(account_map(t) =~= account_map(s).insert(a.creator@, a.summary()));
    }
}

proof fn lemma_map_push(s: Seq<CreatorAccount>, a: CreatorAccount)
    ensures
        account_map(s.push(a)) == account_map(s).insert(a.creator@, a.summary()),
{
    assert(s.push(a).drop_last() =~= s);
}

/// The abstract value of an optional address.
pub open spec fn opt_view(o: Option<Address>) -> Option<Seq<u8>> {
    match o {
        Some(a) => Some(a@),
        None => None,
    }
}

fn copy_opt(o: &Option<Address>) -> (r: Option<Address>)
    ensures
        opt_view(r) == opt_view(*o),
{
    match o {
        Some(a) => Some(a.clone()),
        None => None,
    }
}

/// The tip jar's ledger: its setup (token, administrator, pause flag) and
/// one account per creator that has been tipped.
pub struct TipJarContract {
    token: Option<Address>,
    admin: Option<Address>,
    paused: Option<bool>,
    accounts: Vec<CreatorAccount>,
}

impl View for TipJarContract {
    type V = LedgerView;

    closed spec fn view(&self) -> LedgerView {
        LedgerView {
            token: opt_view(self.token),
            admin: opt_view(self.admin),
            paused: self.paused,
            accounts: account_map(self.accounts@),
        }
    }
}

impl TipJarContract {
    /// The internal invariant: one record per creator, each consistent.
    pub closed spec fn wf(&self) -> bool {
        &&& distinct(self.accounts@)
        &&& forall|i: int|
            0 <= i < self.accounts@.len() ==> account_consistent(
                (#[trigger] self.accounts@[i]).creator@,
                self.accounts@[i].summary(),
            )
    }

    /// A well-formed ledger is consistent.
    pub proof fn lemma_consistent(&self)
        requires
            self.wf(),
        ensures
            self@.consistent(),
    {
        let s = self.accounts@;
        assert forall|c: Seq<u8>| #[trigger] self@.accounts.dom().contains(c) implies account_consistent(
            c,
            self@.accounts[c],
        ) by {
            lemma_map_has_only(s, c);
            let i = choose|i: int| 0 <= i < s.len() && (#[trigger] s[i]).creator@ == c;
            lemma_map_get(s, i);
        }
    }

    /// Where `creator`'s record is kept, if anywhere.
    fn find(&self, creator: &Address) -> (r: Option<usize>)
        requires
            self.wf(),
        ensures
            match r {
                Some(i) => i < self.accounts.len() && self.accounts@[i as int].creator@ == creator@
                    && self@.account(creator@) == self.accounts@[i as int].summary(),
                None => (forall|i: int|
                    0 <= i < self.accounts@.len() ==> (#[trigger] self.accounts@[i]).creator@
                        != creator@) && self@.account(creator@) == empty_account(),
            },
    {
        let n = self.accounts.len();
        let mut i: usize = 0;
        while i < n
            invariant
                self.wf(),
                n == self.accounts.len(),
                i <= n,
                forall|j: int| 0 <= j < i ==> (#[trigger] self.accounts@[j]).creator@ != creator@,
            decreases n - i,
        {
            if self.accounts[i].creator.same_as(creator) {
                proof {
                    lemma_map_get(self.accounts@, i as int);
                }
                return Some(i);
            }
            i = i + 1;
        }
        proof {
            lemma_map_absent(self.accounts@, creator@);
        }
        None
    }
}


impl TipJarContract {
    /// Adds `amount` to `creator`'s balance and total, appending `note` to the
    /// creator's messages when there is one.
    fn deposit(&mut self, creator: &Address, amount: i128, note: Option<TipWithMessage>)
        requires
            old(self).wf(),
            amount > 0,
            old(self)@.total_of(creator@) + amount <= i128::MAX,
            note matches Some(n) ==> n.creator@ == creator@ && n.amount > 0,
        ensures
            final(self).wf(),
            final(self)@ == match note {
                None => old(self)@.credit(creator@, amount as int),
                Some(n) => old(self)@.credit_with_note(creator@, amount as int, n@),
            },
    {
        let ghost pre = self@;
        let ghost note_view = match &note {
            Some(n) => Some(n@),
            None => None::<TipNote>,
        };
        match self.find(creator) {
            Some(i) => {
                let ghost s0 = self.accounts@;
                proof {
                    lemma_map_get(s0, i as int);
                }
                let mut acc = CreatorAccount {
                    creator: creator.clone(),
                    balance: 0,
                    total: 0,
                    messages: Vec::new(),
                };
                self.accounts.set_and_swap(i, &mut acc);
                let ghost old_msgs = acc.messages@;
                assert(account_consistent(acc.creator@, acc.summary()));
                acc.balance = acc.balance + amount;
                acc.total = acc.total + amount;
                match note {
                    Some(n) => {
                        acc.messages.push(n);
                        assert(notes_view(acc.messages@) =~= notes_view(old_msgs).push(
                            note_view.unwrap(),
                        ));
                    },
                    None => {},
                }
                let ghost acc_g = acc;
                self.accounts.set(i, acc);
                proof {
                    assert(self.accounts@ =~= s0.update(i as int, acc_g));
                    lemma_map_update(s0, i as int, acc_g);
                    assert(self@.accounts =~= pre.accounts.insert(creator@, acc_g.summary()));
                }
            },
            None => {
                let mut messages: Vec<TipWithMessage> = Vec::new();
                match note {
                    Some(n) => {
                        messages.push(n);
                        assert(notes_view(messages@) =~= Seq::<TipNote>::empty().push(
                            note_view.unwrap(),
                        ));
                    },
                    None => {
                        assert(notes_view(messages@) =~= Seq::<TipNote>::empty());
                    },
                }
                let acc = CreatorAccount {
                    creator: creator.clone(),
                    balance: amount,
                    total: amount,
                    messages,
                };
                let ghost before = self.accounts@;
                self.accounts.push(acc);
                proof {
                    lemma_map_push(before, acc);
                    assert(self@.accounts =~= pre.accounts.insert(creator@, acc.summary()));
                }
            },
        }
    }
}

impl TipJarContract {
    /// Sets `creator`'s withdrawable balance to zero, keeping the total and messages.
    fn clear_balance(&mut self, creator: &Address, i: usize)
        requires
            old(self).wf(),
            i < old(self).accounts.len(),
            old(self).accounts@[i as int].creator@ == creator@,
        ensures
            final(self).wf(),
            final(self)@ == old(self)@.with_account(
                creator@,
                AccountView {
                    balance: 0,
                    total: old(self)@.total_of(creator@),
                    messages: old(self)@.messages_of(creator@),
                },
            ),
    {
        let ghost pre = self@;
        let ghost s0 = self.accounts@;
        proof {
            lemma_map_get(s0, i as int);
        }
        let mut acc = CreatorAccount {
            creator: creator.clone(),
            balance: 0,
            total: 0,
            messages: Vec::new(),
        };
        self.accounts.set_and_swap(i, &mut acc);
        acc.balance = 0;
        let ghost acc_g = acc;
        self.accounts.set(i, acc);
        proof {
            assert(self.accounts@ =~= s0.update(i as int, acc_g));
            lemma_map_update(s0, i as int, acc_g);
            assert(self@.accounts =~= pre.accounts.insert(creator@, acc_g.summary()));
        }
    }

    /// Refuses while the contract is paused.
    fn require_not_paused(&self) -> (r: Result<(), Refusal>)
        ensures
            r is Err <==> self@.is_paused(),
            r matches Err(e) ==> e == Refusal::Paused,
    {
        let is_paused = match self.paused {
            Some(p) => p,
            None => false,
        };
        if is_paused {
            Err(Refusal::Paused)
        } else {
            Ok(())
        }
    }

    /// The token in which tips are paid; refused before setup.
    fn read_token(&self) -> (r: Result<Address, Refusal>)
        ensures
            match r {
                Ok(t) => self@.token == Some(t@),
                Err(e) => self@.token is None && e == Refusal::Contract(
                    TipJarError::TokenNotInitialized,
                ),
            },
    {
        match &self.token {
            Some(t) => Ok(t.clone()),
            None => Err(Refusal::Contract(TipJarError::TokenNotInitialized)),
        }
    }

    /// A freshly deployed tip jar: nothing set up, no accounts.
    pub fn new() -> (c: Self)
        ensures
            c.wf(),
            c@ == (LedgerView { token: None, admin: None, paused: None, accounts: Map::empty() }),
    {
        let c = TipJarContract { token: None, admin: None, paused: None, accounts: Vec::new() };
        assert(c@.accounts =~= Map::<Seq<u8>, AccountView>::empty());
        c
    }

    /// A tip jar with the given setup and no accounts loaded.
    pub fn from_settings(token: Option<Address>, admin: Option<Address>, paused: Option<bool>) -> (c:
        Self)
        ensures
            c.wf(),
            c@ == (LedgerView {
                token: opt_view(token),
                admin: opt_view(admin),
                paused,
                accounts: Map::empty(),
            }),
    {
        let c = TipJarContract { token, admin, paused, accounts: Vec::new() };
        assert(c@.accounts =~= Map::<Seq<u8>, AccountView>::empty());
        c
    }

    /// Records `creator`'s account as held elsewhere. It is taken only when
    /// the creator has no account here yet and the account is consistent;
    /// otherwise nothing changes.
    pub fn load_account(
        &mut self,
        creator: Address,
        balance: i128,
        total: i128,
        messages: Vec<TipWithMessage>,
    ) -> (loaded: bool)
        requires
            old(self).wf(),
        ensures
            final(self).wf(),
            loaded == (!old(self)@.accounts.dom().contains(creator@) && account_consistent(
                creator@,
                AccountView { balance: balance as int, total: total as int, messages: notes_view(messages@) },
            )),
            loaded ==> final(self)@ == old(self)@.with_account(
                creator@,
                AccountView { balance: balance as int, total: total as int, messages: notes_view(messages@) },
            ),
            !loaded ==> final(self)@ == old(self)@,
    {
        let ghost pre = self@;
        let ghost nv = notes_view(messages@);
        let present = match self.find(&creator) {
            Some(_) => true,
            None => false,
        };
        proof {
            if present {
                let i = choose|i: int| 0 <= i < self.accounts@.len() && (#[trigger] self.accounts@[i]).creator@ == creator@;
                lemma_map_get(self.accounts@, i);
            } else {
                lemma_map_absent(self.accounts@, creator@);
            }
        }
        if present || balance < 0 || balance > total {
            return false;
        }
        let n = messages.len();
        let mut k: usize = 0;
        while k < n
            invariant
                self.wf(),
                self@ == pre,
                !pre.accounts.dom().contains(creator@),
                0 <= balance <= total,
                n == messages.len(),
                k <= n,
                nv == notes_view(messages@),
                forall|j: int| 0 <= j < k ==> (#[trigger] nv[j]).creator == creator@ && nv[j].amount > 0,
            decreases n - k,
        {
            if !messages[k].creator.same_as(&creator) || messages[k].amount <= 0 {
                assert(nv[k as int] == messages@[k as int]@);
                return false;
            }
            k = k + 1;
        }
        let acc = CreatorAccount { creator, balance, total, messages };
        let ghost before = self.accounts@;
        self.accounts.push(acc);
        proof {
            lemma_map_push(before, acc);
            assert forall|i: int, j: int|
                0 <= i < self.accounts@.len() && 0 <= j < self.accounts@.len() && i != j implies (
                #[trigger] self.accounts@[i]).creator@ != (#[trigger] self.accounts@[j]).creator@ by {
                if i < before.len() && j < before.len() {
                    assert(self.accounts@[i] == before[i]);
                    assert(self.accounts@[j] == before[j]);
                } else if i < before.len() {
                    assert(self.accounts@[i] == before[i]);
                } else {
                    assert(self.accounts@[j] == before[j]);
                }
            }
            assert(self@.accounts =~= pre.accounts.insert(acc.creator@, acc.summary()));
        }
        true
    }
}

impl TipJarContract {
    /// One-time setup: chooses the token in which tips are paid and the
    /// administrator, and clears the pause flag. Refused once a token is set.
    pub fn init(&mut self, token: Address, admin: Address) -> (r: Result<(), Refusal>)
        requires
            old(self).wf(),
        ensures
            final(self).wf(),
            match r {
                Ok(()) => old(self)@.init_result(token@, admin@) == Ok::<LedgerView, Refusal>(
                    final(self)@,
                ),
                Err(e) => old(self)@.init_result(token@, admin@) == Err::<LedgerView, Refusal>(e)
                    && final(self)@ == old(self)@,
            },
    {
        if self.token.is_some() {
            return Err(Refusal::Contract(TipJarError::AlreadyInitialized));
        }
        self.token = Some(token);
        self.admin = Some(admin);
        self.paused = Some(false);
        Ok(())
    }

    /// Records a tip of `amount` from `sender` to `creator`.
    ///
    /// Refused while paused, for a non-positive amount, and before setup, in
    /// that order. When accepted, `sender` must authorize moving `amount` of
    /// the token into escrow; the creator's balance and total both grow by
    /// `amount`, and a "tip" event names the creator, the sender and the amount.
    pub fn tip(&mut self, sender: Address, creator: Address, amount: i128) -> (r: Result<
        Effects,
        Refusal,
    >)
        requires
            old(self).wf(),
            old(self)@.tip_fits(creator@, amount as int),
        ensures
            final(self).wf(),
            match r {
                Ok(e) => {
                    &&& old(self)@.tip_result(creator@, amount as int) == Ok::<LedgerView, Refusal>(
                        final(self)@,
                    )
                    &&& e.deposits(old(self)@.token.unwrap(), sender@, amount as int)
                    &&& e.announces_tip(creator@, sender@, amount as int)
                    &&& e.authorizer@ == sender@
                    &&& old(self)@.token == Some(e.transfer.token@)
                    &&& e.transfer.from matches Holder::Account(a) && a@ == sender@
                    &&& e.transfer.to is Contract
                    &&& e.transfer.amount == amount
                    &&& amount > 0
                },
                Err(x) => old(self)@.tip_result(creator@, amount as int) == Err::<LedgerView, Refusal>(
                    x,
                ) && final(self)@ == old(self)@,
            },
    {
        match self.require_not_paused() {
            Err(x) => return Err(x),
            Ok(()) => {},
        }
        if amount <= 0 {
            return Err(Refusal::Contract(TipJarError::InvalidAmount));
        }
        let token = match self.read_token() {
            Ok(t) => t,
            Err(x) => return Err(x),
        };
        self.deposit(&creator, amount, None);
        let transfer = TokenTransfer {
            token,
            from: Holder::Account(sender.clone()),
            to: Holder::Contract,
            amount,
        };
        Ok(Effects { authorizer: sender.clone(), transfer, event: Event::Tip { creator, sender, amount } })
    }

    /// Records a tip that comes with a note and its metadata, stamped with the
    /// ledger time `timestamp`.
    ///
    /// Refused while paused, for a non-positive amount, for a message longer
    /// than [`MAX_MESSAGE_LEN`] characters, and before setup, in that order. When
    /// accepted it does what [`TipJarContract::tip`] does, and also appends the
    /// note to the end of the creator's messages; a "tip_msg" event carries the
    /// message and the metadata as well.
    pub fn tip_with_message(
        &mut self,
        sender: Address,
        creator: Address,
        amount: i128,
        message: Vec<u8>,
        metadata: Metadata,
        timestamp: u64,
    ) -> (r: Result<Effects, Refusal>)
        requires
            old(self).wf(),
            old(self)@.tip_with_message_fits(creator@, amount as int, char_count(message@)),
        ensures
            final(self).wf(),
            ({
                let note = TipNote {
                    sender: sender@,
                    creator: creator@,
                    amount,
                    message: message@,
                    metadata: metadata_view(metadata@),
                    timestamp,
                };
                match r {
                    Ok(e) => {
                        &&& old(self)@.tip_with_message_result(creator@, amount as int, note) == Ok::<
                            LedgerView,
                            Refusal,
                        >(final(self)@)
                        &&& e.deposits(old(self)@.token.unwrap(), sender@, amount as int)
                        &&& e.authorizer@ == sender@
                        &&& old(self)@.token == Some(e.transfer.token@)
                        &&& e.transfer.from matches Holder::Account(a) && a@ == sender@
                        &&& e.transfer.to is Contract
                        &&& e.transfer.amount == amount
                        &&& amount > 0
                        &&& e.announces_tip_message(
                            creator@,
                            sender@,
                            amount as int,
                            message@,
                            metadata_view(metadata@),
                        )
                    },
                    Err(x) => old(self)@.tip_with_message_result(creator@, amount as int, note)
                        == Err::<LedgerView, Refusal>(x) && final(self)@ == old(self)@,
                }
            }),
    {
        match self.require_not_paused() {
            Err(x) => return Err(x),
            Ok(()) => {},
        }
        if amount <= 0 {
            return Err(Refusal::Contract(TipJarError::InvalidAmount));
        }
        if count_chars(&message) > MAX_MESSAGE_LEN {
            return Err(Refusal::Contract(TipJarError::MessageTooLong));
        }
        let token = match self.read_token() {
            Ok(t) => t,
            Err(x) => return Err(x),
        };
        let payload = TipWithMessage {
            sender: sender.clone(),
            creator: creator.clone(),
            amount,
            message: copy_bytes(&message),
            metadata: copy_metadata(&metadata),
            timestamp,
        };
        self.deposit(&creator, amount, Some(payload));
        let transfer = TokenTransfer {
            token,
            from: Holder::Account(sender.clone()),
            to: Holder::Contract,
            amount,
        };
        Ok(
            Effects {
                authorizer: sender.clone(),
                transfer,
                event: Event::TipMessage { creator, sender, amount, message, metadata },
            },
        )
    }

    /// The creator's all-time total of tips received.
    pub fn get_total_tips(&self, creator: Address) -> (t: i128)
        requires
            self.wf(),
        ensures
            t == self@.total_of(creator@),
    {
        match self.find(&creator) {
            Some(i) => self.accounts[i].total,
            None => 0,
        }
    }

    /// The notes that came with tips to the creator, oldest first.
    pub fn get_messages(&self, creator: Address) -> (m: Vec<TipWithMessage>)
        requires
            self.wf(),
        ensures
            notes_view(m@) == self@.messages_of(creator@),
    {
        match self.find(&creator) {
            Some(i) => copy_messages(&self.accounts[i].messages),
            None => {
                let m: Vec<TipWithMessage> = Vec::new();
                assert(notes_view(m@) =~= Seq::<TipNote>::empty());
                m
            },
        }
    }

    /// The creator's escrowed tips that may still be withdrawn.
    pub fn get_withdrawable_balance(&self, creator: Address) -> (b: i128)
        requires
            self.wf(),
        ensures
            b == self@.balance_of(creator@),
    {
        match self.find(&creator) {
            Some(i) => self.accounts[i].balance,
            None => 0,
        }
    }

    /// Pays the creator's whole withdrawable balance out of escrow.
    ///
    /// Refused while paused, when there is nothing to withdraw, and before
    /// setup, in that order. When accepted, the creator must authorize the
    /// payout of the full balance; the balance drops to zero while the total
    /// and the messages stay, and a "withdraw" event names the creator and
    /// the amount.
    pub fn withdraw(&mut self, creator: Address) -> (r: Result<Effects, Refusal>)
        requires
            old(self).wf(),
        ensures
            final(self).wf(),
            match r {
                Ok(e) => {
                    &&& old(self)@.withdraw_result(creator@) == Ok::<(LedgerView, int), Refusal>(
                        (final(self)@, e.transfer.amount as int),
                    )
                    &&& e.pays_out(old(self)@.token.unwrap(), creator@, e.transfer.amount as int)
                    &&& e.announces_withdraw(creator@, e.transfer.amount as int)
                    &&& e.authorizer@ == creator@
                    &&& old(self)@.token == Some(e.transfer.token@)
                    &&& e.transfer.from is Contract
                    &&& e.transfer.to matches Holder::Account(a) && a@ == creator@
                    &&& e.transfer.amount == old(self)@.balance_of(creator@)
                    &&& e.transfer.amount > 0
                },
                Err(x) => old(self)@.withdraw_result(creator@) == Err::<(LedgerView, int), Refusal>(
                    x,
                ) && final(self)@ == old(self)@,
            },
    {
        match self.require_not_paused() {
            Err(x) => return Err(x),
            Ok(()) => {},
        }
        let found = self.find(&creator);
        let amount: i128 = match found {
            Some(i) => self.accounts[i].balance,
            None => 0,
        };
        if amount <= 0 {
            return Err(Refusal::Contract(TipJarError::NothingToWithdraw));
        }
        let token = match self.read_token() {
            Ok(t) => t,
            Err(x) => return Err(x),
        };
        match found {
            Some(i) => self.clear_balance(&creator, i),
            None => {},
        }
        let transfer = TokenTransfer {
            token,
            from: Holder::Contract,
            to: Holder::Account(creator.clone()),
            amount,
        };
        Ok(
            Effects {
                authorizer: creator.clone(),
                transfer,
                event: Event::Withdraw { creator, amount },
            },
        )
    }

    /// Sets the pause flag to `p` on behalf of `caller`, who must be the administrator.
    fn set_paused(&mut self, caller: &Address, p: bool) -> (r: Result<(), Refusal>)
        requires
            old(self).wf(),
        ensures
            final(self).wf(),
            match r {
                Ok(()) => old(self)@.set_paused_result(caller@, p) == Ok::<LedgerView, Refusal>(
                    final(self)@,
                ),
                Err(x) => old(self)@.set_paused_result(caller@, p) == Err::<LedgerView, Refusal>(x)
                    && final(self)@ == old(self)@,
            },
    {
        let is_admin = match &self.admin {
            None => return Err(Refusal::AdminMissing),
            Some(a) => a.same_as(caller),
        };
        if !is_admin {
            return Err(Refusal::Unauthorized);
        }
        self.paused = Some(p);
        Ok(())
    }

    /// Emergency stop of all state-changing requests; only the administrator
    /// may do it. When accepted, the result is the address that must
    /// authorize the call (the caller); every refusal comes after that
    /// authorization is demanded.
    pub fn pause(&mut self, admin: Address) -> (r: Result<Address, Refusal>)
        requires
            old(self).wf(),
        ensures
            final(self).wf(),
            match r {
                Ok(a) => a@ == admin@ && old(self)@.set_paused_result(admin@, true) == Ok::<
                    LedgerView,
                    Refusal,
                >(final(self)@),
                Err(x) => old(self)@.set_paused_result(admin@, true) == Err::<LedgerView, Refusal>(
                    x,
                ) && final(self)@ == old(self)@ && x.comes_after_authorization(),
            },
    {
        match self.set_paused(&admin, true) {
            Ok(()) => Ok(admin),
            Err(x) => Err(x),
        }
    }

    /// Lifts an emergency stop; only the administrator may do it. When
    /// accepted, the result is the address that must authorize the call (the
    /// caller); every refusal comes after that authorization is demanded.
    pub fn unpause(&mut self, admin: Address) -> (r: Result<Address, Refusal>)
        requires
            old(self).wf(),
        ensures
            final(self).wf(),
            match r {
                Ok(a) => a@ == admin@ && old(self)@.set_paused_result(admin@, false) == Ok::<
                    LedgerView,
                    Refusal,
                >(final(self)@),
                Err(x) => old(self)@.set_paused_result(admin@, false) == Err::<LedgerView, Refusal>(
                    x,
                ) && final(self)@ == old(self)@ && x.comes_after_authorization(),
            },
    {
        match self.set_paused(&admin, false) {
            Ok(()) => Ok(admin),
            Err(x) => Err(x),
        }
    }
}

impl TipJarContract {
    /// Whether a plain tip of `amount` to `creator` may be handed to
    /// [`TipJarContract::tip`]: it is refused anyway, or its sums fit in `i128`.
    pub fn tip_fits(&self, creator: &Address, amount: i128) -> (b: bool)
        requires
            self.wf(),
        ensures
            b == self@.tip_fits(creator@, amount as int),
    {
        let refused = match self.paused {
            Some(p) => p,
            None => false,
        } || amount <= 0 || self.token.is_none();
        refused || self.total_fits(creator, amount)
    }

    /// Whether a tip with the message `message` may be handed to
    /// [`TipJarContract::tip_with_message`]: it is refused anyway, or its sums
    /// fit in `i128`.
    pub fn tip_with_message_fits(&self, creator: &Address, amount: i128, message: &Vec<u8>) -> (b:
        bool)
        requires
            self.wf(),
        ensures
            b == self@.tip_with_message_fits(creator@, amount as int, char_count(message@)),
    {
        let refused = match self.paused {
            Some(p) => p,
            None => false,
        } || amount <= 0 || count_chars(message) > MAX_MESSAGE_LEN || self.token.is_none();
        refused || self.total_fits(creator, amount)
    }

    /// Whether `amount` can be added to the creator's total without overflow.
    fn total_fits(&self, creator: &Address, amount: i128) -> (b: bool)
        requires
            self.wf(),
        ensures
            b == (self@.total_of(creator@) + amount <= i128::MAX),
    {
        let total = match self.find(creator) {
            Some(i) => self.accounts[i].total,
            None => 0,
        };
        if amount <= 0 {
            true
        } else {
            total <= i128::MAX - amount
        }
    }

    /// The token in which tips are paid, once set up.
    pub fn token(&self) -> (t: Option<Address>)
        ensures
            opt_view(t) == self@.token,
    {
        copy_opt(&self.token)
    }

    /// The administrator, once set up.
    pub fn admin(&self) -> (a: Option<Address>)
        ensures
            opt_view(a) == self@.admin,
    {
        copy_opt(&self.admin)
    }

    /// The stored pause flag, once written.
    pub fn paused(&self) -> (p: Option<bool>)
        ensures
            p == self@.paused,
    {
        self.paused
    }
}
} // verus!
