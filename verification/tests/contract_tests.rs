use tipjar::{Address, Effects, Holder, Refusal, TipJarContract, TipJarError};

/// Token balances as the token contract would keep them, so that the
/// transfers the tip jar asks for can be carried out in tests.
struct Tokens {
    balances: Vec<(Vec<u8>, i128)>,
}

const ESCROW: &[u8] = b"CTIPJARCONTRACT";

impl Tokens {
    fn new() -> Self {
        Tokens { balances: Vec::new() }
    }

    fn balance_of(&self, who: &[u8]) -> i128 {
        self.balances
            .iter()
            .find(|(k, _)| k.as_slice() == who)
            .map(|(_, v)| *v)
            .unwrap_or(0)
    }

    fn add(&mut self, who: &[u8], delta: i128) {
        if let Some(entry) = self.balances.iter_mut().find(|(k, _)| k.as_slice() == who) {
            entry.1 += delta;
        } else {
            self.balances.push((who.to_vec(), delta));
        }
    }

    fn mint(&mut self, who: &Address, amount: i128) {
        self.add(&who.to_bytes(), amount);
    }

    fn balance(&self, who: &Address) -> i128 {
        self.balance_of(&who.to_bytes())
    }

    fn contract_balance(&self) -> i128 {
        self.balance_of(ESCROW)
    }

    fn holder_key(h: &Holder) -> Vec<u8> {
        match h {
            Holder::Contract => ESCROW.to_vec(),
            Holder::Account(a) => a.to_bytes(),
        }
    }

    fn carry_out(&mut self, e: &Effects) {
        let from = Self::holder_key(&e.transfer.from);
        let to = Self::holder_key(&e.transfer.to);
        assert!(self.balance_of(&from) >= e.transfer.amount, "insufficient balance");
        self.add(&from, -e.transfer.amount);
        self.add(&to, e.transfer.amount);
    }
}

fn addr(s: &str) -> Address {
    Address::from_bytes(s.as_bytes().to_vec())
}

fn setup() -> (TipJarContract, Tokens, Address, Address) {
    let mut jar = TipJarContract::new();
    let token = addr("CTOKEN");
    let admin = addr("GADMIN");
    assert_eq!(jar.init(token.clone(), admin.clone()), Ok(()));
    (jar, Tokens::new(), token, admin)
}

fn tip(jar: &mut TipJarContract, tokens: &mut Tokens, sender: &Address, creator: &Address, amount: i128) {
    let e = jar.tip(sender.clone(), creator.clone(), amount).expect("tip accepted");
    tokens.carry_out(&e);
}

#[test]
fn test_tipping_functionality() {
    let (mut jar, mut tokens, _, _) = setup();
    let sender = addr("GSENDER");
    let creator = addr("GCREATOR");

    tokens.mint(&sender, 1_000);
    tip(&mut jar, &mut tokens, &sender, &creator, 250);

    assert_eq!(tokens.balance(&sender), 750);
    assert_eq!(tokens.contract_balance(), 250);
    assert_eq!(jar.get_total_tips(creator.clone()), 250);
}

#[test]
fn test_tipping_with_message_functionality() {
    let (mut jar, mut tokens, _, _) = setup();
    let sender = addr("GSENDER");
    let creator = addr("GCREATOR");

    let message = b"Great job!".to_vec();
    let metadata = Vec::new();

    tokens.mint(&sender, 1_000);
    let e = jar
        .tip_with_message(sender.clone(), creator.clone(), 250, message.clone(), metadata, 0)
        .expect("tip accepted");
    tokens.carry_out(&e);

    assert_eq!(tokens.balance(&sender), 750);
    assert_eq!(tokens.contract_balance(), 250);
    assert_eq!(jar.get_total_tips(creator.clone()), 250);

    let msgs = jar.get_messages(creator.clone());
    assert_eq!(msgs.len(), 1);
    let msg = &msgs[0];
    assert_eq!(msg.message, message);
}

#[test]
fn test_tipping_message_too_long() {
    let (mut jar, mut tokens, _, _) = setup();
    let sender = addr("GSENDER");
    let creator = addr("GCREATOR");

    let long_str = "x".repeat(281);
    let message = long_str.as_bytes().to_vec();
    let metadata = Vec::new();

    tokens.mint(&sender, 1_000);
    let r = jar.tip_with_message(sender, creator.clone(), 250, message, metadata, 0);
    assert_eq!(r, Err(Refusal::Contract(TipJarError::MessageTooLong)));
    assert_eq!(TipJarError::MessageTooLong.code(), 5);
    assert_eq!(jar.get_total_tips(creator), 0);
}

#[test]
fn test_balance_tracking_and_withdraw() {
    let (mut jar, mut tokens, _, _) = setup();
    let sender_a = addr("GSENDERA");
    let sender_b = addr("GSENDERB");
    let creator = addr("GCREATOR");

    tokens.mint(&sender_a, 1_000);
    tokens.mint(&sender_b, 1_000);

    tip(&mut jar, &mut tokens, &sender_a, &creator, 100);
    tip(&mut jar, &mut tokens, &sender_b, &creator, 300);

    assert_eq!(jar.get_total_tips(creator.clone()), 400);
    assert_eq!(jar.get_withdrawable_balance(creator.clone()), 400);
    assert_eq!(tokens.contract_balance(), 400);

    let e = jar.withdraw(creator.clone()).expect("withdraw accepted");
    tokens.carry_out(&e);

    assert_eq!(jar.get_withdrawable_balance(creator.clone()), 0);
    assert_eq!(tokens.balance(&creator), 400);
    assert_eq!(tokens.contract_balance(), 0);
}

#[test]
fn test_invalid_tip_amount() {
    let (mut jar, mut tokens, _, _) = setup();
    let sender = addr("GSENDER");
    let creator = addr("GCREATOR");

    tokens.mint(&sender, 100);

    // Zero tips are rejected to prevent accidental or abusive calls.
    let r = jar.tip(sender, creator, 0);
    assert_eq!(r, Err(Refusal::Contract(TipJarError::InvalidAmount)));
}

#[test]
fn test_pause_unpause() {
    let (mut jar, mut tokens, _, admin) = setup();

    assert_eq!(jar.pause(admin.clone()), Ok(admin.clone()));

    let sender = addr("GSENDER");
    let creator = addr("GCREATOR");

    // This should fail
    let result = jar.tip(sender.clone(), creator.clone(), 100);
    assert!(result.is_err());

    // Unpause
    assert_eq!(jar.unpause(admin.clone()), Ok(admin));

    // This should now succeed (once we mint tokens)
    tokens.mint(&sender, 100);
    tip(&mut jar, &mut tokens, &sender, &creator, 100);
    assert_eq!(jar.get_total_tips(creator), 100);
}

#[test]
fn test_pause_admin_only() {
    let (mut jar, _, _, _) = setup();
    let non_admin = addr("GSOMEONE");

    assert_eq!(jar.pause(non_admin), Err(Refusal::Unauthorized));
    assert_eq!(jar.paused(), Some(false));
}

#[test]
fn test_withdraw_blocked_when_paused() {
    let (mut jar, mut tokens, _, admin) = setup();
    let sender = addr("GSENDER");
    let creator = addr("GCREATOR");

    tokens.mint(&sender, 100);
    tip(&mut jar, &mut tokens, &sender, &creator, 100);

    assert_eq!(jar.pause(admin.clone()), Ok(admin));

    let result = jar.withdraw(creator.clone());
    assert!(result.is_err());
    assert_eq!(jar.get_withdrawable_balance(creator), 100);
}
