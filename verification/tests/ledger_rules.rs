use tipjar::{
    count_chars, Address, Event, Holder, Refusal, TipJarContract, TipJarError, TipWithMessage, MAX_MESSAGE_LEN,
};

fn addr(s: &str) -> Address {
    Address::from_bytes(s.as_bytes().to_vec())
}

fn ready() -> (TipJarContract, Address, Address) {
    let mut jar = TipJarContract::new();
    let token = addr("CTOKEN");
    let admin = addr("GADMIN");
    jar.init(token.clone(), admin.clone()).unwrap();
    (jar, token, admin)
}

#[test]
fn error_codes_are_stable() {
    assert_eq!(TipJarError::AlreadyInitialized.code(), 1);
    assert_eq!(TipJarError::TokenNotInitialized.code(), 2);
    assert_eq!(TipJarError::InvalidAmount.code(), 3);
    assert_eq!(TipJarError::NothingToWithdraw.code(), 4);
    assert_eq!(TipJarError::MessageTooLong.code(), 5);
}

#[test]
fn init_sets_up_once() {
    let mut jar = TipJarContract::new();
    assert_eq!(jar.token(), None);
    assert_eq!(jar.init(addr("CTOKEN"), addr("GADMIN")), Ok(()));
    assert_eq!(jar.token(), Some(addr("CTOKEN")));
    assert_eq!(jar.admin(), Some(addr("GADMIN")));
    assert_eq!(jar.paused(), Some(false));
    assert_eq!(
        jar.init(addr("COTHER"), addr("GOTHER")),
        Err(Refusal::Contract(TipJarError::AlreadyInitialized))
    );
    assert_eq!(jar.token(), Some(addr("CTOKEN")));
    assert_eq!(jar.admin(), Some(addr("GADMIN")));
}

#[test]
fn tip_before_setup_is_refused() {
    let mut jar = TipJarContract::new();
    let r = jar.tip(addr("GS"), addr("GC"), 10);
    assert_eq!(r, Err(Refusal::Contract(TipJarError::TokenNotInitialized)));
    assert_eq!(jar.withdraw(addr("GC")), Err(Refusal::Contract(TipJarError::NothingToWithdraw)));
    assert_eq!(jar.pause(addr("GADMIN")), Err(Refusal::AdminMissing));
}

#[test]
fn refusals_come_in_order() {
    let (mut jar, _, admin) = ready();
    jar.pause(admin).unwrap();
    // Paused comes before the amount and the message checks.
    let long = vec![b'x'; MAX_MESSAGE_LEN + 1];
    assert_eq!(
        jar.tip_with_message(addr("GS"), addr("GC"), 0, long.clone(), Vec::new(), 1),
        Err(Refusal::Paused)
    );
    let (mut jar, _, _) = ready();
    // The amount comes before the message length.
    assert_eq!(
        jar.tip_with_message(addr("GS"), addr("GC"), -5, long, Vec::new(), 1),
        Err(Refusal::Contract(TipJarError::InvalidAmount))
    );
    assert_eq!(jar.tip(addr("GS"), addr("GC"), -1), Err(Refusal::Contract(TipJarError::InvalidAmount)));
}

#[test]
fn message_of_exactly_the_limit_is_accepted() {
    let (mut jar, _, _) = ready();
    let msg = vec![b'y'; MAX_MESSAGE_LEN];
    let r = jar.tip_with_message(addr("GS"), addr("GC"), 7, msg.clone(), Vec::new(), 42);
    assert!(r.is_ok());
    let notes = jar.get_messages(addr("GC"));
    assert_eq!(notes.len(), 1);
    assert_eq!(notes[0].message.len(), 280);
    assert_eq!(notes[0].timestamp, 42);
}

#[test]
fn tip_effects_name_the_transfer_and_event() {
    let (mut jar, token, _) = ready();
    let e = jar.tip(addr("GS"), addr("GC"), 250).unwrap();
    assert_eq!(e.authorizer, addr("GS"));
    assert_eq!(e.transfer.token, token);
    assert_eq!(e.transfer.from, Holder::Account(addr("GS")));
    assert_eq!(e.transfer.to, Holder::Contract);
    assert_eq!(e.transfer.amount, 250);
    assert_eq!(e.event, Event::Tip { creator: addr("GC"), sender: addr("GS"), amount: 250 });
}

#[test]
fn tip_with_message_records_the_note() {
    let (mut jar, _, _) = ready();
    let meta = vec![(b"k".to_vec(), b"v".to_vec())];
    let e = jar
        .tip_with_message(addr("GS"), addr("GC"), 30, b"hi".to_vec(), meta.clone(), 9)
        .unwrap();
    assert_eq!(
        e.event,
        Event::TipMessage {
            creator: addr("GC"),
            sender: addr("GS"),
            amount: 30,
            message: b"hi".to_vec(),
            metadata: meta.clone(),
        }
    );
    assert_eq!(
        jar.get_messages(addr("GC")),
        vec![TipWithMessage {
            sender: addr("GS"),
            creator: addr("GC"),
            amount: 30,
            message: b"hi".to_vec(),
            metadata: meta,
            timestamp: 9,
        }]
    );
    assert_eq!(jar.get_withdrawable_balance(addr("GC")), 30);
}

#[test]
fn notes_keep_their_order_and_plain_tips_add_none() {
    let (mut jar, _, _) = ready();
    jar.tip_with_message(addr("GS"), addr("GC"), 1, b"first".to_vec(), Vec::new(), 1).unwrap();
    jar.tip(addr("GS"), addr("GC"), 5).unwrap();
    jar.tip_with_message(addr("GT"), addr("GC"), 2, b"second".to_vec(), Vec::new(), 2).unwrap();
    let notes = jar.get_messages(addr("GC"));
    assert_eq!(notes.len(), 2);
    assert_eq!(notes[0].message, b"first".to_vec());
    assert_eq!(notes[1].message, b"second".to_vec());
    assert_eq!(notes[1].sender, addr("GT"));
    assert_eq!(jar.get_total_tips(addr("GC")), 8);
    assert!(jar.get_messages(addr("GNOBODY")).is_empty());
}

#[test]
fn withdraw_pays_everything_once_and_total_stays() {
    let (mut jar, token, _) = ready();
    jar.tip(addr("GS"), addr("GC"), 40).unwrap();
    jar.tip(addr("GS"), addr("GC"), 60).unwrap();
    let e = jar.withdraw(addr("GC")).unwrap();
    assert_eq!(e.authorizer, addr("GC"));
    assert_eq!(e.transfer.token, token);
    assert_eq!(e.transfer.from, Holder::Contract);
    assert_eq!(e.transfer.to, Holder::Account(addr("GC")));
    assert_eq!(e.transfer.amount, 100);
    assert_eq!(e.event, Event::Withdraw { creator: addr("GC"), amount: 100 });
    assert_eq!(jar.get_withdrawable_balance(addr("GC")), 0);
    assert_eq!(jar.get_total_tips(addr("GC")), 100);
    assert_eq!(jar.withdraw(addr("GC")), Err(Refusal::Contract(TipJarError::NothingToWithdraw)));
    // Tipping again after a withdrawal grows both counters again.
    jar.tip(addr("GS"), addr("GC"), 5).unwrap();
    assert_eq!(jar.get_withdrawable_balance(addr("GC")), 5);
    assert_eq!(jar.get_total_tips(addr("GC")), 105);
}

#[test]
fn creators_are_independent() {
    let (mut jar, _, _) = ready();
    jar.tip(addr("GS"), addr("GA"), 10).unwrap();
    jar.tip(addr("GS"), addr("GB"), 20).unwrap();
    jar.withdraw(addr("GA")).unwrap();
    assert_eq!(jar.get_withdrawable_balance(addr("GA")), 0);
    assert_eq!(jar.get_withdrawable_balance(addr("GB")), 20);
    assert_eq!(jar.get_total_tips(addr("GA")), 10);
    assert_eq!(jar.get_total_tips(addr("GB")), 20);
}

#[test]
fn escrow_sum_follows_transfers() {
    let (mut jar, _, _) = ready();
    let creators = ["GA", "GB", "GC"];
    let sum = |jar: &TipJarContract| -> i128 {
        creators.iter().map(|c| jar.get_withdrawable_balance(addr(c))).sum()
    };
    let mut escrow: i128 = 0;
    for (i, c) in creators.iter().enumerate() {
        let e = jar.tip(addr("GS"), addr(c), 10 * (i as i128 + 1)).unwrap();
        escrow += e.transfer.amount;
        assert_eq!(sum(&jar), escrow);
    }
    let e = jar.withdraw(addr("GB")).unwrap();
    escrow -= e.transfer.amount;
    assert_eq!(sum(&jar), escrow);
    assert_eq!(escrow, 40);
}

#[test]
fn pause_blocks_moves_but_not_reads() {
    let (mut jar, _, admin) = ready();
    jar.tip(addr("GS"), addr("GC"), 10).unwrap();
    jar.pause(admin.clone()).unwrap();
    assert_eq!(jar.tip(addr("GS"), addr("GC"), 10), Err(Refusal::Paused));
    assert_eq!(
        jar.tip_with_message(addr("GS"), addr("GC"), 10, b"m".to_vec(), Vec::new(), 0),
        Err(Refusal::Paused)
    );
    assert_eq!(jar.withdraw(addr("GC")), Err(Refusal::Paused));
    assert_eq!(jar.get_withdrawable_balance(addr("GC")), 10);
    assert_eq!(jar.get_total_tips(addr("GC")), 10);
    assert_eq!(jar.unpause(addr("GX")), Err(Refusal::Unauthorized));
    assert_eq!(jar.paused(), Some(true));
    jar.unpause(admin).unwrap();
    assert!(jar.withdraw(addr("GC")).is_ok());
}

#[test]
fn overflowing_tips_are_detected_before_the_call() {
    let (mut jar, _, _) = ready();
    jar.tip(addr("GS"), addr("GC"), i128::MAX - 5).unwrap();
    assert!(jar.tip_fits(&addr("GC"), 5));
    assert!(!jar.tip_fits(&addr("GC"), 6));
    assert!(!jar.tip_with_message_fits(&addr("GC"), 6, &b"abc".to_vec()));
    // A tip that is refused anyway always fits.
    assert!(jar.tip_fits(&addr("GC"), 0));
    assert!(jar.tip_with_message_fits(&addr("GC"), 6, &vec![b'z'; MAX_MESSAGE_LEN + 1]));
    assert!(jar.tip_fits(&addr("GOTHER"), 6));
}

#[test]
fn loading_accounts_checks_consistency() {
    let mut jar = TipJarContract::from_settings(Some(addr("CTOKEN")), Some(addr("GADMIN")), None);
    assert_eq!(jar.paused(), None);
    assert!(!jar.load_account(addr("GC"), 5, 4, Vec::new()));
    assert!(!jar.load_account(addr("GC"), -1, 4, Vec::new()));
    let foreign = TipWithMessage {
        sender: addr("GS"),
        creator: addr("GOTHER"),
        amount: 1,
        message: Vec::new(),
        metadata: Vec::new(),
        timestamp: 0,
    };
    assert!(!jar.load_account(addr("GC"), 1, 4, vec![foreign]));
    assert!(jar.load_account(addr("GC"), 3, 4, Vec::new()));
    assert!(!jar.load_account(addr("GC"), 0, 0, Vec::new()));
    assert_eq!(jar.get_withdrawable_balance(addr("GC")), 3);
    assert_eq!(jar.get_total_tips(addr("GC")), 4);
    // An unwritten pause flag reads as not paused.
    jar.tip(addr("GS"), addr("GC"), 1).unwrap();
    assert_eq!(jar.get_total_tips(addr("GC")), 5);
}

#[test]
fn addresses_compare_by_their_text() {
    assert!(addr("GA").same_as(&addr("GA")));
    assert!(!addr("GA").same_as(&addr("GB")));
    assert_eq!(addr("GA").to_bytes(), b"GA".to_vec());
}

#[test]
fn refusals_after_authorization() {
    assert!(Refusal::Contract(TipJarError::TokenNotInitialized).follows_authorization());
    assert!(Refusal::Contract(TipJarError::NothingToWithdraw).follows_authorization());
    assert!(Refusal::Unauthorized.follows_authorization());
    assert!(Refusal::AdminMissing.follows_authorization());
    assert!(!Refusal::Paused.follows_authorization());
    assert!(!Refusal::Contract(TipJarError::AlreadyInitialized).follows_authorization());
    assert!(!Refusal::Contract(TipJarError::InvalidAmount).follows_authorization());
    assert!(!Refusal::Contract(TipJarError::MessageTooLong).follows_authorization());
}

#[test]
fn counters_follow_the_accepted_history() {
    let (mut jar, _, admin) = ready();
    let c = addr("GC");
    let mut tipped: i128 = 0;
    let mut withdrawn: i128 = 0;
    for (i, amount) in [5i128, 0, 7, -3, 11].iter().enumerate() {
        if i == 3 {
            jar.pause(admin.clone()).unwrap();
        }
        if let Ok(e) = jar.tip(addr("GS"), c.clone(), *amount) {
            tipped += e.transfer.amount;
        }
        if i == 3 {
            jar.unpause(admin.clone()).unwrap();
        }
        if i == 2 {
            withdrawn += jar.withdraw(c.clone()).unwrap().transfer.amount;
        }
    }
    assert_eq!(tipped, 23);
    assert_eq!(withdrawn, 12);
    assert_eq!(jar.get_total_tips(c.clone()), tipped);
    assert_eq!(jar.get_withdrawable_balance(c), tipped - withdrawn);
}

#[test]
fn message_limit_counts_characters() {
    assert_eq!(count_chars(&"héllo".as_bytes().to_vec()), 5);
    assert_eq!(count_chars(&"€".repeat(100).into_bytes()), 100);
    assert_eq!(count_chars(&Vec::new()), 0);

    let (mut jar, _, _) = ready();
    // 100 characters of three bytes each: within the limit.
    let euros = "€".repeat(100).into_bytes();
    assert_eq!(euros.len(), 300);
    assert!(jar.tip_with_message(addr("GS"), addr("GC"), 5, euros, Vec::new(), 1).is_ok());
    // 280 two-byte characters are accepted, 281 are not.
    let at_limit = "é".repeat(280).into_bytes();
    assert!(jar.tip_with_message(addr("GS"), addr("GC"), 5, at_limit, Vec::new(), 2).is_ok());
    let over = "é".repeat(281).into_bytes();
    assert_eq!(
        jar.tip_with_message(addr("GS"), addr("GC"), 5, over, Vec::new(), 3),
        Err(Refusal::Contract(TipJarError::MessageTooLong))
    );
    assert_eq!(jar.get_messages(addr("GC")).len(), 2);
}

#[test]
fn pause_and_unpause_name_their_authorizer() {
    let (mut jar, _, admin) = ready();
    assert_eq!(jar.pause(admin.clone()), Ok(admin.clone()));
    assert_eq!(jar.paused(), Some(true));
    assert_eq!(jar.unpause(admin.clone()), Ok(admin));
    assert_eq!(jar.paused(), Some(false));
}

#[test]
fn setup_survives_every_request() {
    let (mut jar, token, admin) = ready();
    let _ = jar.init(addr("COTHER"), addr("GOTHER"));
    let _ = jar.tip(addr("GS"), addr("GC"), 3);
    let _ = jar.pause(addr("GOTHER"));
    let _ = jar.withdraw(addr("GC"));
    assert_eq!(jar.token(), Some(token));
    assert_eq!(jar.admin(), Some(admin));
}

#[test]
fn no_double_payout_with_requests_in_between() {
    let (mut jar, _, admin) = ready();
    jar.tip(addr("GS"), addr("GC"), 9).unwrap();
    assert_eq!(jar.withdraw(addr("GC")).unwrap().transfer.amount, 9);
    jar.tip(addr("GS"), addr("GD"), 4).unwrap();
    jar.pause(admin.clone()).unwrap();
    assert_eq!(jar.withdraw(addr("GC")), Err(Refusal::Paused));
    jar.unpause(admin).unwrap();
    let _ = jar.tip(addr("GS"), addr("GC"), 0);
    assert_eq!(jar.withdraw(addr("GC")), Err(Refusal::Contract(TipJarError::NothingToWithdraw)));
    assert_eq!(jar.get_withdrawable_balance(addr("GC")), 0);
}

#[test]
fn message_tip_matches_plain_tip() {
    let (mut a, _, _) = ready();
    let (mut b, _, _) = ready();
    a.tip(addr("GS"), addr("GC"), 6).unwrap();
    b.tip_with_message(addr("GS"), addr("GC"), 6, b"note".to_vec(), Vec::new(), 0).unwrap();
    assert_eq!(a.get_total_tips(addr("GC")), b.get_total_tips(addr("GC")));
    assert_eq!(a.get_withdrawable_balance(addr("GC")), b.get_withdrawable_balance(addr("GC")));
    assert_eq!(a.get_messages(addr("GC")).len() + 1, b.get_messages(addr("GC")).len());
}

#[test]
fn stray_continuation_bytes_count_as_characters() {
    // A lead byte takes the continuation bytes it announces; others stand alone.
    assert_eq!(count_chars(&vec![0xC3, 0xA9, 0xA9]), 2);
    assert_eq!(count_chars(&vec![0xE2, 0x41]), 2);
    assert_eq!(count_chars(&vec![0x80; 10_000]), 10_000);
    assert_eq!(count_chars(&vec![0xF0, 0x9F, 0x98, 0x80, 0x80]), 2);

    let (mut jar, _, _) = ready();
    assert_eq!(
        jar.tip_with_message(addr("GS"), addr("GC"), 5, vec![0x80; 10_000], Vec::new(), 1),
        Err(Refusal::Contract(TipJarError::MessageTooLong))
    );
    assert_eq!(
        jar.tip_with_message(addr("GS"), addr("GC"), 5, vec![0x80; 281], Vec::new(), 1),
        Err(Refusal::Contract(TipJarError::MessageTooLong))
    );
    assert!(jar.tip_with_message(addr("GS"), addr("GC"), 5, vec![0x80; 280], Vec::new(), 1).is_ok());
}
