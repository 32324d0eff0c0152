use stellar_pass::{Address, Error, PaymentType, StellarPassContract};

fn token() -> Address {
    Address(999)
}

fn ts() -> u64 {
    12345
}

#[test]
fn test_register_user() {
    let mut s = StellarPassContract::new();
    let admin = Address(1);
    let user_addr = Address(2);

    s.initialize(admin);

    let result = s.register_user(
        "testuser".to_string(),
        user_addr,
        "passkey123".to_string(),
        ts(),
    );
    assert!(result.is_ok());

    let user = s.get_user(&"testuser".to_string());
    assert!(user.is_some());
    assert_eq!(user.unwrap().username, "testuser");
}

#[test]
fn test_tip_link() {
    let mut s = StellarPassContract::new();
    let admin = Address(1);
    let user_addr = Address(2);

    s.initialize(admin);
    s.register_user(
        "creator".to_string(),
        user_addr,
        "passkey123".to_string(),
        ts(),
    )
    .unwrap();

    let tip_link = s.get_tip_link(&"creator".to_string());
    assert!(tip_link.is_some());
    assert_eq!(tip_link.unwrap().owner, user_addr);
}

#[test]
fn initialize_records_admin() {
    let mut s = StellarPassContract::new();
    assert_eq!(s.admin, None);
    s.initialize(Address(7));
    assert_eq!(s.admin, Some(Address(7)));
}

#[test]
fn registration_creates_zeroed_user_and_active_link() {
    let mut s = StellarPassContract::new();
    let addr = Address(3);
    s.register_user("alice".to_string(), addr, "pk".to_string(), 42)
        .unwrap();

    let user = s.get_user(&"alice".to_string()).unwrap();
    assert_eq!(user.username, "alice");
    assert_eq!(user.stellar_address, addr);
    assert_eq!(user.passkey_id, "pk");
    assert_eq!(user.created_at, 42);
    assert_eq!(user.total_sent, 0);
    assert_eq!(user.total_received, 0);

    let link = s.get_tip_link(&"alice".to_string()).unwrap();
    assert_eq!(link.username, "alice");
    assert_eq!(link.owner, addr);
    assert!(link.active);
    assert_eq!(link.total_tips, 0);
    assert_eq!(link.tip_count, 0);
}

#[test]
fn duplicate_username_is_rejected_without_changes() {
    let mut s = StellarPassContract::new();
    s.register_user("alice".to_string(), Address(3), "pk".to_string(), 1)
        .unwrap();
    let second = s.register_user("alice".to_string(), Address(4), "other".to_string(), 2);
    assert_eq!(second, Err(Error::UsernameTaken));

    // The first registration is untouched by the failed call.
    let user = s.get_user(&"alice".to_string()).unwrap();
    assert_eq!(user.stellar_address, Address(3));
    assert_eq!(user.passkey_id, "pk");
    assert_eq!(user.created_at, 1);
    let (user_count, payment_count, volume) = s.get_stats();
    assert_eq!(user_count, 1);
    assert_eq!(payment_count, 0);
    assert_eq!(volume, 0);
}

#[test]
fn payment_ids_are_sequential_from_zero() {
    let mut s = StellarPassContract::new();
    let a = Address(1);
    let b = Address(2);
    for expected in 0u64..3 {
        let id = s
            .send_payment(
                a,
                b,
                10,
                token(),
                "m".to_string(),
                PaymentType::Transfer,
                ts(),
                true,
            )
            .unwrap();
        assert_eq!(id, expected);
    }
    // A failed call produces no row, so the next id has no gap.
    let bad = s.send_payment(
        a,
        b,
        0,
        token(),
        "m".to_string(),
        PaymentType::Transfer,
        ts(),
        false,
    );
    assert_eq!(bad, Err(Error::InvalidAmount));
    let id = s
        .send_payment(
            a,
            b,
            10,
            token(),
            "m".to_string(),
            PaymentType::Gift,
            ts(),
            true,
        )
        .unwrap();
    assert_eq!(id, 3);
}

#[test]
fn non_positive_amount_is_rejected_without_changes() {
    let mut s = StellarPassContract::new();
    let a = Address(1);
    s.register_user("alice".to_string(), a, "pk".to_string(), 1)
        .unwrap();

    for amount in [0i128, -5] {
        let r = s.send_payment(
            a,
            Address(2),
            amount,
            token(),
            "m".to_string(),
            PaymentType::Transfer,
            ts(),
            true,
        );
        assert_eq!(r, Err(Error::InvalidAmount));
    }
    let (_, payment_count, volume) = s.get_stats();
    assert_eq!(payment_count, 0);
    assert_eq!(volume, 0);
    assert_eq!(s.get_user(&"alice".to_string()).unwrap().total_sent, 0);
}

#[test]
fn failed_transfer_aborts_everything() {
    let mut s = StellarPassContract::new();
    let a = Address(1);
    s.register_user("alice".to_string(), a, "pk".to_string(), 1)
        .unwrap();
    let r = s.send_payment(
        a,
        Address(2),
        25,
        token(),
        "m".to_string(),
        PaymentType::Transfer,
        ts(),
        false,
    );
    assert_eq!(r, Err(Error::TransferFailed));
    let (user_count, payment_count, volume) = s.get_stats();
    assert_eq!((user_count, payment_count, volume), (1, 0, 0));
    assert_eq!(s.get_user(&"alice".to_string()).unwrap().total_sent, 0);
}

#[test]
fn payment_updates_both_parties_totals() {
    let mut s = StellarPassContract::new();
    let a = Address(1);
    let b = Address(2);
    s.register_user("alice".to_string(), a, "pk".to_string(), 1)
        .unwrap();
    s.register_user("bob".to_string(), b, "pk".to_string(), 1)
        .unwrap();

    s.send_payment(
        a,
        b,
        100,
        token(),
        "m".to_string(),
        PaymentType::Transfer,
        ts(),
        true,
    )
    .unwrap();

    let alice = s.get_user(&"alice".to_string()).unwrap();
    let bob = s.get_user(&"bob".to_string()).unwrap();
    assert_eq!(alice.total_sent, 100);
    assert_eq!(alice.total_received, 0);
    assert_eq!(bob.total_sent, 0);
    assert_eq!(bob.total_received, 100);
}

#[test]
fn unregistered_counterparty_is_a_quiet_no_op() {
    let mut s = StellarPassContract::new();
    let a = Address(1);
    let stranger = Address(77);
    s.register_user("alice".to_string(), a, "pk".to_string(), 1)
        .unwrap();

    // Alice pays an identity with no registered username: no error.
    let id = s
        .send_payment(
            a,
            stranger,
            30,
            token(),
            "m".to_string(),
            PaymentType::Transfer,
            ts(),
            true,
        )
        .unwrap();
    assert_eq!(id, 0);
    // And a stranger pays Alice.
    s.send_payment(
        stranger,
        a,
        20,
        token(),
        "m".to_string(),
        PaymentType::Transfer,
        ts(),
        true,
    )
    .unwrap();

    let alice = s.get_user(&"alice".to_string()).unwrap();
    assert_eq!(alice.total_sent, 30);
    assert_eq!(alice.total_received, 20);
    // Only one user row exists; both payments are on the ledger.
    let (user_count, payment_count, volume) = s.get_stats();
    assert_eq!((user_count, payment_count, volume), (1, 2, 50));
}

#[test]
fn tip_to_unknown_username_fails_not_found() {
    let mut s = StellarPassContract::new();
    let r = s.send_tip(
        Address(1),
        &"nobody".to_string(),
        10,
        token(),
        "hi".to_string(),
        ts(),
        true,
    );
    assert_eq!(r, Err(Error::NotFound));
}

#[test]
fn tip_updates_link_aggregates_and_ledger() {
    let mut s = StellarPassContract::new();
    let a = Address(1);
    let b = Address(2);
    s.register_user("alice".to_string(), a, "pk".to_string(), 1)
        .unwrap();
    s.register_user("bob".to_string(), b, "pk".to_string(), 1)
        .unwrap();

    let id = s
        .send_tip(a, &"bob".to_string(), 50, token(), "nice".to_string(), ts(), true)
        .unwrap();
    assert_eq!(id, 0);

    let link = s.get_tip_link(&"bob".to_string()).unwrap();
    assert_eq!(link.total_tips, 50);
    assert_eq!(link.tip_count, 1);

    // The tip is an ordinary ledger row of kind Tip, paid to the owner.
    let rows = s.get_user_payments(b, 10);
    assert_eq!(rows.len(), 1);
    assert_eq!(rows[0].payment_type, PaymentType::Tip);
    assert_eq!(rows[0].from, a);
    assert_eq!(rows[0].to, b);
    assert_eq!(rows[0].amount, 50);
    assert_eq!(rows[0].memo, "nice");
    // And it moves the user totals like any payment.
    assert_eq!(s.get_user(&"bob".to_string()).unwrap().total_received, 50);
}

#[test]
fn tip_to_inactive_link_fails_without_changes() {
    let mut s = StellarPassContract::new();
    let a = Address(1);
    let b = Address(2);
    s.register_user("bob".to_string(), b, "pk".to_string(), 1)
        .unwrap();
    assert_eq!(s.toggle_tip_link(&"bob".to_string(), b), Ok(false));

    let r = s.send_tip(a, &"bob".to_string(), 10, token(), "hi".to_string(), ts(), true);
    assert_eq!(r, Err(Error::Inactive));

    let link = s.get_tip_link(&"bob".to_string()).unwrap();
    assert_eq!(link.total_tips, 0);
    assert_eq!(link.tip_count, 0);
    assert!(!link.active);
    let (_, payment_count, _) = s.get_stats();
    assert_eq!(payment_count, 0);
}

#[test]
fn tip_with_invalid_amount_or_failed_transfer_changes_nothing() {
    let mut s = StellarPassContract::new();
    let a = Address(1);
    let b = Address(2);
    s.register_user("bob".to_string(), b, "pk".to_string(), 1)
        .unwrap();

    let r = s.send_tip(a, &"bob".to_string(), 0, token(), "hi".to_string(), ts(), true);
    assert_eq!(r, Err(Error::InvalidAmount));
    let r = s.send_tip(a, &"bob".to_string(), 10, token(), "hi".to_string(), ts(), false);
    assert_eq!(r, Err(Error::TransferFailed));

    let link = s.get_tip_link(&"bob".to_string()).unwrap();
    assert_eq!((link.total_tips, link.tip_count), (0, 0));
    let (_, payment_count, volume) = s.get_stats();
    assert_eq!((payment_count, volume), (0, 0));
}

#[test]
fn toggle_requires_the_owner() {
    let mut s = StellarPassContract::new();
    let owner = Address(2);
    let intruder = Address(3);
    s.register_user("bob".to_string(), owner, "pk".to_string(), 1)
        .unwrap();

    assert_eq!(
        s.toggle_tip_link(&"bob".to_string(), intruder),
        Err(Error::Unauthorized)
    );
    assert!(s.get_tip_link(&"bob".to_string()).unwrap().active);

    assert_eq!(s.toggle_tip_link(&"bob".to_string(), owner), Ok(false));
    assert!(!s.get_tip_link(&"bob".to_string()).unwrap().active);
    // Toggling twice restores the previous value.
    assert_eq!(s.toggle_tip_link(&"bob".to_string(), owner), Ok(true));
    assert!(s.get_tip_link(&"bob".to_string()).unwrap().active);

    assert_eq!(
        s.toggle_tip_link(&"nobody".to_string(), owner),
        Err(Error::NotFound)
    );
}

#[test]
fn global_volume_is_the_sum_over_all_rows() {
    let mut s = StellarPassContract::new();
    let a = Address(1);
    let b = Address(2);
    s.register_user("alice".to_string(), a, "pk".to_string(), 1)
        .unwrap();
    s.register_user("bob".to_string(), b, "pk".to_string(), 1)
        .unwrap();

    s.send_payment(a, b, 7, token(), "x".to_string(), PaymentType::Transfer, 1, true)
        .unwrap();
    s.send_tip(b, &"alice".to_string(), 11, token(), "y".to_string(), 2, true)
        .unwrap();
    s.send_payment(b, a, 5, token(), "z".to_string(), PaymentType::Reward, 3, true)
        .unwrap();
    // Failed operations contribute nothing.
    let _ = s.send_payment(a, b, -1, token(), "w".to_string(), PaymentType::Gift, 4, true);
    let _ = s.send_payment(a, b, 100, token(), "w".to_string(), PaymentType::Gift, 4, false);
    let _ = s.send_tip(a, &"bob".to_string(), 0, token(), "w".to_string(), 5, true);

    let (user_count, payment_count, volume) = s.get_stats();
    assert_eq!(user_count, 2);
    assert_eq!(payment_count, 3);
    assert_eq!(volume, 7 + 11 + 5);
}

#[test]
fn user_payments_are_newest_first_and_cut_at_limit() {
    let mut s = StellarPassContract::new();
    let a = Address(1);
    let b = Address(2);
    let c = Address(3);

    s.send_payment(a, b, 10, token(), "p0".to_string(), PaymentType::Transfer, 1, true)
        .unwrap();
    s.send_payment(b, c, 20, token(), "p1".to_string(), PaymentType::Transfer, 2, true)
        .unwrap();
    s.send_payment(c, a, 30, token(), "p2".to_string(), PaymentType::Transfer, 3, true)
        .unwrap();
    s.send_payment(a, c, 40, token(), "p3".to_string(), PaymentType::Transfer, 4, true)
        .unwrap();

    // Rows involving `a`, newest first: p3, p2, p0.
    let rows = s.get_user_payments(a, 10);
    let ids: Vec<u64> = rows.iter().map(|p| p.id).collect();
    assert_eq!(ids, vec![3, 2, 0]);

    // The limit cuts the scan after the two most recent matches.
    let rows = s.get_user_payments(a, 2);
    let ids: Vec<u64> = rows.iter().map(|p| p.id).collect();
    assert_eq!(ids, vec![3, 2]);

    // An identity that nothing involves gets an empty answer.
    assert!(s.get_user_payments(Address(9), 10).is_empty());
    // A zero limit collects nothing.
    assert!(s.get_user_payments(a, 0).is_empty());
}

#[test]
fn full_tipping_scenario() {
    let mut s = StellarPassContract::new();
    let a = Address(100);
    let b = Address(200);
    s.register_user("alice".to_string(), a, "pk-a".to_string(), 1)
        .unwrap();
    s.register_user("bob".to_string(), b, "pk-b".to_string(), 1)
        .unwrap();

    // Alice sends 100 units to Bob.
    let id = s
        .send_payment(a, b, 100, token(), "m".to_string(), PaymentType::Transfer, 2, true)
        .unwrap();
    assert_eq!(id, 0);
    assert_eq!(s.get_user(&"alice".to_string()).unwrap().total_sent, 100);
    assert_eq!(s.get_user(&"bob".to_string()).unwrap().total_received, 100);

    // Alice tips 50 through Bob's link.
    let id = s
        .send_tip(a, &"bob".to_string(), 50, token(), "tip".to_string(), 3, true)
        .unwrap();
    assert_eq!(id, 1);
    let link = s.get_tip_link(&"bob".to_string()).unwrap();
    assert_eq!(link.total_tips, 50);
    assert_eq!(link.tip_count, 1);
    assert_eq!(s.get_user(&"alice".to_string()).unwrap().total_sent, 150);
    assert_eq!(s.get_user(&"bob".to_string()).unwrap().total_received, 150);

    // Bob switches his link off; another tip fails and changes nothing.
    assert_eq!(s.toggle_tip_link(&"bob".to_string(), b), Ok(false));
    let r = s.send_tip(a, &"bob".to_string(), 25, token(), "again".to_string(), 4, true);
    assert_eq!(r, Err(Error::Inactive));

    let link = s.get_tip_link(&"bob".to_string()).unwrap();
    assert_eq!(link.total_tips, 50);
    assert_eq!(link.tip_count, 1);
    assert_eq!(s.get_user(&"alice".to_string()).unwrap().total_sent, 150);
    assert_eq!(s.get_user(&"bob".to_string()).unwrap().total_received, 150);
    let (user_count, payment_count, volume) = s.get_stats();
    assert_eq!((user_count, payment_count, volume), (2, 2, 150));
}
