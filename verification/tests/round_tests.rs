use lottery::round::{Lottery, LotteryError, ENTRY_FEE};

#[test]
fn enter_lottery() {
    let mut contract = Lottery::new("bob.near".to_string());
    assert!(contract.enter("player.near".to_string(), ENTRY_FEE).is_ok());
    assert!(contract.participants.len() == 1);
}

#[test]
fn new_lottery_starts_empty() {
    let l = Lottery::new("alice".to_string());
    assert_eq!(l.round_id, 0);
    assert_eq!(l.operator, "alice".to_string());
    assert!(l.participants.is_empty());
    assert!(l.winners.is_empty());
}

#[test]
fn scenario_full_round() {
    let mut l = Lottery::new("alice".to_string());

    assert_eq!(l.enter("bob".to_string(), ENTRY_FEE), Ok(()));
    assert_eq!(l.participants, vec!["bob".to_string()]);

    assert_eq!(l.enter("carol".to_string(), ENTRY_FEE), Ok(()));
    assert_eq!(l.participants, vec!["bob".to_string(), "carol".to_string()]);

    // a participant may settle
    let caller = "bob".to_string();
    let w = l.claim(&caller, 1_600_000_000).unwrap();
    assert!(w == "bob" || w == "carol");
    assert_eq!(l.winners, vec![w]);
    assert!(l.participants.is_empty());
    assert_eq!(l.round_id, 1);

    // settling the now-empty pool is rejected, and the round does not move
    let operator = "alice".to_string();
    assert_eq!(l.claim(&operator, 1_600_000_001), Err(LotteryError::EmptyPool));
    assert_eq!(l.round_id, 1);
    assert_eq!(l.winners.len(), 1);

    // underpaying is rejected and the registry stays unchanged
    assert_eq!(
        l.enter("dave".to_string(), ENTRY_FEE - 1),
        Err(LotteryError::InsufficientPayment)
    );
    assert!(l.participants.is_empty());
}

#[test]
fn entering_twice_keeps_the_registry_size() {
    let mut l = Lottery::new("alice".to_string());
    assert_eq!(l.enter("bob".to_string(), ENTRY_FEE), Ok(()));
    let size_after_first = l.participants.len();
    assert_eq!(l.enter("bob".to_string(), ENTRY_FEE), Ok(()));
    assert_eq!(l.participants.len(), size_after_first);
    assert_eq!(l.participants, vec!["bob".to_string()]);
}

#[test]
fn any_payment_but_the_fee_is_rejected() {
    let mut l = Lottery::new("alice".to_string());
    assert_eq!(
        l.enter("bob".to_string(), ENTRY_FEE - 1),
        Err(LotteryError::InsufficientPayment)
    );
    assert_eq!(
        l.enter("bob".to_string(), ENTRY_FEE + 1),
        Err(LotteryError::InsufficientPayment)
    );
    assert_eq!(
        l.enter("bob".to_string(), 0),
        Err(LotteryError::InsufficientPayment)
    );
    assert!(l.participants.is_empty());
    assert_eq!(l.round_id, 0);
}

#[test]
fn settlement_by_a_stranger_is_rejected() {
    let mut l = Lottery::new("alice".to_string());
    assert_eq!(l.enter("bob".to_string(), ENTRY_FEE), Ok(()));
    let stranger = "mallory".to_string();
    assert_eq!(l.claim(&stranger, 42), Err(LotteryError::Unauthorized));
    assert_eq!(l.round_id, 0);
    assert_eq!(l.participants, vec!["bob".to_string()]);
    assert!(l.winners.is_empty());
}

#[test]
fn settlement_of_an_empty_pool_is_rejected() {
    let mut l = Lottery::new("alice".to_string());
    let operator = "alice".to_string();
    assert_eq!(l.claim(&operator, 42), Err(LotteryError::EmptyPool));
    assert_eq!(l.round_id, 0);
    assert!(l.winners.is_empty());
}

#[test]
fn the_operator_may_settle_without_an_entry() {
    let mut l = Lottery::new("alice".to_string());
    assert_eq!(l.enter("bob".to_string(), ENTRY_FEE), Ok(()));
    let operator = "alice".to_string();
    assert_eq!(l.claim(&operator, 42), Ok("bob".to_string()));
    assert_eq!(l.round_id, 1);
}

#[test]
fn the_winner_is_always_a_participant() {
    for timestamp in 0..50u64 {
        let mut l = Lottery::new("alice".to_string());
        assert_eq!(l.enter("bob".to_string(), ENTRY_FEE), Ok(()));
        assert_eq!(l.enter("carol".to_string(), ENTRY_FEE), Ok(()));
        assert_eq!(l.enter("dave".to_string(), ENTRY_FEE), Ok(()));
        let operator = "alice".to_string();
        let w = l.claim(&operator, timestamp).unwrap();
        assert!(w == "bob" || w == "carol" || w == "dave");
    }
}

#[test]
fn selection_is_deterministic_and_replayable() {
    let run = || {
        let mut l = Lottery::new("alice".to_string());
        l.enter("bob".to_string(), ENTRY_FEE).unwrap();
        l.enter("carol".to_string(), ENTRY_FEE).unwrap();
        l.enter("dave".to_string(), ENTRY_FEE).unwrap();
        let operator = "alice".to_string();
        l.claim(&operator, 1_700_000_000).unwrap()
    };
    let first = run();
    let second = run();
    assert_eq!(first, second);
    // pinned replay of the digest-driven selection for these exact inputs
    assert_eq!(first, "bob".to_string());
}

#[test]
fn the_ledger_is_append_only_across_rounds() {
    let mut l = Lottery::new("alice".to_string());
    l.enter("bob".to_string(), ENTRY_FEE).unwrap();
    let operator = "alice".to_string();
    let w0 = l.claim(&operator, 10).unwrap();
    assert_eq!(w0, "bob".to_string());
    assert_eq!(l.round_id, 1);

    l.enter("carol".to_string(), ENTRY_FEE).unwrap();
    let w1 = l.claim(&operator, 11).unwrap();
    assert_eq!(w1, "carol".to_string());
    assert_eq!(l.round_id, 2);
    assert_eq!(l.winners, vec![w0, w1]);
}

#[test]
fn the_balance_is_read_from_the_host_ledger() {
    let l = Lottery::new("alice".to_string());
    assert_eq!(
        l.get_balance(),
        near_sdk::env::account_balance().as_yoctonear()
    );
}
