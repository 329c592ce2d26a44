use lottery::contract::{payout_messages, pick_winners};
use lottery::msg::Transfer;
use lottery::payout::{admin_fee, prize_amount, WINNER_COUNT};
use lottery::state::{Coin, Config};

fn config_in(denom: &str) -> Config {
    Config {
        admin: "admin".to_string(),
        ticket_price: Coin { denom: denom.to_string(), amount: 1 },
        round_duration: 1,
        paused: false,
    }
}

#[test]
fn three_winners() {
    assert_eq!(WINNER_COUNT, 3);
}

#[test]
fn prize_is_a_third_of_nine_tenths() {
    assert_eq!(prize_amount(0), 0);
    assert_eq!(prize_amount(1), 0);
    assert_eq!(prize_amount(3), 0);
    assert_eq!(prize_amount(4), 1);
    assert_eq!(prize_amount(9), 2);
    assert_eq!(prize_amount(10), 3);
    assert_eq!(prize_amount(11), 3);
    assert_eq!(prize_amount(99), 29);
    assert_eq!(prize_amount(100), 30);
    assert_eq!(prize_amount(101), 30);
    assert_eq!(prize_amount(1250), 375);
    assert_eq!(prize_amount(1_000_000_000_000_000_000_000_000_000_007), 300_000_000_000_000_000_000_000_000_002);
}

#[test]
fn fee_is_a_tenth() {
    assert_eq!(admin_fee(0), 0);
    assert_eq!(admin_fee(9), 0);
    assert_eq!(admin_fee(10), 1);
    assert_eq!(admin_fee(99), 9);
    assert_eq!(admin_fee(100), 10);
    assert_eq!(admin_fee(1250), 125);
    assert_eq!(admin_fee(1_000_000_000_000_000_000_000_000_000_007), 100_000_000_000_000_000_000_000_000_000);
}

#[test]
fn the_largest_pool_is_paid_without_overflow() {
    assert_eq!(prize_amount(u128::MAX), 102_084_710_076_281_539_039_012_382_229_530_463_436);
    assert_eq!(admin_fee(u128::MAX), 34_028_236_692_093_846_346_337_460_743_176_821_145);
    assert_eq!(u128::MAX - 3 * prize_amount(u128::MAX) - admin_fee(u128::MAX), 2);
}

#[test]
fn payments_stay_within_the_pool() {
    for pool in 0..5000u128 {
        let paid = 3 * prize_amount(pool) + admin_fee(pool);
        assert!(paid <= pool);
        assert!(pool - paid <= 3);
        assert_eq!(prize_amount(pool), pool * 90 / 100 / 3);
        assert_eq!(admin_fee(pool), pool * 10 / 100);
    }
}

#[test]
fn winners_are_picked_by_slot() {
    let participants: Vec<String> = ["a", "b", "c", "b"].iter().map(|s| s.to_string()).collect();
    assert_eq!(pick_winners(&participants, &vec![3, 1, 0]), vec!["b", "b", "a"]);
    assert_eq!(pick_winners(&participants, &vec![2]), vec!["c"]);
    assert!(pick_winners(&participants, &vec![]).is_empty());
}

#[test]
fn messages_pay_winners_then_admin() {
    let winners: Vec<String> = ["x", "y", "x"].iter().map(|s| s.to_string()).collect();
    let pay = |to: &str, amount: u128| Transfer {
        to_address: to.to_string(),
        amount: Coin { denom: "uatom".to_string(), amount },
    };
    assert_eq!(
        payout_messages(&config_in("uatom"), &winners, 101),
        vec![pay("x", 30), pay("y", 30), pay("x", 30), pay("admin", 10)]
    );
    assert_eq!(
        payout_messages(&config_in("uatom"), &winners, 0),
        vec![pay("x", 0), pay("y", 0), pay("x", 0), pay("admin", 0)]
    );
}
