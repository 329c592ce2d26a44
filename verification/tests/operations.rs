use lottery::contract::{
    copy_addresses, is_ticket_payment, round_has_ended, try_buy_ticket, try_end_round, try_pause,
    try_resume,
};
use lottery::error::ContractError;
use lottery::msg::{Env, MessageInfo, Response, Transfer};
use lottery::state::{Coin, Config, Round, RoundWinners};

fn uatom(amount: u128) -> Coin {
    Coin { denom: "uatom".to_string(), amount }
}

fn config_of(price: u128, round_duration: u64) -> Config {
    Config { admin: "admin".to_string(), ticket_price: uatom(price), round_duration, paused: false }
}

fn round_with(price: u128, participants: &[&str], start_time: u64) -> Round {
    Round {
        id: 7,
        total_funds: uatom(price * participants.len() as u128),
        participants: participants.iter().map(|s| s.to_string()).collect(),
        start_time,
    }
}

fn sent_by(sender: &str, funds: Vec<Coin>) -> MessageInfo {
    MessageInfo { sender: sender.to_string(), funds }
}

#[test]
fn ticket_payment_is_one_coin_of_the_price() {
    let config = config_of(10, 1);
    assert!(is_ticket_payment(&config, &vec![uatom(10)]));
    assert!(!is_ticket_payment(&config, &vec![]));
    assert!(!is_ticket_payment(&config, &vec![uatom(9)]));
    assert!(!is_ticket_payment(&config, &vec![uatom(11)]));
    assert!(!is_ticket_payment(&config, &vec![Coin { denom: "orai".to_string(), amount: 10 }]));
    assert!(!is_ticket_payment(&config, &vec![uatom(10), uatom(10)]));
    assert!(!is_ticket_payment(&config, &vec![uatom(5), uatom(5)]));
}

#[test]
fn buying_appends_the_sender() {
    let config = config_of(10, 1);
    let mut round = round_with(10, &["ann", "bob"], 50);
    let res = try_buy_ticket(&config, &mut round, &sent_by("ann", vec![uatom(10)]));
    assert_eq!(res, Ok(Response::BuyTicket { ticket_id: 3 }));
    assert_eq!(round, round_with(10, &["ann", "bob", "ann"], 50));
}

#[test]
fn buying_while_paused_is_refused_first() {
    let mut config = config_of(10, 1);
    config.paused = true;
    let mut round = round_with(10, &["ann"], 50);
    for funds in [vec![uatom(10)], vec![uatom(3)], vec![]] {
        let res = try_buy_ticket(&config, &mut round, &sent_by("bob", funds));
        assert_eq!(res, Err(ContractError::Paused {}));
        assert_eq!(round, round_with(10, &["ann"], 50));
    }
}

#[test]
fn buying_fills_the_pool_up_to_the_last_unit() {
    let config = config_of(u128::MAX, 1);
    let mut round = round_with(u128::MAX, &[], 0);
    let res = try_buy_ticket(&config, &mut round, &sent_by("ann", vec![uatom(u128::MAX)]));
    assert_eq!(res, Ok(Response::BuyTicket { ticket_id: 1 }));
    assert_eq!(round.total_funds.amount, u128::MAX);
}

#[test]
fn round_end_is_start_plus_duration() {
    let config = config_of(1, 100);
    let round = round_with(1, &[], 1000);
    assert!(!round_has_ended(&config, &round, 0));
    assert!(!round_has_ended(&config, &round, 1099));
    assert!(round_has_ended(&config, &round, 1100));
    assert!(round_has_ended(&config, &round, u64::MAX));
}

#[test]
fn round_end_beyond_the_clock() {
    let config = config_of(1, u64::MAX);
    assert!(round_has_ended(&config, &round_with(1, &[], 0), u64::MAX));
    assert!(!round_has_ended(&config, &round_with(1, &[], 0), u64::MAX - 1));
    assert!(!round_has_ended(&config, &round_with(1, &[], 1), u64::MAX));
    assert!(!round_has_ended(&config_of(1, 1), &round_with(1, &[], u64::MAX), u64::MAX));
}

#[test]
fn closing_opens_the_next_round() {
    let config = config_of(100, 1000);
    let mut round = round_with(100, &["a", "b", "c", "d", "e", "f", "g"], 1_571_797_420);
    let env = Env { time: 1_571_798_420 };
    let res = try_end_round(&config, &mut round, &env);
    let pay = |to: &str, amount: u128| Transfer { to_address: to.to_string(), amount: uatom(amount) };
    assert_eq!(
        res,
        Ok(Response::EndRound {
            round_id: 7,
            winners: RoundWinners {
                winners: vec!["b".to_string(), "e".to_string(), "c".to_string()],
            },
            messages: vec![pay("b", 210), pay("e", 210), pay("c", 210), pay("admin", 70)],
        })
    );
    assert_eq!(
        round,
        Round { id: 8, total_funds: uatom(0), participants: vec![], start_time: 1_571_798_420 }
    );
}

#[test]
fn closing_may_draw_one_holder_twice() {
    let config = config_of(1, 0);
    let mut round = round_with(1, &["ann", "ann", "bob", "ann"], 0);
    let res = try_end_round(&config, &mut round, &Env { time: 1_571_798_420 });
    match res {
        Ok(Response::EndRound { winners, .. }) => {
            assert_eq!(winners.winners, vec!["ann", "ann", "ann"]);
        },
        other => panic!("unexpected answer {:?}", other),
    }
}

#[test]
fn closing_refusals_in_order() {
    let config = config_of(1, 1000);
    let mut empty = round_with(1, &[], 500);
    assert_eq!(
        try_end_round(&config, &mut empty, &Env { time: 1499 }),
        Err(ContractError::RoundNotEnded {})
    );
    assert_eq!(
        try_end_round(&config, &mut empty, &Env { time: 1500 }),
        Err(ContractError::NoParticipants {})
    );
    assert_eq!(empty, round_with(1, &[], 500));
    let mut stuck = round_with(1, &["a", "b", "c", "d"], 0);
    assert_eq!(
        try_end_round(&config, &mut stuck, &Env { time: 1000 }),
        Err(ContractError::InsufficientParticipants {})
    );
    assert_eq!(stuck, round_with(1, &["a", "b", "c", "d"], 0));
}

#[test]
fn the_last_round_id_is_refused_like_any_other() {
    let config = config_of(1, 1000);
    let mut early = round_with(1, &["a"], 500);
    early.id = u64::MAX;
    assert_eq!(
        try_end_round(&config, &mut early, &Env { time: 1499 }),
        Err(ContractError::RoundNotEnded {})
    );
    let mut empty = round_with(1, &[], 500);
    empty.id = u64::MAX;
    assert_eq!(
        try_end_round(&config, &mut empty, &Env { time: 1500 }),
        Err(ContractError::NoParticipants {})
    );
    assert_eq!(empty.id, u64::MAX);
}

#[test]
fn pausing_sets_the_flag_only() {
    let mut config = config_of(3, 9);
    assert_eq!(try_pause(&mut config, &sent_by("admin", vec![])), Ok(Response::Pause {}));
    let mut expected = config_of(3, 9);
    expected.paused = true;
    assert_eq!(config, expected);
    assert_eq!(try_resume(&mut config, &sent_by("admin", vec![])), Ok(Response::Resume {}));
    assert_eq!(config, config_of(3, 9));
    assert_eq!(try_resume(&mut config, &sent_by("admin", vec![])), Ok(Response::Resume {}));
    assert_eq!(config, config_of(3, 9));
}

#[test]
fn pausing_is_for_the_admin() {
    let mut config = config_of(3, 9);
    for sender in ["", "Admin", "admin ", "adm", "bob"] {
        assert_eq!(
            try_pause(&mut config, &sent_by(sender, vec![])),
            Err(ContractError::Unauthorized {})
        );
        assert_eq!(
            try_resume(&mut config, &sent_by(sender, vec![])),
            Err(ContractError::Unauthorized {})
        );
        assert_eq!(config, config_of(3, 9));
    }
}

#[test]
fn addresses_are_copied() {
    let list: Vec<String> = vec!["a".to_string(), "".to_string(), "a".to_string()];
    assert_eq!(copy_addresses(&list), list);
    assert!(copy_addresses(&vec![]).is_empty());
}
