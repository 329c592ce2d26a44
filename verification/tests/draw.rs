use lottery::error::ContractError;
use lottery::msg::Env;
use lottery::random::{
    digest_to_index, leading_u64, pseudo_random, push_bytes, push_decimal, seed_input,
};
use lottery::selection::{is_taken, select_slots, settle, step, Step, SEED_WORD};
use sha2::{Digest, Sha256};

const ABC_DIGEST: [u8; 32] = [
    0xba, 0x78, 0x16, 0xbf, 0x8f, 0x01, 0xcf, 0xea, 0x41, 0x41, 0x40, 0xde, 0x5d, 0xae, 0x22, 0x23,
    0xb0, 0x03, 0x61, 0xa3, 0x96, 0x17, 0x7a, 0x9c, 0xb4, 0x10, 0xff, 0x61, 0xf2, 0x00, 0x15, 0xad,
];

fn decimal(n: u64) -> Vec<u8> {
    let mut out = Vec::new();
    push_decimal(&mut out, n);
    out
}

#[test]
fn decimal_digits() {
    assert_eq!(decimal(0), b"0");
    assert_eq!(decimal(7), b"7");
    assert_eq!(decimal(9), b"9");
    assert_eq!(decimal(10), b"10");
    assert_eq!(decimal(99), b"99");
    assert_eq!(decimal(100), b"100");
    assert_eq!(decimal(1_571_798_420), b"1571798420");
    assert_eq!(decimal(u64::MAX), b"18446744073709551615");
}

#[test]
fn decimal_digits_are_appended() {
    let mut out = b"ab".to_vec();
    push_decimal(&mut out, 305);
    push_bytes(&mut out, b"-");
    push_bytes(&mut out, b"");
    push_decimal(&mut out, 0);
    assert_eq!(out, b"ab305-0");
}

#[test]
fn decimal_digits_agree_with_formatting() {
    let mut n: u64 = 1;
    for _ in 0..64 {
        for m in [n - 1, n, n + 1] {
            assert_eq!(decimal(m), m.to_string().into_bytes());
        }
        n = n.wrapping_mul(2);
        if n == 0 {
            break;
        }
    }
}

#[test]
fn seed_input_is_time_word_seed() {
    assert_eq!(seed_input(1_571_798_420, "totally random", 1), b"1571798420totally random1");
    assert_eq!(seed_input(0, "", 0), b"00");
    assert_eq!(seed_input(12, "x", 34), b"12x34");
    assert_eq!(seed_input(1, "\u{e9}", 2), [b'1', 0xc3, 0xa9, b'2']);
}

#[test]
fn leading_u64_is_big_endian() {
    assert_eq!(leading_u64(&ABC_DIGEST), 0xba78_16bf_8f01_cfea);
    assert_eq!(leading_u64(&[0u8; 32]), 0);
    assert_eq!(leading_u64(&[0xff; 32]), u64::MAX);
    let mut digest = [0u8; 32];
    digest[7] = 1;
    assert_eq!(leading_u64(&digest), 1);
    digest[0] = 1;
    assert_eq!(leading_u64(&digest), (1 << 56) + 1);
    let mut tail_only = [0u8; 32];
    tail_only[8] = 0xff;
    tail_only[31] = 0xff;
    assert_eq!(leading_u64(&tail_only), 0);
}

#[test]
fn digest_to_index_reduces_the_leading_bytes() {
    assert_eq!(digest_to_index(&ABC_DIGEST, 1), 0);
    assert_eq!(digest_to_index(&ABC_DIGEST, 4), 2);
    assert_eq!(digest_to_index(&ABC_DIGEST, 7), 2);
    assert_eq!(digest_to_index(&ABC_DIGEST, 10), 4);
    assert_eq!(digest_to_index(&ABC_DIGEST, 1000), 74);
    assert_eq!(digest_to_index(&[0xff; 32], 10), 5);
}

#[test]
fn pseudo_random_known_values() {
    let closing = Env { time: 1_571_798_420 };
    assert_eq!(pseudo_random(&closing, "totally random", 1, 4), 3);
    assert_eq!(pseudo_random(&closing, "totally random", 2, 4), 1);
    assert_eq!(pseudo_random(&closing, "totally random", 3, 4), 0);
    assert_eq!(pseudo_random(&closing, "totally random", 1, 1000), 775);
    assert_eq!(pseudo_random(&closing, "totally random", 1, 1), 0);
    assert_eq!(pseudo_random(&Env { time: 12 }, "x", 34, 10), 9);
    assert_eq!(pseudo_random(&Env { time: 0 }, "", 0, 1000), 503);
    assert_eq!(pseudo_random(&Env { time: u64::MAX }, "totally random", u64::MAX, 1000), 787);
    assert_eq!(pseudo_random(&Env { time: 1 }, "\u{e9}", 2, 1000), 94);
}

#[test]
fn pseudo_random_agrees_with_the_digest() {
    for time in [0u64, 1, 999, 1_571_798_420] {
        for seed in 0..20u64 {
            for max in [1usize, 2, 3, 10, 12345] {
                let text = format!("{}{}{}", time, SEED_WORD, seed);
                let digest = Sha256::digest(text.as_bytes());
                let mut head = [0u8; 8];
                head.copy_from_slice(&digest[0..8]);
                let expected = (u64::from_be_bytes(head) % max as u64) as usize;
                assert_eq!(pseudo_random(&Env { time }, SEED_WORD, seed, max), expected);
            }
        }
    }
}

#[test]
fn is_taken_finds_members() {
    assert!(!is_taken(&vec![], 0));
    assert!(is_taken(&vec![3, 1], 3));
    assert!(is_taken(&vec![3, 1], 1));
    assert!(!is_taken(&vec![3, 1], 0));
}

#[test]
fn step_rests_on_a_free_slot() {
    assert_eq!(step(&vec![], 0, 4), Step::Rest { slot: 0 });
    assert_eq!(step(&vec![1, 3], 0, 0), Step::Rest { slot: 0 });
    assert_eq!(step(&vec![1, 3], 2, 7), Step::Rest { slot: 2 });
}

#[test]
fn step_moves_on_from_the_taken_slot() {
    assert_eq!(step(&vec![1, 3], 1, 4), Step::Move { seed: 2 });
    assert_eq!(step(&vec![1, 3], 3, 1), Step::Move { seed: 4 });
    assert_eq!(step(&vec![0], 0, 1), Step::Move { seed: 1 });
}

#[test]
fn step_gives_up_without_moves_left() {
    assert_eq!(step(&vec![1, 3], 3, 0), Step::GiveUp {});
    assert_eq!(step(&vec![0], 0, 0), Step::GiveUp {});
}

#[test]
fn seed_word_is_fixed() {
    assert_eq!(SEED_WORD, "totally random");
}

#[test]
fn settle_without_collision() {
    let closing = Env { time: 1_571_798_420 };
    assert_eq!(settle(&closing, 4, &vec![], 1), Some(3));
    assert_eq!(settle(&closing, 4, &vec![3], 2), Some(1));
    assert_eq!(settle(&closing, 4, &vec![3, 1], 3), Some(0));
}

#[test]
fn settle_moves_on_from_the_rejected_slot() {
    // Seed 3 selects slot 1, which is taken; slot 1 leads to seed 2 and slot
    // 3, which is taken; slot 3 leads to seed 4 and slot 0.
    let closing = Env { time: 1_571_798_424 };
    assert_eq!(pseudo_random(&closing, SEED_WORD, 3, 4), 1);
    assert_eq!(pseudo_random(&closing, SEED_WORD, 2, 4), 3);
    assert_eq!(pseudo_random(&closing, SEED_WORD, 4, 4), 0);
    assert_eq!(settle(&closing, 4, &vec![1, 3], 3), Some(0));
    assert_eq!(settle(&Env { time: 1_571_798_425 }, 5, &vec![4, 2], 3), Some(3));
}

#[test]
fn settle_gives_up_on_a_cycle() {
    // Slot 1 leads to seed 2, which selects slot 1 again.
    let closing = Env { time: 1000 };
    assert_eq!(pseudo_random(&closing, SEED_WORD, 2, 4), 1);
    assert_eq!(settle(&closing, 4, &vec![1], 2), None);
    // Slots 0 and 2 lead to each other.
    assert_eq!(settle(&closing, 3, &vec![2, 0], 3), None);
    assert_eq!(settle(&closing, 1, &vec![0], 1), None);
}

#[test]
fn select_slots_known_rounds() {
    let closing = Env { time: 1_571_798_420 };
    assert_eq!(select_slots(&closing, 3), Ok(vec![2, 1, 0]));
    assert_eq!(select_slots(&closing, 4), Ok(vec![3, 1, 0]));
    assert_eq!(select_slots(&closing, 5), Ok(vec![0, 1, 4]));
    assert_eq!(select_slots(&closing, 7), Ok(vec![1, 4, 2]));
    assert_eq!(select_slots(&closing, 1000), Ok(vec![775, 681, 324]));
    assert_eq!(select_slots(&Env { time: 1_571_798_424 }, 4), Ok(vec![1, 3, 0]));
    assert_eq!(select_slots(&Env { time: 0 }, 3), Ok(vec![2, 1, 0]));
    assert_eq!(select_slots(&Env { time: 0 }, 5), Ok(vec![2, 3, 0]));
}

#[test]
fn select_slots_fails_where_the_draw_circles() {
    let stuck = Err(ContractError::InsufficientParticipants {});
    assert_eq!(select_slots(&Env { time: 1000 }, 3), stuck);
    assert_eq!(select_slots(&Env { time: 1000 }, 4), stuck);
    assert_eq!(select_slots(&Env { time: 1002 }, 4), stuck);
    assert_eq!(select_slots(&Env { time: 0 }, 4), stuck);
}

#[test]
fn select_slots_needs_three_tickets() {
    for time in 0..200u64 {
        for count in 1..=2usize {
            assert_eq!(
                select_slots(&Env { time }, count),
                Err(ContractError::InsufficientParticipants {})
            );
        }
    }
}

#[test]
fn selected_slots_are_distinct_and_in_range() {
    for time in 0..300u64 {
        for count in [3usize, 4, 5, 8, 50] {
            if let Ok(slots) = select_slots(&Env { time }, count) {
                assert_eq!(slots.len(), 3);
                assert!(slots.iter().all(|slot| *slot < count));
                assert!(slots[0] != slots[1] && slots[0] != slots[2] && slots[1] != slots[2]);
            }
        }
    }
}
