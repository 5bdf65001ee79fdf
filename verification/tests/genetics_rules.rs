use polkapet::genetics::{boost_from_hash, boost_value, dna_and_gender, mix_dna, mutate_dna_fragment, oval_position_of};
use polkapet::reward::reward_per_winner;
use polkapet::scores::sort_results;
use polkapet::{DotLogoOvalPosition, Gender, MinigameResult, Polkapet};

#[test]
fn gender_follows_the_parity_of_the_leading_byte() {
    let mut h = [0u8; 16];
    h[0] = 4;
    assert_eq!(dna_and_gender(h), (h, Gender::Male));
    h[0] = 7;
    assert_eq!(dna_and_gender(h), (h, Gender::Female));
}

#[test]
fn oval_position_by_leading_byte_mod_six() {
    let expected = [
        DotLogoOvalPosition::Up,
        DotLogoOvalPosition::RightUp,
        DotLogoOvalPosition::LeftUp,
        DotLogoOvalPosition::RightDown,
        DotLogoOvalPosition::LeftDown,
        DotLogoOvalPosition::Down,
    ];
    for b in 0..=255u8 {
        let mut h = [0u8; 16];
        h[0] = b;
        assert_eq!(oval_position_of(&h), expected[(b % 6) as usize]);
    }
}

#[test]
fn dna_fragment_from_first_parent_on_even() {
    assert_eq!(mutate_dna_fragment(10, 20, 4), 10);
    assert_eq!(mutate_dna_fragment(10, 20, 5), 20);
    let p1 = [1u8; 16];
    let p2 = [2u8; 16];
    let mut r = [0u8; 16];
    for i in 0..16 {
        r[i] = i as u8;
    }
    let child = mix_dna(&p1, &p2, r);
    for i in 0..16 {
        assert_eq!(child[i], if i % 2 == 0 { 1 } else { 2 });
    }
}

#[test]
fn boosts_are_between_one_and_six() {
    let h = [0u8, 1, 5, 6, 11, 255, 9, 9, 9, 9, 9, 9, 9, 9, 9, 9];
    let b = boost_from_hash(&h);
    assert_eq!((b.up, b.right_up, b.left_up, b.right_down, b.left_down, b.down), (1, 2, 6, 1, 6, 4));
    assert_eq!(boost_value(&b, DotLogoOvalPosition::LeftUp), 6);
    assert_eq!(boost_value(&b, DotLogoOvalPosition::Down), 4);
}

#[test]
fn reward_share_is_ninety_percent_split() {
    assert_eq!(reward_per_winner(1_000, 3), 300);
    assert_eq!(reward_per_winner(1_000, 1), 900);
    assert_eq!(reward_per_winner(101, 1), 90);
    assert_eq!(reward_per_winner(1_000, 0), 0);
    // the taxed reward of the largest balance saturates the fixed-point value first
    assert_eq!(reward_per_winner(u128::MAX, 1), mul_div(u128::MAX, 90, 1_000_000_000_000_000_000));
    for v in [0u128, 1, 7, 99, 100, 12_345, 10u128.pow(30), u128::MAX] {
        for w in 1..5usize {
            assert!(reward_per_winner(v, w) * (w as u128) <= v / 10 * 9 + 9);
        }
    }
}

fn mul_div(a: u128, b: u128, c: u128) -> u128 {
    // a * b / c rounded down, without overflow for small b
    let q = a / c;
    let r = a % c;
    q * b + r * b / c
}

#[test]
fn results_sort_by_points_stably() {
    let r = |id: u64, point: u32| MinigameResult { pet_id: id, point };
    let v = vec![r(1, 5), r(2, 3), r(3, 5), r(4, 0), r(5, 3)];
    let sorted = sort_results(&v);
    assert_eq!(sorted, vec![r(4, 0), r(2, 3), r(5, 3), r(1, 5), r(3, 5)]);
}

#[test]
fn pets_compare_by_every_field() {
    let a = Polkapet {
        dna: [1; 16],
        price: Some(3),
        gender: Gender::Male,
        owner: 1,
        oval_position: DotLogoOvalPosition::Up,
        power: 0,
        death: false,
        respawn: 0,
        pet_id: 1,
        is_join_minigame: false,
    };
    let mut b = a;
    assert!(polkapet::types::pet_eq(&a, &b));
    b.dna[15] = 2;
    assert!(!polkapet::types::pet_eq(&a, &b));
    let mut c = a;
    c.price = None;
    assert!(!polkapet::types::pet_eq(&a, &c));
}

#[test]
fn extrinsic_index_defaults_to_zero() {
    assert_eq!(polkapet::config::index_or_zero(Some(7)), 7);
    assert_eq!(polkapet::config::index_or_zero(None), 0);
}
