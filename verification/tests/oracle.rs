use crash_server::services::crash_game_math::{
    crash_point_from_hash, decimal_bytes, hex_prefix_value, CrashGameMath, HouseEdge,
    INSTANT_CRASH, SEED_LEN,
};
use crash_server::services::digest::sha256;

fn seven_percent() -> HouseEdge {
    HouseEdge { numerator: 7, denominator: 100 }
}

#[test]
fn test_generate_crash_point_standard() {
    let mut total_payout: f64 = 0.0;
    let mut total_wager: f64 = 0.0;

    let rounds = 100_000;
    let bet_amount = 1.0;

    let mut max_val = 0.0;

    for _ in 0..rounds {
        let server_seed = &CrashGameMath::generate_seed();
        let client_seed = &format!(
            "{}{}{}",
            &CrashGameMath::generate_seed(),
            &CrashGameMath::generate_seed(),
            &CrashGameMath::generate_seed()
        );

        let house_edge = seven_percent();
        let round_id = 1;

        let crash_point_multiplier =
            CrashGameMath::generate_crash_point(server_seed, client_seed, &house_edge, round_id)
                .unwrap() as f64
                / 100.0;

        if crash_point_multiplier >= max_val {
            max_val = crash_point_multiplier;
        }
        if crash_point_multiplier > 100.00 {
            println!("{}", crash_point_multiplier);
        }
        total_wager += bet_amount;
        total_payout += bet_amount * crash_point_multiplier;
    }

    let rtp = total_payout / total_wager;

    println!("RTP: {:?} - {:.2}%", rtp, rtp * 100.00);
    println!("max_val: {:?}", max_val);
}

#[test]
fn sha256_of_known_inputs() {
    assert_eq!(
        sha256(""),
        "e3b0c44298fc1c149afbf4c8996fb92427ae41e4649b934ca495991b7852b855"
    );
    assert_eq!(
        sha256("abc"),
        "ba7816bf8f01cfea414140de5dae2223b00361a396177a9cb410ff61f20015ad"
    );
}

#[test]
fn round_hash_is_hmac_of_client_seed_and_round_number() {
    assert_eq!(
        CrashGameMath::generate_round_hex_hash("server", "client", 7),
        "3eef9b5ffd0e5c8789562a6a0b039ab5f3560d87fe4ccde546846f741cdc9b60"
    );
    assert_eq!(
        CrashGameMath::generate_round_hex_hash(
            "key",
            "The quick brown fox jumps over the lazy dog",
            0
        ),
        "b4a832b6015dc7efbc9e44740db1383c9b69e4b763155334c3d9ce334c3c549f"
    );
}

#[test]
fn round_number_is_rendered_in_decimal() {
    assert_eq!(decimal_bytes(0), b"0".to_vec());
    assert_eq!(decimal_bytes(7), b"7".to_vec());
    assert_eq!(decimal_bytes(10), b"10".to_vec());
    assert_eq!(decimal_bytes(32315), b"32315".to_vec());
    assert_eq!(decimal_bytes(u32::MAX), b"4294967295".to_vec());
}

#[test]
fn divisible_takes_the_whole_hash_modulo() {
    assert!(CrashGameMath::divisible("ff", 5));
    assert!(!CrashGameMath::divisible("abcdef", 7));
    assert!(CrashGameMath::divisible("ABCDEF", 11259375));
    assert!(CrashGameMath::divisible("", 3));
    assert!(CrashGameMath::divisible("0000", 14));
    assert!(!CrashGameMath::divisible(&"f".repeat(64), 14));
    assert!(CrashGameMath::divisible(&"f".repeat(64), 15));
    assert!(CrashGameMath::divisible(
        "4e69188db01064b1077e4c4ae09e38bd34ed1b75ef70f2810fc31de5cdb64f9c",
        14
    ));
    assert!(CrashGameMath::divisible("1234", 1));
}

#[test]
fn hex_prefix_reads_leading_digits() {
    assert_eq!(hex_prefix_value("abcdef", 0), 0);
    assert_eq!(hex_prefix_value("abcdef", 2), 0xab);
    assert_eq!(hex_prefix_value("abcdef", 6), 0xabcdef);
    assert_eq!(hex_prefix_value("AbCdEf0123456789", 15), 0xabcdef012345678);
}

#[test]
fn crash_point_of_given_hashes() {
    // a multiple of the slot count crashes at once
    assert_eq!(crash_point_from_hash(&"0".repeat(64), 14), 100);
    assert_eq!(crash_point_from_hash(&"f".repeat(64), 15), 100);
    // thirteen leading digits of all ones give the largest multiplier
    assert_eq!(crash_point_from_hash(&"f".repeat(64), 14), 445856363109679105);
    // one half of the scale doubles the stake, less a hundredth
    let half = format!("8000000000000{}", "1".repeat(51));
    assert_eq!(crash_point_from_hash(&half, 14), 199);
    assert_eq!(
        crash_point_from_hash(
            "a6982aae9afc9eb3ee3d1f5001f38743c20167ac64c623c9c1edc07b029afe7c",
            14
        ),
        284
    );
}

#[test]
fn crash_point_of_given_seeds() {
    let edge = seven_percent();
    assert_eq!(CrashGameMath::generate_crash_point("server-seed", "alpha", &edge, 32315), Some(100));
    assert_eq!(CrashGameMath::generate_crash_point("server-seed", "beta", &edge, 32315), Some(554));
    assert_eq!(CrashGameMath::generate_crash_point("server-seed", "gamma", &edge, 32315), Some(1648));
    assert_eq!(CrashGameMath::generate_crash_point("seed-one", "client-0", &edge, 32315), Some(284));
    assert_eq!(
        CrashGameMath::generate_crash_point("seed-one", "client-7", &edge, 32315),
        Some(INSTANT_CRASH)
    );
}

#[test]
fn crash_point_is_the_same_for_the_same_inputs() {
    let edge = seven_percent();
    let first = CrashGameMath::generate_crash_point("s", "c", &edge, 42);
    let second = CrashGameMath::generate_crash_point("s", "c", &edge, 42);
    assert_eq!(first, second);
    assert!(first.unwrap() >= 100);
    let other_round = CrashGameMath::generate_round_hex_hash("s", "c", 43);
    assert_ne!(other_round, CrashGameMath::generate_round_hex_hash("s", "c", 42));
}

#[test]
fn no_crash_point_without_a_house_edge() {
    assert_eq!(
        CrashGameMath::generate_crash_point("s", "c", &HouseEdge { numerator: 0, denominator: 100 }, 1),
        None
    );
    assert_eq!(
        CrashGameMath::generate_crash_point("s", "c", &HouseEdge { numerator: 7, denominator: 0 }, 1),
        None
    );
    assert_eq!(
        CrashGameMath::generate_crash_point("s", "c", &HouseEdge { numerator: 101, denominator: 100 }, 1),
        None
    );
    // an edge of the whole stake leaves one slot: every round crashes at once
    assert_eq!(
        CrashGameMath::generate_crash_point("s", "c", &HouseEdge { numerator: 1, denominator: 1 }, 1),
        Some(100)
    );
}

#[test]
fn house_edge_slots() {
    assert_eq!(seven_percent().instant_crash_slots(), 14);
    assert_eq!(HouseEdge::from_percent(7), seven_percent());
    assert_eq!(HouseEdge::from_percent(1).instant_crash_slots(), 100);
    assert_eq!(HouseEdge::from_percent(0).instant_crash_slots(), 0);
    assert_eq!(HouseEdge { numerator: 75, denominator: 1000 }.instant_crash_slots(), 13);
}

#[test]
fn seeds_are_printable_and_differ() {
    let a = CrashGameMath::generate_seed();
    let b = CrashGameMath::generate_seed();
    assert_eq!(a.chars().count(), SEED_LEN);
    assert!(a.chars().all(|c| ('!'..='~').contains(&c)));
    assert!(b.chars().all(|c| ('!'..='~').contains(&c)));
    assert_ne!(a, b);
}

#[test]
fn cashing_out_at_double_returns_the_stake_less_the_house_edge() {
    let rounds = 20_000;
    let house_edge = seven_percent();
    let mut instant = 0u32;
    let mut doubled = 0u32;
    for round_id in 0..rounds {
        let point = CrashGameMath::generate_crash_point(
            &CrashGameMath::generate_seed(),
            &CrashGameMath::generate_seed(),
            &house_edge,
            round_id,
        )
        .unwrap();
        assert!(point >= 100);
        if point == 100 {
            instant += 1;
        }
        if point >= 200 {
            doubled += 1;
        }
    }
    // one round in fourteen crashes at once, and one in a hundred of the
    // others ends at 1.00 all the same
    let instant_share = instant as f64 / rounds as f64;
    assert!(0.06 < instant_share && instant_share < 0.10, "{}", instant_share);
    // a unit bet that is cashed out at 2.00 returns two units when the round
    // gets there
    let returned = 2.0 * doubled as f64 / rounds as f64;
    assert!(0.88 < returned && returned < 0.97, "{}", returned);
}
