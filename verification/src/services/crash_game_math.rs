//! The provably fair oracle: a round's crash point is derived from the server
//! seed, the client seed and the round number alone, so that anyone who later
//! learns the server seed can recompute it.

use super::digest::{hex_digit, hex_encode, hex_encoding, hmac_sha256_bytes, hmac_sha256_tag};
use super::random::{push_char, random_in_range};
use vstd::arithmetic::div_mod::{lemma_fundamental_div_mod, lemma_mod_multiples_vanish};
use vstd::prelude::*;
use vstd::string::StrSliceExecFns;
use vstd::utf8::{encode_utf8, is_ascii_chars_encode_utf8};

verus! {

/// Number of leading hexadecimal digits of the round hash that feed the
/// multiplier formula.
pub const MULTIPLIER_DIGITS: usize = 13;

/// Two to the power 52: one more than the largest value of thirteen
/// hexadecimal digits.
pub const MULTIPLIER_SCALE: u64 = 0x10_0000_0000_0000;

/// The multiplier 1.00, in hundredths: the payout of an instant crash.
pub const INSTANT_CRASH: u64 = 100;

/// Length of a freshly generated seed.
pub const SEED_LEN: usize = 64;

/// The house edge as the fraction `numerator / denominator`.
#[derive(Clone, Copy, Debug, PartialEq, Eq, Structural)]
pub struct HouseEdge {
    pub numerator: u32,
    pub denominator: u32,
}

impl HouseEdge {
    /// One round in `slots()` crashes instantly: the whole part of the
    /// reciprocal of the fraction, zero where the fraction is zero, undefined
    /// or above one.
    pub open spec fn slots(self) -> nat {
        if self.numerator == 0 {
            0
        } else {
            self.denominator as nat / self.numerator as nat
        }
    }

    /// The house edge of `percent` hundredths.
    pub fn from_percent(percent: u32) -> (edge: Self)
        ensures
            edge == (HouseEdge { numerator: percent, denominator: 100 }),
    {
        HouseEdge { numerator: percent, denominator: 100 }
    }

    /// Computes `slots()`.
    pub fn instant_crash_slots(&self) -> (slots: u32)
        ensures
            slots == self.slots(),
    {
        if self.numerator == 0 {
            0
        } else {
            self.denominator / self.numerator
        }
    }
}

/// The value of the hexadecimal digit with the character code `code`, of
/// either case.
pub open spec fn hex_code_value(code: int) -> Option<nat> {
    if 48 <= code <= 57 {
        Some((code - 48) as nat)
    } else if 97 <= code <= 102 {
        Some((code - 87) as nat)
    } else if 65 <= code <= 70 {
        Some((code - 55) as nat)
    } else {
        None
    }
}

/// The value of a hexadecimal digit of either case.
pub open spec fn hex_digit_value(c: char) -> Option<nat> {
    hex_code_value(c as int)
}

/// Every character of `text` is a hexadecimal digit.
pub open spec fn is_hex_text(text: Seq<char>) -> bool {
    forall|i: int| 0 <= i < text.len() ==> (#[trigger] hex_digit_value(text[i])) is Some
}

/// The number that `text` denotes in base sixteen, most significant digit
/// first; the empty text denotes zero.
pub open spec fn hex_value(text: Seq<char>) -> nat
    decreases text.len(),
{
    if text.len() == 0 {
        0
    } else {
        16 * hex_value(text.drop_last()) + hex_digit_value(text.last()).unwrap()
    }
}

/// The decimal digits of `n` as ASCII bytes, without leading zeros.
pub open spec fn decimal_text(n: nat) -> Seq<u8>
    decreases n,
{
    if n < 10 {
        seq![(48 + n) as u8]
    } else {
        decimal_text(n / 10).push((48 + n % 10) as u8)
    }
}

/// The message that is authenticated for a round: the client seed followed
/// by the round number in decimal.
pub open spec fn round_message(client_seed: Seq<char>, round_id: u32) -> Seq<u8> {
    encode_utf8(client_seed) + decimal_text(round_id as nat)
}

/// The round hash: the HMAC-SHA256 tag of the round message under the server
/// seed, in lower-case hexadecimal.
pub open spec fn round_hex_hash(server_seed: Seq<char>, client_seed: Seq<char>, round_id: u32) -> Seq<
    char,
> {
    hex_encoding(hmac_sha256_tag(encode_utf8(server_seed), round_message(client_seed, round_id)))
}

/// The multiplier, in hundredths, that a round hash yields when one round in
/// `slots` crashes instantly.
pub open spec fn crash_point_of_hash(hash: Seq<char>, slots: nat) -> nat {
    if hex_value(hash) % slots == 0 {
        INSTANT_CRASH as nat
    } else {
        let h = hex_value(hash.subrange(0, MULTIPLIER_DIGITS as int));
        ((100 * MULTIPLIER_SCALE - h) / (MULTIPLIER_SCALE - h)) as nat
    }
}

/// The crash point, in hundredths, of the round that the four inputs
/// describe; `None` where the house edge leaves no slot to draw from.
pub open spec fn crash_point(
    server_seed: Seq<char>,
    client_seed: Seq<char>,
    house_edge: HouseEdge,
    round_id: u32,
) -> Option<nat> {
    if house_edge.slots() == 0 {
        None
    } else {
        Some(
            crash_point_of_hash(
                round_hex_hash(server_seed, client_seed, round_id),
                house_edge.slots(),
            ),
        )
    }
}

/// Sixteen to the power `n`.
pub open spec fn pow16(n: nat) -> nat
    decreases n,
{
    if n == 0 {
        1
    } else {
        16 * pow16((n - 1) as nat)
    }
}

/// `pow16` does not decrease.
pub proof fn lemma_pow16_monotonic(i: nat, j: nat)
    requires
        i <= j,
    ensures
        pow16(i) <= pow16(j),
    decreases j,
{
    if i < j {
        lemma_pow16_monotonic(i, (j - 1) as nat);
    }
}

/// Thirteen digits stay below the multiplier scale, fifteen below two to
/// the power 60.
pub proof fn lemma_pow16_values()
    ensures
        pow16(13) == MULTIPLIER_SCALE,
        pow16(15) == 0x1000_0000_0000_0000,
{
    reveal_with_fuel(pow16, 16);
}

/// Hexadecimal text of `n` digits denotes a number below sixteen to the
/// power `n`.
pub proof fn lemma_hex_value_bound(text: Seq<char>)
    requires
        is_hex_text(text),
    ensures
        hex_value(text) < pow16(text.len()),
    decreases text.len(),
{
    if text.len() > 0 {
        let front = text.drop_last();
        assert forall|i: int| 0 <= i < front.len() implies (#[trigger] hex_digit_value(
            front[i],
        )) is Some by {
            assert(front[i] == text[i]);
        }
        lemma_hex_value_bound(front);
        assert(hex_digit_value(text.last()) is Some);
        assert(hex_digit_value(text.last()).unwrap() < 16);
    }
}

/// The hexadecimal rendering of any bytes is hexadecimal text of twice
/// their length.
pub proof fn lemma_hex_encoding_is_hex(bytes: Seq<u8>)
    ensures
        is_hex_text(hex_encoding(bytes)),
        hex_encoding(bytes).len() == 2 * bytes.len(),
{
    let text = hex_encoding(bytes);
    assert forall|i: int| 0 <= i < text.len() implies (#[trigger] hex_digit_value(text[i])) is Some by {
        let b = bytes[i / 2] as int;
        let nibble = if i % 2 == 0 {
            b / 16
        } else {
            b % 16
        };
        assert(0 <= nibble < 16);
        assert(text[i] == hex_digit(nibble));
    }
}

/// Folding a digit into a remainder gives the remainder of the longer number.
proof fn lemma_fold_digit_mod(a: nat, d: nat, m: nat)
    requires
        m > 0,
    ensures
        ((a % m) * 16 + d) % m == (a * 16 + d) % m,
{
    let q = a / m;
    let r = a % m;
    lemma_fundamental_div_mod(a as int, m as int);
    assert(a * 16 + d == m * (16 * q) + (r * 16 + d)) by (nonlinear_arith)
        requires
            a == m * q + r,
    ;
    lemma_mod_multiples_vanish((16 * q) as int, (r * 16 + d) as int, m as int);
}

/// A prefix extended by one character drops back to the prefix.
proof fn lemma_prefix_step(text: Seq<char>, i: int)
    requires
        0 <= i < text.len(),
    ensures
        text.subrange(0, i + 1).drop_last() == text.subrange(0, i),
        text.subrange(0, i + 1).last() == text[i],
{
    assert(text.subrange(0, i + 1).drop_last() =~= text.subrange(0, i));
}

/// The bytes of hexadecimal text: one byte for each digit, the digit's
/// character code.
fn hex_text_bytes(hash: &str) -> (bytes: &[u8])
    requires
        is_hex_text(hash@),
    ensures
        bytes@.len() == hash@.len(),
        forall|i: int| 0 <= i < hash@.len() ==> (#[trigger] bytes@[i]) as int == hash@[i] as int,
{
    proof {
        assert forall|i: int| 0 <= i < hash@.len() implies '\0' <= #[trigger] hash@[i]
            <= '\u{7f}' by {
            assert(hex_digit_value(hash@[i]) is Some);
        }
        is_ascii_chars_encode_utf8(hash@);
        assert forall|i: int| 0 <= i < hash@.len() implies (#[trigger] encode_utf8(
            hash@,
        )[i]) as int == hash@[i] as int by {
            assert(hex_digit_value(hash@[i]) is Some);
            assert(hash@[i] as u8 == encode_utf8(hash@)[i]);
        }
    }
    hash.as_bytes()
}

/// Reads one hexadecimal digit from its character code.
fn hex_digit_of(code: u8) -> (digit: u8)
    requires
        hex_code_value(code as int) is Some,
    ensures
        hex_code_value(code as int) == Some(digit as nat),
{
    if code <= 57 {
        code - 48
    } else if code >= 97 {
        code - 87
    } else {
        code - 55
    }
}

/// The number that the first `digits` characters of `hash` denote in base
/// sixteen.
pub fn hex_prefix_value(hash: &str, digits: usize) -> (value: u64)
    requires
        is_hex_text(hash@),
        digits <= hash@.len(),
        digits <= 15,
    ensures
        value == hex_value(hash@.subrange(0, digits as int)),
        value < pow16(digits as nat),
{
    let bytes = hex_text_bytes(hash);
    let mut value: u64 = 0;
    let mut i: usize = 0;
    proof {
        lemma_pow16_values();
    }
    while i < digits
        invariant
            i <= digits,
            digits <= hash@.len(),
            digits <= 15,
            is_hex_text(hash@),
            bytes@.len() == hash@.len(),
            forall|k: int| 0 <= k < hash@.len() ==> (#[trigger] bytes@[k]) as int == hash@[k] as int,
            value == hex_value(hash@.subrange(0, i as int)),
            value < pow16(i as nat),
            pow16(15) == 0x1000_0000_0000_0000,
        decreases digits - i,
    {
        let c = bytes[i];
        proof {
            lemma_prefix_step(hash@, i as int);
            lemma_pow16_monotonic(i as nat, 14);
            lemma_pow16_monotonic((i + 1) as nat, 15);
            assert(hex_digit_value(hash@[i as int]) is Some);
        }
        value = value * 16 + hex_digit_of(c) as u64;
        i = i + 1;
    }
    value
}

/// The multiplier formula never pays less than the stake and stays within
/// 64 bits.
pub proof fn lemma_multiplier_bounds(h: nat)
    requires
        h < MULTIPLIER_SCALE,
    ensures
        100 <= (100 * MULTIPLIER_SCALE - h) / (MULTIPLIER_SCALE - h) <= 99 * MULTIPLIER_SCALE + 1,
{
    let e = MULTIPLIER_SCALE as int;
    let num = 100 * e - h;
    let den = e - h;
    assert(num / den >= 100) by (nonlinear_arith)
        requires
            den > 0,
            num >= 100 * den,
    ;
    assert(num / den <= num) by (nonlinear_arith)
        requires
            den > 0,
            num >= 0,
    ;
    assert(num / den <= 99 * e + 1) by (nonlinear_arith)
        requires
            den >= 1,
            num == 99 * e + den,
            e > 0,
    ;
}

/// Every crash point is at least 1.00.
pub proof fn lemma_crash_point_at_least_one(hash: Seq<char>, slots: nat)
    requires
        is_hex_text(hash),
        hash.len() >= MULTIPLIER_DIGITS,
    ensures
        crash_point_of_hash(hash, slots) >= INSTANT_CRASH,
{
    let head = hash.subrange(0, MULTIPLIER_DIGITS as int);
    assert forall|i: int| 0 <= i < head.len() implies (#[trigger] hex_digit_value(head[i])) is Some by {
        assert(head[i] == hash[i]);
    }
    lemma_hex_value_bound(head);
    lemma_pow16_values();
    lemma_multiplier_bounds(hex_value(head));
}

/// Equal inputs give equal crash points: the derivation reads nothing but
/// its four arguments.
pub proof fn lemma_crash_point_deterministic(
    server_seed_a: Seq<char>,
    client_seed_a: Seq<char>,
    house_edge_a: HouseEdge,
    round_id_a: u32,
    server_seed_b: Seq<char>,
    client_seed_b: Seq<char>,
    house_edge_b: HouseEdge,
    round_id_b: u32,
)
    requires
        server_seed_a == server_seed_b,
        client_seed_a == client_seed_b,
        house_edge_a == house_edge_b,
        round_id_a == round_id_b,
    ensures
        crash_point(server_seed_a, client_seed_a, house_edge_a, round_id_a) == crash_point(
            server_seed_b,
            client_seed_b,
            house_edge_b,
            round_id_b,
        ),
{
}

/// The decimal digits of `n` as ASCII bytes.
pub fn decimal_bytes(n: u32) -> (digits: Vec<u8>)
    ensures
        digits@ == decimal_text(n as nat),
    decreases n,
{
    if n < 10 {
        let mut digits: Vec<u8> = Vec::new();
        digits.push(48 + n as u8);
        assert(digits@ =~= seq![(48 + n) as u8]);
        digits
    } else {
        let mut digits = decimal_bytes(n / 10);
        digits.push(48 + (n % 10) as u8);
        digits
    }
}

/// The crash point, in hundredths, that a round hash yields when one round
/// in `slots` crashes instantly.
pub fn crash_point_from_hash(hash: &str, slots: u32) -> (point: u64)
    requires
        is_hex_text(hash@),
        hash@.len() >= MULTIPLIER_DIGITS,
        slots > 0,
    ensures
        point == crash_point_of_hash(hash@, slots as nat),
        point >= INSTANT_CRASH,
{
    proof {
        lemma_crash_point_at_least_one(hash@, slots as nat);
    }
    if CrashGameMath::divisible(hash, slots) {
        return INSTANT_CRASH;
    }
    let h = hex_prefix_value(hash, MULTIPLIER_DIGITS);
    proof {
        lemma_pow16_values();
        lemma_multiplier_bounds(h as nat);
    }
    (100 * MULTIPLIER_SCALE - h) / (MULTIPLIER_SCALE - h)
}

/// Namespace of the oracle's functions.
pub struct CrashGameMath {}

impl CrashGameMath {
    /// Derives the crash point of a round, in hundredths of the stake.
    ///
    /// `None` exactly where the house edge is zero, undefined or above one;
    /// otherwise the multiplier that the round hash yields.
    pub fn generate_crash_point(
        server_seed: &str,
        client_seed: &str,
        house_edge: &HouseEdge,
        round_id: u32,
    ) -> (point: Option<u64>)
        ensures
            match point {
                Some(p) => crash_point(server_seed@, client_seed@, *house_edge, round_id) == Some(
                    p as nat,
                ),
                None => crash_point(server_seed@, client_seed@, *house_edge, round_id) is None,
            },
            point matches Some(p) ==> p >= INSTANT_CRASH,
    {
        let slots = house_edge.instant_crash_slots();
        if slots == 0 {
            return None;
        }
        let hash = CrashGameMath::generate_round_hex_hash(server_seed, client_seed, round_id);
        Some(crash_point_from_hash(hash.as_str(), slots))
    }

    /// A fresh secret of `SEED_LEN` printable ASCII characters, none of them
    /// a space.
    pub fn generate_seed() -> (seed: String)
        ensures
            seed@.len() == SEED_LEN,
            forall|i: int| 0 <= i < seed@.len() ==> 33 <= (#[trigger] seed@[i]) as int <= 126,
    {
        let mut seed = String::new();
        let mut i: usize = 0;
        while i < SEED_LEN
            invariant
                i <= SEED_LEN,
                seed@.len() == i,
                forall|k: int| 0 <= k < seed@.len() ==> 33 <= (#[trigger] seed@[k]) as int <= 126,
            decreases SEED_LEN - i,
        {
            let code = random_in_range(33, 127);
            push_char(&mut seed, code as char);
            i = i + 1;
        }
        seed
    }

    /// The round hash: HMAC-SHA256 of the client seed followed by the round
    /// number in decimal, keyed by the server seed, in lower-case
    /// hexadecimal. It is 64 hexadecimal digits long.
    pub fn generate_round_hex_hash(server_seed: &str, client_seed: &str, round_id: u32) -> (hash:
        String)
        ensures
            hash@ == round_hex_hash(server_seed@, client_seed@, round_id),
            hash@.len() == 64,
            is_hex_text(hash@),
    {
        let mut message = client_seed.as_bytes_vec();
        let mut digits = decimal_bytes(round_id);
        message.append(&mut digits);
        let tag = hmac_sha256_bytes(server_seed.as_bytes(), message.as_slice());
        proof {
            lemma_hex_encoding_is_hex(tag@);
        }
        hex_encode(tag.as_slice())
    }

    /// Whether the number that `hash` denotes in base sixteen is a multiple
    /// of `mod_val`.
    pub fn divisible(hash: &str, mod_val: u32) -> (yes: bool)
        requires
            is_hex_text(hash@),
            mod_val > 0,
        ensures
            yes == (hex_value(hash@) % (mod_val as nat) == 0),
    {
        let bytes = hex_text_bytes(hash);
        let len = bytes.len();
        let mut val: u64 = 0;
        let mut i: usize = 0;
        assert(hash@.subrange(0, 0) =~= Seq::<char>::empty());
        assert(0nat % (mod_val as nat) == 0) by (nonlinear_arith)
            requires
                mod_val > 0,
        ;
        while i < len
            invariant
                i <= len,
                len == hash@.len(),
                is_hex_text(hash@),
                bytes@.len() == hash@.len(),
                forall|k: int|
                    0 <= k < hash@.len() ==> (#[trigger] bytes@[k]) as int == hash@[k] as int,
                mod_val > 0,
                val == hex_value(hash@.subrange(0, i as int)) % (mod_val as nat),
            decreases len - i,
        {
            let c = bytes[i];
            proof {
                lemma_prefix_step(hash@, i as int);
                assert(hex_digit_value(hash@[i as int]) is Some);
                lemma_fold_digit_mod(
                    hex_value(hash@.subrange(0, i as int)),
                    hex_digit_value(hash@[i as int]).unwrap(),
                    mod_val as nat,
                );
            }
            val = (val * 16 + hex_digit_of(c) as u64) % (mod_val as u64);
            i = i + 1;
        }
        assert(hash@.subrange(0, len as int) =~= hash@);
        val == 0
    }
}

} // verus!
