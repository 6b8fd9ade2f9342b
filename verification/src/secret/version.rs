//! Opaque version tokens: how a store version is rendered, recognised and verified.
//!
//! A token is the letter `v` and eight base32 characters. The number behind it
//! goes through a permutation of the forty-bit space first, so that distinct
//! versions render distinctly and adjacent ones without a visible relationship.

use vstd::arithmetic::div_mod::{
    lemma_add_mod_noop, lemma_mod_multiples_vanish, lemma_mul_mod_noop_left, lemma_small_mod,
    lemma_sub_mod_noop,
};
use vstd::arithmetic::power2::{lemma2_to64, lemma2_to64_rest, pow2};
use vstd::prelude::*;

verus! {

/// Crockford base32 without `I`, `L`, `O` and `U`, so a rendered value survives
/// being read aloud or retyped without collapsing onto a different one.
pub const TOKEN_ALPHABET: [u8; 32] = [
    48, 49, 50, 51, 52, 53, 54, 55, 56, 57, 97, 98, 99, 100, 101, 102, 103, 104, 106, 107, 109, 110,
    112, 113, 114, 115, 116, 118, 119, 120, 121, 122,
];

/// Odd multiplier of a multiplicative permutation over `2^40`. Odd means that it
/// is invertible modulo a power of two.
pub const VERSION_MULTIPLIER: u64 = 0x0037_79B9_7F4B;

/// Additive offset, applied after the multiplication so that version zero is not
/// a run of leading alphabet-zero characters.
pub const VERSION_OFFSET: u64 = 0x0005_DEEC_E66D;

/// Width of the permuted space. Forty bits render as exactly eight base32
/// characters.
pub const VERSION_BITS: u32 = 40;

/// Number of base32 characters in a rendered token.
pub const VERSION_DIGITS: usize = 8;

/// Fail-closed marker for a store version outside the supported non-negative
/// forty-bit domain. It is deliberately not token-shaped.
pub const INVALID_VERSION_TOKEN: &'static str = "invalid-secret-version";

/// Size of the permuted space.
pub open spec fn version_space() -> int {
    0x100_0000_0000
}

/// The supported store versions: those that fit the permuted space.
pub open spec fn version_in_domain(version: int) -> bool {
    0 <= version < version_space()
}

/// The point of the permuted space that a version is mapped onto.
pub open spec fn permuted(version: int) -> int {
    (version % version_space() * VERSION_MULTIPLIER + VERSION_OFFSET) % version_space()
}

/// The base32 digit of `point` at place `k`, counted from the least significant.
pub open spec fn base32_digit(point: int, k: nat) -> int {
    point / pow2(5 * k) as int % 32
}

/// The character that stands for a base32 digit.
pub open spec fn digit_char(digit: int) -> char {
    TOKEN_ALPHABET[digit] as char
}

/// The wire token of a version: `v` and the eight base32 digits of its permuted
/// point, most significant first; the fail-closed marker outside the domain.
pub open spec fn version_token(version: int) -> Seq<char> {
    if version_in_domain(version) {
        seq!['v'] + Seq::new(
            8,
            |i: int| digit_char(base32_digit(permuted(version), (7 - i) as nat)),
        )
    } else {
        INVALID_VERSION_TOKEN@
    }
}

/// Whether a character belongs to the token alphabet.
pub open spec fn in_token_alphabet(c: char) -> bool {
    exists|d: int| 0 <= d < 32 && c == #[trigger] digit_char(d)
}

/// The shape of an issued token: `v` and eight characters of the alphabet.
pub open spec fn token_shaped(token: Seq<char>) -> bool {
    &&& token.len() == 9
    &&& token[0] == 'v'
    &&& forall|i: int| 1 <= i < 9 ==> in_token_alphabet(#[trigger] token[i])
}

/// Map a version onto its point in the permuted space.
///
/// A version outside the space is first reduced to its low forty bits.
pub fn permute_version(version: i64) -> (point: u64)
    ensures
        point == permuted(version as int),
{
    assert(1u64 << 40u32 == 0x100_0000_0000u64) by (bit_vector);
    let mask: u64 = (1u64 << VERSION_BITS) - 1;
    let raw: u64 = version as u64;
    let seed: u64 = raw & mask;
    proof {
        assert(raw & 0xff_ffff_ffff == raw % 0x100_0000_0000) by (bit_vector);
        assert(version < 0 ==> (version as u64) == version + 0x1_0000_0000_0000_0000)
            by (bit_vector);
        assert(seed == version % 0x100_0000_0000);
    }
    let product: u64 = seed.wrapping_mul(VERSION_MULTIPLIER);
    let shifted: u64 = product.wrapping_add(VERSION_OFFSET);
    proof {
        assert(shifted & 0xff_ffff_ffff == shifted % 0x100_0000_0000) by (bit_vector);
        lemma_wrap_keeps_low_bits(seed * VERSION_MULTIPLIER);
    }
    shifted & mask
}

/// Wrapping a product and then a sum at sixty-four bits changes nothing in the
/// low forty.
proof fn lemma_wrap_keeps_low_bits(product: int)
    requires
        0 <= product,
    ensures
        ({
            let wrapped = product % 0x1_0000_0000_0000_0000;
            &&& (wrapped + VERSION_OFFSET) % 0x100_0000_0000 == (product + VERSION_OFFSET)
                % 0x100_0000_0000
            &&& (wrapped + VERSION_OFFSET - 0x1_0000_0000_0000_0000) % 0x100_0000_0000 == (product
                + VERSION_OFFSET) % 0x100_0000_0000
        }),
{
}

/// Render a version as its wire token.
///
/// Versions outside the supported space render to an unshaped fail-closed marker
/// that [`verify_secret_version`] never accepts.
pub fn secret_version(version: i64) -> (token: String)
    ensures
        token@ == version_token(version as int),
{
    assert(1i64 << 40u32 == 0x100_0000_0000i64) by (bit_vector);
    if version < 0 || version >= (1i64 << VERSION_BITS) {
        return INVALID_VERSION_TOKEN.to_owned();
    }
    let permuted_point: u64 = permute_version(version);
    let mut token = String::new();
    token.push('v');

    // Most significant digit first.
    let mut place: usize = VERSION_DIGITS;
    while place > 0
        invariant
            place <= VERSION_DIGITS,
            permuted_point == permuted(version as int),
            token@ =~= seq!['v'] + Seq::new(
                (8 - place) as nat,
                |i: int| digit_char(base32_digit(permuted(version as int), (7 - i) as nat)),
            ),
        decreases place,
    {
        place = place - 1;
        let shift: u64 = place as u64 * 5;
        let index: u64 = (permuted_point >> shift) & 0b1_1111;
        proof {
            let shifted: u64 = permuted_point >> shift;
            assert(shifted & 0b1_1111 == shifted % 32) by (bit_vector);
            vstd::bits::lemma_u64_shr_is_div(permuted_point, shift);
        }
        token.push(TOKEN_ALPHABET[index as usize] as char);
    }
    token
}

fn is_token_char(c: char) -> (found: bool)
    ensures
        found == in_token_alphabet(c),
{
    for d in 0..32
        invariant
            forall|e: int| 0 <= e < d ==> c != #[trigger] digit_char(e),
    {
        if c == TOKEN_ALPHABET[d] as char {
            assert(c == digit_char(d as int));
            return true;
        }
    }
    false
}

/// Whether `token` has the shape this server issues, whatever version it names.
///
/// Failing this means the token names no version at all, which is distinct from
/// naming a stale one.
pub fn is_secret_version_shaped(token: &str) -> (shaped: bool)
    ensures
        shaped == token_shaped(token@),
{
    let chars = crate::text::chars_of(token);
    if chars.len() != 1 + VERSION_DIGITS || chars[0] != 'v' {
        return false;
    }
    for i in 1..chars.len()
        invariant
            chars@ == token@,
            chars.len() == 9,
            forall|j: int| 1 <= j < i ==> in_token_alphabet(#[trigger] chars@[j]),
    {
        if !is_token_char(chars[i]) {
            return false;
        }
    }
    true
}

/// Whether a token verifies for a version: it is the one that was issued for it.
pub open spec fn verifies(version: int, token: Seq<char>) -> bool {
    version_in_domain(version) && token == version_token(version)
}

/// Whether `token` is the one this server issues for `version`.
///
/// Renders the stored version and compares; no token is ever decoded back into a
/// number.
pub fn verify_secret_version(version: i64, token: &str) -> (verified: bool)
    ensures
        verified == verifies(version as int, token@),
        verified ==> 0 <= version < 0x100_0000_0000 && token@ == version_token(version as int),
{
    proof {
        lemma_issued_token_is_shaped(version as int);
    }
    is_secret_version_shaped(token) && crate::text::same_text(
        secret_version(version).as_str(),
        token,
    )
}

/// The token of every supported version is shaped, and the marker that stands
/// for every other version is not.
pub proof fn lemma_issued_token_is_shaped(version: int)
    ensures
        token_shaped(version_token(version)) == version_in_domain(version),
{
    if version_in_domain(version) {
        let token = version_token(version);
        assert forall|i: int| 1 <= i < 9 implies in_token_alphabet(#[trigger] token[i]) by {
            assert(token[i] == digit_char(base32_digit(permuted(version), (8 - i) as nat)));
        }
    } else {
        reveal_strlit("invalid-secret-version");
    }
}

/// The version whose permuted point is `point`.
pub open spec fn unpermuted(point: int) -> int {
    (point - VERSION_OFFSET) * 0x3d_ee21_9263 % version_space()
}

/// The permutation of the version space can be undone, in both directions.
pub proof fn lemma_permutation_is_bijective(x: int)
    requires
        version_in_domain(x),
    ensures
        version_in_domain(permuted(x)),
        version_in_domain(unpermuted(x)),
        unpermuted(permuted(x)) == x,
        permuted(unpermuted(x)) == x,
{
    let n = version_space();
    let m = VERSION_MULTIPLIER as int;
    let o = VERSION_OFFSET as int;
    let w: int = 0x3d_ee21_9263;
    assert(m * w == 57639937075 * n + 1);

    // Forward, then back: (x * m + o - o) * w is x modulo n.
    let p = permuted(x);
    lemma_small_mod(x as nat, n as nat);
    lemma_sub_mod_noop(x * m + o, o, n);
    lemma_sub_mod_noop(p, o, n);
    assert((p - o) % n == (x * m) % n);
    lemma_mul_mod_noop_left(p - o, w, n);
    lemma_mul_mod_noop_left(x * m, w, n);
    assert(unpermuted(p) == (x * m) * w % n);
    assert((x * m) * w == x + n * (x * 57639937075)) by (nonlinear_arith)
        requires
            m * w == 57639937075 * n + 1,
    ;
    lemma_mod_multiples_vanish(x * 57639937075, x, n);

    // Back, then forward: (x - o) * w * m + o is x modulo n.
    let u = unpermuted(x);
    let y = x - o;
    lemma_small_mod(u as nat, n as nat);
    lemma_mul_mod_noop_left(y * w, m, n);
    lemma_add_mod_noop(u * m, o, n);
    lemma_add_mod_noop((y * w) * m, o, n);
    assert(permuted(u) == ((y * w) * m + o) % n);
    assert((y * w) * m + o == x + n * (y * 57639937075)) by (nonlinear_arith)
        requires
            m * w == 57639937075 * n + 1,
            y == x - o,
    ;
    lemma_mod_multiples_vanish(y * 57639937075, x, n);
}

proof fn lemma_digit_values(point: int)
    ensures
        base32_digit(point, 0) == point % 32,
        base32_digit(point, 1) == point / 0x20 % 32,
        base32_digit(point, 2) == point / 0x400 % 32,
        base32_digit(point, 3) == point / 0x8000 % 32,
        base32_digit(point, 4) == point / 0x10_0000 % 32,
        base32_digit(point, 5) == point / 0x200_0000 % 32,
        base32_digit(point, 6) == point / 0x4000_0000 % 32,
        base32_digit(point, 7) == point / 0x8_0000_0000 % 32,
{
    lemma2_to64();
    lemma2_to64_rest();
    assert(point / 1 == point);
}

/// Dividing by a place value is dividing by thirty-two again and again.
proof fn lemma_quotient_chain(point: int)
    ensures
        point / 0x400 == point / 0x20 / 32,
        point / 0x8000 == point / 0x400 / 32,
        point / 0x10_0000 == point / 0x8000 / 32,
        point / 0x200_0000 == point / 0x10_0000 / 32,
        point / 0x4000_0000 == point / 0x200_0000 / 32,
        point / 0x8_0000_0000 == point / 0x4000_0000 / 32,
{
    assert(point / 0x400 == point / 0x20 / 32);
    assert(point / 0x8000 == point / 0x400 / 32);
    assert(point / 0x10_0000 == point / 0x8000 / 32);
    assert(point / 0x200_0000 == point / 0x10_0000 / 32);
    assert(point / 0x4000_0000 == point / 0x200_0000 / 32);
    assert(point / 0x8_0000_0000 == point / 0x4000_0000 / 32);
}

/// The point with the given eight base32 digits, `digits[k]` at place `k`.
spec fn point_of_digits(digits: Seq<int>) -> int {
    digits[0] + 0x20 * (digits[1] + 0x20 * (digits[2] + 0x20 * (digits[3] + 0x20 * (digits[4] + 0x20
        * (digits[5] + 0x20 * (digits[6] + 0x20 * digits[7]))))))
}

spec fn digits_of(point: int) -> Seq<int> {
    Seq::new(8, |k: int| base32_digit(point, k as nat))
}

proof fn lemma_split(x: int)
    ensures
        x == x % 32 + 32 * (x / 32),
{
}

/// A point of the space is the one that its eight base32 digits make up.
proof fn lemma_digits_make_point(point: int)
    requires
        version_in_domain(point),
    ensures
        point_of_digits(digits_of(point)) == point,
{
    lemma_digit_values(point);
    lemma_quotient_chain(point);
    lemma_split(point);
    lemma_split(point / 0x20);
    lemma_split(point / 0x400);
    lemma_split(point / 0x8000);
    lemma_split(point / 0x10_0000);
    lemma_split(point / 0x200_0000);
    lemma_split(point / 0x4000_0000);
    assert(point / 0x8_0000_0000 % 32 == point / 0x8_0000_0000);
}

proof fn lemma_unsplit(digit: int, rest: int)
    requires
        0 <= digit < 32,
    ensures
        (digit + 0x20 * rest) % 32 == digit,
        (digit + 0x20 * rest) / 32 == rest,
{
}

/// The digits of the point that eight base32 digits make up are those digits.
proof fn lemma_point_has_digits(digits: Seq<int>)
    requires
        digits.len() == 8,
        forall|k: int| 0 <= k < 8 ==> 0 <= #[trigger] digits[k] < 32,
    ensures
        version_in_domain(point_of_digits(digits)),
        digits_of(point_of_digits(digits)) == digits,
{
    let p = point_of_digits(digits);
    let r7 = digits[7];
    let r6 = digits[6] + 0x20 * r7;
    let r5 = digits[5] + 0x20 * r6;
    let r4 = digits[4] + 0x20 * r5;
    let r3 = digits[3] + 0x20 * r4;
    let r2 = digits[2] + 0x20 * r3;
    let r1 = digits[1] + 0x20 * r2;
    lemma_unsplit(digits[0], r1);
    lemma_unsplit(digits[1], r2);
    lemma_unsplit(digits[2], r3);
    lemma_unsplit(digits[3], r4);
    lemma_unsplit(digits[4], r5);
    lemma_unsplit(digits[5], r6);
    lemma_unsplit(digits[6], r7);
    lemma_unsplit(digits[7], 0);
    lemma_digit_values(p);
    lemma_quotient_chain(p);
    assert(digits_of(p) =~= digits);
}

/// Adding the multiplier changes the two most significant digits.
proof fn lemma_multiplier_moves_top_digits(p: int, q: int)
    requires
        version_in_domain(p),
        version_in_domain(q),
        q == p + VERSION_MULTIPLIER || q == p + VERSION_MULTIPLIER - version_space(),
    ensures
        p / 0x8_0000_0000 % 32 != q / 0x8_0000_0000 % 32,
        p / 0x4000_0000 % 32 != q / 0x4000_0000 % 32,
{
    let a = p / 0x8_0000_0000;
    let r = p % 0x8_0000_0000;
    assert(p == 0x8_0000_0000 * a + r);
    assert(0 <= a < 32);
    let b = q / 0x8_0000_0000;
    assert(0 <= b < 32);

    // The quotients at the second place are 221 or 222 apart, modulo 1024.
    let c = p / 0x4000_0000;
    let d = q / 0x4000_0000;
    assert(d - c == 221 || d - c == 222 || d - c == 221 - 1024 || d - c == 222 - 1024);
}

/// Adding the multiplier changes the two least significant digits.
proof fn lemma_multiplier_moves_low_digits(p: int, q: int)
    requires
        q == p + VERSION_MULTIPLIER || q == p + VERSION_MULTIPLIER - version_space(),
    ensures
        p % 32 != q % 32,
        p / 0x20 % 32 != q / 0x20 % 32,
{
}

/// No two digits share a character.
proof fn lemma_alphabet_is_distinct(a: int, b: int)
    requires
        0 <= a < 32,
        0 <= b < 32,
        digit_char(a) == digit_char(b),
    ensures
        a == b,
{
}

/// Distinct supported versions render to distinct tokens.
pub proof fn lemma_tokens_are_distinct(a: int, b: int)
    requires
        version_in_domain(a),
        version_in_domain(b),
        version_token(a) == version_token(b),
    ensures
        a == b,
{
    let p = permuted(a);
    let q = permuted(b);
    lemma_permutation_is_bijective(a);
    lemma_permutation_is_bijective(b);
    assert forall|k: int| 0 <= k < 8 implies digits_of(p)[k] == digits_of(q)[k] by {
        assert(version_token(a)[8 - k] == digit_char(base32_digit(p, k as nat)));
        assert(version_token(b)[8 - k] == digit_char(base32_digit(q, k as nat)));
        lemma_alphabet_is_distinct(base32_digit(p, k as nat), base32_digit(q, k as nat));
    }
    lemma_digits_make_point(p);
    lemma_digits_make_point(q);
    assert(digits_of(p) =~= digits_of(q));
}

/// Every shaped token is the token of a supported version.
pub proof fn lemma_shaped_token_names_a_version(token: Seq<char>) -> (version: int)
    requires
        token_shaped(token),
    ensures
        version_in_domain(version),
        version_token(version) == token,
{
    let digits = Seq::new(
        8,
        |k: int| choose|d: int| 0 <= d < 32 && token[8 - k] == #[trigger] digit_char(d),
    );
    assert forall|k: int| 0 <= k < 8 implies 0 <= #[trigger] digits[k] < 32 && token[8 - k]
        == digit_char(digits[k]) by {
        assert(in_token_alphabet(token[8 - k]));
    }
    lemma_point_has_digits(digits);
    let point = point_of_digits(digits);
    let version = unpermuted(point);
    lemma_permutation_is_bijective(point);
    assert forall|i: int| 0 <= i < 9 implies version_token(version)[i] == token[i] by {
        if i > 0 {
            assert(digits_of(point)[8 - i] == digits[8 - i]);
        }
    }
    assert(version_token(version) =~= token);
    version
}

proof fn lemma_step_modulo(x: int)
    ensures
        ({
            let p = x % 0x100_0000_0000;
            let q = (x + VERSION_MULTIPLIER) % 0x100_0000_0000;
            q == p + VERSION_MULTIPLIER || q == p + VERSION_MULTIPLIER - 0x100_0000_0000
        }),
{
}

/// The tokens of two consecutive versions share the leading `v` and no prefix beyond it
/// that a reader could extrapolate: they differ in the character after it already, and in
/// four of the eight characters at least.
pub proof fn lemma_consecutive_tokens_are_dissimilar(version: int)
    requires
        version_in_domain(version),
        version_in_domain(version + 1),
    ensures
        version_token(version)[0] == 'v' && version_token(version + 1)[0] == 'v',
        version_token(version)[1] != version_token(version + 1)[1],
        version_token(version)[2] != version_token(version + 1)[2],
        version_token(version)[7] != version_token(version + 1)[7],
        version_token(version)[8] != version_token(version + 1)[8],
{
    let p = permuted(version);
    let q = permuted(version + 1);
    let m = VERSION_MULTIPLIER as int;
    assert(version_in_domain(p) && version_in_domain(q)) by {
        lemma_permutation_is_bijective(version);
        lemma_permutation_is_bijective(version + 1);
    }
    assert(q == p + m || q == p + m - version_space()) by {
        lemma_small_mod(version as nat, version_space() as nat);
        lemma_small_mod((version + 1) as nat, version_space() as nat);
        lemma_step_modulo(version * m + VERSION_OFFSET);
        assert((version + 1) * m == version * m + m) by (nonlinear_arith);
    }
    lemma_digit_values(p);
    lemma_digit_values(q);
    lemma_multiplier_moves_top_digits(p, q);
    lemma_multiplier_moves_low_digits(p, q);
    lemma_distinct_digits_show(version, version + 1, 7);
    lemma_distinct_digits_show(version, version + 1, 6);
    lemma_distinct_digits_show(version, version + 1, 1);
    lemma_distinct_digits_show(version, version + 1, 0);
}

/// Where the points of two versions differ in a digit, their tokens differ in its
/// character.
proof fn lemma_distinct_digits_show(a: int, b: int, k: nat)
    requires
        version_in_domain(a),
        version_in_domain(b),
        k < 8,
        base32_digit(permuted(a), k) != base32_digit(permuted(b), k),
    ensures
        version_token(a)[8 - k] != version_token(b)[8 - k],
{
    let x = base32_digit(permuted(a), k);
    let y = base32_digit(permuted(b), k);
    assert(version_token(a)[8 - k] == digit_char(x));
    assert(version_token(b)[8 - k] == digit_char(y));
    if digit_char(x) == digit_char(y) {
        lemma_alphabet_is_distinct(x, y);
    }
}

/// A token verifies for a version exactly when it was issued for that version:
/// the token of another version, adjacent or not, never does.
pub proof fn lemma_verification_accepts_only_its_version(version: int, other: int)
    requires
        version_in_domain(version),
    ensures
        version_token(other) == version_token(version) <==> other == version,
        verifies(version, version_token(other)) <==> other == version,
{
    lemma_issued_token_is_shaped(version);
    lemma_issued_token_is_shaped(other);
    if version_token(other) == version_token(version) {
        lemma_tokens_are_distinct(other, version);
    }
}

/// The value of a character as a base32 digit, -1 for a character that is none: the ten
/// digits, then the letters in order without `i`, `l`, `o` and `u`.
pub open spec fn symbol_value(c: char) -> int {
    let code = c as int;
    if 48 <= code <= 57 {
        code - 48
    } else if 97 <= code <= 104 {
        code - 87
    } else if 106 <= code <= 107 {
        code - 88
    } else if 109 <= code <= 110 {
        code - 89
    } else if 112 <= code <= 116 {
        code - 90
    } else if 118 <= code <= 122 {
        code - 91
    } else {
        -1
    }
}

proof fn lemma_digit_has_its_value(d: int)
    requires
        0 <= d < 32,
    ensures
        symbol_value(digit_char(d)) == d,
{
}

/// A token spells, in base32 and with the most significant digit first, the version times
/// `0x3779b97f4b` plus `0x5deece66d`, reduced to forty bits. A version that does not fit
/// forty bits has no token but the marker.
pub proof fn lemma_a_token_spells_its_version(version: int)
    ensures
        ({
            let token = version_token(version);
            let value = |i: int| symbol_value(token[i]);
            if 0 <= version < 0x100_0000_0000 {
                &&& token.len() == 9
                &&& token[0] == 'v'
                &&& forall|i: int| 1 <= i < 9 ==> symbol_value(#[trigger] token[i]) >= 0
                &&& value(8) + 32 * (value(7) + 32 * (value(6) + 32 * (value(5) + 32 * (value(4)
                    + 32 * (value(3) + 32 * (value(2) + 32 * value(1))))))) == (version
                    * 0x37_79b9_7f4b + 0x5_deec_e66d) % 0x100_0000_0000
            } else {
                token == "invalid-secret-version"@
            }
        }),
{
    if version_in_domain(version) {
        let token = version_token(version);
        let p = permuted(version);
        lemma_small_mod(version as nat, version_space() as nat);
        lemma_permutation_is_bijective(version);
        lemma_digits_make_point(p);
        assert forall|i: int| 1 <= i < 9 implies symbol_value(#[trigger] token[i]) == digits_of(
            p,
        )[8 - i] by {
            lemma_digit_has_its_value(base32_digit(p, (8 - i) as nat));
        }
        assert(symbol_value(token[1]) == digits_of(p)[7]);
        assert(symbol_value(token[2]) == digits_of(p)[6]);
        assert(symbol_value(token[3]) == digits_of(p)[5]);
        assert(symbol_value(token[4]) == digits_of(p)[4]);
        assert(symbol_value(token[5]) == digits_of(p)[3]);
        assert(symbol_value(token[6]) == digits_of(p)[2]);
        assert(symbol_value(token[7]) == digits_of(p)[1]);
        assert(symbol_value(token[8]) == digits_of(p)[0]);
    }
}

/// A token is shaped where it is a `v` and eight base32 characters, and nowhere else.
pub proof fn lemma_the_published_shape(token: Seq<char>)
    ensures
        token_shaped(token) <==> token.len() == 9 && token[0] == 'v' && forall|i: int|
            1 <= i < 9 ==> symbol_value(#[trigger] token[i]) >= 0,
{
    assert forall|c: char| #[trigger] in_token_alphabet(c) <==> symbol_value(c) >= 0 by {
        if in_token_alphabet(c) {
            let d = choose|d: int| 0 <= d < 32 && c == #[trigger] digit_char(d);
            lemma_digit_has_its_value(d);
        }
        if symbol_value(c) >= 0 {
            let d = symbol_value(c);
            lemma_digit_has_its_value(d);
            assert(c == digit_char(d));
        }
    }
    if token.len() == 9 {
        assert forall|i: int| 1 <= i < 9 implies in_token_alphabet(#[trigger] token[i]) == (
        symbol_value(token[i]) >= 0) by {}
    }
}

/// A token that verifies is shaped and verifies for no other version, and no token verifies
/// for a version outside forty bits. Every shaped token verifies for some version.
pub proof fn lemma_a_token_verifies_for_one_version(a: int, b: int, token: Seq<char>)
    ensures
        verifies(a, token) ==> 0 <= a < 0x100_0000_0000 && token_shaped(token),
        verifies(a, token) && verifies(b, token) ==> a == b,
        token_shaped(token) ==> exists|version: int| verifies(version, token),
        0 <= a < 0x100_0000_0000 ==> verifies(a, version_token(a)),
{
    lemma_issued_token_is_shaped(a);
    if verifies(a, token) && verifies(b, token) {
        lemma_tokens_are_distinct(a, b);
    }
    if token_shaped(token) {
        let version = lemma_shaped_token_names_a_version(token);
        assert(verifies(version, token));
    }
}

} // verus!
