use std::collections::HashSet;

use microsandbox_secrets::secret::version::{
    is_secret_version_shaped, permute_version, secret_version, verify_secret_version,
    INVALID_VERSION_TOKEN, TOKEN_ALPHABET, VERSION_BITS, VERSION_DIGITS, VERSION_MULTIPLIER,
    VERSION_OFFSET,
};

#[test]
fn a_token_is_a_v_and_eight_url_safe_characters() {
    for version in [0_i64, 1, 7, 42, 1_000_000] {
        let token = secret_version(version);

        assert_eq!(token.len(), 1 + VERSION_DIGITS);
        assert!(token.starts_with('v'));
        assert!(
            token[1..]
                .bytes()
                .all(|byte| TOKEN_ALPHABET.contains(&byte)),
            "{token} must use only the published alphabet"
        );
    }
}

/// Injectivity over the whole space rests on the multiplier being odd, which is what
/// makes it invertible modulo a power of two.
#[test]
fn the_permutation_multiplier_is_invertible() {
    assert_eq!(VERSION_MULTIPLIER % 2, 1);
    assert!(VERSION_MULTIPLIER < (1 << VERSION_BITS));
}

/// Two versions sharing a token would let one caller's precondition satisfy another's
/// write.
#[test]
fn distinct_versions_render_to_distinct_tokens() {
    let mut seen = HashSet::new();

    for version in 0_i64..200_000 {
        assert!(
            seen.insert(secret_version(version)),
            "version {version} collided with an earlier token"
        );
    }
}

/// A client that can see an ordering will compute one. Consecutive versions must
/// therefore share no prefix a reader could extrapolate.
#[test]
fn consecutive_versions_render_to_dissimilar_tokens() {
    for version in 0_i64..5_000 {
        let current = secret_version(version);
        let next = secret_version(version + 1);

        let shared = current
            .bytes()
            .zip(next.bytes())
            .take_while(|(left, right)| left == right)
            .count();

        // The leading `v` is the only character every token shares.
        assert_eq!(
            shared, 1,
            "{current} and {next} share {shared} leading characters"
        );

        let differing = current
            .bytes()
            .zip(next.bytes())
            .filter(|(left, right)| left != right)
            .count();

        assert!(
            differing >= 4,
            "{current} and {next} differ in only {differing} characters"
        );
    }
}

#[test]
fn verification_accepts_only_the_token_for_that_version() {
    for version in [1_i64, 7, 42, 1_000_000] {
        assert!(verify_secret_version(version, &secret_version(version)));

        // An adjacent version is the token a client guessing at an ordering would most
        // plausibly send.
        assert!(!verify_secret_version(
            version,
            &secret_version(version + 1)
        ));
        assert!(!verify_secret_version(
            version,
            &secret_version(version - 1)
        ));
    }
}

#[test]
fn versions_outside_the_supported_domain_fail_closed() {
    for version in [-1_i64, 1_i64 << VERSION_BITS, i64::MAX] {
        let token = secret_version(version);
        assert_eq!(token, INVALID_VERSION_TOKEN);
        assert!(!is_secret_version_shaped(&token));
        assert!(!verify_secret_version(version, &token));
    }
}

#[test]
fn a_malformed_or_foreign_token_never_verifies() {
    let version = 7_i64;
    let token = secret_version(version);

    for foreign in [
        String::new(),
        "v7".into(),
        "7".into(),
        token[1..].to_string(),
        token.to_uppercase(),
        format!("\"{token}\""),
        format!("{token}x"),
        token[..token.len() - 1].to_string(),
    ] {
        assert!(
            !verify_secret_version(version, &foreign),
            "{foreign:?} must not verify"
        );
    }
}

#[test]
fn every_issued_token_is_shaped() {
    for version in [0_i64, 1, 7, 42, 1_000_000] {
        assert!(is_secret_version_shaped(&secret_version(version)));
    }
}

/// Shape is what separates "names no version" from "names a stale one".
#[test]
fn a_token_this_server_never_issues_is_unshaped() {
    let token = secret_version(7);

    for unshaped in [
        String::new(),
        "v7".into(),
        "7".into(),
        token[1..].to_string(),
        token.to_uppercase(),
        format!("\"{token}\""),
        format!("{token}x"),
        token[..token.len() - 1].to_string(),
        // `i`, `l`, `o` and `u` are excluded from the alphabet.
        "viiiiiiii".into(),
    ] {
        assert!(
            !is_secret_version_shaped(&unshaped),
            "{unshaped:?} must not be shaped"
        );
    }
}

/// The digits of the permuted version, most significant first, each written with the
/// published alphabet.
#[test]
fn a_token_spells_the_permuted_version() {
    for version in [0_i64, 1, 2, 7, 42, 1_000_000, (1_i64 << VERSION_BITS) - 1] {
        let point = (version as u128 * VERSION_MULTIPLIER as u128 + VERSION_OFFSET as u128)
            % (1u128 << VERSION_BITS);
        assert_eq!(permute_version(version) as u128, point);

        let token = secret_version(version);
        let spelled = token.bytes().skip(1).fold(0u128, |value, byte| {
            let digit = TOKEN_ALPHABET
                .iter()
                .position(|published| *published == byte)
                .expect("published");
            value * 32 + digit as u128
        });
        assert_eq!(spelled, point);
    }
}

/// The last version of the domain has a token of its own; the one after it has none.
#[test]
fn the_domain_ends_where_it_says() {
    let last = (1_i64 << VERSION_BITS) - 1;
    let token = secret_version(last);
    assert!(is_secret_version_shaped(&token));
    assert!(verify_secret_version(last, &token));
    assert_ne!(token, secret_version(0));
    assert_eq!(secret_version(last + 1), INVALID_VERSION_TOKEN);
    assert_eq!(secret_version(i64::MIN), INVALID_VERSION_TOKEN);
}

/// Text outside ASCII is no token, whatever its length in bytes.
#[test]
fn a_token_outside_ascii_is_unshaped() {
    assert!(!is_secret_version_shaped("v\u{e9}\u{e9}\u{e9}\u{e9}"));
    assert!(!is_secret_version_shaped("\u{e9}0000000"));
    assert!(!verify_secret_version(7, "v\u{e9}\u{e9}\u{e9}\u{e9}"));
}

/// Consecutive tokens differ in the first two characters after the `v` and in the last
/// two, up to the end of the domain.
#[test]
fn consecutive_tokens_differ_at_both_ends() {
    let last = (1_i64 << VERSION_BITS) - 1;
    for version in [0, 1, 41, 999_999, 1_i64 << 39, last - 1] {
        let current = secret_version(version).into_bytes();
        let next = secret_version(version + 1).into_bytes();
        for place in [1, 2, 7, 8] {
            assert_ne!(current[place], next[place], "version {version} at {place}");
        }
    }
}
