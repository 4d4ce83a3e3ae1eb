//! Password generation: length, character sets, and rejections.

use keyhaven::crypto;
use keyhaven::error::KeyhavenError;
use keyhaven::generator::{arrange, generate_password, PasswordGenOptions, DIGITS, LOWER, MAX_LENGTH, SYMBOLS, UPPER};
use keyhaven::model::PasswordGenDefaults;
use std::collections::HashSet;

fn opts(length: u32, upper: bool, lower: bool, digits: bool, symbols: bool) -> PasswordGenOptions {
    PasswordGenOptions {
        length,
        upper,
        lower,
        digits,
        symbols,
    }
}

fn allowed_bytes(o: &PasswordGenOptions) -> HashSet<u8> {
    let mut sets: Vec<&[char]> = Vec::new();
    if o.upper {
        sets.push(&UPPER);
    }
    if o.lower {
        sets.push(&LOWER);
    }
    if o.digits {
        sets.push(&DIGITS);
    }
    if o.symbols {
        sets.push(&SYMBOLS);
    }
    sets.iter().flat_map(|s| s.iter().map(|&c| c as u8)).collect()
}

#[test]
fn respects_requested_length() {
    // Single charset so even length 1 is valid (no min-set-count floor).
    for len in [1u32, 4, 8, 20, 64, 128, MAX_LENGTH] {
        let pw = generate_password(opts(len, false, true, false, false)).unwrap();
        assert_eq!(pw.chars().count(), len as usize, "length {len} not honored");
    }
    // And with all sets enabled for lengths that can fit one of each.
    for len in [4u32, 8, 20, 64, MAX_LENGTH] {
        let pw = generate_password(opts(len, true, true, true, true)).unwrap();
        assert_eq!(pw.chars().count(), len as usize, "length {len} not honored");
    }
}

#[test]
fn only_uses_selected_charsets() {
    let o = opts(40, true, false, true, false); // upper + digits only
    let allowed = allowed_bytes(&o);
    let pw = generate_password(o).unwrap();
    for b in pw.bytes() {
        assert!(allowed.contains(&b), "byte {b:?} outside selected sets");
    }
    // And no lowercase/symbol leaked in.
    assert!(pw.bytes().all(|b| b.is_ascii_uppercase() || b.is_ascii_digit()));
}

#[test]
fn includes_at_least_one_of_each_selected_set() {
    // A long password with all sets should, deterministically, contain at
    // least one character from every selected class (guaranteed by step 1).
    let pw = generate_password(opts(40, true, true, true, true)).unwrap();
    assert!(pw.bytes().any(|b| UPPER.contains(&(b as char))), "missing uppercase");
    assert!(pw.bytes().any(|b| LOWER.contains(&(b as char))), "missing lowercase");
    assert!(pw.bytes().any(|b| DIGITS.contains(&(b as char))), "missing digit");
    assert!(pw.bytes().any(|b| SYMBOLS.contains(&(b as char))), "missing symbol");
}

#[test]
fn single_charset_uses_only_that_set() {
    let pw = generate_password(opts(30, false, true, false, false)).unwrap();
    assert!(pw.bytes().all(|b| b.is_ascii_lowercase()));
    assert_eq!(pw.len(), 30);
}

#[test]
fn minimum_length_with_all_sets_has_one_of_each() {
    // length == number of selected sets: every position must be a distinct
    // class, so exactly one of each.
    let pw = generate_password(opts(4, true, true, true, true)).unwrap();
    assert_eq!(pw.len(), 4);
    assert_eq!(pw.bytes().filter(|b| UPPER.contains(&(*b as char))).count(), 1);
    assert_eq!(pw.bytes().filter(|b| LOWER.contains(&(*b as char))).count(), 1);
    assert_eq!(pw.bytes().filter(|b| DIGITS.contains(&(*b as char))).count(), 1);
    assert_eq!(pw.bytes().filter(|b| SYMBOLS.contains(&(*b as char))).count(), 1);
}

#[test]
fn rejects_no_charset_selected() {
    let err = generate_password(opts(16, false, false, false, false)).unwrap_err();
    assert!(matches!(err, KeyhavenError::InvalidInput { .. }));
}

#[test]
fn rejects_zero_length() {
    let err = generate_password(opts(0, true, true, true, true)).unwrap_err();
    assert!(matches!(err, KeyhavenError::InvalidInput { .. }));
}

#[test]
fn rejects_length_below_selected_set_count() {
    // 3 chars cannot include one of each of the 4 selected sets.
    let err = generate_password(opts(3, true, true, true, true)).unwrap_err();
    assert!(matches!(err, KeyhavenError::InvalidInput { .. }));
}

#[test]
fn rejects_length_above_maximum() {
    let err = generate_password(opts(MAX_LENGTH + 1, true, true, true, true)).unwrap_err();
    assert!(matches!(err, KeyhavenError::InvalidInput { .. }));
}

#[test]
fn defaults_match_stored_password_gen_defaults() {
    let o = PasswordGenOptions::default();
    let d = PasswordGenDefaults::default();
    assert_eq!(o.length, d.length);
    assert_eq!(o.upper, d.upper);
    assert_eq!(o.lower, d.lower);
    assert_eq!(o.digits, d.digits);
    assert_eq!(o.symbols, d.symbols);
    // The default options generate successfully.
    assert_eq!(generate_password(o).unwrap().len(), d.length as usize);
}

#[test]
fn successive_passwords_differ() {
    // With a CSPRNG source, two 24-char passwords colliding is astronomically
    // unlikely; a fixed/empty RNG would make them equal.
    let o = opts(24, true, true, true, true);
    let a = generate_password(o).unwrap();
    let b = generate_password(o).unwrap();
    assert_ne!(a, b, "generated passwords must vary across calls (CSPRNG)");
}

/// Generator compliance: across many randomized
/// option combinations, every generated password satisfies the requested
/// length and draws only from the selected character sets, with at least one
/// character of each selected set.
#[test]
fn property_generator_compliance_over_many_options() {
    for _ in 0..2000 {
        // Randomly choose options using the same CSPRNG helper under test.
        let upper = crypto::random_below(2) == 1;
        let lower = crypto::random_below(2) == 1;
        let digits = crypto::random_below(2) == 1;
        let symbols = crypto::random_below(2) == 1;
        if !(upper || lower || digits || symbols) {
            continue; // skip the empty selection (separately tested)
        }
        let selected = [upper, lower, digits, symbols]
            .iter()
            .filter(|&&b| b)
            .count() as u32;
        // length in [selected, selected + 40]
        let length = selected + crypto::random_below(41);

        let o = opts(length, upper, lower, digits, symbols);
        let pw = generate_password(o).expect("valid options must generate");
        let allowed = allowed_bytes(&o);

        assert_eq!(pw.chars().count(), length as usize, "length mismatch");
        for b in pw.bytes() {
            assert!(allowed.contains(&b), "char outside selected sets");
        }
        if upper {
            assert!(pw.bytes().any(|b| UPPER.contains(&(b as char))), "missing required uppercase");
        }
        if lower {
            assert!(pw.bytes().any(|b| LOWER.contains(&(b as char))), "missing required lowercase");
        }
        if digits {
            assert!(pw.bytes().any(|b| DIGITS.contains(&(b as char))), "missing required digit");
        }
        if symbols {
            assert!(pw.bytes().any(|b| SYMBOLS.contains(&(b as char))), "missing required symbol");
        }
    }
}

#[test]
fn arrange_fills_then_shuffles_from_the_last_position() {
    // start "abz"; step 0 swaps positions 2 and 0 -> "zba"; step 1 swaps 1 and 0 -> "bza"
    let pw = arrange(&['a', 'b'], &['x', 'y', 'z'], &[2], &[0, 0]);
    assert_eq!(pw, "bza");
}

#[test]
fn arrange_with_identity_swaps_keeps_the_fill_order() {
    let pw = arrange(&['a', 'b'], &['x', 'y', 'z'], &[2, 0], &[3, 2, 1]);
    assert_eq!(pw, "abzx");
}

#[test]
fn arrange_single_character() {
    assert_eq!(arrange(&['Q'], &['x'], &[], &[]), "Q");
    assert_eq!(arrange(&[], &['x', 'y'], &[1], &[]), "y");
}
