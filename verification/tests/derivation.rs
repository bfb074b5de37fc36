use password_generator_rs::alphabet::{alphabet_char, ALPHABET_LEN, CRYPTO};
use password_generator_rs::encoder::{build_password, can_encode};
use password_generator_rs::mapper::map_digest;
use password_generator_rs::normalizer::{normalize, pad, truncate};
use password_generator_rs::random::generator_crypto;
use password_generator_rs::{
    checked_generator_password, checked_seed_hash, fits_limits, generator_password, seed_hash,
    PasswordError,
};

fn is_base64_symbol(c: char) -> bool {
    c.is_ascii_alphanumeric() || c == '+' || c == '/' || c == '='
}

#[test]
fn test_seed_hash() {
    assert_eq!(seed_hash("abc"), 590);
}

#[test]
fn test_generator_password() {
    let seed = "wechat";
    let length = 15;
    let result = generator_password(seed, length);
    assert!(result.is_ok());
    let password = result.unwrap();
    assert_eq!(password.len(), length);
}

#[test]
fn test_generator_password_short_length() {
    let seed = "wechat";
    let length = 10;
    let result = generator_password(seed, length);
    assert!(result.is_ok());
    let password = result.unwrap();
    assert_eq!(password.len(), length);
}

#[test]
fn test_generator_password_empty_seed() {
    let seed = "";
    let length = 8;
    let result = generator_password(seed, length);
    println!("{:?}", result);
    assert!(result.is_err());
}

#[test]
fn test_generator_password_long_length() {
    let seed = "abcdefg";
    let length = 20;
    let result = generator_password(seed, length);
    assert!(result.is_ok());
    let password = result.unwrap();
    assert_eq!(password.len(), length);
}

#[test]
fn seed_hash_of_empty_seed_is_zero() {
    assert_eq!(seed_hash(""), 0);
}

#[test]
fn seed_hash_weights_positions_from_one() {
    assert_eq!(seed_hash("a"), 97);
    assert_eq!(seed_hash("aa"), 97 + 2 * 97);
    assert_eq!(seed_hash("wechat"), 2215);
}

#[test]
fn seed_hash_uses_code_points_not_bytes() {
    // U+00E9 is one character of two bytes.
    assert_eq!(seed_hash("\u{e9}"), 0xe9);
    assert_eq!(seed_hash("a\u{4e2d}"), 97 + 2 * 0x4e2d);
}

#[test]
fn seed_hash_is_repeatable() {
    assert_eq!(seed_hash("correct horse"), seed_hash("correct horse"));
    assert_eq!(checked_seed_hash("correct horse"), Some(seed_hash("correct horse")));
}

#[test]
fn checked_seed_hash_agrees_on_small_seeds() {
    assert_eq!(checked_seed_hash("abc"), Some(590));
    assert_eq!(checked_seed_hash(""), Some(0));
}

#[test]
fn checked_seed_hash_reports_overflow() {
    // Six million characters of the largest code point: the digest is just above 2^64.
    let seed: String = std::iter::repeat('\u{10ffff}').take(6_000_000).collect();
    assert_eq!(checked_seed_hash(&seed), None);
    assert!(!fits_limits(&seed));
}

#[test]
fn alphabet_has_128_entries() {
    assert_eq!(ALPHABET_LEN, 128);
    assert_eq!(CRYPTO.chars().count(), 128);
    assert!(CRYPTO.chars().all(|c| c.is_ascii_alphanumeric()));
}

#[test]
fn alphabet_char_indexes_the_table() {
    assert_eq!(alphabet_char(0), '7');
    assert_eq!(alphabet_char(1), 'J');
    assert_eq!(alphabet_char(127), 'n');
}

#[test]
fn alphabet_char_wraps_around() {
    assert_eq!(alphabet_char(128), '7');
    assert_eq!(alphabet_char(129), 'J');
    assert_eq!(alphabet_char(128 * 5 + 127), 'n');
}

#[test]
fn map_digest_of_zero_is_empty() {
    assert_eq!(map_digest(0), "");
}

#[test]
fn map_digest_emits_lowest_digit_first() {
    // 590 = 4 * 128 + 78
    let expected: String = vec![alphabet_char(78), alphabet_char(4)].into_iter().collect();
    assert_eq!(map_digest(590), expected);
    // 2215 = 17 * 128 + 39
    let expected: String = vec![alphabet_char(39), alphabet_char(17)].into_iter().collect();
    assert_eq!(map_digest(2215), expected);
    assert_eq!(map_digest(5), "M");
    assert_eq!(map_digest(128), "7J");
}

#[test]
fn build_password_encodes_mapped_then_seed() {
    assert_eq!(build_password(String::new(), "abcd"), "YWJjZA==");
    assert_eq!(build_password(String::from("ab"), "cd"), "YWJjZA==");
    assert_eq!(build_password(String::from("M"), "an"), "TWFu");
    assert_eq!(build_password(String::new(), ""), "");
}

#[test]
fn build_password_encodes_utf8_bytes() {
    // U+00E9 is 0xC3 0xA9 in UTF-8.
    assert_eq!(build_password(String::new(), "\u{e9}"), "w6k=");
}

#[test]
fn build_password_output_is_base64_text_of_the_stated_length() {
    for seed in ["", "a", "ab", "abc", "abcd", "wechat", "abcdefg"] {
        let encoded = build_password(String::from("xy"), seed);
        assert_eq!(encoded.len(), 4 * ((2 + seed.len() + 2) / 3));
        assert!(encoded.chars().all(is_base64_symbol));
    }
}

#[test]
fn can_encode_accepts_ordinary_lengths() {
    assert!(can_encode(0));
    assert!(can_encode(1));
    assert!(can_encode(1 << 20));
    assert!(!can_encode(usize::MAX));
    assert!(!can_encode(usize::MAX - 1));
    assert!(!can_encode(usize::MAX - 2));
}

#[test]
fn can_encode_boundary() {
    // The largest group count whose fourfold fits isize::MAX.
    let groups = (isize::MAX as usize) / 4;
    assert!(can_encode(groups * 3));
    assert!(!can_encode(groups * 3 + 1));
}

#[test]
fn truncate_keeps_the_head() {
    assert_eq!(truncate("hello", 3), "hel");
    assert_eq!(truncate("hello", 0), "");
    assert_eq!(truncate("hello", 5), "hello");
    assert_eq!(truncate("hello", 9), "hello");
}

#[test]
fn truncate_counts_characters() {
    assert_eq!(truncate("\u{e9}t\u{e9}", 2), "\u{e9}t");
}

#[test]
fn pad_appends_the_drawn_characters() {
    assert_eq!(pad(String::from("ab"), &[0, 1, 127]), "ab7Jn");
    assert_eq!(pad(String::from("ab"), &[]), "ab");
    assert_eq!(pad(String::new(), &[128, 2]), "7M");
}

#[test]
fn normalize_cuts_long_text() {
    assert_eq!(normalize(String::from("YWJjZA=="), 6), "YWJjZA");
    assert_eq!(normalize(String::from("YWJjZA=="), 8), "YWJjZA==");
}

#[test]
fn normalize_fills_short_text_from_the_table() {
    let password = normalize(String::from("YWJjZA=="), 20);
    assert_eq!(password.chars().count(), 20);
    assert!(password.starts_with("YWJjZA=="));
    assert!(password.chars().skip(8).all(|c| CRYPTO.contains(c)));
}

#[test]
fn normalize_draws_vary() {
    // Two hundred draws that all pick the same entry would be no draws at all.
    let password = normalize(String::new(), 200);
    assert_eq!(password.len(), 200);
    let first = password.chars().next().unwrap();
    assert!(password.chars().any(|c| c != first));
}

#[test]
fn normalize_to_zero_is_empty() {
    assert_eq!(normalize(String::from("abc"), 0), "");
    assert_eq!(normalize(String::new(), 0), "");
}

#[test]
fn generator_crypto_makes_128_letters_and_digits() {
    let table = generator_crypto();
    assert_eq!(table.chars().count(), 128);
    assert!(table.chars().all(|c| c.is_ascii_alphanumeric()));
}

#[test]
fn generator_password_rejects_short_seed() {
    assert_eq!(generator_password("", 8), Err(PasswordError::SeedTooShort));
    assert_eq!(generator_password("abc", 8), Err(PasswordError::SeedTooShort));
}

#[test]
fn generator_password_rejects_short_length() {
    assert_eq!(generator_password("abcd", 5), Err(PasswordError::LengthTooShort));
    assert_eq!(generator_password("abcd", 0), Err(PasswordError::LengthTooShort));
}

#[test]
fn generator_password_checks_the_seed_first() {
    assert_eq!(generator_password("abc", 5), Err(PasswordError::SeedTooShort));
}

#[test]
fn generator_password_counts_seed_characters() {
    // Two characters, six bytes.
    assert_eq!(generator_password("\u{65e5}\u{672c}", 8), Err(PasswordError::SeedTooShort));
    assert!(generator_password("\u{65e5}\u{672c}\u{8a9e}\u{5b57}", 8).is_ok());
}

#[test]
fn generator_password_accepts_the_smallest_input() {
    let password = generator_password("abcd", 6).unwrap();
    assert_eq!(password.chars().count(), 6);
}

#[test]
fn generator_password_cut_is_exact() {
    // digest("wechat") = 2215 = 17 * 128 + 39, so the table adds entries 39 and 17.
    let mut text = String::new();
    text.push(alphabet_char(39));
    text.push(alphabet_char(17));
    text.push_str("wechat");
    let encoded = build_password(String::new(), &text);
    assert_eq!(encoded.len(), 12);
    let password = generator_password("wechat", 10).unwrap();
    assert_eq!(password, encoded[..10]);
    assert_eq!(generator_password("wechat", 12).unwrap(), encoded);
}

#[test]
fn generator_password_cut_is_repeatable() {
    let first = generator_password("wechat", 10).unwrap();
    let second = generator_password("wechat", 10).unwrap();
    assert_eq!(first, second);
}

#[test]
fn generator_password_known_value() {
    // digest 2215 picks 'y' and 'I'; "yIwechat" in base64.
    assert_eq!(alphabet_char(39), 'y');
    assert_eq!(alphabet_char(17), 'I');
    assert_eq!(generator_password("wechat", 12).unwrap(), "eUl3ZWNoYXQ=");
    assert_eq!(generator_password("wechat", 10).unwrap(), "eUl3ZWNoYX");
    assert_eq!(generator_password("abcdefg", 12).unwrap(), "YnphYmNkZWZn");
    assert_eq!(generator_password("abcd", 8).unwrap(), "SEphYmNk");
}

#[test]
fn generator_password_padding_is_from_the_table() {
    let password = generator_password("wechat", 15).unwrap();
    assert_eq!(password.chars().count(), 15);
    assert!(password.starts_with(&generator_password("wechat", 12).unwrap()));
    assert!(password.chars().skip(12).all(|c| CRYPTO.contains(c)));
}

#[test]
fn generator_password_text_is_base64_or_table() {
    for length in [6, 10, 12, 15, 40] {
        let password = generator_password("abcdefg", length).unwrap();
        assert_eq!(password.len(), length);
        assert!(password.chars().all(|c| is_base64_symbol(c) || CRYPTO.contains(c)));
    }
}

#[test]
fn fits_limits_accepts_ordinary_seeds() {
    assert!(fits_limits(""));
    assert!(fits_limits("wechat"));
    assert!(fits_limits("\u{65e5}\u{672c}\u{8a9e}\u{5b57}"));
}

#[test]
fn error_messages() {
    assert_eq!(
        PasswordError::SeedTooShort.message(),
        "seed length is too short! please try again!"
    );
    assert_eq!(
        PasswordError::LengthTooShort.message(),
        "password length is too short! please try again!"
    );
}

#[test]
fn generator_password_length_holds_for_many_inputs() {
    let seeds = [
        "abcd",
        "wechat",
        "abcdefg",
        "a longer seed with spaces",
        "\u{65e5}\u{672c}\u{8a9e}\u{5b57}",
    ];
    for seed in seeds {
        for length in [6, 7, 8, 11, 12, 13, 16, 31, 64, 100] {
            assert!(fits_limits(seed));
            let password = generator_password(seed, length).unwrap();
            assert_eq!(password.chars().count(), length);
            assert_eq!(password.len(), length);
        }
    }
}

#[test]
fn generator_password_of_zero_digest_seed() {
    // Four NUL characters have digest 0, so the table adds nothing.
    let seed = "\0\0\0\0";
    assert_eq!(seed_hash(seed), 0);
    assert_eq!(map_digest(0), "");
    assert_eq!(generator_password(seed, 8).unwrap(), "AAAAAA==");
}

#[test]
fn checked_generator_password_agrees_within_limits() {
    assert_eq!(
        checked_generator_password("wechat", 12),
        Some(Ok(String::from("eUl3ZWNoYXQ=")))
    );
    assert_eq!(
        checked_generator_password("wechat", 10),
        Some(generator_password("wechat", 10))
    );
    assert_eq!(checked_generator_password("", 8), Some(Err(PasswordError::SeedTooShort)));
    assert_eq!(checked_generator_password("abcd", 5), Some(Err(PasswordError::LengthTooShort)));
    let padded = checked_generator_password("wechat", 15).unwrap().unwrap();
    assert_eq!(padded.len(), 15);
}

#[test]
fn checked_generator_password_refuses_beyond_limits() {
    let seed: String = std::iter::repeat('\u{10ffff}').take(6_000_000).collect();
    assert_eq!(checked_generator_password(&seed, 8), None);
    // Validation comes first: a length that is too short is reported as such.
    assert_eq!(checked_generator_password(&seed, 5), Some(Err(PasswordError::LengthTooShort)));
}
