use shuffle_core::generate_password;
use shuffle_core::PasswordConfig;

fn all_categories(config: PasswordConfig) -> PasswordConfig {
    config
        .with_lowercase(true)
        .with_uppercase(true)
        .with_digits(true)
        .with_braces(true)
        .with_punctuation(true)
        .with_quotes(true)
        .with_dashes(true)
        .with_math(true)
        .with_logograms(true)
}

const SYMBOLS: &str = "()[]{}.,:;\"'-/\\_|!*+<=>?#$%&@^`~";

#[test]
fn excluded_characters_never_appear() {
    let config = PasswordConfig::new(32)
        .unwrap()
        .excluded("aeiouAEIOU13579".to_string());
    for _ in 0..10_000 {
        let password = generate_password(&config);
        assert!(!password.chars().any(|c| "aeiouAEIOU13579".contains(c)));
    }
}

#[test]
fn included_characters_are_represented() {
    let config = PasswordConfig::new(12)
        .unwrap()
        .included("éßñ".to_string());
    for _ in 0..1_000 {
        let password = generate_password(&config);
        assert!(password.chars().any(|c| "éßñ".contains(c)));
    }
}

#[test]
fn first_character_is_never_a_symbol_when_letters_are_enabled() {
    let config = PasswordConfig::new(16).unwrap().with_logograms(true).with_math(true);
    for _ in 0..10_000 {
        let password = generate_password(&config);
        let first = password.chars().next().unwrap();
        assert!(!SYMBOLS.contains(first));
    }
}

#[test]
fn alphanumeric_24_long() {
    let config = PasswordConfig::new(24).unwrap();
    for _ in 0..100 {
        let password = generate_password(&config);
        assert_eq!(password.chars().count(), 24);
        assert!(password.chars().all(|c| c.is_ascii_alphanumeric()));
    }
}

#[test]
fn digits_only_20_long() {
    let config = PasswordConfig::new(20)
        .unwrap()
        .with_lowercase(false)
        .with_uppercase(false);
    for _ in 0..100 {
        let password = generate_password(&config);
        assert_eq!(password.chars().count(), 20);
        assert!(password.chars().all(|c| c.is_ascii_digit()));
    }
}

#[test]
fn all_categories_with_exclusions_64_long() {
    let config = all_categories(PasswordConfig::new(64).unwrap()).excluded("0s%m8".to_string());
    for _ in 0..10_000 {
        let password = generate_password(&config);
        assert_eq!(password.chars().count(), 64);
        assert!(!password.chars().any(|c| "0s%m8".contains(c)));
    }
}

#[test]
fn every_enabled_category_is_represented_when_length_permits() {
    let config = all_categories(PasswordConfig::new(64).unwrap());
    let password = generate_password(&config);
    assert!(password.chars().any(|c| c.is_ascii_lowercase()));
    assert!(password.chars().any(|c| c.is_ascii_uppercase()));
    assert!(password.chars().any(|c| c.is_ascii_digit()));
    assert!(password.chars().any(|c| "()[]{}".contains(c)));
    assert!(password.chars().any(|c| ".,:;".contains(c)));
    assert!(password.chars().any(|c| "\"'".contains(c)));
    assert!(password.chars().any(|c| "-/\\_|".contains(c)));
    assert!(password.chars().any(|c| "!*+<=>?".contains(c)));
    assert!(password.chars().any(|c| "#$%&@^`~".contains(c)));
}

#[test]
fn seeding_overshoot_keeps_every_source() {
    // One character of length asked for, but three enabled categories and a
    // forced inclusion: seeding does not truncate.
    let config = PasswordConfig::new(1).unwrap().included("é".to_string());
    let password = generate_password(&config);
    assert_eq!(password.chars().count(), 4);
    assert!(password.contains('é'));
}
