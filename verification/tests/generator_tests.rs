use shuffle_core::generate_password;
use shuffle_core::PasswordConfig;

#[test]
fn test_generate_password() {
    let config = PasswordConfig::new(16).unwrap();
    let password = generate_password(&config);

    assert_eq!(password.len(), 16);
}

#[test]
fn test_generate_password_with_multibyte_unicode() {
    let config = PasswordConfig {
        length: 16,
        included: "é".to_string(),
        ..Default::default()
    };
    let password = generate_password(&config);

    assert!(password.contains('é'));
}

#[test]
fn test_generate_password_with_included() {
    let config = PasswordConfig::new(16)
        .unwrap()
        .with_digits(true)
        .included("é".to_string());
    let password = generate_password(&config);

    assert!(password.contains('é'));
}

#[test]
fn test_generate_password_with_symbols() {
    let config = PasswordConfig::new(16).unwrap().with_logograms(true);
    let password = generate_password(&config);

    assert_eq!(password.len(), 16);
}

#[test]
fn generated_character_count_matches_length() {
    for length in [3usize, 8, 24, 100] {
        let config = PasswordConfig::new(length).unwrap();
        let password = generate_password(&config);
        assert_eq!(password.chars().count(), length);
    }
}

#[test]
fn empty_effective_charset_falls_back_to_filler() {
    let config = PasswordConfig::new(10)
        .unwrap()
        .with_lowercase(false)
        .with_uppercase(false)
        .excluded("0123456789".to_string());
    let password = generate_password(&config);
    assert_eq!(password, "~~~~~~~~~~");
}

#[test]
fn consecutive_generations_differ() {
    let config = PasswordConfig::new(24).unwrap();
    let first = generate_password(&config);
    let second = generate_password(&config);
    assert_ne!(first, second);
}
