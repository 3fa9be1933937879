use shuffle_core::PasswordConfig;
use shuffle_core::PasswordConfigError;

#[test]
fn zero_length_is_rejected() {
    assert!(matches!(
        PasswordConfig::new(0),
        Err(PasswordConfigError::ZeroLength)
    ));
}

#[test]
fn length_shorter_than_enabled_sets_is_rejected() {
    let config = PasswordConfig::new(2).unwrap();
    let result = config.validate();
    assert!(matches!(
        result,
        Err(PasswordConfigError::LengthTooShortForSets {
            length: 2,
            sets_count: 3,
        })
    ));
}

#[test]
fn no_enabled_sets_is_rejected() {
    let config = PasswordConfig::new(20)
        .unwrap()
        .with_lowercase(false)
        .with_uppercase(false)
        .with_digits(false);
    let result = config.validate();
    assert!(matches!(
        result,
        Err(PasswordConfigError::NoCharacterSetsEnabled)
    ));
}

#[test]
fn no_enabled_sets_is_rejected_despite_included() {
    let config = PasswordConfig::new(20)
        .unwrap()
        .with_lowercase(false)
        .with_uppercase(false)
        .with_digits(false)
        .included("xyz".to_string());
    let result = config.validate();
    assert!(matches!(
        result,
        Err(PasswordConfigError::NoCharacterSetsEnabled)
    ));
}

#[test]
fn default_configuration_is_valid() {
    let config = PasswordConfig::new(10).unwrap();
    assert!(config.validate().is_ok());
    assert_eq!(config.length, 10);
    assert!(config.include_lowercase);
    assert!(config.include_uppercase);
    assert!(config.include_digits);
    assert!(!config.include_braces);
    assert!(!config.include_punctuation);
    assert!(!config.include_quotes);
    assert!(!config.include_dashes);
    assert!(!config.include_math);
    assert!(!config.include_logograms);
    assert_eq!(config.excluded, "");
    assert_eq!(config.included, "");
}

#[test]
fn builders_set_their_flag_and_nothing_else() {
    let config = PasswordConfig::new(12)
        .unwrap()
        .with_braces(true)
        .with_punctuation(true)
        .with_quotes(true)
        .with_dashes(true)
        .with_math(true)
        .with_logograms(true)
        .with_lowercase(false)
        .excluded("ab".to_string())
        .included("cd".to_string());
    assert_eq!(config.length, 12);
    assert!(!config.include_lowercase);
    assert!(config.include_uppercase);
    assert!(config.include_digits);
    assert!(config.include_braces);
    assert!(config.include_punctuation);
    assert!(config.include_quotes);
    assert!(config.include_dashes);
    assert!(config.include_math);
    assert!(config.include_logograms);
    assert_eq!(config.excluded, "ab");
    assert_eq!(config.included, "cd");
}

#[test]
fn length_equal_to_enabled_sets_is_accepted() {
    let config = PasswordConfig::new(3).unwrap();
    assert!(config.validate().is_ok());
}
