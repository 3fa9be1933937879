use shuffle_core::charsets::default_charsets;
use shuffle_core::cli::Cli;
use shuffle_core::getversion;
use shuffle_core::password_generator::ComplexPasswordGenerator;

#[test]
fn version_string_is_reported() {
    assert_eq!(getversion(), "0.1.0");
}

#[test]
fn default_charsets_hold_the_documented_characters() {
    let cs = default_charsets();
    assert_eq!(cs.lowercase, "abcdefghijklmnopqrstuvwxyz");
    assert_eq!(cs.uppercase, "ABCDEFGHIJKLMNOPQRSTUVWXYZ");
    assert_eq!(cs.digits, "0123456789");
    assert_eq!(cs.braces, "()[]{}");
    assert_eq!(cs.punctuation, ".,:;");
    assert_eq!(cs.quotes, "\"'");
    assert_eq!(cs.dashes, "-/\\_|");
    assert_eq!(cs.math, "!*+<=>?");
    assert_eq!(cs.logograms, "#$%&@^`~");
}

#[test]
fn cli_getters_hand_the_fields_back() {
    let cli = Cli {
        uppercase: true,
        lowercase: false,
        digits: true,
        braces: false,
        punctuation: false,
        quotes: false,
        dashes: false,
        math: false,
        logograms: false,
        length: 42,
        output: Some("out.txt".to_string()),
        exclude: Some("abc".to_string()),
        included: None,
    };
    assert_eq!(cli.length(), 42);
    assert_eq!(cli.output(), Some("out.txt".to_string()));
    assert_eq!(cli.exclude(), Some("abc".to_string()));
    assert_eq!(cli.included(), None);
}

#[test]
fn complex_generator_produces_requested_length() {
    let generator = ComplexPasswordGenerator::new(true, true, true, false);
    let password = generator.generate_password(20);
    assert_eq!(password.chars().count(), 20);
    assert!(password.chars().all(|c| c.is_ascii_alphanumeric()));
}

#[test]
fn complex_generator_digits_only() {
    let generator = ComplexPasswordGenerator::new(false, false, true, false);
    let password = generator.generate_password(12);
    assert_eq!(password.chars().count(), 12);
    assert!(password.chars().all(|c| c.is_ascii_digit()));
}
