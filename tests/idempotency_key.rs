use zero2prod::idempotency_key::{IdempotencyKey, KeyError, MAX_KEY_LEN};

#[test]
fn empty_key_is_rejected() {
    let r = IdempotencyKey::parse(String::new());
    assert_eq!(r.unwrap_err(), KeyError::Blank);
}

#[test]
fn whitespace_key_is_rejected() {
    let r = IdempotencyKey::parse(" ".to_string());
    assert_eq!(r.unwrap_err(), KeyError::Blank);
}

#[test]
fn key_of_51_characters_is_rejected() {
    let r = IdempotencyKey::parse("a".repeat(51));
    assert_eq!(r.unwrap_err(), KeyError::TooLong);
}

#[test]
fn key_with_slash_is_rejected() {
    let r = IdempotencyKey::parse("abc/def".to_string());
    assert_eq!(r.unwrap_err(), KeyError::ForbiddenCharacter);
}

#[test]
fn key_of_50_alphanumeric_characters_is_accepted() {
    let raw = "aB3".repeat(16) + "z9";
    assert_eq!(raw.chars().count(), MAX_KEY_LEN);
    let k = IdempotencyKey::parse(raw.clone()).unwrap();
    assert_eq!(k.as_str(), raw);
    assert_eq!(k.to_text(), raw);
}

#[test]
fn key_with_allowed_punctuation_is_accepted() {
    let k = IdempotencyKey::parse("req-1_a.b".to_string()).unwrap();
    assert_eq!(k.as_string(), "req-1_a.b");
}

#[test]
fn key_with_inner_space_is_rejected() {
    let r = IdempotencyKey::parse("a b".to_string());
    assert_eq!(r.unwrap_err(), KeyError::ForbiddenCharacter);
}

#[test]
fn key_with_non_ascii_letter_is_rejected() {
    let r = IdempotencyKey::parse("clé".to_string());
    assert_eq!(r.unwrap_err(), KeyError::ForbiddenCharacter);
}
