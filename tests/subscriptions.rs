use zero2prod::login::{flash_cookie_name, flash_messages_html, login_form};
use zero2prod::subscriptions::{
    confirmation_email, confirmation_subject, error_chain_fmt, generate_subscription_token,
    is_valid_name, name_is_valid_given, FormData, NewSubscriber, StoreTokenError, SubscribeError,
    SubscriberName,
};

#[test]
fn a_256_grapheme_long_name_is_valid() {
    assert!(is_valid_name(&"ё".repeat(256)));
}

#[test]
fn a_name_longer_than_256_graphemes_is_rejected() {
    assert!(!is_valid_name(&"a".repeat(257)));
}

#[test]
fn combining_marks_count_as_one_grapheme() {
    assert!(is_valid_name(&"a\u{30a}".repeat(256)));
}

#[test]
fn whitespace_only_names_are_rejected() {
    assert!(!is_valid_name(" "));
    assert!(!is_valid_name(""));
    assert!(!is_valid_name("\u{3000}\t"));
}

#[test]
fn names_with_forbidden_characters_are_rejected() {
    for name in &["/", "(", ")", "\"", "<", ">", "\\", "{", "}"] {
        assert!(!is_valid_name(&format!("Ursula{}", name)));
    }
}

#[test]
fn a_plain_name_is_valid() {
    assert!(is_valid_name("Ursula Le Guin"));
}

#[test]
fn grapheme_count_is_taken_as_given() {
    assert!(name_is_valid_given("Ursula", 256));
    assert!(!name_is_valid_given("Ursula", 257));
}

#[test]
fn invalid_name_message() {
    let e = SubscriberName::parse("a/b".to_string()).unwrap_err();
    assert_eq!(e, "a/b is not a valid subscriber name.");
    let n = SubscriberName::parse("Ursula".to_string()).unwrap();
    assert_eq!(n.as_str(), "Ursula");
}

#[test]
fn new_subscriber_from_form() {
    let ok = NewSubscriber::try_from(FormData {
        email: "u@example.com".to_string(),
        name: "Ursula".to_string(),
    })
    .unwrap();
    assert_eq!(ok.email, "u@example.com");
    assert_eq!(ok.name.as_str(), "Ursula");
    let err = NewSubscriber::try_from(FormData { email: "u@example.com".to_string(), name: " ".to_string() });
    assert_eq!(err.unwrap_err(), "  is not a valid subscriber name.");
}

#[test]
fn error_chain_lists_causes_in_order() {
    let text = error_chain_fmt("top", &vec!["first".to_string(), "second".to_string()]);
    assert_eq!(text, "top\n\nCaused by:\n\tfirst\nCaused by:\n\tsecond\n");
    assert_eq!(error_chain_fmt("alone", &Vec::new()), "alone\n\n");
}

#[test]
fn subscribe_error_status_codes() {
    assert_eq!(SubscribeError::ValidationError("bad".to_string()).status_code(), 400);
    assert_eq!(SubscribeError::UnexpectedError("db".to_string()).status_code(), 500);
}

#[test]
fn store_token_error_message() {
    let e = StoreTokenError { cause: "connection reset".to_string() };
    assert_eq!(
        e.message(),
        "A database error was encountered while trying to store a subscription token."
    );
}

#[test]
fn subscription_token_is_25_alphanumeric_characters() {
    let t = generate_subscription_token();
    assert_eq!(t.len(), 25);
    assert!(t.chars().all(|c| c.is_ascii_alphanumeric()));
    assert_ne!(t, generate_subscription_token());
}

#[test]
fn confirmation_email_carries_the_link() {
    let e = confirmation_email("http://127.0.0.1", "abc");
    let link = "http://127.0.0.1/subscriptions/confirm?subscription_token=abc";
    assert_eq!(e.link, link);
    assert_eq!(
        e.plain_body,
        format!("Welcome to our newsletter!\nVisit {} to confirm your subscription.", link)
    );
    assert_eq!(
        e.html_body,
        format!(
            "Welcome to our newsletter!<br />Click <a href=\"{}\">here</a> to confirm your subscription.",
            link
        )
    );
    assert_eq!(confirmation_subject(), "Welcome!");
}

#[test]
fn login_page_shows_flash_messages() {
    let msgs = vec!["Authentication failed".to_string(), "Try again".to_string()];
    assert_eq!(
        flash_messages_html(&msgs),
        "<p><i>Authentication failed</i></p>\n<p><i>Try again</i></p>\n"
    );
    let page = login_form(&msgs);
    assert!(page.starts_with("<!DOCTYPE html>"));
    assert!(page.contains("<p><i>Try again</i></p>\n"));
    assert!(page.contains("<form action=\"/login\" method=\"post\">"));
    assert!(page.ends_with("</html>"));
    assert_eq!(flash_cookie_name(), "_flash");
}

#[test]
fn login_page_without_messages() {
    let page = login_form(&Vec::new());
    assert!(!page.contains("<p><i>"));
}
