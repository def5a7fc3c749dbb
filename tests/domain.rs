use regex::Regex;
use zero2prod::configuration::Environment;
use zero2prod::domain::subscription_token::token_regex_anchored;
use zero2prod::domain::{
    token_regex, NewSubscriber, SubscriberEmail, SubscriberName, SubscriptionStatus,
    SubscriptionToken,
};

#[test]
fn subscriber_email_empty_string_is_rejected() {
    let email = "".to_string();
    assert!(SubscriberEmail::parse(email).is_err());
}

#[test]
fn email_missing_at_symbol_is_rejected() {
    let email = "imie.nazwiskoexample.com".to_string();
    assert!(SubscriberEmail::parse(email).is_err());
}

#[test]
fn email_missing_subject_is_rejected() {
    let email = "@xample.com".to_string();
    assert!(SubscriberEmail::parse(email).is_err());
}

#[test]
fn valid_emails_are_parsed_successfully() {
    for email in ["imie.nazwisko@example.com", "jane@example.com", "a.b-c@mail.example.org"] {
        let parsed = SubscriberEmail::parse(email.to_string()).expect("a valid email");
        assert_eq!(parsed.as_ref(), email);
    }
}

#[test]
fn invalid_email_error_names_the_address() {
    match SubscriberEmail::parse("definitely-not-an-email".to_string()) {
        Err(m) => assert_eq!(m, "`definitely-not-an-email` email has invalid format"),
        Ok(_) => panic!("accepted an invalid email"),
    }
}

#[test]
fn a_valid_name_is_parsed_successfully() {
    let name = "Imię Nazwisko".to_string();
    let parsed = SubscriberName::parse(name).expect("a valid name");
    assert_eq!(parsed.as_ref(), "Imię Nazwisko");
}

#[test]
fn subscriber_name_empty_string_is_rejected() {
    let name = "".to_string();
    assert!(SubscriberName::parse(name).is_err());
}

#[test]
fn whitespace_only_names_are_rejected() {
    let name = " ".repeat(10);
    assert!(SubscriberName::parse(name).is_err());
}

#[test]
fn unicode_whitespace_only_names_are_rejected() {
    let name = "\u{3000}\t\u{2003}\n".to_string();
    match SubscriberName::parse(name.clone()) {
        Err(m) => assert_eq!(
            m,
            format!("Subscriber name is empty or contains whitespace only: `{name}`")
        ),
        Ok(_) => panic!("accepted a blank name"),
    }
}

#[test]
fn a_256_grapheme_long_name_is_valid() {
    let name = "ę".repeat(256);
    assert!(SubscriberName::parse(name).is_ok());
}

#[test]
fn a_name_longer_than_256_graphemes_is_rejected() {
    let name = "ę".repeat(257);
    assert!(SubscriberName::parse(name).is_err());
}

#[test]
fn graphemes_not_characters_are_counted() {
    // each "e" followed by a combining acute accent is one grapheme of two characters
    let name = "e\u{301}".repeat(256);
    assert!(SubscriberName::parse(name).is_ok());
    let name = "e\u{301}".repeat(257);
    match SubscriberName::parse(name.clone()) {
        Err(m) => assert_eq!(m, format!("`{name}` is longer than 256 graphemes")),
        Ok(_) => panic!("accepted a long name"),
    }
}

#[test]
fn names_containing_invalid_characters_are_rejected() {
    for name in ['<', '>', '\'', '"', '\\', '(', ')', '{', '}', '/'] {
        let name = name.to_string();
        assert!(SubscriberName::parse(name).is_err());
    }
}

#[test]
fn forbidden_character_error_lists_the_characters() {
    match SubscriberName::parse("Jane (Doe)".to_string()) {
        Err(m) => assert_eq!(
            m,
            "`Jane (Doe)` contains at least one of forbidden characters: <>'\"\\(){}/"
        ),
        Ok(_) => panic!("accepted a forbidden character"),
    }
}

#[test]
fn new_subscriber_reports_the_email_error_first() {
    match NewSubscriber::try_from("not-an-email".to_string(), "".to_string()) {
        Err(m) => assert_eq!(m, "`not-an-email` email has invalid format"),
        Ok(_) => panic!("accepted an invalid request"),
    }
    let ok = NewSubscriber::try_from("jane@example.com".to_string(), "Jane Doe".to_string())
        .expect("a valid request");
    assert_eq!(ok.email.as_ref(), "jane@example.com");
    assert_eq!(ok.name.as_ref(), "Jane Doe");
}

#[test]
fn subscription_token_empty_string_is_rejected() {
    let token = "".to_string();
    assert!(SubscriptionToken::parse(token).is_err());
}

#[test]
fn generated_tokens_are_valid() {
    let pattern = Regex::new(&token_regex_anchored()).unwrap();
    for _ in 0..100 {
        let token = SubscriptionToken::generate();
        let text = token.expose_secret().clone();
        assert_eq!(text.len(), 25);
        assert!(pattern.is_match(&text));
        let parsed = SubscriptionToken::parse(text.clone()).expect("a generated token");
        assert_eq!(parsed.expose_secret(), &text);
    }
}

#[test]
fn generated_tokens_differ() {
    let a = SubscriptionToken::generate();
    let b = SubscriptionToken::generate();
    assert_ne!(a.expose_secret(), b.expose_secret());
}

#[test]
fn valid_tokens_are_parsed_successfully() {
    for token in ["abcdefghijklmnopqrstuvwxy", "ABCDEFGHIJKLMNOPQRSTUVWXY", "0123456789abcdeFGHIJ01234"] {
        assert!(SubscriptionToken::parse(token.to_string()).is_ok());
    }
}

#[test]
fn tokens_with_non_alphanumeric_characters_are_rejected() {
    for token in ["abcdefghijklmnopqrstuvwx!", "abcdefghijkl mnopqrstuvwx", "ąbcdefghijklmnopqrstuvwxy", "-------------------------"] {
        match SubscriptionToken::parse(token.to_string()) {
            Err(m) => assert_eq!(m, format!("Invalid subscription token: `{token}`")),
            Ok(_) => panic!("accepted `{token}`"),
        }
    }
}

#[test]
fn tokens_with_invalid_length_are_rejected() {
    for n in [1usize, 24, 26, 50] {
        assert!(SubscriptionToken::parse("a".repeat(n)).is_err());
    }
}

#[test]
fn token_regex_is_the_token_pattern() {
    assert_eq!(token_regex(), "[[:alnum:]]{25}");
    assert_eq!(token_regex_anchored(), "^[[:alnum:]]{25}$");
    let link = format!("http://localhost/subscriptions/confirm?subscription_token={}", "a".repeat(25));
    let re = Regex::new(&format!(r"\?subscription_token={}$", token_regex())).unwrap();
    assert!(re.is_match(&link));
}

#[test]
fn subscription_status_round_trips_through_its_name() {
    assert_eq!(SubscriptionStatus::PendingConfirmation.as_str(), "pending_confirmation");
    assert_eq!(SubscriptionStatus::Confirmed.as_str(), "confirmed");
    assert_eq!(SubscriptionStatus::parse("confirmed"), Ok(SubscriptionStatus::Confirmed));
    assert_eq!(
        SubscriptionStatus::parse("pending_confirmation"),
        Ok(SubscriptionStatus::PendingConfirmation)
    );
    assert_eq!(
        SubscriptionStatus::parse("Confirmed"),
        Err("`Confirmed` is not a valid variant of SubscriptionStatus".to_string())
    );
}

#[test]
fn environment_names_are_case_insensitive() {
    assert_eq!(Environment::try_from("LOCAL".to_string()), Ok(Environment::Local));
    assert_eq!(Environment::try_from("Production".to_string()), Ok(Environment::Production));
    assert_eq!(Environment::Local.as_str(), "local");
    assert_eq!(Environment::Production.as_str(), "production");
    assert_eq!(
        Environment::try_from("Staging".to_string()),
        Err("`staging` is not a supported environment. Use either `local` or `production`."
            .to_string())
    );
}

#[test]
fn a_token_is_built_from_its_draws() {
    let draws = b"AbCdEfGhIjKlMnOpQrStUvWx9".to_vec();
    let token = SubscriptionToken::from_alphanumeric(&draws);
    assert_eq!(token.expose_secret(), "AbCdEfGhIjKlMnOpQrStUvWx9");
}
