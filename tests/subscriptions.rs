use zero2prod::domain::{NewSubscriber, SubscriptionStatus, SubscriptionToken};
use zero2prod::store::Store;
use zero2prod::subscriptions::{confirmation_link, SubscribeError};
use zero2prod::subscriptions_confirm::SubscriptionConfirmationError;

fn subscribe(store: &mut Store, email: &str, name: &str) -> String {
    let c = store
        .subscribe(email.to_string(), name.to_string())
        .unwrap_or_else(|e| panic!("subscribe failed: {}", e.message()));
    c.token.expose_secret().clone()
}

fn tokens_of(store: &Store, id: u128) -> usize {
    store.tokens().iter().filter(|t| t.subscriber_id == id).count()
}

#[test]
fn subscribe_persists_the_new_subscriber() {
    let mut store = Store::new();
    let c = store
        .subscribe("imie.nazwisko@example.com".to_string(), "Imię Nazwisko".to_string())
        .ok()
        .unwrap();
    assert_eq!(store.subscriptions().len(), 1);
    let row = &store.subscriptions()[0];
    assert_eq!(row.name, "Imię Nazwisko");
    assert_eq!(row.email, "imie.nazwisko@example.com");
    assert_eq!(row.status.as_str(), "pending_confirmation");
    assert_eq!(row.id, c.subscriber_id);
    assert_eq!(c.email.as_ref(), "imie.nazwisko@example.com");
    assert_eq!(store.tokens().len(), 1);
    assert_eq!(&store.tokens()[0].token, c.token.expose_secret());
}

#[test]
fn subscribe_returns_a_400_when_fields_are_present_but_empty() {
    let cases = [
        ("Imię Nazwisko", "", "empty email"),
        ("Imię Nazwisko", "definitely-not-an-email", "invalid email"),
        ("", "imie.nazwisko@example.com", "empty name"),
        ("", "", "empty both name and email"),
    ];
    for (name, email, description) in cases {
        let mut store = Store::new();
        match store.subscribe(email.to_string(), name.to_string()) {
            Err(e) => {
                assert_eq!(e.status_code(), 400, "{description}");
                assert!(matches!(e, SubscribeError::ValidationError(_)));
            }
            Ok(_) => panic!("accepted a request with {description}"),
        }
        assert!(store.subscriptions().is_empty());
        assert!(store.tokens().is_empty());
    }
}

#[test]
fn subscribe_sends_a_confirmation_email_on_repeated_calls() {
    let mut store = Store::new();
    for i in 0..10 {
        let email = format!("imie.nazwisko.{i}@example.com");
        let name = format!("Imię Nazwisko {i}");
        let c = store.subscribe(email.clone(), name).ok().expect("a new subscription");
        assert_eq!(c.email.as_ref(), email);
    }
    assert_eq!(store.subscriptions().len(), 10);
    assert_eq!(store.tokens().len(), 10);
}

#[test]
fn subscribe_sends_a_confirmation_email_with_a_link() {
    let mut store = Store::new();
    let c = store
        .subscribe("imie.nazwisko@example.com".to_string(), "Imię Nazwisko".to_string())
        .ok()
        .unwrap();
    let link = confirmation_link("http://localhost:8000/", &c.token);
    assert_eq!(
        link,
        format!(
            "http://localhost:8000/subscriptions/confirm?subscription_token={}",
            c.token.expose_secret()
        )
    );
}

#[test]
fn resubscribing_while_pending_issues_a_fresh_token() {
    let mut store = Store::new();
    let first = store
        .subscribe("jane@example.com".to_string(), "Jane Doe".to_string())
        .ok()
        .unwrap();
    let second = store
        .subscribe("jane@example.com".to_string(), "Jane Doe".to_string())
        .ok()
        .unwrap();
    assert_eq!(first.subscriber_id, second.subscriber_id);
    assert_ne!(first.token.expose_secret(), second.token.expose_secret());
    assert_eq!(store.subscriptions().len(), 1);
    assert_eq!(tokens_of(&store, first.subscriber_id), 2);
    assert!(SubscriptionToken::parse(second.token.expose_secret().clone()).is_ok());
}

#[test]
fn subscribe_returns_a_422_when_email_is_already_confirmed() {
    let mut store = Store::new();
    let token = subscribe(&mut store, "imie.nazwisko@example.com", "Imię Nazwisko");
    assert!(store.confirm(token).is_ok());
    let before = store.tokens().len();
    match store.subscribe("imie.nazwisko@example.com".to_string(), "Imię Nazwisko".to_string()) {
        Err(e) => {
            assert_eq!(e.status_code(), 422);
            assert_eq!(e.message(), "Subscription has been confirmed already");
        }
        Ok(_) => panic!("a confirmed subscriber subscribed again"),
    }
    assert_eq!(store.tokens().len(), before);
}

#[test]
fn subscribe_with_a_taken_token_changes_nothing() {
    let mut store = Store::new();
    let token = SubscriptionToken::parse("a".repeat(25)).unwrap();
    let jane = NewSubscriber::try_from("jane@example.com".to_string(), "Jane".to_string()).unwrap();
    let john = NewSubscriber::try_from("john@example.com".to_string(), "John".to_string()).unwrap();
    assert_eq!(store.subscribe_with(&jane, 1, &token, 10).ok(), Some(1));
    match store.subscribe_with(&john, 2, &token, 11) {
        Err(e) => assert_eq!(e.status_code(), 500),
        Ok(_) => panic!("stored a token twice"),
    }
    assert_eq!(store.subscriptions().len(), 1);
    assert_eq!(store.tokens().len(), 1);
    let other = SubscriptionToken::parse("b".repeat(25)).unwrap();
    match store.subscribe_with(&john, 1, &other, 12) {
        Err(e) => assert_eq!(e.status_code(), 500),
        Ok(_) => panic!("reused a subscriber id"),
    }
    assert_eq!(store.subscriptions().len(), 1);
    assert_eq!(store.subscribe_with(&john, 2, &other, 12).ok(), Some(2));
    assert_eq!(store.subscriptions()[1].subscribed_at, 12);
}

#[test]
fn confirmation_with_empty_token_is_rejected_with_a_400() {
    let mut store = Store::new();
    let e = store.confirm(String::new()).unwrap_err();
    assert_eq!(e.status_code(), 400);
}

#[test]
fn confirmation_with_invalid_token_is_rejected_with_a_400() {
    let mut store = Store::new();
    let e = store.confirm("invalid-token".to_string()).unwrap_err();
    assert_eq!(e.status_code(), 400);
}

#[test]
fn confirmation_with_invalid_token_returns_validation_error_description() {
    let mut store = Store::new();
    let e = store.confirm("invalid-token".to_string()).unwrap_err();
    let body = e.message();
    assert!(body.contains("invalid") || body.contains("Invalid"), "'{body}' names no error");
    assert!(matches!(e, SubscriptionConfirmationError::InvalidTokenFormat(_)));
}

#[test]
fn confirmation_with_unknown_token_is_rejected_with_a_401() {
    let mut store = Store::new();
    subscribe(&mut store, "jane@example.com", "Jane Doe");
    let e = store.confirm("z".repeat(25)).unwrap_err();
    assert_eq!(e.status_code(), 401);
    assert_eq!(e.message(), "Token is not authorized");
    assert_eq!(store.subscriptions()[0].status, SubscriptionStatus::PendingConfirmation);
}

#[test]
fn clicking_on_the_confirmation_link_confirms_a_subscriber() {
    let mut store = Store::new();
    let token = subscribe(&mut store, "imie.nazwisko@example.com", "Imię Nazwisko");
    assert!(store.confirm(token).is_ok());
    let row = &store.subscriptions()[0];
    assert_eq!(row.email, "imie.nazwisko@example.com");
    assert_eq!(row.name, "Imię Nazwisko");
    assert_eq!(row.status.as_str(), "confirmed");
}

#[test]
fn subsequent_clicks_on_the_confirmation_link_are_rejected_with_a_401() {
    let mut store = Store::new();
    let token = subscribe(&mut store, "imie.nazwisko@example.com", "Imię Nazwisko");
    assert!(store.confirm(token.clone()).is_ok());
    let e = store.confirm(token).unwrap_err();
    assert_eq!(e.status_code(), 401);
}

#[test]
fn clicking_on_the_confirmation_link_deletes_subscription_tokens() {
    let mut store = Store::new();
    let token = subscribe(&mut store, "imie.nazwisko@example.com", "Imię Nazwisko");
    assert!(store.confirm(token).is_ok());
    assert!(store.tokens().is_empty());
}

#[test]
fn confirming_with_either_of_two_tokens_deletes_both() {
    for pick_first in [true, false] {
        let mut store = Store::new();
        let other = subscribe(&mut store, "john@example.com", "John");
        let t1 = subscribe(&mut store, "jane@example.com", "Jane Doe");
        let t2 = subscribe(&mut store, "jane@example.com", "Jane Doe");
        let jane = store.subscriptions()[1].id;
        assert_eq!(tokens_of(&store, jane), 2);
        let used = if pick_first { t1.clone() } else { t2.clone() };
        assert!(store.confirm(used).is_ok());
        assert_eq!(tokens_of(&store, jane), 0);
        assert_eq!(store.subscriptions()[1].status, SubscriptionStatus::Confirmed);
        assert_eq!(store.subscriptions()[0].status, SubscriptionStatus::PendingConfirmation);
        assert_eq!(store.tokens().len(), 1);
        assert_eq!(store.tokens()[0].token, other);
        assert_eq!(store.confirm(t1).unwrap_err().status_code(), 401);
        assert_eq!(store.confirm(t2).unwrap_err().status_code(), 401);
    }
}
