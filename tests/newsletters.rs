use zero2prod::idempotency::{IdempotencyKey, NextAction};
use zero2prod::issue_delivery_worker::{next_delay_ms, Delivery, ExecutionOutcome};
use zero2prod::newsletters::NewsletterForm;
use zero2prod::store::{HeaderPair, SavedResponse, Store};
use zero2prod::subscriptions::confirmation_link;
use zero2prod::utils::HttpError;

fn form(key: &str) -> NewsletterForm {
    NewsletterForm {
        title: "Newsletter Title".to_string(),
        html_content: "<p>Newsletter body as html.</p>".to_string(),
        text_content: "Newsletter body as text.".to_string(),
        idempotency_key: key.to_string(),
    }
}

fn confirmed(store: &mut Store, email: &str, name: &str) {
    let c = store.subscribe(email.to_string(), name.to_string()).ok().unwrap();
    assert!(store.confirm(c.token.expose_secret().clone()).is_ok());
}

fn pending(store: &mut Store, email: &str, name: &str) {
    assert!(store.subscribe(email.to_string(), name.to_string()).is_ok());
}

fn status_of(r: &Result<SavedResponse, HttpError<String>>) -> u16 {
    match r {
        Ok(saved) => saved.status_code,
        Err(e) => e.status_code(),
    }
}

#[test]
fn newsletters_are_delivered_to_confirmed_subscribers() {
    let mut store = Store::new();
    confirmed(&mut store, "imie.nazwisko@example.com", "Imię Nazwisko");
    let saved = store.publish(7, &form("key-1")).ok().unwrap();
    assert_eq!(saved.status_code, 303);
    assert_eq!(saved.headers.len(), 1);
    assert_eq!(saved.headers[0].name, "location");
    assert_eq!(saved.headers[0].value, b"/admin/newsletters".to_vec());
    assert!(saved.body.is_empty());
    assert_eq!(store.issues().len(), 1);
    assert_eq!(store.delivery_queue().len(), 1);
    assert_eq!(store.delivery_queue()[0].subscriber_email, "imie.nazwisko@example.com");
    assert_eq!(store.delivery_queue()[0].issue_id, store.issues()[0].id);
}

#[test]
fn newsletters_are_not_delivered_to_unconfirmed_subscribers() {
    let mut store = Store::new();
    pending(&mut store, "imie.nazwisko@example.com", "Imię Nazwisko");
    let r = store.publish(7, &form("key-1"));
    assert_eq!(status_of(&r), 303);
    assert_eq!(store.issues().len(), 1);
    assert!(store.delivery_queue().is_empty());
}

#[test]
fn publishing_fans_out_to_confirmed_subscribers_only() {
    let mut store = Store::new();
    confirmed(&mut store, "a@example.com", "A");
    pending(&mut store, "p@example.com", "P");
    confirmed(&mut store, "b@example.com", "B");
    confirmed(&mut store, "c@example.com", "C");
    assert!(store.publish(1, &form("fan-out")).is_ok());
    let issue = store.issues()[0].id;
    let emails: Vec<&str> =
        store.delivery_queue().iter().map(|t| t.subscriber_email.as_str()).collect();
    assert_eq!(emails, vec!["a@example.com", "b@example.com", "c@example.com"]);
    assert!(store.delivery_queue().iter().all(|t| t.issue_id == issue));
}

#[test]
fn newsletters_returns_400_for_invalid_data() {
    let mut store = Store::new();
    for (key, description) in [("", "empty idempotency key"), (&"k".repeat(50)[..], "long key")] {
        let r = store.publish(1, &form(key));
        assert_eq!(status_of(&r), 422, "The API did not fail with 422 when the payload was {description}");
        assert!(matches!(r, Err(HttpError::UnprocessableEntity(_))));
    }
    assert!(store.issues().is_empty());
    assert!(store.ledger().is_empty());
}

#[test]
fn newsletter_creation_is_idempotent() {
    let mut store = Store::new();
    confirmed(&mut store, "imie.nazwisko@example.com", "Imię Nazwisko");
    let first = store.publish(7, &form("same-key")).ok().unwrap();
    let mut other = form("same-key");
    other.title = "Another title".to_string();
    let second = store.publish(7, &other).ok().unwrap();
    assert_eq!(first.status_code, second.status_code);
    assert_eq!(first.body, second.body);
    assert_eq!(first.headers.len(), second.headers.len());
    assert_eq!(first.headers[0].value, second.headers[0].value);
    assert_eq!(store.issues().len(), 1);
    assert_eq!(store.issues()[0].title, "Newsletter Title");
    assert_eq!(store.delivery_queue().len(), 1);
}

#[test]
fn the_same_key_of_another_user_publishes_again() {
    let mut store = Store::new();
    confirmed(&mut store, "jane@example.com", "Jane");
    assert!(store.publish(1, &form("shared")).is_ok());
    assert!(store.publish(2, &form("shared")).is_ok());
    assert_eq!(store.issues().len(), 2);
    assert_eq!(store.delivery_queue().len(), 2);
    assert_eq!(store.ledger().len(), 2);
}

#[test]
fn a_taken_issue_id_rolls_the_publication_back() {
    let mut store = Store::new();
    confirmed(&mut store, "jane@example.com", "Jane");
    assert!(store.publish_newsletter(1, &form("first"), 42, 100).is_ok());
    let r = store.publish_newsletter(1, &form("second"), 42, 101);
    assert_eq!(status_of(&r), 500);
    assert_eq!(store.issues().len(), 1);
    assert_eq!(store.delivery_queue().len(), 1);
    assert_eq!(store.ledger().len(), 1);
    // the key was released, so a retry starts from scratch
    assert!(store.publish_newsletter(1, &form("second"), 43, 102).is_ok());
    assert_eq!(store.issues().len(), 2);
    assert_eq!(store.issues()[1].published_at, 102);
}

#[test]
fn a_reserved_key_without_a_response_is_an_error() {
    let mut store = Store::new();
    let key = IdempotencyKey::parse("in-flight".to_string()).ok().unwrap();
    let reservation = match store.try_processing(&key, 5, 0) {
        Ok(NextAction::StartProcessing(r)) => r,
        _ => panic!("a new key was not reserved"),
    };
    assert!(matches!(store.try_processing(&key, 5, 1), Err(_)));
    assert!(store.get_saved_response(&key, 5).is_none());
    let response = SavedResponse {
        status_code: 200,
        headers: vec![HeaderPair { name: "x-raw".to_string(), value: vec![0xff, 0x00, 0x80] }],
        body: b"done".to_vec(),
    };
    let returned = store.save_response(reservation, response);
    assert_eq!(returned.status_code, 200);
    match store.try_processing(&key, 5, 2) {
        Ok(NextAction::ReturnSavedResponse(saved)) => {
            assert_eq!(saved.status_code, 200);
            assert_eq!(saved.headers[0].name, "x-raw");
            assert_eq!(saved.headers[0].value, vec![0xff, 0x00, 0x80]);
            assert_eq!(saved.body, b"done".to_vec());
        }
        _ => panic!("the saved response was not returned"),
    }
}

#[test]
fn idempotency_keys_are_validated() {
    assert_eq!(
        IdempotencyKey::parse(String::new()).err(),
        Some("The idempotency key cannot be empty".to_string())
    );
    assert_eq!(
        IdempotencyKey::parse("k".repeat(50)).err(),
        Some("The idempotency key must be shorter than 50 characters".to_string())
    );
    assert_eq!(IdempotencyKey::parse("k".repeat(49)).ok().unwrap().as_ref(), "k".repeat(49));
}

fn run_once(store: &mut Store, sent: &mut Vec<String>) -> ExecutionOutcome {
    match store.dequeue_task() {
        None => ExecutionOutcome::EmptyQueue,
        Some(task) => {
            if let Delivery::Send(email) = &task.delivery {
                sent.push(email.recipient.as_ref().to_string());
            }
            store.finish_task(&task)
        }
    }
}

#[test]
fn the_worker_drains_the_queue() {
    let mut store = Store::new();
    for i in 0..5 {
        confirmed(&mut store, &format!("reader{i}@example.com"), &format!("Reader {i}"));
    }
    assert!(store.publish(1, &form("issue")).is_ok());
    assert_eq!(store.delivery_queue().len(), 5);
    let mut sent = Vec::new();
    for _ in 0..5 {
        assert_eq!(run_once(&mut store, &mut sent), ExecutionOutcome::TaskCompleted);
    }
    assert!(store.delivery_queue().is_empty());
    assert_eq!(sent.len(), 5);
    assert_eq!(run_once(&mut store, &mut sent), ExecutionOutcome::EmptyQueue);
    assert_eq!(sent.len(), 5);
}

#[test]
fn the_worker_skips_an_invalid_address() {
    let mut store = Store::new();
    confirmed(&mut store, "jane@example.com", "Jane");
    assert!(store.publish(1, &form("issue")).is_ok());
    let issue = store.issues()[0].id;
    assert!(store.enqueue_task(issue, "not-an-email".to_string()));
    let mut sent = Vec::new();
    assert_eq!(run_once(&mut store, &mut sent), ExecutionOutcome::TaskCompleted);
    assert_eq!(sent, vec!["jane@example.com".to_string()]);
    let task = store.dequeue_task().unwrap();
    assert!(matches!(task.delivery, Delivery::Skip));
    assert_eq!(store.finish_task(&task), ExecutionOutcome::TaskCompleted);
    assert!(store.delivery_queue().is_empty());
    assert_eq!(sent.len(), 1);
}

#[test]
fn tasks_need_a_stored_issue_and_a_new_key() {
    let mut store = Store::new();
    assert!(!store.enqueue_task(99, "jane@example.com".to_string()));
    assert!(store.delivery_queue().is_empty());
    confirmed(&mut store, "jane@example.com", "Jane");
    assert!(store.publish(1, &form("issue")).is_ok());
    let issue = store.issues()[0].id;
    assert!(!store.enqueue_task(issue, "jane@example.com".to_string()));
    assert!(store.enqueue_task(issue, "john@example.com".to_string()));
    assert_eq!(store.delivery_queue().len(), 2);
}

#[test]
fn a_task_in_flight_is_not_handed_out_again() {
    let mut store = Store::new();
    confirmed(&mut store, "a@example.com", "A");
    confirmed(&mut store, "b@example.com", "B");
    assert!(store.publish(1, &form("issue")).is_ok());
    let first = store.dequeue_task().unwrap();
    let second = store.dequeue_task().unwrap();
    assert_eq!(first.subscriber_email, "a@example.com");
    assert_eq!(second.subscriber_email, "b@example.com");
    assert!(store.delivery_queue().iter().all(|t| t.in_flight));
    assert!(store.dequeue_task().is_none());
    store.abandon_task(&first);
    let again = store.dequeue_task().unwrap();
    assert_eq!(again.subscriber_email, "a@example.com");
    store.finish_task(&second);
    store.finish_task(&again);
    assert!(store.delivery_queue().is_empty());
}

#[test]
fn the_worker_loop_backs_off_when_idle() {
    assert_eq!(next_delay_ms(ExecutionOutcome::TaskCompleted), 0);
    assert_eq!(next_delay_ms(ExecutionOutcome::EmptyQueue), 10_000);
}

#[test]
fn subscribe_confirm_publish_and_deliver() {
    let mut store = Store::new();
    let c = store
        .subscribe("jane@example.com".to_string(), "Jane Doe".to_string())
        .ok()
        .expect("subscribing succeeds");
    assert_eq!(c.email.as_ref(), "jane@example.com");
    assert_eq!(store.tokens().len(), 1);
    let link = confirmation_link("http://localhost/", &c.token);
    let token = link.rsplit('=').next().unwrap().to_string();
    assert!(store.confirm(token).is_ok());
    assert_eq!(store.subscriptions()[0].status.as_str(), "confirmed");
    assert!(store.tokens().is_empty());
    assert!(store.publish(1, &form("e2e")).is_ok());
    assert_eq!(store.delivery_queue().len(), 1);
    assert_eq!(store.delivery_queue()[0].subscriber_email, "jane@example.com");
    let task = store.dequeue_task().unwrap();
    match &task.delivery {
        Delivery::Send(email) => {
            assert_eq!(email.recipient.as_ref(), "jane@example.com");
            assert_eq!(email.subject, "Newsletter Title");
            assert_eq!(email.html_content, "<p>Newsletter body as html.</p>");
            assert_eq!(email.text_content, "Newsletter body as text.");
        }
        Delivery::Skip => panic!("a valid address was skipped"),
    }
    store.finish_task(&task);
    assert!(store.delivery_queue().is_empty());
}

#[test]
fn confirmed_emails_are_listed_in_table_order() {
    let mut store = Store::new();
    confirmed(&mut store, "a@example.com", "A");
    pending(&mut store, "p@example.com", "P");
    confirmed(&mut store, "b@example.com", "B");
    let listed: Vec<String> = store
        .list_confirmed_emails()
        .into_iter()
        .map(|r| r.ok().unwrap().as_ref().to_string())
        .collect();
    assert_eq!(listed, vec!["a@example.com".to_string(), "b@example.com".to_string()]);
}
