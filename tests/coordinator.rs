use zero2prod::coordinator::{
    publish_newsletter, publish_newsletter_with, success_message, try_processing, CommandError,
    FormData, NextAction,
};
use zero2prod::idempotency_key::{IdempotencyKey, KeyError};
use zero2prod::saved_response::{HeaderPair, SavedResponse};
use zero2prod::store::{Store, SubscriberRow};
use zero2prod::subscriptions::{FormData as SubscriptionForm, NewSubscriber};

fn form(key: &str) -> FormData {
    FormData {
        title: "Issue #1".to_string(),
        text_content: "Hello".to_string(),
        html_content: "<p>Hello</p>".to_string(),
        idempotency_key: key.to_string(),
    }
}

fn subscriber(id: u128, email: &str, confirmed: bool) -> SubscriberRow {
    SubscriberRow {
        id,
        email: email.to_string(),
        name: "Reader".to_string(),
        subscribed_at: 0,
        confirmed,
    }
}

fn store_with_three_confirmed() -> Store {
    let mut s = Store::new();
    s.add_subscriber(subscriber(1, "a@example.com", true));
    s.add_subscriber(subscriber(2, "pending@example.com", false));
    s.add_subscriber(subscriber(3, "b@example.com", true));
    s.add_subscriber(subscriber(4, "c@example.com", true));
    s
}

fn assert_redirect(r: &SavedResponse) {
    assert_eq!(r.status, 303);
    assert_eq!(r.headers.len(), 1);
    assert_eq!(r.headers[0].name, "location");
    assert_eq!(r.headers[0].value, "/admin/newsletters");
    assert!(r.body.is_empty());
}

#[test]
fn publishing_twice_replays_the_first_response() {
    let mut s = store_with_three_confirmed();
    let first = publish_newsletter_with(&mut s, 7, form("k1"), 100, 1_700_000_000).unwrap();
    let second = publish_newsletter_with(&mut s, 7, form("k1"), 200, 1_700_000_100).unwrap();
    assert_redirect(&first);
    assert_eq!(first.status, second.status);
    assert_eq!(first.headers[0].name, second.headers[0].name);
    assert_eq!(first.headers[0].value, second.headers[0].value);
    assert_eq!(first.body, second.body);
    assert_eq!(s.issue_count(), 1);
    assert_eq!(s.deliveries_for(100), 3);
    assert_eq!(s.deliveries_for(200), 0);
}

#[test]
fn publishing_with_random_id_creates_one_issue() {
    let mut s = store_with_three_confirmed();
    let first = publish_newsletter(&mut s, 1, form("random")).unwrap();
    let second = publish_newsletter(&mut s, 1, form("random")).unwrap();
    assert_redirect(&first);
    assert_redirect(&second);
    assert_eq!(s.issue_count(), 1);
}

#[test]
fn concurrent_attempt_gets_a_conflict() {
    let mut s = store_with_three_confirmed();
    let key = IdempotencyKey::parse("race".to_string()).unwrap();
    let tx = match try_processing(&mut s, &key, 9).unwrap() {
        NextAction::StartProcessing(tx) => tx,
        NextAction::ReturnSavedResponse(_) => panic!("nothing was saved yet"),
    };
    assert!(s.is_claim_held(9, key.as_string()));
    let second = publish_newsletter_with(&mut s, 9, form("race"), 5, 0);
    assert_eq!(second.unwrap_err(), CommandError::Conflict);
    assert_eq!(s.issue_count(), 0);
    let saved = s.save_response(tx, SavedResponse::see_other("/admin/newsletters"));
    assert_redirect(&saved);
    let third = publish_newsletter_with(&mut s, 9, form("race"), 6, 0).unwrap();
    assert_redirect(&third);
    assert_eq!(s.issue_count(), 0);
}

#[test]
fn different_keys_proceed_independently() {
    let mut s = store_with_three_confirmed();
    let k1 = IdempotencyKey::parse("one".to_string()).unwrap();
    let tx = match try_processing(&mut s, &k1, 3).unwrap() {
        NextAction::StartProcessing(tx) => tx,
        NextAction::ReturnSavedResponse(_) => panic!("nothing was saved yet"),
    };
    let other = publish_newsletter_with(&mut s, 3, form("two"), 11, 0).unwrap();
    assert_redirect(&other);
    assert_eq!(s.deliveries_for(11), 3);
    s.rollback(tx);
    assert!(!s.is_claim_held(3, k1.as_string()));
}

#[test]
fn same_key_from_another_caller_is_a_new_command() {
    let mut s = store_with_three_confirmed();
    publish_newsletter_with(&mut s, 1, form("shared"), 21, 0).unwrap();
    publish_newsletter_with(&mut s, 2, form("shared"), 22, 0).unwrap();
    assert_eq!(s.issue_count(), 2);
    assert_eq!(s.deliveries_for(21), 3);
    assert_eq!(s.deliveries_for(22), 3);
}

#[test]
fn saved_response_round_trips() {
    let mut s = Store::new();
    let key = IdempotencyKey::parse("rt".to_string()).unwrap();
    let tx = match try_processing(&mut s, &key, 4).unwrap() {
        NextAction::StartProcessing(tx) => tx,
        NextAction::ReturnSavedResponse(_) => panic!("nothing was saved yet"),
    };
    let response = SavedResponse {
        status: 303,
        headers: vec![HeaderPair {
            name: "Location".to_string(),
            value: "/admin/newsletters".to_string(),
        }],
        body: Vec::new(),
    };
    s.save_response(tx, response);
    let found = s.get_saved_response(4, key.as_string()).unwrap();
    assert_eq!(found.status, 303);
    assert_eq!(found.headers.len(), 1);
    assert_eq!(found.headers[0].name, "Location");
    assert_eq!(found.headers[0].value, "/admin/newsletters");
    assert!(found.body.is_empty());
    assert!(s.get_saved_response(5, key.as_string()).is_none());
}

#[test]
fn replay_keeps_headers_and_body() {
    let r = SavedResponse {
        status: 200,
        headers: vec![
            HeaderPair { name: "a".to_string(), value: "1".to_string() },
            HeaderPair { name: "b".to_string(), value: "2".to_string() },
        ],
        body: vec![1, 2, 3],
    };
    let c = r.replay();
    assert_eq!(c.status, 200);
    assert_eq!(c.headers[0].name, "a");
    assert_eq!(c.headers[1].value, "2");
    assert_eq!(c.body, vec![1, 2, 3]);
}

#[test]
fn enqueue_creates_one_row_per_confirmed_subscriber() {
    let mut s = store_with_three_confirmed();
    publish_newsletter_with(&mut s, 1, form("fan-out"), 42, 0).unwrap();
    assert_eq!(s.deliveries_for(42), 3);
}

#[test]
fn rolled_back_enqueue_leaves_no_rows() {
    let mut s = store_with_three_confirmed();
    let key = IdempotencyKey::parse("rb".to_string()).unwrap();
    let mut tx = match try_processing(&mut s, &key, 1).unwrap() {
        NextAction::StartProcessing(tx) => tx,
        NextAction::ReturnSavedResponse(_) => panic!("nothing was saved yet"),
    };
    tx.insert_newsletter_issue(77, "t", "x", "<p>x</p>", 0);
    s.enqueue_delivery_tasks(&mut tx, 77);
    s.rollback(tx);
    assert_eq!(s.deliveries_for(77), 0);
    assert_eq!(s.issue_count(), 0);
    let again = publish_newsletter_with(&mut s, 1, form("rb"), 78, 0).unwrap();
    assert_redirect(&again);
    assert_eq!(s.deliveries_for(78), 3);
}

#[test]
fn taken_issue_id_rolls_back() {
    let mut s = store_with_three_confirmed();
    publish_newsletter_with(&mut s, 1, form("first"), 50, 0).unwrap();
    let r = publish_newsletter_with(&mut s, 1, form("second"), 50, 0);
    assert_eq!(r.unwrap_err(), CommandError::Storage);
    assert_eq!(s.issue_count(), 1);
    assert_eq!(s.deliveries_for(50), 3);
    let key = IdempotencyKey::parse("second".to_string()).unwrap();
    assert!(!s.is_claim_held(1, key.as_string()));
    assert!(s.has_issue(50));
    assert!(!s.has_issue(51));
}

#[test]
fn malformed_key_is_a_validation_error() {
    let mut s = store_with_three_confirmed();
    let r = publish_newsletter_with(&mut s, 1, form(""), 1, 0);
    assert_eq!(r.unwrap_err(), CommandError::Validation(KeyError::Blank));
    assert_eq!(s.issue_count(), 0);
}

#[test]
fn accepted_message_text() {
    assert_eq!(
        success_message(),
        "The newsletter issue has been accepted - emails will go out shortly."
    );
}

#[test]
fn pending_subscribers_receive_no_delivery() {
    let mut s = store_with_three_confirmed();
    let new_subscriber = NewSubscriber::try_from(SubscriptionForm {
        email: "new@example.com".to_string(),
        name: "Newcomer".to_string(),
    })
    .unwrap();
    let id = s.insert_subscriber(&new_subscriber);
    assert_eq!((id >> 76) & 0xf, 4);
    s.store_token(id, "abcdefghijklmnopqrstuvwxy");
    assert_eq!(s.token_count(), 1);
    publish_newsletter_with(&mut s, 1, form("after-signup"), 60, 0).unwrap();
    assert_eq!(s.deliveries_for(60), 3);
}
