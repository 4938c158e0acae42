use cfc_relay::codec::encode_submission;
use cfc_relay::collector::{correlation_tag, on_submission_event, parse_fields, CollectorRegistry};
use cfc_relay::error::Error;
use cfc_relay::flow::{
    on_component_interaction, on_form_outcome, render_content, render_submission, FlowAction,
    PublishAction, SubmissionOutcome,
};
use cfc_relay::store::SubmissionStore;
use cfc_relay::submission::SenateCFCModal;
use cfc_relay::trigger::{should_proceed, UNSET_DESTINATION};

fn modal(handle: Option<&str>, party: &str, cfc: &str) -> SenateCFCModal {
    SenateCFCModal {
        reddit_user: handle.map(|h| h.to_string()),
        party: party.to_string(),
        cfc: cfc.to_string(),
    }
}

#[test]
fn trigger_accepts_numeric_token_in_active_session() {
    assert!(should_proceed("5", 1234));
    assert!(should_proceed("+7", 1234));
    assert!(should_proceed("4294967295", 1234));
}

#[test]
fn trigger_ignores_bad_tokens() {
    assert!(!should_proceed("", 1234));
    assert!(!should_proceed("abc", 1234));
    assert!(!should_proceed("12x", 1234));
    assert!(!should_proceed("-3", 1234));
    assert!(!should_proceed("+", 1234));
    assert!(!should_proceed("4294967296", 1234));
}

#[test]
fn trigger_ignores_everything_while_no_session_is_active() {
    assert!(!should_proceed("5", UNSET_DESTINATION));
}

#[test]
fn correlation_tag_is_id_then_suffix() {
    assert_eq!(correlation_tag(42), "42_cfc");
    assert_eq!(correlation_tag(0), "0_cfc");
    assert_eq!(correlation_tag(18446744073709551615), "18446744073709551615_cfc");
}

#[test]
fn parse_fields_maps_three_fields() {
    let fields = vec![
        ("Reddit Username (with u/)".to_string(), "u/alice".to_string()),
        ("Political Party/Coalition".to_string(), "Reform".to_string()),
        ("CFC Statement".to_string(), "I will serve.".to_string()),
    ];
    let m = parse_fields(&fields).expect("three fields must parse");
    assert_eq!(m.reddit_user.as_deref(), Some("u/alice"));
    assert_eq!(m.party, "Reform");
    assert_eq!(m.cfc, "I will serve.");
}

#[test]
fn parse_fields_empty_handle_becomes_none() {
    let fields = vec![
        ("h".to_string(), "".to_string()),
        ("p".to_string(), "Reform".to_string()),
        ("c".to_string(), "text".to_string()),
    ];
    let m = parse_fields(&fields).expect("three fields must parse");
    assert_eq!(m.reddit_user, None);
}

#[test]
fn parse_fields_wrong_arity_is_a_parse_error() {
    let two = vec![("a".to_string(), "b".to_string()), ("c".to_string(), "d".to_string())];
    assert_eq!(parse_fields(&two).unwrap_err(), Error::Parse);
    assert_eq!(parse_fields(&Vec::new()).unwrap_err(), Error::Parse);
}

#[test]
fn registry_allows_one_outstanding_collector_per_id() {
    let mut reg = CollectorRegistry::new();
    assert!(reg.register(42));
    assert!(!reg.register(42));
    assert!(reg.register(7));
    assert!(reg.resolve(42));
    assert!(!reg.resolve(42));
    assert!(reg.register(42));
    reg.cancel(42);
    assert!(!reg.resolve(42));
    assert!(reg.resolve(7));
}

#[test]
fn submission_event_feeds_only_a_waiting_collector() {
    let mut reg = CollectorRegistry::new();
    let fields = vec![
        ("h".to_string(), "u/alice".to_string()),
        ("p".to_string(), "Reform".to_string()),
        ("c".to_string(), "text".to_string()),
    ];
    // no collector is waiting: the event is dropped
    assert!(on_submission_event(&mut reg, 42, &fields).is_none());
    assert!(reg.register(42));
    let m = on_submission_event(&mut reg, 42, &fields)
        .expect("a waiting collector must consume the event")
        .expect("three fields must parse");
    assert_eq!(m.party, "Reform");
    // the registration was consumed: a second event finds nobody waiting
    assert!(on_submission_event(&mut reg, 42, &fields).is_none());
    // a parse failure is surfaced, not swallowed
    assert!(reg.register(7));
    let err = on_submission_event(&mut reg, 7, &Vec::new())
        .expect("a waiting collector must consume the event");
    assert_eq!(err.unwrap_err(), Error::Parse);
}

#[test]
fn render_uses_fallback_when_handle_is_missing() {
    let s = render_submission(&modal(None, "Reform", "Updated platform."));
    assert_eq!(s, "/No Reddit Account | Reform\n\nUpdated platform.");
}

#[test]
fn render_prefixes_handle_with_slash() {
    let s = render_submission(&modal(Some("u/alice"), "Reform", "I will serve."));
    assert_eq!(s, "/u/alice | Reform\n\nI will serve.");
}

#[test]
fn content_carries_attribution_line() {
    let s = render_content(42, &modal(Some("u/alice"), "Reform", "I will serve."));
    assert_eq!(s, "<@42>\n/u/alice | Reform\n\nI will serve.");
}

#[test]
fn empty_submission_yields_notice_and_no_store_change() {
    let store = SubmissionStore::new();
    let outcome = on_form_outcome(&store, 42, Some(modal(Some(""), "", "")));
    assert!(matches!(outcome, SubmissionOutcome::Notice));
    assert!(store.get(42).is_none());
    let outcome = on_form_outcome(&store, 42, Some(modal(None, "", "")));
    assert!(matches!(outcome, SubmissionOutcome::Notice));
}

#[test]
fn timeout_yields_notice_and_no_store_change() {
    let store = SubmissionStore::new();
    let outcome = on_form_outcome(&store, 42, None);
    assert!(matches!(outcome, SubmissionOutcome::Notice));
    assert!(store.get(42).is_none());
}

#[test]
fn first_submission_creates_and_stores_new_message_id() {
    let mut store = SubmissionStore::new();
    let m = modal(Some("u/alice"), "Reform", "I will serve.");
    match on_form_outcome(&store, 42, Some(modal(Some("u/alice"), "Reform", "I will serve."))) {
        SubmissionOutcome::Publish(content, action) => {
            assert_eq!(content, "<@42>\n/u/alice | Reform\n\nI will serve.");
            assert!(matches!(action, PublishAction::Create));
        },
        SubmissionOutcome::Notice => panic!("a non-empty submission must publish"),
    }
    store.record_publication(42, &m, 900);
    let rec = store.get(42).expect("the record must exist after publication");
    assert_eq!(rec.published_message_id, 900);
    assert_eq!(rec.encoded_payload, encode_submission(&m));
}

#[test]
fn resubmission_edits_same_message_and_overwrites_payload() {
    let mut store = SubmissionStore::new();
    let first = modal(Some("u/alice"), "Reform", "I will serve.");
    store.record_publication(42, &first, 900);
    let second = modal(None, "Reform", "Updated platform.");
    match on_form_outcome(&store, 42, Some(modal(None, "Reform", "Updated platform."))) {
        SubmissionOutcome::Publish(content, action) => {
            assert_eq!(content, "<@42>\n/No Reddit Account | Reform\n\nUpdated platform.");
            match action {
                PublishAction::Edit(id) => assert_eq!(id, 900),
                PublishAction::Create => panic!("a prior record must lead to an edit"),
            }
        },
        SubmissionOutcome::Notice => panic!("a non-empty submission must publish"),
    }
    store.record_publication(42, &second, 900);
    let rec = store.get(42).expect("the record must persist");
    assert_eq!(rec.published_message_id, 900);
    assert_eq!(rec.encoded_payload, encode_submission(&second));
    assert_ne!(rec.encoded_payload, encode_submission(&first));
}

#[test]
fn interaction_opens_prefilled_form_for_returning_submitter() {
    let mut store = SubmissionStore::new();
    let first = modal(Some("u/alice"), "Reform", "I will serve.");
    store.record_publication(42, &first, 900);
    match on_component_interaction(&store, 1234, "5", 42) {
        FlowAction::OpenForm(cid, prefill) => {
            assert_eq!(cid, 42);
            let p = prefill.expect("a stored payload must pre-populate the form");
            assert_eq!(p.reddit_user.as_deref(), Some("u/alice"));
            assert_eq!(p.party, "Reform");
            assert_eq!(p.cfc, "I will serve.");
        },
        FlowAction::Ignore => panic!("an active session with a numeric token must proceed"),
    }
}

#[test]
fn interaction_opens_blank_form_for_new_submitter() {
    let store = SubmissionStore::new();
    match on_component_interaction(&store, 1234, "5", 42) {
        FlowAction::OpenForm(cid, prefill) => {
            assert_eq!(cid, 42);
            assert!(prefill.is_none());
        },
        FlowAction::Ignore => panic!("an active session with a numeric token must proceed"),
    }
}

#[test]
fn interaction_is_ignored_without_session_or_token() {
    let store = SubmissionStore::new();
    assert!(matches!(
        on_component_interaction(&store, UNSET_DESTINATION, "5", 42),
        FlowAction::Ignore
    ));
    assert!(matches!(on_component_interaction(&store, 1234, "open", 42), FlowAction::Ignore));
}

#[test]
fn records_of_other_submitters_are_untouched() {
    let mut store = SubmissionStore::new();
    let a = modal(Some("u/alice"), "Reform", "a");
    let b = modal(Some("u/bob"), "Order", "b");
    store.record_publication(1, &a, 10);
    store.record_publication(2, &b, 20);
    store.record_publication(1, &modal(None, "Reform", "a2"), 10);
    let rec = store.get(2).expect("an unrelated record must survive");
    assert_eq!(rec.published_message_id, 20);
    assert_eq!(rec.encoded_payload, encode_submission(&b));
}
