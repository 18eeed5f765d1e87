use open_public::reviewer::{
    defer_after_failure, json_object_text, parse_verdict, user_message, verdict_from_fields,
    Decision, DeferReviewer, PollReviewer, ReviewRequest, VerdictError,
};

#[test]
fn parses_an_allow_verdict() {
    let v =
        parse_verdict(r#"{"decision":"allow","categories":[],"reason":"looks fine"}"#).unwrap();
    assert_eq!(v.decision, Decision::Allow);
    assert_eq!(v.reason.as_deref(), Some("looks fine"));
    assert!(v.categories.is_empty());
}

#[test]
fn parses_a_reject_with_categories_and_prose_around_it() {
    let v = parse_verdict(
        "Result follows:\n\x60\x60\x60json\n{\"decision\":\"REJECT\",\"categories\":[\"hate\",\"harassment\"],\"reason\":\"targets a group\"}\n\x60\x60\x60",
    )
    .unwrap();
    assert_eq!(v.decision, Decision::Reject);
    assert_eq!(v.categories, vec!["hate", "harassment"]);
}

#[test]
fn rejects_unparseable_or_unknown_replies() {
    assert!(parse_verdict("no json here").is_err());
    assert!(parse_verdict(r#"{"decision":"maybe"}"#).is_err());
}

#[test]
fn each_kind_of_bad_reply_is_named() {
    assert!(matches!(parse_verdict("nothing"), Err(VerdictError::NoJsonObject)));
    // A closing brace before the opening one frames nothing.
    assert!(matches!(parse_verdict("}x{"), Err(VerdictError::NoJsonObject)));
    assert!(matches!(parse_verdict("{not json}"), Err(VerdictError::InvalidJson)));
    assert!(matches!(parse_verdict(r#"{"decision":7}"#), Err(VerdictError::UnknownDecision)));
    let v = parse_verdict(r#"{"decision":"Allow","categories":"x","reason":7}"#).unwrap();
    assert_eq!(v.decision, Decision::Allow);
    assert!(v.categories.is_empty());
    assert_eq!(v.reason, None);
}

#[test]
fn user_message_lists_every_option() {
    let msg = user_message(&ReviewRequest {
        country: "Testland".to_string(),
        question: "Q?".to_string(),
        options: vec!["A".to_string(), "B".to_string()],
        kind: "single".to_string(),
    });
    assert!(msg.contains("Country: Testland"));
    assert!(msg.contains("1. A"));
    assert!(msg.contains("2. B"));
}

#[test]
fn the_user_message_in_full() {
    let msg = user_message(&ReviewRequest {
        country: "C".to_string(),
        question: "Q".to_string(),
        options: vec!["x".to_string()],
        kind: "multi".to_string(),
    });
    assert_eq!(msg, "Country: C\nType: multi\nQuestion: Q\nOptions:\n1. x\n");
}

#[test]
fn verdict_fields_keep_string_categories_and_drop_an_empty_reason() {
    let v = verdict_from_fields(
        Some("Allow".to_string()),
        Some(vec![Some("a".to_string()), None, Some("b".to_string())]),
        Some(String::new()),
    )
    .unwrap();
    assert_eq!(v.decision, Decision::Allow);
    assert_eq!(v.categories, vec!["a", "b"]);
    assert_eq!(v.reason, None);
    assert!(matches!(
        verdict_from_fields(None, None, None),
        Err(VerdictError::UnknownDecision)
    ));
    assert_eq!(json_object_text("x {a} y }"), Some("{a} y }".to_string()));
    assert_eq!(json_object_text("none"), None);
}

#[test]
fn the_fallback_reviewer_defers_to_a_human() {
    let r = DeferReviewer;
    assert_eq!(r.model(), "none");
    let v = r.review(&ReviewRequest {
        country: String::new(),
        question: String::new(),
        options: vec![],
        kind: String::new(),
    });
    assert_eq!(v.decision, Decision::Allow);
    assert_eq!(
        v.reason.as_deref(),
        Some("no automated screening configured; sent for manual review")
    );
    assert!(v.categories.is_empty());
}

#[test]
fn a_submission_goes_to_the_admin_after_three_failed_attempts() {
    assert!(!defer_after_failure(1));
    assert!(!defer_after_failure(2));
    assert!(defer_after_failure(3));
    assert!(defer_after_failure(4));
}
