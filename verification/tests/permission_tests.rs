use tanxium::permissions::{
    await_decision_from, evaluate_prompt, decision_of_reply, fresh_correlation_id,
    parse_thread_id, render_thread_id, respond_to_permission_prompt, CustomPrompter,
    PromptEvaluation, MAX_PROMPT_BYTES,
};
use tanxium::types::{PermissionsResponse, PromptDecision};

#[test]
fn small_prompt_is_emitted_with_its_fields() {
    let eval = evaluate_prompt(
        "read /etc/hosts",
        "read",
        Some("Deno.readTextFile".to_string()),
        true,
        vec!["frame one".to_string()],
    );
    match eval {
        PromptEvaluation::Emit(p) => {
            assert_eq!(p.message, "read /etc/hosts");
            assert_eq!(p.name, "read");
            assert_eq!(p.api_name.as_deref(), Some("Deno.readTextFile"));
            assert!(p.is_unary);
            assert!(p.response.is_none());
            assert_eq!(p.stack, vec!["frame one".to_string()]);
        }
        PromptEvaluation::OversizeDenied(n) => panic!("unexpected denial: {:?}", n),
    }
}

#[test]
fn oversize_prompt_is_denied_with_a_warning_notice() {
    let message = "a".repeat(MAX_PROMPT_BYTES + 1);
    match evaluate_prompt(&message, "net", None, true, Vec::new()) {
        PromptEvaluation::OversizeDenied(n) => {
            assert_eq!(n.prompt_bytes, MAX_PROMPT_BYTES + 1);
            assert_eq!(n.limit_bytes, MAX_PROMPT_BYTES);
        }
        PromptEvaluation::Emit(_) => panic!("oversize prompt must not be emitted"),
    }
}

#[test]
fn prompt_at_the_ceiling_is_still_emitted() {
    let message = "a".repeat(MAX_PROMPT_BYTES);
    assert!(matches!(
        evaluate_prompt(&message, "net", None, true, Vec::new()),
        PromptEvaluation::Emit(_)
    ));
}

#[test]
fn responses_round_trip_over_the_channel() {
    let mut prompter = CustomPrompter::new();
    prompter.setup_permission_channel(7);
    assert!(prompter.is_registered(7));
    assert!(prompter.respond(7, PermissionsResponse::Allow));
    assert!(matches!(prompter.await_decision(7), PromptDecision::Allow));
}

#[test]
fn responses_route_for_large_rendered_keys() {
    let mut prompter = CustomPrompter::new();
    prompter.setup_permission_channel(42);
    let rendered = render_thread_id(42);
    assert!(respond_to_permission_prompt(&prompter, &rendered, PermissionsResponse::Deny));
    let receiver = prompter.obtain_receiver(42);
    assert!(matches!(await_decision_from(receiver.as_ref()), PromptDecision::Deny));
    assert!(matches!(await_decision_from(None), PromptDecision::Deny));
}

#[test]
fn responding_to_an_unknown_key_is_a_noop() {
    let prompter = CustomPrompter::new();
    assert!(!prompter.respond(99, PermissionsResponse::Allow));
}

#[test]
fn awaiting_without_a_channel_denies() {
    let prompter = CustomPrompter::new();
    assert!(matches!(prompter.await_decision(42), PromptDecision::Deny));
}

#[test]
fn cleanup_unregisters_the_channel() {
    let mut prompter = CustomPrompter::new();
    prompter.setup_permission_channel(3);
    prompter.cleanup_permission_channel(3);
    assert!(!prompter.is_registered(3));
    assert!(!prompter.respond(3, PermissionsResponse::Deny));
    prompter.cleanup_permission_channel(3);
    assert!(!prompter.is_registered(3));
}

#[test]
fn respond_by_rendered_thread_id() {
    let mut prompter = CustomPrompter::new();
    prompter.setup_permission_channel(7);
    assert!(respond_to_permission_prompt(&prompter, "ThreadId(7)", PermissionsResponse::AllowAll));
    assert!(matches!(prompter.await_decision(7), PromptDecision::AllowAll));
    assert!(!respond_to_permission_prompt(&prompter, "garbage", PermissionsResponse::Allow));
}

#[test]
fn closed_channel_reply_denies() {
    assert!(matches!(decision_of_reply(None), PromptDecision::Deny));
    assert!(matches!(
        decision_of_reply(Some(PermissionsResponse::AllowAll)),
        PromptDecision::AllowAll
    ));
    assert!(matches!(
        decision_of_reply(Some(PermissionsResponse::Deny)),
        PromptDecision::Deny
    ));
}

#[test]
fn thread_ids_parse_as_decimal_first_then_hex() {
    assert_eq!(parse_thread_id("ThreadId(7)"), Some(7));
    assert_eq!(parse_thread_id("ThreadId(10)"), Some(10));
    assert_eq!(parse_thread_id("ThreadId(ff)"), Some(255));
    assert_eq!(parse_thread_id("ThreadId(FF)"), Some(255));
    assert_eq!(parse_thread_id("ThreadId(9999999999999999999)"), Some(9999999999999999999));
}

#[test]
fn rendered_thread_ids_parse_back_to_their_key() {
    for key in [0u64, 7, 9, 10, 16, 255, 12345, u64::MAX] {
        let rendered = render_thread_id(key);
        assert_eq!(parse_thread_id(&rendered), Some(key));
    }
    assert_eq!(render_thread_id(10), "ThreadId(10)");
    assert_eq!(render_thread_id(0), "ThreadId(0)");
}

#[test]
fn malformed_thread_ids_do_not_parse() {
    assert_eq!(parse_thread_id("ThreadId()"), None);
    assert_eq!(parse_thread_id("ThreadId(zz)"), None);
    assert_eq!(parse_thread_id("Thread(7)"), None);
    assert_eq!(parse_thread_id("ThreadId(7"), None);
    assert_eq!(parse_thread_id("7"), None);
    assert_eq!(parse_thread_id("ThreadId(18446744073709551616)"), None);
}

#[test]
fn correlation_ids_are_long_and_distinct() {
    let a = fresh_correlation_id();
    let b = fresh_correlation_id();
    assert_eq!(a.chars().count(), 36);
    assert_ne!(a, b);
}

#[test]
fn responses_have_canonical_spellings() {
    assert_eq!(PermissionsResponse::Allow.as_str(), "Allow");
    assert_eq!(PermissionsResponse::Deny.as_str(), "Deny");
    assert_eq!(PermissionsResponse::AllowAll.as_str(), "AllowAll");
    assert!(matches!(PermissionsResponse::from_str("Allow"), PermissionsResponse::Allow));
    assert!(matches!(PermissionsResponse::from_str("Deny"), PermissionsResponse::Deny));
    assert!(matches!(PermissionsResponse::from_str("AllowAll"), PermissionsResponse::AllowAll));
    assert!(PermissionsResponse::try_from_str("allow").is_none());
    assert!(matches!(
        PermissionsResponse::AllowAll.to_prompt_response(),
        PromptDecision::AllowAll
    ));
    assert!(matches!(PermissionsResponse::Deny.to_prompt_response(), PromptDecision::Deny));
}
