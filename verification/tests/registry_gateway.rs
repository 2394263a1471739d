use survey_flow::gateway::{handle_event, resolve_session_id};
use survey_flow::registry::SessionRegistry;

#[test]
fn get_or_create_creates_exactly_once() {
    // Two requests racing on a never-seen identifier, serialized by the
    // registry's lock, must end up sharing one session.
    let mut reg = SessionRegistry::new();
    assert!(!reg.contains("visitor"));
    assert!(reg.get_or_create("visitor"));
    assert!(!reg.get_or_create("visitor"));
    assert!(reg.contains("visitor"));
    assert_eq!(reg.current_page_of("visitor"), 1);
    reg.apply_press("visitor", "start").unwrap();
    assert!(!reg.get_or_create("visitor"));
    assert_eq!(reg.current_page_of("visitor"), 2);
}

#[test]
fn apply_press_rejects_without_touching_the_session() {
    let mut reg = SessionRegistry::new();
    reg.get_or_create("v");
    assert!(reg.apply_press("v", "trophy").is_err());
    assert_eq!(reg.current_page_of("v"), 1);
    assert_eq!(reg.apply_press("v", "start"), Ok(2));
    assert_eq!(reg.current_page_of("v"), 2);
}

#[test]
fn remove_returns_the_session_and_frees_the_id() {
    let mut reg = SessionRegistry::new();
    assert!(reg.remove("ghost").is_none());
    reg.get_or_create("a");
    reg.get_or_create("b");
    reg.apply_press("a", "start").unwrap();
    let sess = reg.remove("a").expect("entry should exist");
    assert_eq!(sess.current_page(), 2);
    assert!(!reg.contains("a"));
    assert!(reg.contains("b"));
}

#[test]
fn reset_if_requested_drops_any_state() {
    let mut reg = SessionRegistry::new();
    reg.get_or_create("v");
    reg.apply_press("v", "start").unwrap();
    reg.reset_if_requested("v");
    assert!(!reg.contains("v"));
    // Resetting an absent id stays a no-op.
    reg.reset_if_requested("v");
    assert!(!reg.contains("v"));
}

#[test]
fn resolve_session_id_prefers_the_credential() {
    let (id, is_new) = resolve_session_id(Some("cookie-id".to_string()), "fresh".to_string());
    assert_eq!(id, "cookie-id");
    assert!(!is_new);
    let (id, is_new) = resolve_session_id(None, "fresh".to_string());
    assert_eq!(id, "fresh");
    assert!(is_new);
}

#[test]
fn handle_event_walks_a_session_to_finalization() {
    let mut reg = SessionRegistry::new();
    let id = "session_7";
    let out = handle_event(&mut reg, id, None, true);
    assert_eq!(out.page_to_render, 1);
    assert!(out.is_new_session);
    assert!(out.finalized_summary.is_none());

    for (token, page) in [("start", 2), ("pm", 3), ("mc", 4), ("4d", 6), ("6b", 8)] {
        let out = handle_event(&mut reg, id, Some(token), false);
        assert_eq!(out.page_to_render, page);
        assert!(out.finalized_summary.is_none());
    }

    // The finalizing event reports the terminal page, yields the summary,
    // and evicts the session in the same step.
    let out = handle_event(&mut reg, id, Some("trophy"), false);
    assert_eq!(out.page_to_render, 9);
    let rec = out.finalized_summary.expect("completed session must be summarized");
    assert_eq!(rec.role, "Product Manager");
    assert_eq!(rec.question_type, "Multiple Choice");
    assert_eq!(rec.team_size, "13-15 people");
    assert_eq!(rec.role_pref, "Developer Manager");
    assert!(!reg.contains(id));

    // The identifier is free again: the next event starts a fresh session,
    // so finalization cannot fire twice for the completed one.
    let out = handle_event(&mut reg, id, Some("trophy"), false);
    assert_eq!(out.page_to_render, 1);
    assert!(out.finalized_summary.is_none());
    assert_eq!(reg.current_page_of(id), 1);
}

#[test]
fn handle_event_ignores_a_rejected_token() {
    let mut reg = SessionRegistry::new();
    let out = handle_event(&mut reg, "v", Some("mc"), true);
    assert_eq!(out.page_to_render, 1);
    assert!(out.finalized_summary.is_none());
    assert!(reg.contains("v"));
    assert_eq!(reg.current_page_of("v"), 1);
}
