use survey_flow::request::{
    extract_session_id, get_content_type, is_allowed_path, parse_button_press,
    query_requests_restart, session_id_for_timestamp,
};

#[test]
fn restart_is_detected_anywhere_in_the_query() {
    assert!(query_requests_restart("restart=true"));
    assert!(query_requests_restart("button=pm&restart=true"));
    assert!(!query_requests_restart("restart=false"));
    assert!(!query_requests_restart(""));
    assert!(!query_requests_restart("button=start"));
}

#[test]
fn only_the_known_paths_are_answered() {
    assert!(is_allowed_path("/"));
    assert!(is_allowed_path("/page3?button=mc"));
    assert!(is_allowed_path("/view-data"));
    assert!(is_allowed_path("/clear-data"));
    assert!(is_allowed_path("/lib/logo.png"));
    assert!(!is_allowed_path("/admin"));
    assert!(!is_allowed_path(""));
    assert!(!is_allowed_path("/?button=start"));
}

#[test]
fn parse_button_press_finds_button_and_action() {
    assert_eq!(parse_button_press("button=pm"), Some("pm".to_string()));
    assert_eq!(parse_button_press("action=mc&x=1"), Some("mc".to_string()));
    assert_eq!(parse_button_press("foo=1&button=start"), Some("start".to_string()));
    assert_eq!(parse_button_press("restart=true"), None);
    assert_eq!(parse_button_press(""), None);
    assert_eq!(parse_button_press("button"), None);
    assert_eq!(parse_button_press("button=&x=2"), Some("".to_string()));
    assert_eq!(parse_button_press("a=1&action=5t&button=pm"), Some("5t".to_string()));
}

#[test]
fn extract_session_id_reads_the_cookie_line() {
    let request = "GET /page2?button=pm HTTP/1.1\n\
                   Host: localhost:7878\n\
                   Cookie: theme=dark; session_id=session_17; lang=en\n\
                   Accept: text/html";
    assert_eq!(extract_session_id(request), Some("session_17".to_string()));
}

#[test]
fn extract_session_id_is_case_insensitive_and_greedy_to_line_end() {
    let request = "GET / HTTP/1.1\ncookie: session_id=abc123";
    assert_eq!(extract_session_id(request), Some("abc123".to_string()));
    let upper = "GET / HTTP/1.1\nCOOKIE: session_id=xyz; other=1";
    assert_eq!(extract_session_id(upper), Some("xyz".to_string()));
}

#[test]
fn extract_session_id_absent() {
    assert_eq!(extract_session_id("GET / HTTP/1.1\nHost: x"), None);
    assert_eq!(extract_session_id(""), None);
    // A cookie line without the marker is passed over.
    assert_eq!(extract_session_id("Cookie: theme=dark"), None);
    // The marker outside a cookie line does not count.
    assert_eq!(extract_session_id("Referer: /x?session_id=5"), None);
}

#[test]
fn content_types_follow_the_suffix() {
    assert_eq!(get_content_type("lib/photo.jpg"), "image/jpeg");
    assert_eq!(get_content_type("lib/photo.jpeg"), "image/jpeg");
    assert_eq!(get_content_type("lib/logo.png"), "image/png");
    assert_eq!(get_content_type("lib/anim.gif"), "image/gif");
    assert_eq!(get_content_type("lib/site.css"), "text/css");
    assert_eq!(get_content_type("lib/app.js"), "application/javascript");
    assert_eq!(get_content_type("lib/data.bin"), "application/octet-stream");
    assert_eq!(get_content_type(""), "application/octet-stream");
}

#[test]
fn session_ids_are_timestamp_derived() {
    assert_eq!(session_id_for_timestamp(0), "session_0");
    assert_eq!(session_id_for_timestamp(7), "session_7");
    assert_eq!(session_id_for_timestamp(1234567890), "session_1234567890");
    assert_eq!(
        session_id_for_timestamp(u64::MAX),
        "session_18446744073709551615"
    );
}
