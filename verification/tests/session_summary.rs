use survey_flow::summary::{csv_header, escape_cell};
use survey_flow::user_session::{UserSession, ValidationError};

fn run(tokens: &[&str]) -> UserSession {
    let mut s = UserSession::new();
    for t in tokens {
        s.process_button_press(t).expect("token should be accepted");
    }
    s
}

#[test]
fn multiple_choice_session_summary() {
    let s = run(&["start", "pm", "mc", "4b", "6a", "trophy"]);
    assert_eq!(s.current_page(), 9);
    let rec = s.summarize();
    assert_eq!(rec.role, "Product Manager");
    assert_eq!(rec.question_type, "Multiple Choice");
    assert_eq!(rec.team_size, "6-8 people");
    assert_eq!(rec.role_pref, "Product Manager");
    assert_eq!(rec.hpom_live, "");
    assert_eq!(rec.richard_cai, "");
}

#[test]
fn true_false_session_summary() {
    let s = run(&["start", "ux", "tf", "5f", "7t", "trophy"]);
    assert_eq!(s.current_page(), 9);
    let rec = s.summarize();
    assert_eq!(rec.role, "UX Designer");
    assert_eq!(rec.question_type, "True/False");
    assert_eq!(rec.team_size, "");
    assert_eq!(rec.role_pref, "");
    assert_eq!(rec.hpom_live, "False");
    assert_eq!(rec.richard_cai, "True");
}

#[test]
fn doc_string_of_multiple_choice_session() {
    let s = run(&["start", "pm", "mc", "4b", "6a", "trophy"]);
    assert_eq!(
        s.to_doc_string(),
        "User Response Summary:\n\
         - Role: Product Manager\n\
         - Question type: Multiple Choice\n\
         - Preferred team size: 6-8 people\n\
         - Wants to see more: Product Manager\n"
    );
}

#[test]
fn doc_string_of_true_false_session() {
    let s = run(&["start", "engi", "tf", "5t", "7f", "trophy"]);
    assert_eq!(
        s.to_doc_string(),
        "User Response Summary:\n\
         - Role: Engineer\n\
         - Question type: True/False\n\
         - Believes HPOM has been live for two years: True\n\
         - Not intimidated by Richard Cai: False\n"
    );
}

#[test]
fn doc_string_of_partial_session() {
    let s = run(&["start", "dm"]);
    assert_eq!(
        s.to_doc_string(),
        "User Response Summary:\n- Role: Developer Manager\n"
    );
    let empty = UserSession::new();
    assert_eq!(empty.to_doc_string(), "User Response Summary:\n");
}

#[test]
fn summary_of_partial_session_leaves_fields_empty() {
    let s = run(&["start", "dm", "mc"]);
    let rec = s.summarize();
    assert_eq!(rec.role, "Developer Manager");
    assert_eq!(rec.question_type, "Multiple Choice");
    assert_eq!(rec.team_size, "");
    assert_eq!(rec.role_pref, "");
}

#[test]
fn record_doc_string_is_escaped_for_csv() {
    let s = run(&["start", "pm", "mc", "4a", "6c", "trophy"]);
    let rec = s.summarize();
    assert_eq!(
        rec.doc_string,
        "User Response Summary:\\n\
         - Role: Product Manager\\n\
         - Question type: Multiple Choice\\n\
         - Preferred team size: 3-5 people\\n\
         - Wants to see more: Engineer\\n"
    );
}

#[test]
fn csv_row_has_eight_columns_and_quoted_narrative() {
    let s = run(&["start", "ux", "tf", "5t", "7t", "trophy"]);
    let rec = s.summarize();
    let row = rec.to_csv_row("session_42");
    assert_eq!(
        row,
        "session_42,UX Designer,True/False,,,True,True,\
         \"User Response Summary:\\n\
         - Role: UX Designer\\n\
         - Question type: True/False\\n\
         - Believes HPOM has been live for two years: True\\n\
         - Not intimidated by Richard Cai: True\\n\"\n"
    );
}

#[test]
fn csv_header_names_the_columns() {
    assert_eq!(
        csv_header(),
        "session_id,role,question_type,team_size,role_pref,hpom_live,richard_cai,doc_string\n"
    );
}

#[test]
fn escape_cell_rewrites_newlines_and_quotes() {
    assert_eq!(escape_cell("a\nb\"c"), "a\\nb'c");
    assert_eq!(escape_cell(""), "");
    assert_eq!(escape_cell("plain"), "plain");
}

#[test]
fn user_session_rejections_match_the_validator() {
    let mut s = run(&["start", "dm", "mc"]);
    assert_eq!(s.current_page(), 4);
    let err = s.process_button_press("5t").unwrap_err();
    assert_eq!(
        err,
        ValidationError::InvalidButton(
            "5t".to_string(),
            vec![
                "4a".to_string(),
                "4b".to_string(),
                "4c".to_string(),
                "4d".to_string()
            ]
        )
    );
    assert_eq!(s.current_page(), 4);
}
