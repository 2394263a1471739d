use survey_flow::page_flow::{PageFlowValidator, ValidationError};

fn run(tokens: &[&str]) -> PageFlowValidator {
    let mut m = PageFlowValidator::new();
    for t in tokens {
        m.process_button_press(t).expect("token should be accepted");
    }
    m
}

#[test]
fn fresh_machine_starts_at_page_one() {
    let m = PageFlowValidator::new();
    assert_eq!(m.current_page(), 1);
    assert!(m.button_presses().is_empty());
}

#[test]
fn multiple_choice_path_reaches_trophy() {
    let mut m = PageFlowValidator::new();
    assert_eq!(m.process_button_press("start"), Ok(2));
    assert_eq!(m.process_button_press("pm"), Ok(3));
    assert_eq!(m.process_button_press("mc"), Ok(4));
    assert_eq!(m.process_button_press("4b"), Ok(6));
    assert_eq!(m.process_button_press("6a"), Ok(8));
    assert_eq!(m.process_button_press("trophy"), Ok(9));
    assert_eq!(m.current_page(), 9);
    let pressed: Vec<&str> = m.button_presses().iter().map(|s| s.as_str()).collect();
    assert_eq!(pressed, vec!["start", "pm", "mc", "4b", "6a", "trophy"]);
}

#[test]
fn true_false_path_reaches_trophy() {
    let mut m = PageFlowValidator::new();
    assert_eq!(m.process_button_press("start"), Ok(2));
    assert_eq!(m.process_button_press("ux"), Ok(3));
    assert_eq!(m.process_button_press("tf"), Ok(5));
    assert_eq!(m.process_button_press("5f"), Ok(7));
    assert_eq!(m.process_button_press("7t"), Ok(8));
    assert_eq!(m.process_button_press("trophy"), Ok(9));
    assert_eq!(m.current_page(), 9);
}

#[test]
fn wrong_tokens_are_rejected_on_every_page() {
    // Page by page, a token outside the accepted set must leave the machine
    // unchanged and name the accepted set.
    let path = ["start", "engi", "mc", "4c", "6d", "trophy"];
    let allowed: [&[&str]; 6] = [
        &["start"],
        &["pm", "ux", "engi", "dm"],
        &["mc", "tf"],
        &["4a", "4b", "4c", "4d"],
        &["6a", "6b", "6c", "6d"],
        &["trophy"],
    ];
    let mut m = PageFlowValidator::new();
    for (step, token) in path.iter().enumerate() {
        let page_before = m.current_page();
        let history_before: Vec<String> = m.button_presses().to_vec();
        let err = m.process_button_press("bogus").unwrap_err();
        let expected: Vec<String> = allowed[step].iter().map(|s| s.to_string()).collect();
        assert_eq!(err, ValidationError::InvalidButton("bogus".to_string(), expected));
        assert_eq!(m.current_page(), page_before);
        assert_eq!(m.button_presses(), &history_before[..]);
        m.process_button_press(token).unwrap();
    }
}

#[test]
fn wrong_tokens_are_rejected_on_the_true_false_pages() {
    let mut m = run(&["start", "ux", "tf"]);
    assert_eq!(m.current_page(), 5);
    let err = m.process_button_press("4a").unwrap_err();
    assert_eq!(
        err,
        ValidationError::InvalidButton("4a".to_string(), vec!["5t".to_string(), "5f".to_string()])
    );
    assert_eq!(m.current_page(), 5);
    m.process_button_press("5t").unwrap();
    assert_eq!(m.current_page(), 7);
    let err = m.process_button_press("6a").unwrap_err();
    assert_eq!(
        err,
        ValidationError::InvalidButton("6a".to_string(), vec!["7t".to_string(), "7f".to_string()])
    );
    assert_eq!(m.current_page(), 7);
}

#[test]
fn terminal_page_rejects_everything() {
    let mut m = run(&["start", "dm", "tf", "5t", "7f", "trophy"]);
    assert_eq!(m.current_page(), 9);
    let history_before: Vec<String> = m.button_presses().to_vec();
    for t in ["start", "trophy", "mc", ""] {
        let err = m.process_button_press(t).unwrap_err();
        assert_eq!(err, ValidationError::InvalidButton(t.to_string(), vec![]));
        assert_eq!(m.current_page(), 9);
        assert_eq!(m.button_presses(), &history_before[..]);
    }
}

#[test]
fn cross_branch_answers_are_rejected() {
    let mut m = run(&["start", "dm", "mc"]);
    assert_eq!(m.current_page(), 4);
    let err = m.process_button_press("5t").unwrap_err();
    assert_eq!(
        err,
        ValidationError::InvalidButton(
            "5t".to_string(),
            vec![
                "4a".to_string(),
                "4b".to_string(),
                "4c".to_string(),
                "4d".to_string()
            ]
        )
    );
    assert_eq!(m.current_page(), 4);
}

#[test]
fn replay_reproduces_page_and_history() {
    let tokens: Vec<String> = ["start", "pm", "tf", "5f", "7t"]
        .iter()
        .map(|s| s.to_string())
        .collect();
    let a = survey_flow::page_flow::replay(&tokens);
    let b = survey_flow::page_flow::replay(&tokens);
    assert_eq!(a.current_page(), 8);
    assert_eq!(a.current_page(), b.current_page());
    assert_eq!(a.button_presses(), b.button_presses());
    assert_eq!(a.button_presses(), &tokens[..]);

    let mut c = PageFlowValidator::new();
    for t in &tokens {
        c.process_button_press(t).unwrap();
    }
    assert_eq!(c.current_page(), a.current_page());
    assert_eq!(c.button_presses(), a.button_presses());
}
