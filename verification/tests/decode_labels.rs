use survey_flow::summary::{
    hpom_label_of, qtype_label_of, richard_label_of, role_label_of, role_pref_label_of,
    team_size_label_of,
};

#[test]
fn role_tokens_decode_to_titles() {
    assert_eq!(role_label_of("pm"), "Product Manager");
    assert_eq!(role_label_of("ux"), "UX Designer");
    assert_eq!(role_label_of("engi"), "Engineer");
    assert_eq!(role_label_of("dm"), "Developer Manager");
    // An unrecognized token stands for itself.
    assert_eq!(role_label_of("intern"), "intern");
}

#[test]
fn question_type_tokens_decode() {
    assert_eq!(qtype_label_of("mc"), "Multiple Choice");
    assert_eq!(qtype_label_of("tf"), "True/False");
    assert_eq!(qtype_label_of("essay"), "essay");
}

#[test]
fn team_size_tokens_decode() {
    assert_eq!(team_size_label_of("4a"), "3-5 people");
    assert_eq!(team_size_label_of("4b"), "6-8 people");
    assert_eq!(team_size_label_of("4c"), "9-12 people");
    assert_eq!(team_size_label_of("4d"), "13-15 people");
    assert_eq!(team_size_label_of("4e"), "(unknown)");
}

#[test]
fn role_preference_tokens_decode() {
    assert_eq!(role_pref_label_of("6a"), "Product Manager");
    assert_eq!(role_pref_label_of("6b"), "Developer Manager");
    assert_eq!(role_pref_label_of("6c"), "Engineer");
    assert_eq!(role_pref_label_of("6d"), "UX Designer");
    assert_eq!(role_pref_label_of("6z"), "(unknown)");
}

#[test]
fn true_false_tokens_decode() {
    assert_eq!(hpom_label_of("5t"), "True");
    assert_eq!(hpom_label_of("5f"), "False");
    assert_eq!(hpom_label_of("5x"), "(unknown)");
    assert_eq!(richard_label_of("7t"), "True");
    assert_eq!(richard_label_of("7f"), "False");
    assert_eq!(richard_label_of("7x"), "(unknown)");
}
