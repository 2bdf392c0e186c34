use ginkgo_dashboard::cli::parse_state_flag;

#[test]
fn parse_equals_form() {
    let v = parse_state_flag(vec!["--state=v1=abc".to_string()]);
    assert_eq!(v.as_deref(), Some("v1=abc"));
}

#[test]
fn parse_space_form() {
    let v = parse_state_flag(vec!["--state".to_string(), "v1=abc".to_string()]);
    assert_eq!(v.as_deref(), Some("v1=abc"));
}

#[test]
fn parse_absent() {
    let v = parse_state_flag(vec!["--other".to_string(), "xyz".to_string()]);
    assert_eq!(v, None);
}

#[test]
fn parse_later_flag_wins() {
    let v = parse_state_flag(vec![
        "--state=first".to_string(),
        "--state".to_string(),
        "second".to_string(),
    ]);
    assert_eq!(v.as_deref(), Some("second"));
    let w = parse_state_flag(vec![
        "--state".to_string(),
        "first".to_string(),
        "--state=second".to_string(),
    ]);
    assert_eq!(w.as_deref(), Some("second"));
}

#[test]
fn parse_trailing_flag_without_value_is_ignored() {
    let v = parse_state_flag(vec!["--state=kept".to_string(), "--state".to_string()]);
    assert_eq!(v.as_deref(), Some("kept"));
    assert_eq!(parse_state_flag(vec!["--state".to_string()]), None);
    assert_eq!(parse_state_flag(Vec::new()), None);
}

#[test]
fn parse_value_after_space_form_is_not_a_flag() {
    // The value slot is consumed whole, even when it looks like a flag.
    let v = parse_state_flag(vec!["--state".to_string(), "--state=x".to_string()]);
    assert_eq!(v.as_deref(), Some("--state=x"));
    let e = parse_state_flag(vec!["--state=".to_string()]);
    assert_eq!(e.as_deref(), Some(""));
}
