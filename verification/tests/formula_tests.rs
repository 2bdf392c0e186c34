use ginkgo_dashboard::visualization::formula::{
    checked_source, known_variables, levenshtein, lookup_var, resolve_var_slots, suggest, FormulaError, VarSlot,
};

#[test]
fn rejects_unknown_with_suggestion() {
    // `gflop / time` names the variables `gflop` and `time` (alphabetical).
    match resolve_var_slots(&vec!["gflop".to_string(), "time".to_string()]) {
        Err(FormulaError::UnknownVariable { name, suggestion }) => {
            assert_eq!(name, "gflop");
            assert_eq!(suggestion.as_deref(), Some("gflops"));
        }
        _ => panic!("expected UnknownVariable"),
    }
}

#[test]
fn rejects_empty() {
    assert!(matches!(checked_source(""), Err(FormulaError::Empty)));
    assert!(matches!(checked_source("  "), Err(FormulaError::Empty)));
}

#[test]
fn source_is_trimmed() {
    assert!(matches!(checked_source("  time * 2 \n"), Ok(s) if s == "time * 2"));
}

#[test]
fn known_variables_resolve_in_order() {
    let slots = resolve_var_slots(&vec!["baseline_time".to_string(), "gflops".to_string(), "time".to_string()]);
    match slots {
        Ok(v) => {
            assert_eq!(v.len(), 3);
            assert!(matches!(v[0], VarSlot::BaselineTime));
            assert!(matches!(v[1], VarSlot::GflopsPerSecond));
            assert!(matches!(v[2], VarSlot::Time));
        }
        Err(_) => panic!("all variables are known"),
    }
    assert!(matches!(lookup_var("gflops_per_second"), Some(VarSlot::GflopsPerSecond)));
    assert!(lookup_var("gflop").is_none());
    assert_eq!(known_variables().len(), 28);
    assert_eq!(known_variables()[0], "avg_nnz_per_col");
    assert_eq!(known_variables()[27], "time");
}

#[test]
fn levenshtein_distances() {
    assert_eq!(levenshtein("", ""), 0);
    assert_eq!(levenshtein("kitten", "sitting"), 3);
    assert_eq!(levenshtein("gflop", "gflops"), 1);
    assert_eq!(levenshtein("abc", ""), 3);
    assert_eq!(levenshtein("", "ab"), 2);
}

#[test]
fn suggestions_within_two_edits() {
    assert_eq!(suggest("tim").as_deref(), Some("time"));
    assert_eq!(suggest("rowz").as_deref(), Some("rows"));
    assert_eq!(suggest("completely_unknown"), None);
}

#[test]
fn error_messages() {
    assert_eq!(FormulaError::Empty.message(), "formula is empty");
    assert_eq!(FormulaError::Parse("oops".to_string()).message(), "parse error: oops");
    assert_eq!(
        FormulaError::UnknownVariable { name: "gflop".to_string(), suggestion: Some("gflops".to_string()) }
            .message(),
        "unknown variable 'gflop' — did you mean 'gflops'?"
    );
    assert_eq!(
        FormulaError::UnknownVariable { name: "zz".to_string(), suggestion: None }.message(),
        "unknown variable 'zz'"
    );
}
