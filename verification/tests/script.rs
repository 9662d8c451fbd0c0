use strudel_clap_plugin::event::EvaluationResult;
use strudel_clap_plugin::script::{
    decimal_string, evaluate_code_script, evaluate_script_for_literal, query_pattern_script,
};

#[test]
fn query_script_for_first_cycle() {
    assert_eq!(
        query_pattern_script((0, 1), (1, 1)),
        "JSON.stringify(globalThis.queryPattern(0, 1, 1, 1))"
    );
}

#[test]
fn query_script_with_negative_and_large_numbers() {
    assert_eq!(
        query_pattern_script((-3, 4), (i64::MAX, 10)),
        "JSON.stringify(globalThis.queryPattern(-3, 4, 9223372036854775807, 10))"
    );
}

#[test]
fn decimal_matches_display() {
    for n in [0i64, 7, 10, 99, 100, -1, -10, 123456789, i64::MIN, i64::MAX] {
        assert_eq!(decimal_string(n), n.to_string());
    }
}

#[test]
fn evaluate_script_quotes_code_as_json() {
    assert_eq!(
        evaluate_code_script("s('bd sd')"),
        "globalThis.evaluateCode(\"s('bd sd')\")"
    );
    assert_eq!(
        evaluate_code_script("a\"b\\c\nd"),
        "globalThis.evaluateCode(\"a\\\"b\\\\c\\nd\")"
    );
}

#[test]
fn evaluate_script_wraps_literal() {
    assert_eq!(evaluate_script_for_literal("\"x\""), "globalThis.evaluateCode(\"x\")");
}

#[test]
fn unreadable_reply_becomes_failure() {
    let r = EvaluationResult::from_reply(None);
    assert!(!r.success);
    assert_eq!(r.error.as_deref(), Some("Failed to parse evaluation result"));
    assert!(r.stack.is_none());
    let ok = EvaluationResult { success: true, error: None, stack: None };
    assert_eq!(EvaluationResult::from_reply(Some(ok.clone())), ok);
    let f = EvaluationResult::failure("boom".to_string());
    assert_eq!(f, EvaluationResult { success: false, error: Some("boom".to_string()), stack: None });
}

#[test]
fn evaluate_script_escapes_control_characters() {
    assert_eq!(
        evaluate_code_script("\u{1}\t\u{8}\u{c}\r\u{1f}é"),
        "globalThis.evaluateCode(\"\\u0001\\t\\b\\f\\r\\u001fé\")"
    );
}
