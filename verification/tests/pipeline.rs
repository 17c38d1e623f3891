//! End-to-end runs of whole source units through the execution pipeline.

use taco::run::exec;
use taco::taco::Taco;

fn run_unit(src: &str) -> (Vec<String>, Vec<String>, bool, bool) {
    let mut lang = Taco::new();
    let (outputs, diagnostics) = exec(src.to_string(), &mut lang);
    (outputs, diagnostics, lang.has_error, lang.has_runtime_error)
}

fn outputs_of(src: &str) -> Vec<String> {
    let (outputs, diagnostics, has_error, has_runtime_error) = run_unit(src);
    assert!(diagnostics.is_empty(), "unexpected diagnostics: {:?}", diagnostics);
    assert!(!has_error);
    assert!(!has_runtime_error);
    outputs
}

#[test]
fn print_integer_decimal() {
    assert_eq!(outputs_of("print 42;"), vec!["42".to_string()]);
    assert_eq!(outputs_of("print 0;"), vec!["0".to_string()]);
    assert_eq!(outputs_of("print 1000000007;"), vec!["1000000007".to_string()]);
}

#[test]
fn print_negative_integer() {
    assert_eq!(outputs_of("print -120;"), vec!["-120".to_string()]);
}

#[test]
fn precedence_multiplication_binds_tighter() {
    assert_eq!(outputs_of("1 + 2 * 3;"), vec!["7".to_string()]);
}

#[test]
fn grouping_overrides_precedence() {
    assert_eq!(outputs_of("(1 + 2) * 3;"), vec!["9".to_string()]);
}

#[test]
fn let_then_lookup() {
    assert_eq!(outputs_of("let x = 5; print x + 1;"), vec!["6".to_string()]);
}

#[test]
fn redefinition_overwrites_binding() {
    assert_eq!(outputs_of("let x = 5; let x = 9; print x;"), vec!["9".to_string()]);
}

#[test]
fn let_without_initializer_binds_nil() {
    assert_eq!(outputs_of("let x; print x;"), vec!["nil".to_string()]);
}

#[test]
fn string_concatenation() {
    assert_eq!(outputs_of("\"ab\" + \"cd\";"), vec!["abcd".to_string()]);
}

#[test]
fn plus_kind_mismatch_is_runtime_error() {
    let (outputs, diagnostics, has_error, has_runtime_error) = run_unit("1 + \"a\";");
    assert!(outputs.is_empty());
    assert_eq!(
        diagnostics,
        vec!["[Line 1] Error: Invalid operands for addition: Integer - String".to_string()]
    );
    assert!(!has_error);
    assert!(has_runtime_error);
}

#[test]
fn integer_division_by_zero_is_runtime_error() {
    let (outputs, diagnostics, has_error, has_runtime_error) = run_unit("1 / 0;");
    assert!(outputs.is_empty());
    assert_eq!(diagnostics, vec!["[Line 1] Error: Division by zero".to_string()]);
    assert!(!has_error);
    assert!(has_runtime_error);
}

#[test]
fn float_division_by_zero_is_runtime_error() {
    let (outputs, diagnostics, _, has_runtime_error) = run_unit("1.0 / 0.0;");
    assert!(outputs.is_empty());
    assert_eq!(diagnostics, vec!["[Line 1] Error: Division by zero".to_string()]);
    assert!(has_runtime_error);
}

#[test]
fn session_continues_after_runtime_error() {
    let mut lang = Taco::new();
    let (_, diagnostics) = exec("1 / 0;".to_string(), &mut lang);
    assert_eq!(diagnostics.len(), 1);
    assert!(lang.has_runtime_error);
    let (outputs, diagnostics) = exec("print 3;".to_string(), &mut lang);
    assert_eq!(outputs, vec!["3".to_string()]);
    assert!(diagnostics.is_empty());
}

#[test]
fn unterminated_string_reports_one_error() {
    let (outputs, diagnostics, has_error, has_runtime_error) = run_unit("\"abc");
    assert!(outputs.is_empty());
    assert_eq!(diagnostics, vec!["[line 1] Error : Unterminated string".to_string()]);
    assert!(has_error);
    assert!(!has_runtime_error);
}

#[test]
fn truthiness_not_nil() {
    assert_eq!(outputs_of("!nil;"), vec!["true".to_string()]);
}

#[test]
fn truthiness_not_zero() {
    assert_eq!(outputs_of("!0;"), vec!["false".to_string()]);
}

#[test]
fn truthiness_empty_string_is_truthy() {
    assert_eq!(outputs_of("!\"\";"), vec!["false".to_string()]);
}

#[test]
fn missing_variable_name_is_syntax_error() {
    let (outputs, diagnostics, has_error, has_runtime_error) = run_unit("let ;");
    assert!(outputs.is_empty());
    assert_eq!(
        diagnostics,
        vec!["[line 1] Error at ';': Expect variable name.".to_string()]
    );
    assert!(has_error);
    assert!(!has_runtime_error);
}

#[test]
fn dangling_operator_is_syntax_error() {
    let (outputs, diagnostics, has_error, _) = run_unit("1 +");
    assert!(outputs.is_empty());
    assert_eq!(
        diagnostics,
        vec!["[line 1] Error at end: Expected expression".to_string()]
    );
    assert!(has_error);
}

#[test]
fn expression_statement_echoes_value() {
    assert_eq!(outputs_of("1 + 1;"), vec!["2".to_string()]);
}

#[test]
fn line_comment_is_dropped() {
    assert_eq!(outputs_of("# hello there\nprint 2;"), vec!["2".to_string()]);
}

#[test]
fn block_comment_with_interior_stars() {
    assert_eq!(outputs_of("/* * / comment */ print 7;"), vec!["7".to_string()]);
}

#[test]
fn block_comment_unterminated_consumes_rest() {
    assert_eq!(outputs_of("print 1; /* trailing"), vec!["1".to_string()]);
}

#[test]
fn multiline_string_value() {
    assert_eq!(outputs_of("print `ab\ncd`;"), vec!["ab\ncd".to_string()]);
}

#[test]
fn multiline_string_advances_line_counter() {
    let (outputs, diagnostics, has_error, _) = run_unit("`a\nb`;\n@");
    assert_eq!(outputs, vec!["a\nb".to_string()]);
    assert_eq!(
        diagnostics,
        vec!["[line 3] Error : Unexpected character found".to_string()]
    );
    assert!(has_error);
}

#[test]
fn keyword_taco_is_reserved() {
    let (_, diagnostics, has_error, _) = run_unit("let taco = 1;");
    assert_eq!(
        diagnostics,
        vec!["[line 1] Error at 'taco': Expect variable name.".to_string()]
    );
    assert!(has_error);
}

#[test]
fn float_addition() {
    assert_eq!(outputs_of("print 1.5 + 2.25;"), vec!["3.75".to_string()]);
}

#[test]
fn float_unary_minus() {
    assert_eq!(outputs_of("print -2.5;"), vec!["-2.5".to_string()]);
}

#[test]
fn comparisons_yield_booleans() {
    assert_eq!(
        outputs_of("print 1 < 2; print 2.5 > 1.5; print 1 <= 1; print 1 != 2;"),
        vec![
            "true".to_string(),
            "true".to_string(),
            "true".to_string(),
            "true".to_string()
        ]
    );
}

#[test]
fn comparison_kind_mismatch_is_runtime_error() {
    let (_, diagnostics, _, has_runtime_error) = run_unit("1 < 1.5;");
    assert_eq!(
        diagnostics,
        vec!["[Line 1] Error: Invalid operands for less than".to_string()]
    );
    assert!(has_runtime_error);
}

#[test]
fn equality_requires_same_kind() {
    assert_eq!(
        outputs_of("print 1 == 1; print \"a\" == \"b\";"),
        vec!["true".to_string(), "false".to_string()]
    );
}

#[test]
fn nil_equality_is_runtime_error() {
    let (_, diagnostics, _, has_runtime_error) = run_unit("nil == nil;");
    assert_eq!(
        diagnostics,
        vec!["[Line 1] Error: Invalid operands for equality".to_string()]
    );
    assert!(has_runtime_error);
}

#[test]
fn integer_addition_wraps() {
    assert_eq!(
        outputs_of("print 9223372036854775807 + 1;"),
        vec!["-9223372036854775808".to_string()]
    );
}

#[test]
fn integer_division_truncates() {
    assert_eq!(
        outputs_of("print 7 / 2; print (0 - 7) / 2;"),
        vec!["3".to_string(), "-3".to_string()]
    );
}

#[test]
fn undefined_variable_is_runtime_error() {
    let (_, diagnostics, _, has_runtime_error) = run_unit("print y;");
    assert_eq!(
        diagnostics,
        vec!["[Line 1] Error: Undefined variable 'y'.".to_string()]
    );
    assert!(has_runtime_error);
}

#[test]
fn syntax_error_discards_whole_unit() {
    let (outputs, diagnostics, has_error, _) = run_unit("print 1; let ;");
    assert!(outputs.is_empty());
    assert_eq!(diagnostics.len(), 1);
    assert!(has_error);
}

#[test]
fn boolean_and_nil_literals_print() {
    assert_eq!(
        outputs_of("print true; print false; print nil;"),
        vec!["true".to_string(), "false".to_string(), "nil".to_string()]
    );
}

#[test]
fn unary_minus_on_nil_is_runtime_error() {
    let (_, diagnostics, _, has_runtime_error) = run_unit("-nil;");
    assert_eq!(
        diagnostics,
        vec!["[Line 1] Error: Invalid operand for unary minus".to_string()]
    );
    assert!(has_runtime_error);
}

#[test]
fn unmatched_parenthesis_is_syntax_error() {
    let (_, diagnostics, has_error, _) = run_unit("(1 + 2;");
    assert_eq!(
        diagnostics,
        vec!["[line 1] Error at ';': Expected ')' after expression.".to_string()]
    );
    assert!(has_error);
}

#[test]
fn missing_semicolon_after_value() {
    let (_, diagnostics, has_error, _) = run_unit("print 1");
    assert_eq!(
        diagnostics,
        vec!["[line 1] Error at end: Expect ';' after value.".to_string()]
    );
    assert!(has_error);
}

#[test]
fn missing_semicolon_after_declaration() {
    let (_, diagnostics, has_error, _) = run_unit("let x = 1");
    assert_eq!(
        diagnostics,
        vec!["[line 1] Error at '1': Expect ';' after variable declaration.".to_string()]
    );
    assert!(has_error);
}

#[test]
fn float_multiplication_and_subtraction() {
    assert_eq!(
        outputs_of("print 2.5 * 2.0; print 2.5 - 0.25;"),
        vec!["5".to_string(), "2.25".to_string()]
    );
}

#[test]
fn runtime_error_stops_later_statements() {
    let (outputs, diagnostics, _, has_runtime_error) = run_unit("print 1; 1 / 0; print 2;");
    assert_eq!(outputs, vec!["1".to_string()]);
    assert_eq!(diagnostics, vec!["[Line 1] Error: Division by zero".to_string()]);
    assert!(has_runtime_error);
}

#[test]
fn lexical_error_still_executes_unit() {
    let (outputs, diagnostics, has_error, _) = run_unit("@ print 5;");
    assert_eq!(outputs, vec!["5".to_string()]);
    assert_eq!(
        diagnostics,
        vec!["[line 1] Error : Unexpected character found".to_string()]
    );
    assert!(has_error);
}

#[test]
fn whole_float_values_print_in_decimal() {
    assert_eq!(outputs_of("print 1.0; print 0.0;"), vec!["1".to_string(), "0".to_string()]);
}
