//! Unit-level checks of the lexer, the parser, the literal cascade, the
//! environment chain, the value model, and the text utilities.

use taco::ast::{parse_i64, BinaryExpr, Expr, Literal};
use taco::environment::Environment;
use taco::errors::{error, report, throw_error, LexError, ParserError, RuntimeError};
use taco::interpreter::{Interpreter, Value};
use taco::parser::Parser;
use taco::scanner::Scanner;
use taco::syntax::Statement;
use taco::taco::Taco;
use taco::text::{chars_eq_str, chars_of, i64_to_string, string_of_range, u64_to_string};
use taco::token::{Token, TokenType};

fn scan(src: &str) -> (Vec<Token>, Vec<LexError>) {
    let mut scanner = Scanner::new(src.to_string());
    let tokens = scanner.scan_tokens();
    (tokens, scanner.errors)
}

fn parse_source(src: &str) -> Result<Vec<Statement>, ParserError> {
    let (tokens, _) = scan(src);
    Parser::new(tokens).parse()
}

#[test]
fn scanner_ends_with_single_eof() {
    let (tokens, errors) = scan("let x = 5; print x;");
    assert!(errors.is_empty());
    assert_eq!(tokens.last().unwrap().token_type, TokenType::Eof);
    let eof_count = tokens.iter().filter(|t| t.token_type == TokenType::Eof).count();
    assert_eq!(eof_count, 1);
}

#[test]
fn scanner_unterminated_string_keeps_eof() {
    let (tokens, errors) = scan("\"abc");
    assert_eq!(errors.len(), 1);
    assert_eq!(errors[0].line, 1);
    assert_eq!(errors[0].message, "Unterminated string");
    assert_eq!(tokens.len(), 1);
    assert_eq!(tokens[0].token_type, TokenType::Eof);
}

#[test]
fn scanner_two_char_operator_lexemes() {
    let (tokens, _) = scan("!= == <= >= < > ! =");
    let kinds: Vec<TokenType> = tokens.iter().map(|t| t.token_type).collect();
    assert_eq!(
        kinds,
        vec![
            TokenType::BangEqual,
            TokenType::EqualEqual,
            TokenType::LessEqual,
            TokenType::GreaterEqual,
            TokenType::Less,
            TokenType::Greater,
            TokenType::Bang,
            TokenType::Equal,
            TokenType::Eof
        ]
    );
    assert_eq!(tokens[0].lexeme, "!=");
    assert_eq!(tokens[1].lexeme, "==");
}

#[test]
fn scanner_keyword_table() {
    let (tokens, _) = scan("taco let and letx");
    assert_eq!(tokens[0].token_type, TokenType::Func);
    assert_eq!(tokens[1].token_type, TokenType::Let);
    assert_eq!(tokens[2].token_type, TokenType::And);
    assert_eq!(tokens[3].token_type, TokenType::Identifier);
    assert_eq!(tokens[3].lexeme, "letx");
}

#[test]
fn scanner_number_classification() {
    let (tokens, _) = scan("12 3.5 7.");
    assert_eq!(tokens[0].token_type, TokenType::Integer);
    assert_eq!(tokens[0].lexeme, "12");
    assert_eq!(tokens[1].token_type, TokenType::Float);
    assert_eq!(tokens[1].lexeme, "3.5");
    assert_eq!(tokens[2].token_type, TokenType::Integer);
    assert_eq!(tokens[2].lexeme, "7");
    assert_eq!(tokens[3].token_type, TokenType::Dot);
}

#[test]
fn scanner_string_token_fields() {
    let (tokens, _) = scan("\"hi\"");
    assert_eq!(tokens[0].token_type, TokenType::String);
    assert_eq!(tokens[0].lexeme, "\"hi\"");
    assert_eq!(tokens[0].literal, "hi");
    assert_eq!(tokens[0].line, 1);
}

#[test]
fn scanner_tracks_lines() {
    let (tokens, _) = scan("1\n2\n3");
    assert_eq!(tokens[0].line, 1);
    assert_eq!(tokens[1].line, 2);
    assert_eq!(tokens[2].line, 3);
}

#[test]
fn scanner_keyword_maps_agree() {
    let scanner = Scanner::new("".to_string());
    let copied = scanner.get_keywords();
    assert_eq!(copied.get("taco").copied(), Some(TokenType::Func));
    assert_eq!(copied.get("while").copied(), Some(TokenType::While));
    assert_eq!(copied.get("missing").copied(), None);
}

#[test]
fn token_to_string_shape() {
    let token = Token::new(TokenType::Plus, "+".to_string(), "+".to_string(), 1);
    assert_eq!(token.to_string(), "Plus: + - +");
}

#[test]
fn literal_cascade_integer_first() {
    assert!(matches!(Literal::new("123"), Literal::Integer(123)));
    assert!(matches!(Literal::new("+5"), Literal::Integer(5)));
}

#[test]
fn literal_cascade_float_second() {
    assert!(matches!(Literal::new("1.5"), Literal::Float(b) if b == 1.5f64.to_bits()));
    let big = Literal::new("9223372036854775808");
    assert!(matches!(big, Literal::Float(b) if b == 9223372036854775808.0f64.to_bits()));
}

#[test]
fn literal_cascade_keywords_and_string() {
    assert!(matches!(Literal::new("true"), Literal::Boolean(true)));
    assert!(matches!(Literal::new("false"), Literal::Boolean(false)));
    assert!(matches!(Literal::new("nil"), Literal::Nil));
    assert!(matches!(Literal::new("abc"), Literal::String(s) if s == "abc"));
}

#[test]
fn parse_i64_range_and_shape() {
    assert_eq!(parse_i64("9223372036854775807"), Some(i64::MAX));
    assert_eq!(parse_i64("9223372036854775808"), None);
    assert_eq!(parse_i64("-9223372036854775808"), Some(i64::MIN));
    assert_eq!(parse_i64("-9223372036854775809"), None);
    assert_eq!(parse_i64("12a"), None);
    assert_eq!(parse_i64(""), None);
    assert_eq!(parse_i64("+"), None);
    assert_eq!(parse_i64("+7"), Some(7));
    assert_eq!(parse_i64("-0"), Some(0));
}

#[test]
fn decimal_renderings() {
    assert_eq!(u64_to_string(0), "0");
    assert_eq!(u64_to_string(90210), "90210");
    assert_eq!(i64_to_string(-120), "-120");
    assert_eq!(i64_to_string(i64::MIN), "-9223372036854775808");
    assert_eq!(i64_to_string(i64::MAX), "9223372036854775807");
}

#[test]
fn text_char_utilities() {
    let cs = chars_of("hello");
    assert_eq!(cs, vec!['h', 'e', 'l', 'l', 'o']);
    assert!(chars_eq_str(&cs, "hello"));
    assert!(!chars_eq_str(&cs, "hell"));
    assert_eq!(string_of_range(&cs, 1, 4), "ell");
}

#[test]
fn report_shapes() {
    assert_eq!(report(3, "at end", "msg"), "[line 3] Error at end: msg");
    assert_eq!(error(2, "m"), "[line 2] Error : m");
    let lex = LexError::new(4, "oops".to_string());
    assert_eq!(lex.report_string(), "[line 4] Error : oops");
}

#[test]
fn runtime_error_fields_and_report() {
    let token = Token::new(TokenType::Slash, "/".to_string(), "/".to_string(), 9);
    let err = RuntimeError::new(token, "Division by zero");
    assert_eq!(err.get_token().token_type, TokenType::Slash);
    assert_eq!(err.get_message(), "Division by zero");
    assert_eq!(err.report_string(), "[Line 9] Error: Division by zero");
}

#[test]
fn thrown_parser_error_carries_token() {
    let token = Token::new(TokenType::Semicolon, ";".to_string(), ";".to_string(), 1);
    let err = throw_error(token, "Expect variable name.");
    assert_eq!(err.message, "Expect variable name.");
    assert_eq!(err.get_token()[0].lexeme, ";");
    assert_eq!(err.report_string(), "[line 1] Error at ';': Expect variable name.");
}

#[test]
fn parser_missing_name_references_semicolon() {
    let result = parse_source("let ;");
    let err = match result {
        Err(err) => err,
        Ok(_) => panic!("expected a syntax error"),
    };
    assert_eq!(err.message, "Expect variable name.");
    assert_eq!(err.token[0].token_type, TokenType::Semicolon);
    assert_eq!(err.token[0].lexeme, ";");
}

#[test]
fn parser_dangling_operator_is_error_not_abort() {
    let result = parse_source("1 +");
    assert!(result.is_err());
}

#[test]
fn parser_builds_left_deep_precedence_tree() {
    let statements = parse_source("1 + 2 * 3;").unwrap();
    assert_eq!(statements.len(), 1);
    let expression = match &statements[0] {
        Statement::ExpressionStatement(s) => &s.expression,
        _ => panic!("expected an expression statement"),
    };
    let outer = match expression {
        Expr::BinaryExpr(b) => b,
        _ => panic!("expected a binary node"),
    };
    assert_eq!(outer.get_operator().token_type, TokenType::Plus);
    assert!(matches!(outer.get_left(), Expr::Literal(Literal::Integer(1))));
    let right = match outer.get_right() {
        Expr::BinaryExpr(b) => b,
        _ => panic!("expected a binary node"),
    };
    assert_eq!(right.get_operator().token_type, TokenType::Star);
}

#[test]
fn parser_grouping_node() {
    let statements = parse_source("(1 + 2) * 3;").unwrap();
    let expression = match &statements[0] {
        Statement::ExpressionStatement(s) => &s.expression,
        _ => panic!("expected an expression statement"),
    };
    let outer = match expression {
        Expr::BinaryExpr(b) => b,
        _ => panic!("expected a binary node"),
    };
    assert_eq!(outer.get_operator().token_type, TokenType::Star);
    assert!(matches!(outer.get_left(), Expr::GroupingExpr(_)));
}

#[test]
fn binary_expr_accessors() {
    let token = Token::new(TokenType::Plus, "+".to_string(), "+".to_string(), 1);
    let node = BinaryExpr::new(
        Expr::Literal(Literal::Integer(1)),
        token,
        Expr::Literal(Literal::Integer(2)),
    );
    assert!(matches!(node.get_left(), Expr::Literal(Literal::Integer(1))));
    assert!(matches!(node.get_right(), Expr::Literal(Literal::Integer(2))));
    assert_eq!(node.get_operator().token_type, TokenType::Plus);
}

#[test]
fn environment_define_get_assign() {
    let mut env = Environment::new();
    assert_eq!(env.get("x"), None);
    env.define("x".to_string(), Value::Integer(5));
    assert_eq!(env.get("x"), Some(Value::Integer(5)));
    assert!(env.assign("x".to_string(), Value::Integer(9)));
    assert_eq!(env.get("x"), Some(Value::Integer(9)));
    assert!(!env.assign("y".to_string(), Value::Integer(1)));
    assert_eq!(env.get("y"), None);
}

#[test]
fn environment_chain_shadowing_and_outward_walk() {
    let mut global = Environment::new();
    global.define("a".to_string(), Value::Integer(1));
    global.define("b".to_string(), Value::Integer(2));
    let empty = Environment::new();
    let mut inner = Environment { values: empty.values, enclosing: Some(Box::new(global)) };
    inner.define("a".to_string(), Value::Integer(10));
    assert_eq!(inner.get("a"), Some(Value::Integer(10)));
    assert_eq!(inner.get("b"), Some(Value::Integer(2)));
    assert!(inner.assign("b".to_string(), Value::Integer(20)));
    assert_eq!(inner.get("b"), Some(Value::Integer(20)));
}

#[test]
fn value_truthiness_rules() {
    assert!(!Value::Nil.is_truthy());
    assert!(!Value::Boolean(false).is_truthy());
    assert!(Value::Boolean(true).is_truthy());
    assert!(Value::Integer(0).is_truthy());
    assert!(Value::Float(0.0f64.to_bits()).is_truthy());
    assert!(Value::String("".to_string()).is_truthy());
}

#[test]
fn value_from_literal() {
    assert_eq!(Value::from(Literal::Integer(3)), Value::Integer(3));
    assert_eq!(Value::from(Literal::Nil), Value::Nil);
    assert_eq!(
        Value::from(Literal::String("s".to_string())),
        Value::String("s".to_string())
    );
}

#[test]
fn stringify_canonical_forms() {
    let interpreter = Interpreter::new(&Taco::new());
    assert_eq!(interpreter.stringify(Value::Integer(-7)), "-7");
    assert_eq!(interpreter.stringify(Value::Boolean(true)), "true");
    assert_eq!(interpreter.stringify(Value::Boolean(false)), "false");
    assert_eq!(interpreter.stringify(Value::Nil), "nil");
    assert_eq!(interpreter.stringify(Value::String("hey".to_string())), "hey");
    assert_eq!(interpreter.stringify(Value::Float(1.5f64.to_bits())), "1.5");
}

#[test]
fn evaluate_expression_directly() {
    let statements = parse_source("1 + 2 * 3;").unwrap();
    let expression = match &statements[0] {
        Statement::ExpressionStatement(s) => &s.expression,
        _ => panic!("expected an expression statement"),
    };
    let interpreter = Interpreter::new(&Taco::new());
    let env = Environment::new();
    let result = interpreter.evaluate(&env, expression);
    assert!(matches!(result, Ok(Value::Integer(7))));
}

#[test]
fn interpreter_gate_suppresses_execution() {
    let mut lang = Taco::new();
    lang.set_error(true);
    let interpreter = lang.interpreter();
    let statements = parse_source("print 1;").unwrap();
    let (outputs, result) = interpreter.interpret(Ok(statements));
    assert!(outputs.is_empty());
    assert!(result.is_ok());
}

#[test]
fn interpret_runs_statements_in_order() {
    let mut lang = Taco::new();
    let interpreter = lang.interpreter();
    let statements = parse_source("let x = 2; print x * 3; print x;").unwrap();
    let (outputs, result) = interpreter.interpret(Ok(statements));
    assert_eq!(outputs, vec!["6".to_string(), "2".to_string()]);
    assert!(result.is_ok());
}

#[test]
fn taco_session_flags() {
    let mut lang = Taco::new();
    assert!(!lang.has_error);
    assert!(!lang.has_runtime_error);
    lang.set_runtime_error(true);
    assert!(lang.has_runtime_error);
    lang.set_error(true);
    let first = lang.interpreter();
    assert!(first.had_error);
    lang.set_error(false);
    let second = lang.interpreter();
    assert!(second.had_error);
}

#[test]
fn scanner_punctuation_kinds() {
    let (tokens, errors) = scan("(){},.-+;*");
    assert!(errors.is_empty());
    let kinds: Vec<TokenType> = tokens.iter().map(|t| t.token_type).collect();
    assert_eq!(
        kinds,
        vec![
            TokenType::LeftParen,
            TokenType::RightParen,
            TokenType::LeftBrace,
            TokenType::RightBrace,
            TokenType::Comma,
            TokenType::Dot,
            TokenType::Minus,
            TokenType::Plus,
            TokenType::Semicolon,
            TokenType::Star,
            TokenType::Eof
        ]
    );
    assert_eq!(tokens[0].literal, "(");
}

#[test]
fn scanner_slash_token_when_not_comment() {
    let (tokens, _) = scan("1 / 2");
    assert_eq!(tokens[1].token_type, TokenType::Slash);
    assert_eq!(tokens[1].lexeme, "/");
}
