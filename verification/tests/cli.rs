use compiler::ast::{Literal, Type};
use compiler::text::{decimal_string, integer_string, join3, join5};
use compiler::{Lexer, Parser, SemanticAnalyzer};
use std::path::Path;

#[test]
fn test_args_validation() {
    let args = vec!["compiler".to_string(), "test.sym".to_string()];
    assert_eq!(args.len(), 2);
    assert!(args[1].ends_with(".sym"));
}

#[test]
fn test_json_filename_generation() {
    let filename = "programas/exemplo.sym";
    let file_stem = Path::new(filename)
        .file_stem()
        .and_then(|s| s.to_str())
        .unwrap_or("programa");

    let json_filename = format!("../build/{}.ast.json", file_stem);
    assert_eq!(json_filename, "../build/exemplo.ast.json");

    let filename_without_path = "teste.sym";
    let file_stem2 = Path::new(filename_without_path)
        .file_stem()
        .and_then(|s| s.to_str())
        .unwrap_or("programa");

    let json_filename2 = format!("../build/{}.ast.json", file_stem2);
    assert_eq!(json_filename2, "../build/teste.ast.json");
}

#[test]
fn type_names_are_the_keywords() {
    assert_eq!(Type::Inteiro.to_string(), "inteiro");
    assert_eq!(Type::Decimal.to_string(), "decimal");
    assert_eq!(Type::Texto.to_string(), "texto");
    assert_eq!(Type::Logico.to_string(), "logico");
}

#[test]
fn literals_as_text() {
    assert_eq!(Literal::Inteiro(0).to_string(), "0");
    assert_eq!(Literal::Inteiro(42).to_string(), "42");
    assert_eq!(Literal::Inteiro(-7).to_string(), "-7");
    assert_eq!(Literal::Inteiro(i64::MAX).to_string(), "9223372036854775807");
    assert_eq!(Literal::Inteiro(i64::MIN).to_string(), "-9223372036854775808");
    assert_eq!(Literal::Decimal("2.50".to_string()).to_string(), "2.50");
    assert_eq!(Literal::Texto("oi".to_string()).to_string(), "\"oi\"");
    assert_eq!(Literal::Logico(true).to_string(), "true");
    assert_eq!(Literal::Logico(false).to_string(), "false");
}

#[test]
fn numbers_as_text() {
    assert_eq!(decimal_string(0), "0");
    assert_eq!(decimal_string(9), "9");
    assert_eq!(decimal_string(10), "10");
    assert_eq!(decimal_string(1234567890), "1234567890");
    assert_eq!(integer_string(-120), "-120");
    assert_eq!(join3("a", "b", "c"), "abc");
    assert_eq!(join5("a", "", "c", "d", "e"), "acde");
}

#[test]
fn the_three_analyses_in_a_row() {
    let source = "funcao inteiro quadrado(inteiro n) { retorne n * n; } escreva(quadrado(3));";
    let tokens = Lexer::new(source).tokenize().unwrap();
    assert_eq!(tokens.len(), 23);
    let program = Parser::parse_from_source(source).unwrap();
    let result = SemanticAnalyzer::new().analyze(program);
    assert!(result.errors.is_empty());
    assert_eq!(result.annotated_ast.functions.len(), 1);
    assert_eq!(result.annotated_ast.statements.len(), 1);
}
