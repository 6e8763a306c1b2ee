use compiler::afds::{classify_keyword, parse_digits, peek_next, try_consume_number};
use compiler::error::{ErrorSeverity, LexerError};
use compiler::lexer::Lexer;
use compiler::token::{Token, TokenKind, TokenType};

fn types_of(source: &str) -> Vec<TokenType> {
    let mut lexer = Lexer::new(source);
    lexer.tokenize().unwrap().into_iter().map(|t| t.token_type).collect()
}

fn error_of(source: &str) -> LexerError {
    let mut lexer = Lexer::new(source);
    lexer.tokenize().unwrap_err()
}

#[test]
fn tokenizes_a_declaration_with_places() {
    let mut lexer = Lexer::new("inteiro x = 42;");
    let tokens = lexer.tokenize().unwrap();
    let got: Vec<(TokenType, usize, usize)> =
        tokens.iter().map(|t| (t.token_type.clone(), t.linha, t.coluna)).collect();
    assert_eq!(
        got,
        vec![
            (TokenType::Inteiro, 1, 1),
            (TokenType::Identificador("x".to_string()), 1, 9),
            (TokenType::Atribuicao, 1, 11),
            (TokenType::InteiroLiteral(42), 1, 13),
            (TokenType::PontoEVirgula, 1, 15),
            (TokenType::EOF, 1, 16),
        ]
    );
    assert_eq!(tokens[0].lexema, "inteiro");
    assert_eq!(tokens[0].comprimento, 7);
    assert_eq!(tokens[3].lexema, "42");
    assert!(tokens[5].is_eof());
    assert!(!tokens[0].is_eof());
}

#[test]
fn empty_source_is_only_the_end_marker() {
    let mut lexer = Lexer::new("");
    let tokens = lexer.tokenize().unwrap();
    assert_eq!(tokens.len(), 1);
    assert_eq!(tokens[0].token_type, TokenType::EOF);
    assert_eq!((tokens[0].linha, tokens[0].coluna), (1, 1));
}

#[test]
fn decimal_literal_keeps_its_digits() {
    assert_eq!(
        types_of("3.14 10.50"),
        vec![
            TokenType::DecimalLiteral("3.14".to_string()),
            TokenType::DecimalLiteral("10.50".to_string()),
            TokenType::EOF
        ]
    );
}

#[test]
fn second_point_ends_a_number() {
    assert_eq!(
        types_of("1.2.3"),
        vec![
            TokenType::DecimalLiteral("1.2".to_string()),
            TokenType::Ponto,
            TokenType::InteiroLiteral(3),
            TokenType::EOF
        ]
    );
}

#[test]
fn point_without_digit_is_an_invalid_number() {
    let e = error_of("  3.");
    assert_eq!(e.message, "Número inválido: '3.'");
    assert_eq!((e.linha, e.coluna), (1, 3));
    assert_eq!(e.severity, ErrorSeverity::Error);
    let e = error_of("7.x");
    assert_eq!(e.message, "Número inválido: '7.'");
}

#[test]
fn integer_literal_must_fit_in_64_bits() {
    assert_eq!(
        types_of("9223372036854775807"),
        vec![TokenType::InteiroLiteral(i64::MAX), TokenType::EOF]
    );
    let e = error_of("9223372036854775808");
    assert_eq!(e.message, "Número inválido: '9223372036854775808'");
    let e = error_of("99999999999999999999999");
    assert_eq!(e.message, "Número inválido: '99999999999999999999999'");
    assert_eq!(types_of("007"), vec![TokenType::InteiroLiteral(7), TokenType::EOF]);
}

#[test]
fn parse_digits_gives_the_value() {
    let digits: Vec<char> = "x1234y".chars().collect();
    assert_eq!(parse_digits(&digits, 1, 5), Some(1234));
    assert_eq!(parse_digits(&digits, 1, 1), Some(0));
    assert_eq!(peek_next(&digits, 0), Some('1'));
    assert_eq!(peek_next(&digits, 5), None);
}

#[test]
fn scanner_leaves_the_place_where_no_number_starts() {
    let source: Vec<char> = "ab".chars().collect();
    let (mut pos, mut line, mut column) = (0usize, 1usize, 1usize);
    let r = try_consume_number(&source, &mut pos, &mut line, &mut column).unwrap();
    assert!(r.is_none());
    assert_eq!((pos, line, column), (0, 1, 1));
}

#[test]
fn string_literal_with_escapes() {
    let mut lexer = Lexer::new("\"a\\nb\\t\\\"c\\\\\"");
    let tokens = lexer.tokenize().unwrap();
    assert_eq!(tokens[0].token_type, TokenType::StringLiteral("a\nb\t\"c\\".to_string()));
    assert_eq!(tokens[0].lexema, "\"a\nb\t\"c\\\"");
    assert_eq!(tokens[0].comprimento, 9);
    assert_eq!(tokens.len(), 2);
}

#[test]
fn string_errors() {
    let e = error_of("x \"abc");
    assert_eq!(e.message, "String não foi fechada");
    assert_eq!((e.linha, e.coluna), (1, 3));
    let e = error_of("\"\\q\"");
    assert_eq!(e.message, "Sequência de escape inválida: '\\q'");
    assert_eq!((e.linha, e.coluna), (1, 3));
}

#[test]
fn comments_are_skipped() {
    let mut lexer = Lexer::new("// um\n1 /* dois\n */ 2 // fim");
    let tokens = lexer.tokenize().unwrap();
    let got: Vec<(TokenType, usize, usize)> =
        tokens.iter().map(|t| (t.token_type.clone(), t.linha, t.coluna)).collect();
    assert_eq!(
        got,
        vec![
            (TokenType::InteiroLiteral(1), 2, 1),
            (TokenType::InteiroLiteral(2), 3, 5),
            (TokenType::EOF, 3, 13),
        ]
    );
}

#[test]
fn unclosed_block_comment() {
    let e = error_of("1 /* aberto");
    assert_eq!(e.message, "Comentário de bloco não foi fechado");
    assert_eq!((e.linha, e.coluna), (1, 3));
}

#[test]
fn operators_longest_first() {
    assert_eq!(
        types_of("== != <= >= && || + - * / % = ! < >"),
        vec![
            TokenType::Igual,
            TokenType::Diferente,
            TokenType::MenorIgual,
            TokenType::MaiorIgual,
            TokenType::ELogico,
            TokenType::OuLogico,
            TokenType::Mais,
            TokenType::Menos,
            TokenType::Multiplicacao,
            TokenType::Divisao,
            TokenType::Modulo,
            TokenType::Atribuicao,
            TokenType::NaoLogico,
            TokenType::Menor,
            TokenType::Maior,
            TokenType::EOF,
        ]
    );
    assert_eq!(
        types_of("a<=b"),
        vec![
            TokenType::Identificador("a".to_string()),
            TokenType::MenorIgual,
            TokenType::Identificador("b".to_string()),
            TokenType::EOF
        ]
    );
}

#[test]
fn delimiters() {
    assert_eq!(
        types_of("(){}[],;:."),
        vec![
            TokenType::ParenteseEsquerdo,
            TokenType::ParenteseDireito,
            TokenType::ChaveEsquerda,
            TokenType::ChaveDireita,
            TokenType::ColcheteEsquerdo,
            TokenType::ColcheteDireito,
            TokenType::Virgula,
            TokenType::PontoEVirgula,
            TokenType::DoisPontos,
            TokenType::Ponto,
            TokenType::EOF,
        ]
    );
}

#[test]
fn keywords_and_identifiers() {
    assert_eq!(
        types_of("se sex _a fimse a_1 funcao"),
        vec![
            TokenType::Se,
            TokenType::Identificador("sex".to_string()),
            TokenType::Identificador("_a".to_string()),
            TokenType::FimSe,
            TokenType::Identificador("a_1".to_string()),
            TokenType::Funcao,
            TokenType::EOF,
        ]
    );
    assert_eq!(classify_keyword("retorne"), Some(TokenType::Retorne));
    assert_eq!(classify_keyword("principal"), Some(TokenType::Principal));
    assert_eq!(classify_keyword("Retorne"), None);
    assert_eq!(classify_keyword(""), None);
}

#[test]
fn every_keyword_is_classified() {
    let all = [
        ("se", TokenType::Se),
        ("entao", TokenType::Entao),
        ("senao", TokenType::Senao),
        ("fimse", TokenType::FimSe),
        ("enquanto", TokenType::Enquanto),
        ("faca", TokenType::Faca),
        ("fimenquanto", TokenType::FimEnquanto),
        ("para", TokenType::Para),
        ("de", TokenType::De),
        ("ate", TokenType::Ate),
        ("fimpara", TokenType::FimPara),
        ("funcao", TokenType::Funcao),
        ("retorne", TokenType::Retorne),
        ("fimfuncao", TokenType::FimFuncao),
        ("inteiro", TokenType::Inteiro),
        ("decimal", TokenType::Decimal),
        ("texto", TokenType::Texto),
        ("logico", TokenType::Logico),
        ("verdadeiro", TokenType::Verdadeiro),
        ("falso", TokenType::Falso),
        ("escreva", TokenType::Escreva),
        ("leia", TokenType::Leia),
        ("principal", TokenType::Principal),
    ];
    for (word, expected) in all {
        assert_eq!(types_of(word), vec![expected, TokenType::EOF]);
    }
}

#[test]
fn letters_beyond_ascii_make_identifiers() {
    assert_eq!(
        types_of("ação x2"),
        vec![
            TokenType::Identificador("ação".to_string()),
            TokenType::Identificador("x2".to_string()),
            TokenType::EOF
        ]
    );
}

#[test]
fn white_space_moves_lines_and_columns() {
    let mut lexer = Lexer::new("\t\n  x\r\n y");
    let tokens = lexer.tokenize().unwrap();
    assert_eq!((tokens[0].linha, tokens[0].coluna), (2, 3));
    assert_eq!((tokens[1].linha, tokens[1].coluna), (3, 2));
}

#[test]
fn invalid_character() {
    let e = error_of("x @");
    assert_eq!(e.message, "Caractere inválido: '@'");
    assert_eq!((e.linha, e.coluna), (1, 3));
    assert_eq!(e.recovery_suggestion, "Tente usar apenas caracteres válidos da linguagem Symplia");
    assert_eq!(e.to_string(), "ERRO LÉXICO: Linha 1, Coluna 3 - Caractere inválido: '@'");
}

#[test]
fn lexer_error_constructors() {
    let e = LexerError::new("m".to_string(), 3, 4);
    assert_eq!((e.message.as_str(), e.linha, e.coluna), ("m", 3, 4));
    assert_eq!(e.severity, ErrorSeverity::Error);
    assert_eq!(e.recovery_suggestion, "");
    assert_eq!(LexerError::invalid_char('#', 1, 2).message, "Caractere inválido: '#'");
    assert_eq!(LexerError::unterminated_string(1, 2).message, "String não foi fechada");
    assert_eq!(LexerError::invalid_number("1.", 1, 2).message, "Número inválido: '1.'");
    assert_eq!(LexerError::invalid_escape('z', 1, 2).message, "Sequência de escape inválida: '\\z'");
    assert_eq!(LexerError::unclosed_comment(5, 6).message, "Comentário de bloco não foi fechado");
    assert_eq!(LexerError::unclosed_comment(5, 6).linha, 5);
    let s = LexerError::with_recovery_suggestion("a".to_string(), 7, 8, "b".to_string());
    assert_eq!((s.message.as_str(), s.recovery_suggestion.as_str()), ("a", "b"));
    assert_eq!((s.linha, s.coluna), (7, 8));
    assert_eq!(LexerError::new("x".to_string(), 120, 7).to_string(), "ERRO LÉXICO: Linha 120, Coluna 7 - x");
}

#[test]
fn peek_reads_ahead_and_consume_hands_out_in_order() {
    let mut lexer = Lexer::new("a b c");
    assert_eq!(
        lexer.peek(1).unwrap().unwrap().token_type,
        TokenType::Identificador("b".to_string())
    );
    assert_eq!(
        lexer.peek(0).unwrap().unwrap().token_type,
        TokenType::Identificador("a".to_string())
    );
    assert!(lexer.expect(TokenType::Identificador("a".to_string())).unwrap());
    assert!(!lexer.expect(TokenType::Identificador("b".to_string())).unwrap());
    assert!(!lexer.expect(TokenType::Se).unwrap());
    assert_eq!(
        lexer.consume().unwrap().unwrap().token_type,
        TokenType::Identificador("a".to_string())
    );
    assert_eq!(
        lexer.next_token_for_parser().unwrap().token_type,
        TokenType::Identificador("b".to_string())
    );
    assert_eq!(
        lexer.next_token_for_parser().unwrap().token_type,
        TokenType::Identificador("c".to_string())
    );
    assert!(lexer.peek(0).unwrap().is_none());
    assert!(lexer.consume().unwrap().is_none());
    assert_eq!(lexer.next_token_for_parser().unwrap().token_type, TokenType::EOF);
    assert_eq!(lexer.next_token_for_parser().unwrap().token_type, TokenType::EOF);
    assert!(!lexer.expect(TokenType::EOF).unwrap());
}

#[test]
fn reset_goes_back_to_the_start() {
    let mut lexer = Lexer::new("a b");
    lexer.peek(1).unwrap();
    lexer.reset();
    assert_eq!(
        lexer.next_token_internal().unwrap().unwrap().token_type,
        TokenType::Identificador("a".to_string())
    );
    assert_eq!(lexer.get_all_tokens().unwrap().len(), 3);
}

#[test]
fn token_constructors() {
    let t = Token::new(TokenType::Identificador("é".to_string()), "é".to_string(), 2, 3);
    assert_eq!(t.comprimento, 1);
    assert_eq!((t.linha, t.coluna), (2, 3));
    let e = Token::eof(4, 5);
    assert!(e.is_eof());
    assert_eq!(e.lexema, "");
    assert_eq!(e.comprimento, 0);
    assert_eq!(TokenType::StringLiteral("s".to_string()).kind(), TokenKind::StringLiteral);
    assert_eq!(TokenType::plain(TokenKind::Identificador), TokenType::Identificador(String::new()));
    assert_eq!(TokenType::plain(TokenKind::Virgula), TokenType::Virgula);
    assert!(TokenType::InteiroLiteral(3).same(&TokenType::InteiroLiteral(3)));
    assert!(!TokenType::InteiroLiteral(3).same(&TokenType::InteiroLiteral(4)));
    assert!(!TokenType::Identificador("a".to_string()).same(&TokenType::StringLiteral("a".to_string())));
    assert!(TokenType::Se.same(&TokenType::Se));
    assert!(!TokenType::Se.same(&TokenType::Senao));
    assert_eq!(TokenType::DecimalLiteral("1.5".to_string()).duplicate(), TokenType::DecimalLiteral("1.5".to_string()));
    assert_eq!(TokenType::FimPara.duplicate(), TokenType::FimPara);
}
