use compiler::ast::{
    BinaryOperator, Block, CallExpr, Expr, ExprStmt, ForStmt, IfStmt, Literal, Parameter, Position,
    Program, ReadStmt, ReturnStmt, Statement, Type, UnaryOperator, VariableDecl, WhileStmt,
    WriteStmt,
};
use compiler::grammar::SyncSet;
use compiler::lexer::Lexer;
use compiler::parser::{binary_operator, unary_operator, Parser, ParserError};
use compiler::token::{Token, TokenKind, TokenType};

fn parse(source: &str) -> Result<Program, Vec<ParserError>> {
    Parser::parse_from_source(source)
}

const NOWHERE: Position = Position { line: 0, column: 0 };

fn at(line: usize, column: usize) -> Position {
    Position { line, column }
}

/// The block with every place in it set to `NOWHERE`.
fn unplaced_block(block: Block) -> Block {
    Block { statements: block.statements.into_iter().map(unplaced).collect() }
}

/// The statement with every place in it set to `NOWHERE`.
fn unplaced(statement: Statement) -> Statement {
    match statement {
        Statement::VariableDecl(s) => Statement::VariableDecl(VariableDecl { position: NOWHERE, ..s }),
        Statement::ExprStmt(s) => Statement::ExprStmt(ExprStmt { position: NOWHERE, ..s }),
        Statement::IfStmt(s) => Statement::IfStmt(IfStmt {
            position: NOWHERE,
            condition: s.condition,
            then_branch: unplaced_block(s.then_branch),
            else_branch: s.else_branch.map(unplaced_block),
        }),
        Statement::WhileStmt(s) => Statement::WhileStmt(WhileStmt {
            position: NOWHERE,
            condition: s.condition,
            body: unplaced_block(s.body),
        }),
        Statement::ForStmt(s) => Statement::ForStmt(ForStmt {
            position: NOWHERE,
            variable: s.variable,
            start: s.start,
            end: s.end,
            body: unplaced_block(s.body),
        }),
        Statement::ReturnStmt(s) => Statement::ReturnStmt(ReturnStmt { position: NOWHERE, ..s }),
        Statement::WriteStmt(s) => Statement::WriteStmt(WriteStmt { position: NOWHERE, ..s }),
        Statement::ReadStmt(s) => Statement::ReadStmt(ReadStmt { position: NOWHERE, ..s }),
    }
}

fn expression(source: &str) -> Expr {
    let program = parse(&format!("{};", source)).unwrap();
    assert_eq!(program.statements.len(), 1);
    match program.statements.into_iter().next().unwrap() {
        Statement::ExprStmt(s) => s.expr,
        _ => panic!("an expression statement"),
    }
}

fn body(source: &str) -> Vec<Statement> {
    let program = parse(&format!("funcao f() {{ {} }}", source)).unwrap();
    assert_eq!(program.functions.len(), 1);
    let f = program.functions.into_iter().next().unwrap();
    assert_eq!(f.position, at(1, 1));
    f.body.statements.into_iter().map(unplaced).collect()
}

fn inteiro(n: i64) -> Expr {
    Expr::Literal(Literal::Inteiro(n))
}

fn var(name: &str) -> Expr {
    Expr::Variable(name.to_string())
}

fn bin(op: BinaryOperator, l: Expr, r: Expr) -> Expr {
    Expr::BinaryOp(op, Box::new(l), Box::new(r))
}

#[test]
fn function_with_two_parameters_and_a_return() {
    let program =
        parse("funcao inteiro soma(inteiro a, inteiro b){ retorne a + b; }").unwrap();
    assert_eq!(program.statements.len(), 0);
    assert_eq!(program.functions.len(), 1);
    let f = &program.functions[0];
    assert_eq!(f.name, "soma");
    assert_eq!(f.return_type, Some(Type::Inteiro));
    assert_eq!(
        f.parameters,
        vec![
            Parameter { param_type: Type::Inteiro, name: "a".to_string() },
            Parameter { param_type: Type::Inteiro, name: "b".to_string() },
        ]
    );
    assert_eq!(
        f.body.statements,
        vec![Statement::ReturnStmt(ReturnStmt {
            position: at(1, 44),
            value: Some(bin(BinaryOperator::Add, var("a"), var("b")))
        })]
    );
    assert_eq!(f.position, at(1, 1));
}

#[test]
fn empty_input_is_an_empty_program() {
    let program = parse("").unwrap();
    assert!(program.functions.is_empty());
    assert!(program.statements.is_empty());
    let program = parse("  // nada\n").unwrap();
    assert!(program.functions.is_empty());
}

#[test]
fn function_without_return_type_or_parameters() {
    let program = parse("funcao p() { }").unwrap();
    let f = &program.functions[0];
    assert_eq!(f.return_type, None);
    assert!(f.parameters.is_empty());
    assert!(f.body.statements.is_empty());
}

#[test]
fn multiplication_binds_tighter_than_addition() {
    assert_eq!(
        expression("1 + 2 * 3"),
        bin(BinaryOperator::Add, inteiro(1), bin(BinaryOperator::Multiply, inteiro(2), inteiro(3)))
    );
    assert_eq!(
        expression("1 * 2 + 3"),
        bin(BinaryOperator::Add, bin(BinaryOperator::Multiply, inteiro(1), inteiro(2)), inteiro(3))
    );
}

#[test]
fn binary_operators_associate_to_the_left() {
    assert_eq!(
        expression("1 - 2 - 3"),
        bin(BinaryOperator::Subtract, bin(BinaryOperator::Subtract, inteiro(1), inteiro(2)), inteiro(3))
    );
    assert_eq!(
        expression("8 / 4 % 2"),
        bin(BinaryOperator::Modulo, bin(BinaryOperator::Divide, inteiro(8), inteiro(4)), inteiro(2))
    );
}

#[test]
fn all_levels_of_precedence() {
    // a || b && c == d < e + f * g
    let expected = bin(
        BinaryOperator::Or,
        var("a"),
        bin(
            BinaryOperator::And,
            var("b"),
            bin(
                BinaryOperator::Equal,
                var("c"),
                bin(
                    BinaryOperator::Less,
                    var("d"),
                    bin(
                        BinaryOperator::Add,
                        var("e"),
                        bin(BinaryOperator::Multiply, var("f"), var("g")),
                    ),
                ),
            ),
        ),
    );
    assert_eq!(expression("a || b && c == d < e + f * g"), expected);
    assert_eq!(
        expression("a != b >= c"),
        bin(BinaryOperator::NotEqual, var("a"), bin(BinaryOperator::GreaterEqual, var("b"), var("c")))
    );
}

#[test]
fn parentheses_group() {
    assert_eq!(
        expression("(1 + 2) * 3"),
        bin(BinaryOperator::Multiply, bin(BinaryOperator::Add, inteiro(1), inteiro(2)), inteiro(3))
    );
    assert_eq!(expression("((x))"), var("x"));
}

#[test]
fn prefix_operators_nest_to_the_right() {
    assert_eq!(
        expression("-!x"),
        Expr::UnaryOp(
            UnaryOperator::Negate,
            Box::new(Expr::UnaryOp(UnaryOperator::Not, Box::new(var("x"))))
        )
    );
    assert_eq!(
        expression("-1 - +2"),
        bin(
            BinaryOperator::Subtract,
            Expr::UnaryOp(UnaryOperator::Negate, Box::new(inteiro(1))),
            Expr::UnaryOp(UnaryOperator::Plus, Box::new(inteiro(2)))
        )
    );
}

#[test]
fn identifier_followed_by_parenthesis_is_a_call() {
    assert_eq!(
        expression("f(1, x + 2)"),
        Expr::Call(CallExpr {
            function: "f".to_string(),
            arguments: vec![inteiro(1), bin(BinaryOperator::Add, var("x"), inteiro(2))]
        })
    );
    assert_eq!(
        expression("g()"),
        Expr::Call(CallExpr { function: "g".to_string(), arguments: vec![] })
    );
    assert_eq!(expression("g"), var("g"));
}

#[test]
fn literals() {
    assert_eq!(expression("3.50"), Expr::Literal(Literal::Decimal("3.50".to_string())));
    assert_eq!(expression("\"oi\""), Expr::Literal(Literal::Texto("oi".to_string())));
    assert_eq!(expression("verdadeiro"), Expr::Literal(Literal::Logico(true)));
    assert_eq!(expression("falso"), Expr::Literal(Literal::Logico(false)));
}

#[test]
fn statements_of_every_kind() {
    let got = body(
        "inteiro x = 1; texto t; \
         se x < 2 entao { escreva(x, t); } senao { leia(x); } fimse \
         enquanto verdadeiro faca { x; } fimenquanto \
         para i de 1 ate 10 faca { retorne; } fimpara \
         retorne x;",
    );
    let expected = vec![
        Statement::VariableDecl(VariableDecl { position: NOWHERE,
            var_type: Type::Inteiro,
            name: "x".to_string(),
            initializer: Some(inteiro(1)),
        }),
        Statement::VariableDecl(VariableDecl { position: NOWHERE,
            var_type: Type::Texto,
            name: "t".to_string(),
            initializer: None,
        }),
        Statement::IfStmt(IfStmt { position: NOWHERE,
            condition: bin(BinaryOperator::Less, var("x"), inteiro(2)),
            then_branch: Block {
                statements: vec![Statement::WriteStmt(WriteStmt { position: NOWHERE,
                    arguments: vec![var("x"), var("t")],
                })],
            },
            else_branch: Some(Block {
                statements: vec![Statement::ReadStmt(ReadStmt { position: NOWHERE, target: var("x") })],
            }),
        }),
        Statement::WhileStmt(WhileStmt { position: NOWHERE,
            condition: Expr::Literal(Literal::Logico(true)),
            body: Block { statements: vec![Statement::ExprStmt(ExprStmt { position: NOWHERE, expr: var("x") })] },
        }),
        Statement::ForStmt(ForStmt { position: NOWHERE,
            variable: "i".to_string(),
            start: inteiro(1),
            end: inteiro(10),
            body: Block { statements: vec![Statement::ReturnStmt(ReturnStmt { position: NOWHERE, value: None })] },
        }),
        Statement::ReturnStmt(ReturnStmt { position: NOWHERE, value: Some(var("x")) }),
    ];
    assert_eq!(got, expected);
}

#[test]
fn if_without_else() {
    let got = body("se a entao { } fimse");
    assert_eq!(
        got,
        vec![Statement::IfStmt(IfStmt { position: NOWHERE,
            condition: var("a"),
            then_branch: Block { statements: vec![] },
            else_branch: None,
        })]
    );
}

#[test]
fn top_level_statements_and_functions_are_kept_apart() {
    let program = parse("escreva(1); funcao f() { } leia(x); funcao g() { }").unwrap();
    assert_eq!(program.functions.len(), 2);
    assert_eq!(program.functions[1].name, "g");
    assert_eq!(
        program.statements,
        vec![
            Statement::WriteStmt(WriteStmt { position: at(1, 1), arguments: vec![inteiro(1)] }),
            Statement::ReadStmt(ReadStmt { position: at(1, 28), target: var("x") }),
        ]
    );
    assert_eq!(program.functions[0].position, at(1, 13));
    assert_eq!(program.functions[1].position, at(1, 37));
}

#[test]
fn a_declaration_at_the_top_level_is_parsed() {
    let program = parse("inteiro x = 1;").unwrap();
    assert!(program.functions.is_empty());
    assert_eq!(
        program.statements,
        vec![Statement::VariableDecl(VariableDecl {
            position: at(1, 1),
            var_type: Type::Inteiro,
            name: "x".to_string(),
            initializer: Some(inteiro(1)),
        })]
    );
    let program = parse("texto t;\nfuncao f() { }\n  logico b = verdadeiro; escreva(t);").unwrap();
    assert_eq!(program.functions.len(), 1);
    assert_eq!(program.functions[0].position, at(2, 1));
    assert_eq!(
        program.statements,
        vec![
            Statement::VariableDecl(VariableDecl {
                position: at(1, 1),
                var_type: Type::Texto,
                name: "t".to_string(),
                initializer: None,
            }),
            Statement::VariableDecl(VariableDecl {
                position: at(3, 3),
                var_type: Type::Logico,
                name: "b".to_string(),
                initializer: Some(Expr::Literal(Literal::Logico(true))),
            }),
            Statement::WriteStmt(WriteStmt { position: at(3, 26), arguments: vec![var("t")] }),
        ]
    );
}

#[test]
fn an_expression_cannot_start_with_a_keyword() {
    let errors = parse("entao;").unwrap_err();
    assert_eq!(errors.len(), 1);
    assert_eq!(errors[0].message, "Esperado expressão");
    assert_eq!(errors[0].found, TokenType::Entao);
    assert_eq!((errors[0].linha, errors[0].coluna), (1, 1));
    assert_eq!(
        errors[0].expected,
        vec![
            TokenType::InteiroLiteral(0),
            TokenType::DecimalLiteral(String::new()),
            TokenType::StringLiteral(String::new()),
            TokenType::Verdadeiro,
            TokenType::Falso,
            TokenType::Identificador(String::new()),
            TokenType::ParenteseEsquerdo,
        ]
    );
}

#[test]
fn the_top_level_resumes_at_a_declaration() {
    let errors = parse(") 1 2 inteiro x = ; texto t; 3 + ;").unwrap_err();
    assert_eq!(errors.len(), 3);
    assert_eq!((errors[0].found.clone(), errors[0].coluna), (TokenType::ParenteseDireito, 1));
    assert_eq!((errors[1].found.clone(), errors[1].coluna), (TokenType::PontoEVirgula, 19));
    assert_eq!((errors[2].found.clone(), errors[2].coluna), (TokenType::PontoEVirgula, 34));
}

#[test]
fn missing_semicolon() {
    let errors = parse("x").unwrap_err();
    assert_eq!(errors.len(), 1);
    assert_eq!(errors[0].message, "Token inesperado");
    assert_eq!(errors[0].expected, vec![TokenType::PontoEVirgula]);
    assert_eq!(errors[0].found, TokenType::EOF);
    assert_eq!((errors[0].linha, errors[0].coluna), (1, 2));
    assert_eq!(errors[0].to_string(), "ERRO SINTÁTICO: Linha 1, Coluna 2 - Token inesperado");
}

#[test]
fn messages_of_the_productions() {
    let first = |source: &str| parse(source).unwrap_err().remove(0);
    assert_eq!(first("funcao 1() { }").message, "Esperado identificador para nome da função");
    assert_eq!(first("funcao f(inteiro) { }").message, "Esperado identificador para parâmetro");
    assert_eq!(first("funcao f(inteiro a, b) { }").message, "Esperado tipo de dado");
    assert_eq!(
        first("funcao f(inteiro a, b) { }").expected,
        vec![TokenType::Inteiro, TokenType::Decimal, TokenType::Texto, TokenType::Logico]
    );
    assert_eq!(first("funcao f() { inteiro 1; }").message, "Esperado identificador para variável");
    assert_eq!(
        first("para 1 de 1 ate 2 faca { } fimpara").message,
        "Esperado identificador para variável do loop"
    );
    assert_eq!(
        first("para 1 de 1 ate 2 faca { } fimpara").expected,
        vec![TokenType::Identificador(String::new())]
    );
    assert_eq!(first("se x { } fimse").expected, vec![TokenType::Entao]);
    assert_eq!(first("enquanto x faca { }").expected, vec![TokenType::FimEnquanto]);
}

#[test]
fn each_function_reports_its_own_error() {
    let errors = parse("funcao f() { retorne 1 } funcao g() { retorne 2 }").unwrap_err();
    assert_eq!(errors.len(), 2);
    assert_eq!(errors[0].expected, vec![TokenType::PontoEVirgula]);
    assert_eq!(errors[0].found, TokenType::ChaveDireita);
    assert_eq!(errors[0].coluna, 24);
    assert_eq!(errors[1].expected, vec![TokenType::PontoEVirgula]);
    assert_eq!(errors[1].coluna, 49);
}

#[test]
fn two_functions_each_missing_their_closing_delimiter() {
    let errors = parse("funcao f() { retorne 1; funcao g() { retorne 2;").unwrap_err();
    assert_eq!(errors.len(), 2);
    assert_eq!(errors[0].message, "Esperado expressão");
    assert_eq!(errors[0].found, TokenType::Funcao);
    assert_eq!(errors[1].message, "Token inesperado");
    assert_eq!(errors[1].expected, vec![TokenType::ChaveDireita]);
    assert_eq!(errors[1].found, TokenType::EOF);
}

#[test]
fn a_block_goes_on_after_a_statement_that_failed() {
    let errors =
        parse("funcao f() { x = ; inteiro y = ; retorne 1 + ; }").unwrap_err();
    assert_eq!(errors.len(), 3);
    assert_eq!(errors[0].found, TokenType::Atribuicao);
    assert_eq!(errors[1].found, TokenType::PontoEVirgula);
    assert_eq!(errors[2].found, TokenType::PontoEVirgula);
}

#[test]
fn recovery_gives_up_after_fifty_tokens() {
    let near = format!(") {} funcao f( {{}}", "1 ".repeat(10));
    assert_eq!(parse(&near).unwrap_err().len(), 2);
    let at_limit = format!(") {} funcao f( {{}}", "1 ".repeat(49));
    assert_eq!(parse(&at_limit).unwrap_err().len(), 2);
    let far = format!(") {} funcao f( {{}}", "1 ".repeat(60));
    assert_eq!(parse(&far).unwrap_err().len(), 1);
    let just_over = format!(") {} funcao f( {{}}", "1 ".repeat(50));
    assert_eq!(parse(&just_over).unwrap_err().len(), 1);
}

#[test]
fn a_lexical_error_is_returned_as_a_syntax_error() {
    let errors = parse("x = @;").unwrap_err();
    assert_eq!(errors.len(), 1);
    assert_eq!(errors[0].message, "ERRO LÉXICO: Linha 1, Coluna 5 - Caractere inválido: '@'");
    assert_eq!((errors[0].linha, errors[0].coluna), (1, 5));
    assert!(errors[0].expected.is_empty());
    assert_eq!(errors[0].found, TokenType::EOF);
    assert!(Parser::new(Lexer::new("\"aberta")).is_err());
}

#[test]
fn parser_over_tokens_by_hand() {
    let tokens = vec![
        Token::new(TokenType::Identificador("x".to_string()), "x".to_string(), 1, 1),
        Token::new(TokenType::PontoEVirgula, ";".to_string(), 1, 2),
    ];
    let mut parser = Parser::from_tokens(tokens);
    assert_eq!(parser.current_kind(), TokenKind::Identificador);
    assert_eq!(parser.peek(0), TokenType::PontoEVirgula);
    assert_eq!(parser.peek(1), TokenType::EOF);
    assert!(parser.check(TokenKind::Identificador));
    assert!(!parser.has_errors());
    assert_eq!(parser.current_position(), at(1, 1));
    let program = parser.parse_program().unwrap();
    assert_eq!(
        program.statements,
        vec![Statement::ExprStmt(ExprStmt { position: at(1, 1), expr: var("x") })]
    );
    assert_eq!(parser.current_kind(), TokenKind::EOF);
}

#[test]
fn expect_records_and_consume_does_not() {
    let mut parser = Parser::new(Lexer::new("a b")).unwrap();
    assert!(parser.consume(TokenKind::Se).is_err());
    assert!(!parser.has_errors());
    assert!(!parser.expect(TokenKind::Se));
    assert!(parser.has_errors());
    assert_eq!(parser.get_errors().len(), 1);
    assert_eq!(parser.get_errors()[0].found, TokenType::Identificador("a".to_string()));
    assert!(parser.expect(TokenKind::Identificador));
    assert!(parser.consume(TokenKind::Identificador).is_ok());
    parser.advance();
    parser.advance();
    assert_eq!(parser.current_kind(), TokenKind::EOF);
    let errors = parser.parse_program().unwrap_err();
    assert_eq!(errors.len(), 1);
    assert!(!parser.has_errors());
}

#[test]
fn sync_recovery_stops_at_a_token_of_the_set() {
    let mut parser = Parser::new(Lexer::new("1 2 se 3 funcao")).unwrap();
    parser.sync_recovery(SyncSet::Block);
    assert_eq!(parser.current_kind(), TokenKind::Se);
    parser.sync_recovery(SyncSet::Block);
    assert_eq!(parser.current_kind(), TokenKind::Se);
    parser.sync_recovery(SyncSet::Function);
    assert_eq!(parser.current_kind(), TokenKind::Funcao);
    parser.advance();
    parser.sync_recovery(SyncSet::TopLevel);
    assert_eq!(parser.current_kind(), TokenKind::EOF);
    assert!(SyncSet::TopLevel.contains(TokenKind::Texto));
    assert!(!SyncSet::Function.contains(TokenKind::Texto));
}

#[test]
fn operator_tables() {
    assert_eq!(binary_operator(0, TokenKind::OuLogico), Some(BinaryOperator::Or));
    assert_eq!(binary_operator(1, TokenKind::OuLogico), None);
    assert_eq!(binary_operator(5, TokenKind::Modulo), Some(BinaryOperator::Modulo));
    assert_eq!(binary_operator(4, TokenKind::Menos), Some(BinaryOperator::Subtract));
    assert_eq!(binary_operator(6, TokenKind::Mais), None);
    assert_eq!(unary_operator(TokenKind::NaoLogico), Some(UnaryOperator::Not));
    assert_eq!(unary_operator(TokenKind::Multiplicacao), None);
}
