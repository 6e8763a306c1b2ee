use compiler::ast::{
    BinaryOperator, Block, Expr, ExprStmt, FunctionDecl, Literal, Parameter, Position, Program,
    ReturnStmt, Statement, Type, VariableDecl, WriteStmt,
};
use compiler::parser::Parser;
use compiler::semantic::{SemanticAnalysisResult, SemanticAnalyzer};
use compiler::symbol_table::Symbol;

fn analyze(source: &str) -> SemanticAnalysisResult {
    let program = Parser::parse_from_source(source).unwrap();
    SemanticAnalyzer::new().analyze(program)
}

fn at(line: usize, column: usize) -> Position {
    Position { line, column }
}

fn places(result: &SemanticAnalysisResult) -> Vec<(usize, usize)> {
    result.errors.iter().map(|e| (e.line, e.column)).collect()
}

fn messages(result: &SemanticAnalysisResult) -> Vec<String> {
    result.errors.iter().map(|e| e.message.clone()).collect()
}

#[test]
fn valid_program_comes_back_whole() {
    let source = "funcao inteiro dobro(inteiro n) { retorne n * 2; } \
                  funcao principal2() { inteiro x = dobro(4); \
                  se x > 3 entao { escreva(\"grande\", x); } senao { leia(x); } fimse \
                  enquanto x < 10 faca { inteiro y = x + 1; escreva(y); } fimenquanto \
                  para i de 1 ate x faca { escreva(x); } fimpara retorne; } \
                  inteiro total = dobro(1); escreva(total); dobro(2);";
    let program = Parser::parse_from_source(source).unwrap();
    let same = Parser::parse_from_source(source).unwrap();
    let result = SemanticAnalyzer::new().analyze(program);
    assert_eq!(messages(&result), Vec::<String>::new());
    assert_eq!(result.annotated_ast.functions.len(), 2);
    assert_eq!(result.annotated_ast.statements.len(), 3);
    assert_eq!(result.annotated_ast, same);
}

#[test]
fn sum_function_scenario() {
    let result = analyze("funcao inteiro soma(inteiro a, inteiro b){ retorne a + b; }");
    assert!(result.errors.is_empty());
    assert_eq!(result.annotated_ast.functions.len(), 1);
    let f = &result.annotated_ast.functions[0];
    assert_eq!(f.name, "soma");
    assert_eq!(f.return_type, Some(Type::Inteiro));
    assert_eq!(f.parameters.len(), 2);
    assert!(f.parameters.iter().all(|p| p.param_type == Type::Inteiro));
    assert_eq!(f.body.statements.len(), 1);
    assert!(matches!(f.body.statements[0], Statement::ReturnStmt(_)));
    match result.symbol_table.lookup("soma") {
        Some(Symbol::Function { declaration }) => assert_eq!(declaration.name, "soma"),
        _ => panic!("soma is declared"),
    }
}

#[test]
fn annotation_of_a_statement_has_the_inferred_type() {
    let mut analyzer = SemanticAnalyzer::new();
    let sum = Expr::BinaryOp(
        BinaryOperator::Add,
        Box::new(Expr::Literal(Literal::Inteiro(1))),
        Box::new(Expr::Literal(Literal::Inteiro(2))),
    );
    let statement = Statement::ExprStmt(ExprStmt { position: at(4, 2), expr: sum.duplicate() });
    let annotated = analyzer.check_and_annotate_statement(&statement).unwrap();
    assert_eq!(annotated.statement, statement);
    assert_eq!(annotated.expr_annotations.len(), 1);
    assert_eq!(annotated.expr_annotations[0].type_, Type::Inteiro);
    assert_eq!(annotated.expr_annotations[0].expr, sum);
    let (a, t) = analyzer
        .check_and_annotate_expression(&Expr::Literal(Literal::Decimal("1.5".to_string())), at(1, 1))
        .unwrap();
    assert_eq!((a.type_, t), (Type::Decimal, Type::Decimal));
    assert!(analyzer.check_and_annotate_expression(&Expr::Variable("v".to_string()), at(7, 3)).is_err());
    let result = analyzer.analyze(Program { functions: vec![], statements: vec![] });
    assert_eq!(places(&result), vec![(7, 3)]);
}

#[test]
fn return_in_a_function_is_annotated_with_the_return_type() {
    let f = FunctionDecl {
        position: at(1, 1),
        return_type: Some(Type::Inteiro),
        name: "soma".to_string(),
        parameters: vec![
            Parameter { param_type: Type::Inteiro, name: "a".to_string() },
            Parameter { param_type: Type::Inteiro, name: "b".to_string() },
        ],
        body: Block {
            statements: vec![Statement::ReturnStmt(ReturnStmt {
                position: at(1, 44),
                value: Some(Expr::BinaryOp(
                    BinaryOperator::Add,
                    Box::new(Expr::Variable("a".to_string())),
                    Box::new(Expr::Variable("b".to_string())),
                )),
            })],
        },
    };
    let mut analyzer = SemanticAnalyzer::new();
    let checked = analyzer.check_and_annotate_function(&f).unwrap();
    assert_eq!(checked, f);
    let result = analyzer.analyze(Program { functions: vec![], statements: vec![] });
    assert!(result.errors.is_empty());
}

#[test]
fn read_of_a_literal_is_dropped_and_its_neighbours_stay() {
    let result = analyze("escreva(1); leia(5); escreva(2);");
    assert_eq!(messages(&result), vec!["Comando 'leia' só pode ser usado com variáveis"]);
    assert_eq!(places(&result), vec![(1, 13)]);
    assert_eq!(
        result.annotated_ast.statements,
        vec![
            Statement::WriteStmt(WriteStmt {
                position: at(1, 1),
                arguments: vec![Expr::Literal(Literal::Inteiro(1))],
            }),
            Statement::WriteStmt(WriteStmt {
                position: at(1, 22),
                arguments: vec![Expr::Literal(Literal::Inteiro(2))],
            }),
        ]
    );
}

#[test]
fn duplicate_function_names() {
    let source = "funcao inteiro f(){ retorne 1; } funcao inteiro f(){ retorne 2; }";
    let result = analyze(source);
    assert_eq!(messages(&result), vec!["Símbolo 'f' já declarado neste escopo"]);
    assert_eq!(places(&result), vec![(1, 34)]);
    let first = Parser::parse_from_source(source).unwrap().functions.remove(0);
    match result.symbol_table.lookup("f") {
        Some(Symbol::Function { declaration }) => assert_eq!(declaration, &first),
        _ => panic!("f is declared"),
    }
    assert_eq!(result.annotated_ast.functions, vec![first]);
}

#[test]
fn a_duplicate_is_left_out_even_where_it_alone_has_a_fault() {
    let result = analyze("funcao f(){ } funcao f(){ leia(1); } funcao g(){ leia(2); }");
    assert_eq!(
        messages(&result),
        vec![
            "Símbolo 'f' já declarado neste escopo",
            "Comando 'leia' só pode ser usado com variáveis"
        ]
    );
    assert_eq!(places(&result), vec![(1, 15), (1, 50)]);
    let names: Vec<&str> = result.annotated_ast.functions.iter().map(|f| f.name.as_str()).collect();
    assert_eq!(names, vec!["f", "g"]);
    assert!(result.annotated_ast.functions[0].body.statements.is_empty());
}

#[test]
fn functions_may_call_each_other_in_any_order() {
    let result = analyze(
        "funcao inteiro a() { retorne b(); } funcao inteiro b() { retorne a(); }",
    );
    assert!(result.errors.is_empty());
    assert_eq!(result.annotated_ast.functions.len(), 2);
}

#[test]
fn parameter_and_inner_variable_of_one_name_do_not_conflict() {
    let result = analyze(
        "funcao inteiro f(inteiro x) { \
            enquanto verdadeiro faca { texto x = \"a\"; escreva(x < \"b\"); } fimenquanto \
            retorne x + 1; }",
    );
    assert_eq!(messages(&result), Vec::<String>::new());
    assert_eq!(result.annotated_ast.functions[0].body.statements.len(), 2);
}

#[test]
fn parameter_and_body_variable_live_in_nested_scopes() {
    let result = analyze("funcao f(inteiro x) { texto x = \"a\"; }");
    assert!(result.errors.is_empty());
    let result = analyze("funcao f(inteiro x, texto x) { }");
    assert_eq!(messages(&result), vec!["Símbolo 'x' já declarado neste escopo"]);
    assert!(result.annotated_ast.functions.is_empty());
}

#[test]
fn redeclaration_in_one_block_is_an_error() {
    let result = analyze("funcao f() { inteiro a = 1; inteiro a = 2; escreva(a); }");
    assert_eq!(messages(&result), vec!["Símbolo 'a' já declarado neste escopo"]);
    assert_eq!(result.annotated_ast.functions[0].body.statements.len(), 2);
}

#[test]
fn initializer_must_have_the_declared_type_exactly() {
    let result = analyze("funcao f() { decimal d = 1; inteiro i = 1; }");
    assert_eq!(
        messages(&result),
        vec!["Tipo do inicializador (inteiro) não corresponde ao tipo da variável (decimal)"]
    );
    assert_eq!(result.annotated_ast.functions[0].body.statements.len(), 1);
    let result = analyze("funcao f() { inteiro i = nada; escreva(i); }");
    assert_eq!(messages(&result), vec!["Variável 'nada' não declarada"]);
    assert_eq!(result.annotated_ast.functions[0].body.statements.len(), 1);
}

#[test]
fn conditions_must_be_logical() {
    let result = analyze("se 1 entao { } fimse enquanto \"a\" faca { } fimenquanto");
    assert_eq!(
        messages(&result),
        vec!["Condição do if deve ser do tipo lógico", "Condição do while deve ser do tipo lógico"]
    );
    assert!(result.annotated_ast.statements.is_empty());
}

#[test]
fn return_must_fit_the_function() {
    let result = analyze(
        "funcao inteiro a() { retorne; } funcao b() { retorne 1; } \
         funcao inteiro c() { retorne \"x\"; } funcao d() { retorne; }",
    );
    assert_eq!(
        messages(&result),
        vec![
            "Retorno sem valor em função com tipo de retorno",
            "Retorno com valor em função sem tipo de retorno",
            "Tipo de retorno esperado: inteiro, encontrado: texto",
        ]
    );
    assert_eq!(result.annotated_ast.functions.len(), 4);
    let kept: Vec<usize> =
        result.annotated_ast.functions.iter().map(|f| f.body.statements.len()).collect();
    assert_eq!(kept, vec![0, 0, 0, 1]);
    let result = analyze("retorne; retorne 1;");
    assert_eq!(messages(&result), vec!["Retorno com valor em função sem tipo de retorno"]);
    assert_eq!(result.annotated_ast.statements.len(), 1);
}

#[test]
fn write_takes_any_type_and_fails_on_its_first_bad_argument() {
    let result = analyze("escreva(1, 2.5, \"a\", verdadeiro); escreva(1, x, y);");
    assert_eq!(messages(&result), vec!["Variável 'x' não declarada"]);
    assert_eq!(result.annotated_ast.statements.len(), 1);
}

#[test]
fn loop_variable_is_not_declared() {
    let result = analyze("para i de 1 ate 3 faca { escreva(i); escreva(1); } fimpara");
    assert_eq!(messages(&result), vec!["Variável 'i' não declarada"]);
    assert_eq!(result.annotated_ast.statements.len(), 1);
    match &result.annotated_ast.statements[0] {
        Statement::ForStmt(f) => assert_eq!(f.body.statements.len(), 1),
        _ => panic!("a loop"),
    }
    let result = analyze("para i de 1 ate falta faca { } fimpara");
    assert_eq!(messages(&result), vec!["Variável 'falta' não declarada"]);
    assert!(result.annotated_ast.statements.is_empty());
}

#[test]
fn a_failure_inside_a_block_keeps_the_statement_around_it() {
    let result = analyze("se verdadeiro entao { leia(1); escreva(2); } senao { x; } fimse");
    assert_eq!(
        messages(&result),
        vec!["Comando 'leia' só pode ser usado com variáveis", "Variável 'x' não declarada"]
    );
    match &result.annotated_ast.statements[0] {
        Statement::IfStmt(s) => {
            assert_eq!(s.then_branch.statements.len(), 1);
            assert_eq!(s.else_branch.as_ref().unwrap().statements.len(), 0);
        }
        _ => panic!("a conditional"),
    }
}

#[test]
fn top_level_variable_is_declared_by_the_first_pass() {
    let program = Program {
        functions: vec![],
        statements: vec![
            Statement::VariableDecl(VariableDecl {
                position: at(1, 1),
                var_type: Type::Inteiro,
                name: "x".to_string(),
                initializer: Some(Expr::Literal(Literal::Inteiro(1))),
            }),
            Statement::WriteStmt(WriteStmt {
                position: at(2, 1),
                arguments: vec![Expr::Variable("x".to_string())],
            }),
        ],
    };
    let result = SemanticAnalyzer::new().analyze(program);
    assert_eq!(messages(&result), Vec::<String>::new());
    assert_eq!(result.annotated_ast.statements.len(), 2);
    assert!(matches!(result.symbol_table.lookup("x"), Some(Symbol::Variable { .. })));
    let result = analyze("inteiro x = 1; escreva(x);");
    assert!(result.errors.is_empty());
    assert_eq!(result.annotated_ast.statements.len(), 2);
}

#[test]
fn top_level_variables_are_known_to_functions_and_to_earlier_statements() {
    let result = analyze("escreva(g); funcao inteiro f() { retorne g + 1; } inteiro g = 2;");
    assert_eq!(messages(&result), Vec::<String>::new());
    assert_eq!(result.annotated_ast.statements.len(), 2);
    assert_eq!(result.annotated_ast.functions.len(), 1);
}

#[test]
fn of_two_top_level_variables_of_one_name_the_first_stays() {
    let result = analyze("inteiro x = 1; texto x = \"a\"; escreva(x + 1);");
    assert_eq!(messages(&result), vec!["Símbolo 'x' já declarado neste escopo"]);
    assert_eq!(places(&result), vec![(1, 16)]);
    assert_eq!(result.annotated_ast.statements.len(), 2);
    match &result.annotated_ast.statements[0] {
        Statement::VariableDecl(d) => assert_eq!(d.var_type, Type::Inteiro),
        _ => panic!("the first declaration"),
    }
    let result = analyze("funcao f() { } inteiro f = 1;");
    assert_eq!(messages(&result), vec!["Símbolo 'f' já declarado neste escopo"]);
    assert_eq!(places(&result), vec![(1, 16)]);
    assert!(result.annotated_ast.statements.is_empty());
    assert_eq!(result.annotated_ast.functions.len(), 1);
}

#[test]
fn top_level_initializer_must_have_the_declared_type() {
    let result = analyze("decimal d = 1;\ninteiro i = nada;\ninteiro k = 3;");
    assert_eq!(
        messages(&result),
        vec![
            "Tipo do inicializador (inteiro) não corresponde ao tipo da variável (decimal)",
            "Variável 'nada' não declarada"
        ]
    );
    assert_eq!(places(&result), vec![(1, 1), (2, 1)]);
    assert_eq!(result.annotated_ast.statements.len(), 1);
}

#[test]
fn diagnostics_carry_the_place_of_their_statement() {
    let result = analyze(
        "funcao inteiro f(inteiro a, texto a) { }\n\
         funcao g() {\n\
         \x20   se 1 entao {\n\
         \x20       retorne 5;\n\
         \x20   } fimse\n\
         \x20   enquanto verdadeiro faca { leia(2); } fimenquanto\n\
         }\n\
         escreva(nada);",
    );
    assert_eq!(
        messages(&result),
        vec![
            "Variável 'nada' não declarada",
            "Símbolo 'a' já declarado neste escopo",
            "Condição do if deve ser do tipo lógico",
            "Comando 'leia' só pode ser usado com variáveis",
        ]
    );
    assert_eq!(places(&result), vec![(8, 1), (1, 1), (3, 5), (6, 32)]);
    assert!(result.errors.iter().all(|e| e.line >= 1 && e.column >= 1));
}

#[test]
fn report_error_keeps_the_place() {
    let mut analyzer = SemanticAnalyzer::new();
    analyzer.report_error("aviso", 3, 9);
    let result = analyzer.analyze(Program { functions: vec![], statements: vec![] });
    assert_eq!(result.errors.len(), 1);
    assert_eq!(
        (result.errors[0].message.as_str(), result.errors[0].line, result.errors[0].column),
        ("aviso", 3, 9)
    );
}

#[test]
fn duplicates_have_the_same_value() {
    let program = Parser::parse_from_source(
        "funcao inteiro f(inteiro a) { se a > 0 entao { retorne f(a - 1); } fimse retorne -a; }",
    )
    .unwrap();
    let f = &program.functions[0];
    assert_eq!(&f.duplicate(), f);
    assert_eq!(f.body.duplicate(), f.body);
    assert_eq!(f.body.statements[0].duplicate(), f.body.statements[0]);
    assert_eq!(f.parameters[0].duplicate(), f.parameters[0]);
    assert_eq!(Literal::Texto("a".to_string()).duplicate(), Literal::Texto("a".to_string()));
}
