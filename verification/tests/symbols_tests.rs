use compiler::ast::{
    BinaryOperator, Block, CallExpr, Expr, FunctionDecl, Literal, Parameter, Position, Type,
    UnaryOperator,
};
use compiler::symbol_table::{Symbol, SymbolTable};
use compiler::type_checker::{TypeChecker, TypeError};

fn variable(name: &str, type_: Type) -> Symbol {
    Symbol::Variable { name: name.to_string(), type_, defined: true }
}

fn function(name: &str, return_type: Option<Type>, params: Vec<Type>) -> Symbol {
    Symbol::Function {
        declaration: FunctionDecl {
            position: Position { line: 1, column: 1 },
            return_type,
            name: name.to_string(),
            parameters: params
                .into_iter()
                .enumerate()
                .map(|(i, t)| Parameter { param_type: t, name: format!("p{}", i) })
                .collect(),
            body: Block { statements: vec![] },
        },
    }
}

fn type_of(symbol: Option<&Symbol>) -> Option<Type> {
    match symbol {
        Some(Symbol::Variable { type_, .. }) => Some(*type_),
        _ => None,
    }
}

fn inteiro(n: i64) -> Expr {
    Expr::Literal(Literal::Inteiro(n))
}

fn dec(s: &str) -> Expr {
    Expr::Literal(Literal::Decimal(s.to_string()))
}

fn text(s: &str) -> Expr {
    Expr::Literal(Literal::Texto(s.to_string()))
}

fn logic(b: bool) -> Expr {
    Expr::Literal(Literal::Logico(b))
}

fn binary(op: BinaryOperator, l: Expr, r: Expr) -> Expr {
    Expr::BinaryOp(op, Box::new(l), Box::new(r))
}

fn infer(e: &Expr, t: &SymbolTable) -> Result<Type, String> {
    TypeChecker::infer_expression_type(e, t).map_err(|e| e.message())
}

#[test]
fn insert_then_lookup() {
    let mut t = SymbolTable::new();
    assert!(t.lookup("x").is_none());
    assert!(t.insert_symbol("x".to_string(), variable("x", Type::Inteiro)).is_ok());
    assert_eq!(type_of(t.lookup("x")), Some(Type::Inteiro));
    assert_eq!(type_of(t.lookup_current_scope("x")), Some(Type::Inteiro));
    assert!(t.lookup("y").is_none());
}

#[test]
fn duplicate_in_one_scope_is_refused() {
    let mut t = SymbolTable::new();
    t.insert_symbol("x".to_string(), variable("x", Type::Inteiro)).unwrap();
    let e = t.insert_symbol("x".to_string(), variable("x", Type::Texto)).unwrap_err();
    assert_eq!(e, "Símbolo 'x' já declarado neste escopo");
    assert_eq!(type_of(t.lookup("x")), Some(Type::Inteiro));
}

#[test]
fn shadowing_resolves_by_position_in_the_scope_chain() {
    let mut t = SymbolTable::new();
    t.enter_scope();
    t.insert_symbol("x".to_string(), variable("x", Type::Inteiro)).unwrap();
    t.enter_scope();
    assert_eq!(type_of(t.lookup("x")), Some(Type::Inteiro));
    assert!(t.lookup_current_scope("x").is_none());
    assert!(t.insert_symbol("x".to_string(), variable("x", Type::Texto)).is_ok());
    assert_eq!(type_of(t.lookup("x")), Some(Type::Texto));
    t.exit_scope();
    assert_eq!(type_of(t.lookup("x")), Some(Type::Inteiro));
    t.exit_scope();
    assert!(t.lookup("x").is_none());
}

#[test]
fn exit_at_the_global_scope_changes_nothing() {
    let mut t = SymbolTable::new();
    t.insert_symbol("g".to_string(), variable("g", Type::Logico)).unwrap();
    t.exit_scope();
    t.exit_scope();
    assert_eq!(type_of(t.lookup("g")), Some(Type::Logico));
    assert!(t.insert_symbol("g".to_string(), variable("g", Type::Logico)).is_err());
}

#[test]
fn a_scope_that_was_left_is_not_searched() {
    let mut t = SymbolTable::new();
    t.enter_scope();
    t.insert_symbol("a".to_string(), variable("a", Type::Inteiro)).unwrap();
    t.exit_scope();
    t.enter_scope();
    assert!(t.lookup("a").is_none());
    assert!(t.insert_symbol("a".to_string(), variable("a", Type::Decimal)).is_ok());
    assert_eq!(type_of(t.lookup("a")), Some(Type::Decimal));
}

#[test]
fn update_variable_definition_marks_the_innermost_variable() {
    let mut t = SymbolTable::new();
    t.insert_symbol(
        "v".to_string(),
        Symbol::Variable { name: "v".to_string(), type_: Type::Inteiro, defined: false },
    )
    .unwrap();
    t.enter_scope();
    t.insert_symbol("v".to_string(), function("v", None, vec![])).unwrap();
    assert!(t.update_variable_definition("v").is_ok());
    t.exit_scope();
    match t.lookup("v") {
        Some(Symbol::Variable { defined, type_, name }) => {
            assert!(*defined);
            assert_eq!(*type_, Type::Inteiro);
            assert_eq!(name, "v");
        }
        _ => panic!("v is a variable"),
    }
    assert_eq!(t.update_variable_definition("w").unwrap_err(), "Variável 'w' não encontrada");
}

#[test]
fn duplicate_of_a_table_is_independent() {
    let mut t = SymbolTable::new();
    t.insert_symbol("x".to_string(), variable("x", Type::Inteiro)).unwrap();
    let copy = t.duplicate();
    t.insert_symbol("y".to_string(), variable("y", Type::Inteiro)).unwrap();
    assert_eq!(type_of(copy.lookup("x")), Some(Type::Inteiro));
    assert!(copy.lookup("y").is_none());
}

#[test]
fn literals_have_their_types() {
    let t = SymbolTable::new();
    assert_eq!(infer(&inteiro(1), &t), Ok(Type::Inteiro));
    assert_eq!(infer(&dec("2.0"), &t), Ok(Type::Decimal));
    assert_eq!(infer(&text("a"), &t), Ok(Type::Texto));
    assert_eq!(infer(&logic(true), &t), Ok(Type::Logico));
}

#[test]
fn type_promotion() {
    let t = SymbolTable::new();
    assert_eq!(infer(&binary(BinaryOperator::Add, inteiro(1), dec("2.0")), &t), Ok(Type::Decimal));
    assert_eq!(infer(&binary(BinaryOperator::Multiply, dec("2.0"), inteiro(1)), &t), Ok(Type::Decimal));
    assert_eq!(infer(&binary(BinaryOperator::Subtract, inteiro(1), inteiro(2)), &t), Ok(Type::Inteiro));
    assert_eq!(infer(&binary(BinaryOperator::Divide, dec("1.0"), dec("2.0")), &t), Ok(Type::Decimal));
    assert_eq!(
        infer(&binary(BinaryOperator::Equal, inteiro(1), dec("2.0")), &t),
        Err("Operador '==' requer operandos do mesmo tipo: inteiro != decimal".to_string())
    );
    assert_eq!(infer(&binary(BinaryOperator::Less, text("a"), text("b")), &t), Ok(Type::Logico));
    assert_eq!(
        infer(&binary(BinaryOperator::Modulo, inteiro(5), dec("2.0")), &t),
        Err("Operador '%' requer operandos inteiros".to_string())
    );
    assert_eq!(infer(&binary(BinaryOperator::Modulo, inteiro(5), inteiro(2)), &t), Ok(Type::Inteiro));
}

#[test]
fn binary_operator_rules() {
    let t = SymbolTable::new();
    assert_eq!(
        infer(&binary(BinaryOperator::Add, text("a"), text("b")), &t),
        Err("Operador '+' não suportado para tipos texto e texto".to_string())
    );
    assert_eq!(infer(&binary(BinaryOperator::NotEqual, text("a"), text("b")), &t), Ok(Type::Logico));
    assert_eq!(infer(&binary(BinaryOperator::GreaterEqual, inteiro(1), dec("2.5")), &t), Ok(Type::Logico));
    assert_eq!(
        infer(&binary(BinaryOperator::Greater, logic(true), logic(false)), &t),
        Err("Operador '>' não suportado para tipos logico e logico".to_string())
    );
    assert_eq!(infer(&binary(BinaryOperator::And, logic(true), logic(false)), &t), Ok(Type::Logico));
    assert_eq!(
        infer(&binary(BinaryOperator::Or, logic(true), inteiro(1)), &t),
        Err("Operador '||' requer operandos lógicos".to_string())
    );
    assert_eq!(
        TypeChecker::check_arithmetic_operation(Type::Inteiro, Type::Decimal, BinaryOperator::Add).ok(),
        Some(Type::Decimal)
    );
    assert_eq!(
        TypeChecker::check_comparison_operation(Type::Texto, Type::Inteiro, BinaryOperator::Less)
            .map_err(|e| e.message()),
        Err("Operador '<' não suportado para tipos texto e inteiro".to_string())
    );
}

#[test]
fn left_operand_errors_come_first() {
    let t = SymbolTable::new();
    let e = binary(
        BinaryOperator::Add,
        Expr::Variable("a".to_string()),
        Expr::Variable("b".to_string()),
    );
    assert_eq!(infer(&e, &t), Err("Variável 'a' não declarada".to_string()));
}

#[test]
fn unary_operator_rules() {
    let t = SymbolTable::new();
    let neg = |e: Expr| Expr::UnaryOp(UnaryOperator::Negate, Box::new(e));
    let plus = |e: Expr| Expr::UnaryOp(UnaryOperator::Plus, Box::new(e));
    let not = |e: Expr| Expr::UnaryOp(UnaryOperator::Not, Box::new(e));
    assert_eq!(infer(&neg(inteiro(1)), &t), Ok(Type::Inteiro));
    assert_eq!(infer(&plus(dec("1.5")), &t), Ok(Type::Decimal));
    assert_eq!(infer(&not(logic(true)), &t), Ok(Type::Logico));
    assert_eq!(
        infer(&neg(text("a")), &t),
        Err("Operador unário 'Negate' requer operando numérico".to_string())
    );
    assert_eq!(
        infer(&plus(logic(true)), &t),
        Err("Operador unário 'Plus' requer operando numérico".to_string())
    );
    assert_eq!(infer(&not(inteiro(1)), &t), Err("Operador '!' requer operando lógico".to_string()));
}

#[test]
fn names_resolve_to_variables_and_functions() {
    let mut t = SymbolTable::new();
    t.insert_symbol("x".to_string(), variable("x", Type::Texto)).unwrap();
    t.insert_symbol("f".to_string(), function("f", Some(Type::Decimal), vec![])).unwrap();
    t.insert_symbol("p".to_string(), function("p", None, vec![])).unwrap();
    assert_eq!(infer(&Expr::Variable("x".to_string()), &t), Ok(Type::Texto));
    assert_eq!(infer(&Expr::Variable("f".to_string()), &t), Ok(Type::Decimal));
    assert_eq!(
        infer(&Expr::Variable("p".to_string()), &t),
        Err("Função 'p' não tem tipo de retorno".to_string())
    );
    assert_eq!(
        infer(&Expr::Variable("nada".to_string()), &t),
        Err("Variável 'nada' não declarada".to_string())
    );
    assert_eq!(TypeChecker::infer_variable_type("x", &t).ok(), Some(Type::Texto));
    assert_eq!(TypeChecker::infer_literal_type(&Literal::Logico(false)), Type::Logico);
}

#[test]
fn calls_match_arity_and_argument_types_exactly() {
    let mut t = SymbolTable::new();
    t.insert_symbol(
        "soma".to_string(),
        function("soma", Some(Type::Inteiro), vec![Type::Inteiro, Type::Decimal]),
    )
    .unwrap();
    t.insert_symbol("p".to_string(), function("p", None, vec![])).unwrap();
    t.insert_symbol("v".to_string(), variable("v", Type::Inteiro)).unwrap();
    let call = |name: &str, args: Vec<Expr>| {
        Expr::Call(CallExpr { function: name.to_string(), arguments: args })
    };
    assert_eq!(infer(&call("soma", vec![inteiro(1), dec("2.0")]), &t), Ok(Type::Inteiro));
    assert_eq!(
        infer(&call("soma", vec![inteiro(1)]), &t),
        Err("Função 'soma' espera 2 argumentos, mas 1 foram fornecidos".to_string())
    );
    assert_eq!(
        infer(&call("soma", vec![inteiro(1), inteiro(2)]), &t),
        Err("Argumento 2 da função 'soma': tipo esperado decimal, encontrado inteiro".to_string())
    );
    assert_eq!(
        infer(&call("soma", vec![dec("1.0"), inteiro(2)]), &t),
        Err("Argumento 1 da função 'soma': tipo esperado inteiro, encontrado decimal".to_string())
    );
    assert_eq!(
        infer(&call("soma", vec![Expr::Variable("z".to_string()), dec("1.0")]), &t),
        Err("Variável 'z' não declarada".to_string())
    );
    assert_eq!(infer(&call("p", vec![]), &t), Err("Função 'p' não tem tipo de retorno".to_string()));
    assert_eq!(infer(&call("v", vec![]), &t), Err("'v' não é uma função".to_string()));
    assert_eq!(infer(&call("g", vec![]), &t), Err("Função 'g' não declarada".to_string()));
    match TypeChecker::infer_expression_type(&call("soma", vec![]), &t) {
        Err(TypeError::ArityMismatch { name, expected, found }) => {
            assert_eq!((name.as_str(), expected, found), ("soma", 2, 0));
        }
        _ => panic!("arity"),
    }
}

#[test]
fn arity_message_with_many_digits() {
    let e = TypeError::ArityMismatch { name: "f".to_string(), expected: 120, found: 0 };
    assert_eq!(e.message(), "Função 'f' espera 120 argumentos, mas 0 foram fornecidos");
}

#[test]
fn operators_and_types_as_text() {
    assert_eq!(BinaryOperator::LessEqual.to_string(), "<=");
    assert_eq!(BinaryOperator::Or.to_string(), "||");
    assert_eq!(BinaryOperator::Modulo.as_str(), "%");
    assert_eq!(UnaryOperator::Not.to_string(), "!");
    assert_eq!(UnaryOperator::Negate.to_string(), "-");
    assert_eq!(UnaryOperator::Plus.name(), "Plus");
    assert_eq!(Type::Logico.as_str(), "logico");
}
