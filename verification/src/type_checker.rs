//! The type of an expression, given the names that are in scope.

use vstd::prelude::*;
use vstd::string::*;
use crate::ast::{
    exprs_view, lemma_call_view, BinaryOperator, CallExpr, Expr, ExprView, FunctionDecl, Literal,
    ParameterView, Type, UnaryOperator,
};
use crate::symbol_table::{Symbol, SymbolTable, SymbolTableView, SymbolView};
use crate::text::{decimal_string, decimal_text, join3, join5};

verus! {

/// Why an expression has no type.
#[derive(Debug)]
pub enum TypeError {
    /// A name that no scope declares was used as a variable.
    UndeclaredName { name: String },
    /// A name that no scope declares was called.
    UndeclaredFunction { name: String },
    /// A variable was called.
    NotAFunction { name: String },
    /// The value of a function that returns none was used.
    NoReturnType { name: String },
    /// A binary operator does not take operands of these types.
    TypeMismatch { operator: BinaryOperator, left: Type, right: Type },
    /// A unary operator does not take an operand of this type.
    UnaryMismatch { operator: UnaryOperator, operand: Type },
    /// A call with the wrong number of arguments.
    ArityMismatch { name: String, expected: usize, found: usize },
    /// An argument (counted from 1) whose type is not the parameter's.
    ArgumentMismatch { name: String, index: usize, expected: Type, found: Type },
}

/// The value of a type error.
pub enum TypeErrorView {
    UndeclaredName { name: Seq<char> },
    UndeclaredFunction { name: Seq<char> },
    NotAFunction { name: Seq<char> },
    NoReturnType { name: Seq<char> },
    TypeMismatch { operator: BinaryOperator, left: Type, right: Type },
    UnaryMismatch { operator: UnaryOperator, operand: Type },
    ArityMismatch { name: Seq<char>, expected: nat, found: nat },
    ArgumentMismatch { name: Seq<char>, index: nat, expected: Type, found: Type },
}

impl View for TypeError {
    type V = TypeErrorView;

    open spec fn view(&self) -> TypeErrorView {
        match self {
            TypeError::UndeclaredName { name } => TypeErrorView::UndeclaredName { name: name@ },
            TypeError::UndeclaredFunction { name } => TypeErrorView::UndeclaredFunction {
                name: name@,
            },
            TypeError::NotAFunction { name } => TypeErrorView::NotAFunction { name: name@ },
            TypeError::NoReturnType { name } => TypeErrorView::NoReturnType { name: name@ },
            TypeError::TypeMismatch { operator, left, right } => TypeErrorView::TypeMismatch {
                operator: *operator,
                left: *left,
                right: *right,
            },
            TypeError::UnaryMismatch { operator, operand } => TypeErrorView::UnaryMismatch {
                operator: *operator,
                operand: *operand,
            },
            TypeError::ArityMismatch { name, expected, found } => TypeErrorView::ArityMismatch {
                name: name@,
                expected: *expected as nat,
                found: *found as nat,
            },
            TypeError::ArgumentMismatch { name, index, expected, found } => {
                TypeErrorView::ArgumentMismatch {
                    name: name@,
                    index: *index as nat,
                    expected: *expected,
                    found: *found,
                }
            },
        }
    }
}

/// The text of the diagnostic for a binary operator on the wrong types.
pub open spec fn binary_mismatch_message(op: BinaryOperator, left: Type, right: Type) -> Seq<char> {
    match op {
        BinaryOperator::Modulo => "Operador '"@ + op.text() + "' requer operandos inteiros"@,
        BinaryOperator::Equal | BinaryOperator::NotEqual => "Operador '"@ + op.text()
            + "' requer operandos do mesmo tipo: "@ + left.text() + " != "@ + right.text(),
        BinaryOperator::And | BinaryOperator::Or => "Operador '"@ + op.text()
            + "' requer operandos lógicos"@,
        _ => "Operador '"@ + op.text() + "' não suportado para tipos "@ + left.text() + " e "@
            + right.text(),
    }
}

/// The text of a type error.
pub open spec fn type_error_message(e: TypeErrorView) -> Seq<char> {
    match e {
        TypeErrorView::UndeclaredName { name } => "Variável '"@ + name + "' não declarada"@,
        TypeErrorView::UndeclaredFunction { name } => "Função '"@ + name + "' não declarada"@,
        TypeErrorView::NotAFunction { name } => "'"@ + name + "' não é uma função"@,
        TypeErrorView::NoReturnType { name } => "Função '"@ + name + "' não tem tipo de retorno"@,
        TypeErrorView::TypeMismatch { operator, left, right } => binary_mismatch_message(
            operator,
            left,
            right,
        ),
        TypeErrorView::UnaryMismatch { operator, operand } => match operator {
            UnaryOperator::Not => "Operador '!' requer operando lógico"@,
            _ => "Operador unário '"@ + operator.name_text() + "' requer operando numérico"@,
        },
        TypeErrorView::ArityMismatch { name, expected, found } => "Função '"@ + name + "' espera "@
            + decimal_text(expected) + " argumentos, mas "@ + decimal_text(found)
            + " foram fornecidos"@,
        TypeErrorView::ArgumentMismatch { name, index, expected, found } => "Argumento "@
            + decimal_text(index) + " da função '"@ + name + "': tipo esperado "@ + expected.text()
            + ", encontrado "@ + found.text(),
    }
}

impl TypeError {
    /// The text of the error.
    pub fn message(&self) -> (r: String)
        ensures
            r@ == type_error_message(self@),
    {
        match self {
            TypeError::UndeclaredName { name } => join3(
                "Variável '",
                name.as_str(),
                "' não declarada",
            ),
            TypeError::UndeclaredFunction { name } => join3(
                "Função '",
                name.as_str(),
                "' não declarada",
            ),
            TypeError::NotAFunction { name } => join3("'", name.as_str(), "' não é uma função"),
            TypeError::NoReturnType { name } => join3(
                "Função '",
                name.as_str(),
                "' não tem tipo de retorno",
            ),
            TypeError::TypeMismatch { operator, left, right } => match operator {
                BinaryOperator::Modulo => join3(
                    "Operador '",
                    operator.as_str(),
                    "' requer operandos inteiros",
                ),
                BinaryOperator::Equal | BinaryOperator::NotEqual => {
                    let mut s = join5(
                        "Operador '",
                        operator.as_str(),
                        "' requer operandos do mesmo tipo: ",
                        left.as_str(),
                        " != ",
                    );
                    s.append(right.as_str());
                    s
                },
                BinaryOperator::And | BinaryOperator::Or => join3(
                    "Operador '",
                    operator.as_str(),
                    "' requer operandos lógicos",
                ),
                _ => {
                    let mut s = join5(
                        "Operador '",
                        operator.as_str(),
                        "' não suportado para tipos ",
                        left.as_str(),
                        " e ",
                    );
                    s.append(right.as_str());
                    s
                },
            },
            TypeError::UnaryMismatch { operator, operand: _ } => match operator {
                UnaryOperator::Not => String::from_str("Operador '!' requer operando lógico"),
                _ => join3("Operador unário '", operator.name(), "' requer operando numérico"),
            },
            TypeError::ArityMismatch { name, expected, found } => {
                let e = decimal_string(*expected);
                let f = decimal_string(*found);
                let mut s = join5(
                    "Função '",
                    name.as_str(),
                    "' espera ",
                    e.as_str(),
                    " argumentos, mas ",
                );
                s.append(f.as_str());
                s.append(" foram fornecidos");
                s
            },
            TypeError::ArgumentMismatch { name, index, expected, found } => {
                let i = decimal_string(*index);
                let mut s = join5(
                    "Argumento ",
                    i.as_str(),
                    " da função '",
                    name.as_str(),
                    "': tipo esperado ",
                );
                s.append(expected.as_str());
                s.append(", encontrado ");
                s.append(found.as_str());
                s
            },
        }
    }
}

/// The type of `+ - * /` on operands of types `left` and `right`: two
/// integers give an integer; two numbers of which one is a decimal give a
/// decimal; nothing else has a type.
pub open spec fn arithmetic_type(left: Type, right: Type) -> Option<Type> {
    if left == Type::Inteiro && right == Type::Inteiro {
        Some(Type::Inteiro)
    } else if left.is_numeric() && right.is_numeric() {
        Some(Type::Decimal)
    } else {
        None
    }
}

/// The type of `< <= > >=`: logical, on two numbers or on two texts.
pub open spec fn comparison_type(left: Type, right: Type) -> Option<Type> {
    if (left.is_numeric() && right.is_numeric()) || (left == Type::Texto && right == Type::Texto) {
        Some(Type::Logico)
    } else {
        None
    }
}

/// The type of a binary operation on operands of the given types.
pub open spec fn binary_type(op: BinaryOperator, left: Type, right: Type) -> Option<Type> {
    match op {
        BinaryOperator::Add | BinaryOperator::Subtract | BinaryOperator::Multiply
        | BinaryOperator::Divide => arithmetic_type(left, right),
        BinaryOperator::Modulo => if left == Type::Inteiro && right == Type::Inteiro {
            Some(Type::Inteiro)
        } else {
            None
        },
        BinaryOperator::Equal | BinaryOperator::NotEqual => if left == right {
            Some(Type::Logico)
        } else {
            None
        },
        BinaryOperator::Less | BinaryOperator::LessEqual | BinaryOperator::Greater
        | BinaryOperator::GreaterEqual => comparison_type(left, right),
        BinaryOperator::And | BinaryOperator::Or => if left == Type::Logico && right
            == Type::Logico {
            Some(Type::Logico)
        } else {
            None
        },
    }
}

/// The type of a unary operation on an operand of the given type.
pub open spec fn unary_type(op: UnaryOperator, operand: Type) -> Option<Type> {
    match op {
        UnaryOperator::Negate | UnaryOperator::Plus => if operand.is_numeric() {
            Some(operand)
        } else {
            None
        },
        UnaryOperator::Not => if operand == Type::Logico {
            Some(Type::Logico)
        } else {
            None
        },
    }
}

/// The type of a bare name: a variable has its declared type, a function
/// its return type.
pub open spec fn variable_type(name: Seq<char>, table: SymbolTableView) -> Result<
    Type,
    TypeErrorView,
> {
    match table.lookup(name) {
        Some(SymbolView::Variable { type_, .. }) => Ok(type_),
        Some(SymbolView::Function { declaration }) => match declaration.return_type {
            Some(t) => Ok(t),
            None => Err(TypeErrorView::NoReturnType { name }),
        },
        None => Err(TypeErrorView::UndeclaredName { name }),
    }
}

/// The type of an expression, or the first error met when its parts are
/// taken from left to right.
pub open spec fn infer(e: ExprView, table: SymbolTableView) -> Result<Type, TypeErrorView>
    decreases e, 0int,
{
    match e {
        ExprView::Literal(l) => Ok(Literal::spec_type(l)),
        ExprView::Variable(name) => variable_type(name, table),
        ExprView::BinaryOp(op, l, r) => match infer(*l, table) {
            Err(err) => Err(err),
            Ok(lt) => match infer(*r, table) {
                Err(err) => Err(err),
                Ok(rt) => match binary_type(op, lt, rt) {
                    Some(t) => Ok(t),
                    None => Err(TypeErrorView::TypeMismatch { operator: op, left: lt, right: rt }),
                },
            },
        },
        ExprView::UnaryOp(op, o) => match infer(*o, table) {
            Err(err) => Err(err),
            Ok(t) => match unary_type(op, t) {
                Some(r) => Ok(r),
                None => Err(TypeErrorView::UnaryMismatch { operator: op, operand: t }),
            },
        },
        ExprView::Call(name, args) => match table.lookup(name) {
            None => Err(TypeErrorView::UndeclaredFunction { name }),
            Some(SymbolView::Variable { .. }) => Err(TypeErrorView::NotAFunction { name }),
            Some(SymbolView::Function { declaration }) => if args.len()
                != declaration.parameters.len() {
                Err(
                    TypeErrorView::ArityMismatch {
                        name,
                        expected: declaration.parameters.len(),
                        found: args.len(),
                    },
                )
            } else {
                match first_argument_error(name, args, declaration.parameters, 0, table) {
                    Some(err) => Err(err),
                    None => match declaration.return_type {
                        Some(t) => Ok(t),
                        None => Err(TypeErrorView::NoReturnType { name }),
                    },
                }
            },
        },
    }
}

/// The first error among the arguments from position `i` on: an argument
/// without a type, or one whose type is not exactly its parameter's.
pub open spec fn first_argument_error(
    name: Seq<char>,
    args: Seq<ExprView>,
    params: Seq<ParameterView>,
    i: int,
    table: SymbolTableView,
) -> Option<TypeErrorView>
    decreases args, args.len() - i,
{
    if i < 0 || i >= args.len() || i >= params.len() {
        None
    } else {
        match infer(args[i], table) {
            Err(err) => Some(err),
            Ok(t) => if t != params[i].param_type {
                Some(
                    TypeErrorView::ArgumentMismatch {
                        name,
                        index: (i + 1) as nat,
                        expected: params[i].param_type,
                        found: t,
                    },
                )
            } else {
                first_argument_error(name, args, params, i + 1, table)
            },
        }
    }
}

/// Whether `r` is the outcome `expected`, error by error.
pub open spec fn outcome_is(r: Result<Type, TypeError>, expected: Result<Type, TypeErrorView>) -> bool {
    match r {
        Ok(t) => expected == Ok::<Type, TypeErrorView>(t),
        Err(e) => expected == Err::<Type, TypeErrorView>(e@),
    }
}

/// The rules by which expressions get their types.
#[derive(Debug)]
pub struct TypeChecker;

impl TypeChecker {
    /// The type of `expr` where the names in `symbol_table` are in scope.
    pub fn infer_expression_type(expr: &Expr, symbol_table: &SymbolTable) -> (r: Result<
        Type,
        TypeError,
    >)
        requires
            symbol_table.wf(),
        ensures
            outcome_is(r, infer(expr@, symbol_table@)),
        decreases expr,
    {
        match expr {
            Expr::Literal(literal) => Ok(Self::infer_literal_type(literal)),
            Expr::Variable(name) => Self::infer_variable_type(name.as_str(), symbol_table),
            Expr::BinaryOp(op, left, right) => {
                let left_type = match Self::infer_expression_type(left, symbol_table) {
                    Ok(t) => t,
                    Err(e) => {
                        return Err(e);
                    },
                };
                let right_type = match Self::infer_expression_type(right, symbol_table) {
                    Ok(t) => t,
                    Err(e) => {
                        return Err(e);
                    },
                };
                Self::infer_binary_op_type(*op, left_type, right_type)
            },
            Expr::UnaryOp(op, operand) => {
                let operand_type = match Self::infer_expression_type(operand, symbol_table) {
                    Ok(t) => t,
                    Err(e) => {
                        return Err(e);
                    },
                };
                Self::infer_unary_op_type(*op, operand_type)
            },
            Expr::Call(call_expr) => {
                proof {
                    lemma_call_view(*call_expr);
                }
                Self::infer_call_type(call_expr, symbol_table)
            },
        }
    }

    /// The function that `function_name` resolves to.
    pub fn get_function_info<'a>(function_name: &str, symbol_table: &'a SymbolTable) -> (r: Result<
        &'a FunctionDecl,
        TypeError,
    >)
        requires
            symbol_table.wf(),
        ensures
            match symbol_table@.lookup(function_name@) {
                Some(SymbolView::Function { declaration }) => r is Ok && r->Ok_0@ == declaration,
                Some(SymbolView::Variable { .. }) => r is Err && r->Err_0@
                    == (TypeErrorView::NotAFunction { name: function_name@ }),
                None => r is Err && r->Err_0@ == (TypeErrorView::UndeclaredFunction {
                    name: function_name@,
                }),
            },
    {
        match symbol_table.lookup(function_name) {
            Some(Symbol::Function { declaration }) => Ok(declaration),
            Some(Symbol::Variable { .. }) => Err(
                TypeError::NotAFunction { name: String::from_str(function_name) },
            ),
            None => Err(TypeError::UndeclaredFunction { name: String::from_str(function_name) }),
        }
    }

    /// The type of a call: the callee's return type, where the arguments
    /// are as many as its parameters and each has exactly its parameter's
    /// type.
    #[verifier::loop_isolation(false)]
    pub fn infer_call_type(call_expr: &CallExpr, symbol_table: &SymbolTable) -> (r: Result<
        Type,
        TypeError,
    >)
        requires
            symbol_table.wf(),
        ensures
            outcome_is(
                r,
                infer(
                    ExprView::Call(call_expr.function@, exprs_view(call_expr.arguments@)),
                    symbol_table@,
                ),
            ),
        decreases call_expr,
    {
        let declaration = match Self::get_function_info(call_expr.function.as_str(), symbol_table) {
            Ok(d) => d,
            Err(e) => {
                return Err(e);
            },
        };
        let n = call_expr.arguments.len();
        if n != declaration.parameters.len() {
            return Err(
                TypeError::ArityMismatch {
                    name: call_expr.function.clone(),
                    expected: declaration.parameters.len(),
                    found: n,
                },
            );
        }
        let ghost args = exprs_view(call_expr.arguments@);
        let ghost params = declaration@.parameters;
        let ghost name = call_expr.function@;
        let mut i: usize = 0;
        while i < n
            invariant
                symbol_table.wf(),
                n == call_expr.arguments@.len(),
                n == declaration.parameters@.len(),
                i <= n,
                first_argument_error(name, args, params, i as int, symbol_table@)
                    == first_argument_error(name, args, params, 0, symbol_table@),
            decreases n - i,
        {
            let arg_type = match Self::infer_expression_type(
                &call_expr.arguments[i],
                symbol_table,
            ) {
                Ok(t) => t,
                Err(e) => {
                    return Err(e);
                },
            };
            let expected = declaration.parameters[i].param_type;
            assert(params[i as int].param_type == expected);
            if arg_type != expected {
                return Err(
                    TypeError::ArgumentMismatch {
                        name: call_expr.function.clone(),
                        index: i + 1,
                        expected,
                        found: arg_type,
                    },
                );
            }
            i += 1;
        }
        match declaration.return_type {
            Some(t) => Ok(t),
            None => Err(TypeError::NoReturnType { name: call_expr.function.clone() }),
        }
    }

    /// The type of a literal.
    pub fn infer_literal_type(literal: &Literal) -> (r: Type)
        ensures
            r == Literal::spec_type(literal@),
    {
        match literal {
            Literal::Inteiro(_) => Type::Inteiro,
            Literal::Decimal(_) => Type::Decimal,
            Literal::Texto(_) => Type::Texto,
            Literal::Logico(_) => Type::Logico,
        }
    }

    /// The type of a bare name.
    pub fn infer_variable_type(name: &str, symbol_table: &SymbolTable) -> (r: Result<
        Type,
        TypeError,
    >)
        requires
            symbol_table.wf(),
        ensures
            outcome_is(r, variable_type(name@, symbol_table@)),
    {
        match symbol_table.lookup(name) {
            Some(Symbol::Variable { type_, .. }) => Ok(*type_),
            Some(Symbol::Function { declaration }) => match declaration.return_type {
                Some(t) => Ok(t),
                None => Err(TypeError::NoReturnType { name: String::from_str(name) }),
            },
            None => Err(TypeError::UndeclaredName { name: String::from_str(name) }),
        }
    }

    /// The type of a binary operation on operands of the given types.
    pub fn infer_binary_op_type(op: BinaryOperator, left: Type, right: Type) -> (r: Result<
        Type,
        TypeError,
    >)
        ensures
            match binary_type(op, left, right) {
                Some(t) => r is Ok && r->Ok_0 == t,
                None => r is Err && r->Err_0@ == (TypeErrorView::TypeMismatch {
                    operator: op,
                    left,
                    right,
                }),
            },
    {
        let mismatch = TypeError::TypeMismatch { operator: op, left, right };
        match op {
            BinaryOperator::Add | BinaryOperator::Subtract | BinaryOperator::Multiply
            | BinaryOperator::Divide => Self::check_arithmetic_operation(left, right, op),
            BinaryOperator::Modulo => {
                if left == Type::Inteiro && right == Type::Inteiro {
                    Ok(Type::Inteiro)
                } else {
                    Err(mismatch)
                }
            },
            BinaryOperator::Equal | BinaryOperator::NotEqual => {
                if left == right {
                    Ok(Type::Logico)
                } else {
                    Err(mismatch)
                }
            },
            BinaryOperator::Less | BinaryOperator::LessEqual | BinaryOperator::Greater
            | BinaryOperator::GreaterEqual => Self::check_comparison_operation(left, right, op),
            BinaryOperator::And | BinaryOperator::Or => {
                if left == Type::Logico && right == Type::Logico {
                    Ok(Type::Logico)
                } else {
                    Err(mismatch)
                }
            },
        }
    }

    /// The type of a unary operation on an operand of the given type.
    pub fn infer_unary_op_type(op: UnaryOperator, operand: Type) -> (r: Result<Type, TypeError>)
        ensures
            match unary_type(op, operand) {
                Some(t) => r is Ok && r->Ok_0 == t,
                None => r is Err && r->Err_0@ == (TypeErrorView::UnaryMismatch {
                    operator: op,
                    operand,
                }),
            },
    {
        match op {
            UnaryOperator::Negate | UnaryOperator::Plus => {
                if operand == Type::Inteiro || operand == Type::Decimal {
                    Ok(operand)
                } else {
                    Err(TypeError::UnaryMismatch { operator: op, operand })
                }
            },
            UnaryOperator::Not => {
                if operand == Type::Logico {
                    Ok(Type::Logico)
                } else {
                    Err(TypeError::UnaryMismatch { operator: op, operand })
                }
            },
        }
    }

    /// The type of `+ - * /` on operands of the given types; two numbers
    /// of different types give a decimal.
    pub fn check_arithmetic_operation(left: Type, right: Type, op: BinaryOperator) -> (r: Result<
        Type,
        TypeError,
    >)
        ensures
            match arithmetic_type(left, right) {
                Some(t) => r is Ok && r->Ok_0 == t,
                None => r is Err && r->Err_0@ == (TypeErrorView::TypeMismatch {
                    operator: op,
                    left,
                    right,
                }),
            },
    {
        match (left, right) {
            (Type::Inteiro, Type::Inteiro) => Ok(Type::Inteiro),
            (Type::Decimal, Type::Decimal) => Ok(Type::Decimal),
            (Type::Inteiro, Type::Decimal) | (Type::Decimal, Type::Inteiro) => Ok(Type::Decimal),
            _ => Err(TypeError::TypeMismatch { operator: op, left, right }),
        }
    }

    /// The type of `< <= > >=` on operands of the given types.
    pub fn check_comparison_operation(left: Type, right: Type, op: BinaryOperator) -> (r: Result<
        Type,
        TypeError,
    >)
        ensures
            match comparison_type(left, right) {
                Some(t) => r is Ok && r->Ok_0 == t,
                None => r is Err && r->Err_0@ == (TypeErrorView::TypeMismatch {
                    operator: op,
                    left,
                    right,
                }),
            },
    {
        match (left, right) {
            (Type::Inteiro, Type::Inteiro)
            | (Type::Decimal, Type::Decimal)
            | (Type::Inteiro, Type::Decimal)
            | (Type::Decimal, Type::Inteiro) => Ok(Type::Logico),
            (Type::Texto, Type::Texto) => Ok(Type::Logico),
            _ => Err(TypeError::TypeMismatch { operator: op, left, right }),
        }
    }
}

} // verus!
