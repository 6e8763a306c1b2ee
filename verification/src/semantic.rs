//! Semantic analysis: a pass that collects the top-level declarations, then a
//! pass that checks every function and statement, keeps those that are well
//! typed and records a diagnostic for each one that is dropped.

use vstd::prelude::*;
use vstd::string::*;
use crate::ast::{
    Position,
    lemma_block_view, statements_view, exprs_view, Block, Expr, ExprStmt, ExprView, ForStmt,
    FunctionDecl, FunctionDeclView, IfStmt, ParameterView, Program, ProgramView, ReadStmt,
    ReturnStmt, Statement, StatementView, Type, VariableDecl, WhileStmt, WriteStmt,
    duplicate_parameters,
};
use crate::symbol_table::{
    duplicate_symbol_message, Symbol, SymbolTable, SymbolTableView, SymbolView,
};
use crate::text::join5;
use crate::type_checker::{infer, type_error_message, TypeChecker, TypeErrorView};

verus! {

/// An expression with the type that was inferred for it.
#[derive(Debug)]
pub struct AnnotatedExpr {
    pub expr: Expr,
    pub type_: Type,
}

/// The value of an annotated expression.
pub struct AnnotatedExprView {
    pub expr: ExprView,
    pub type_: Type,
}

impl View for AnnotatedExpr {
    type V = AnnotatedExprView;

    open spec fn view(&self) -> AnnotatedExprView {
        AnnotatedExprView { expr: self.expr@, type_: self.type_ }
    }
}

/// A statement that passed the check, with the expressions that were typed
/// while it was checked, in the order in which they were visited.
#[derive(Debug)]
pub struct AnnotatedStatement {
    pub statement: Statement,
    pub expr_annotations: Vec<AnnotatedExpr>,
}

/// The value of an annotated statement.
pub struct AnnotatedStatementView {
    pub statement: StatementView,
    pub expr_annotations: Seq<AnnotatedExprView>,
}

impl View for AnnotatedStatement {
    type V = AnnotatedStatementView;

    open spec fn view(&self) -> AnnotatedStatementView {
        AnnotatedStatementView {
            statement: self.statement@,
            expr_annotations: annotations_view(self.expr_annotations@),
        }
    }
}

/// A diagnostic of the analysis.
#[derive(Debug, Clone)]
pub struct SemanticError {
    pub message: String,
    pub line: usize,
    pub column: usize,
}

/// The value of a diagnostic.
pub struct SemanticErrorView {
    pub message: Seq<char>,
    pub line: nat,
    pub column: nat,
}

impl View for SemanticError {
    type V = SemanticErrorView;

    open spec fn view(&self) -> SemanticErrorView {
        SemanticErrorView {
            message: self.message@,
            line: self.line as nat,
            column: self.column as nat,
        }
    }
}

/// The values of a list of diagnostics, in order.
pub open spec fn errors_view(v: Seq<SemanticError>) -> Seq<SemanticErrorView> {
    v.map_values(|e: SemanticError| e@)
}

/// What an analysis returns: the program without what failed the check, the
/// table of names as the analysis left it, and every diagnostic.
#[derive(Debug)]
pub struct SemanticAnalysisResult {
    pub annotated_ast: Program,
    pub symbol_table: SymbolTable,
    pub errors: Vec<SemanticError>,
}

/// The state of an analysis: the names declared so far, the diagnostics
/// recorded so far, and the return type of the function being checked.
pub struct AnalysisState {
    pub table: SymbolTableView,
    pub errors: Seq<SemanticErrorView>,
    pub return_context: Option<Type>,
}

impl AnalysisState {
    /// The state of an analyzer that has not seen anything.
    pub open spec fn initial() -> AnalysisState {
        AnalysisState {
            table: SymbolTableView::initial(),
            errors: Seq::empty(),
            return_context: None,
        }
    }

    /// The state with one more diagnostic, for what stands at `at`.
    pub open spec fn report(self, at: Position, message: Seq<char>) -> AnalysisState {
        AnalysisState {
            errors: self.errors.push(
                SemanticErrorView { message, line: at.line as nat, column: at.column as nat },
            ),
            ..self
        }
    }

    /// The state with another table.
    pub open spec fn with_table(self, table: SymbolTableView) -> AnalysisState {
        AnalysisState { table, ..self }
    }

    /// The state with another return type in force.
    pub open spec fn with_return(self, return_context: Option<Type>) -> AnalysisState {
        AnalysisState { return_context, ..self }
    }
}

pub open spec fn initializer_mismatch_message(found: Type, declared: Type) -> Seq<char> {
    "Tipo do inicializador ("@ + found.text() + ") não corresponde ao tipo da variável ("@
        + declared.text() + ")"@
}

pub open spec fn return_mismatch_message(expected: Type, found: Type) -> Seq<char> {
    "Tipo de retorno esperado: "@ + expected.text() + ", encontrado: "@ + found.text()
}

pub open spec fn if_condition_message() -> Seq<char> {
    "Condição do if deve ser do tipo lógico"@
}

pub open spec fn while_condition_message() -> Seq<char> {
    "Condição do while deve ser do tipo lógico"@
}

pub open spec fn return_value_in_void_message() -> Seq<char> {
    "Retorno com valor em função sem tipo de retorno"@
}

pub open spec fn return_without_value_message() -> Seq<char> {
    "Retorno sem valor em função com tipo de retorno"@
}

pub open spec fn read_target_message() -> Seq<char> {
    "Comando 'leia' só pode ser usado com variáveis"@
}

/// A statement that is kept as it is, with the one expression typed for it.
pub open spec fn kept(s: StatementView, annotations: Seq<AnnotatedExprView>) -> Option<
    AnnotatedStatementView,
> {
    Some(AnnotatedStatementView { statement: s, expr_annotations: annotations })
}

/// The values of a list of annotated expressions, in order.
pub open spec fn annotations_view(v: Seq<AnnotatedExpr>) -> Seq<AnnotatedExprView> {
    v.map_values(|a: AnnotatedExpr| a@)
}

/// The first type error among `args` from position `i` on.
pub open spec fn first_type_error(args: Seq<ExprView>, i: int, table: SymbolTableView) -> Option<
    TypeErrorView,
>
    decreases args.len() - i,
{
    if i < 0 || i >= args.len() {
        None
    } else {
        match infer(args[i], table) {
            Err(e) => Some(e),
            Ok(_) => first_type_error(args, i + 1, table),
        }
    }
}

/// Each of `args` with its type.
pub open spec fn annotate_all(args: Seq<ExprView>, table: SymbolTableView) -> Seq<
    AnnotatedExprView,
> {
    Seq::new(
        args.len(),
        |i: int| AnnotatedExprView { expr: args[i], type_: infer(args[i], table)->Ok_0 },
    )
}

/// The check of the initializer of a declaration whose name is declared:
/// its type must be exactly the declared type. A declaration without an
/// initializer is kept as it is.
pub open spec fn check_initializer(s: StatementView, st: AnalysisState) -> (
    AnalysisState,
    Option<AnnotatedStatementView>,
) {
    match s {
        StatementView::VariableDecl { position, var_type, name, initializer } => match initializer {
            None => (st, kept(s, Seq::empty())),
            Some(e) => match infer(e, st.table) {
                Err(err) => (st.report(position, type_error_message(err)), None),
                Ok(t) => if t != var_type {
                    (st.report(position, initializer_mismatch_message(t, var_type)), None)
                } else {
                    (st, kept(s, seq![AnnotatedExprView { expr: e, type_: t }]))
                },
            },
        },
        _ => (st, kept(s, Seq::empty())),
    }
}

/// The check of one statement: the state after it, and the statement with
/// its annotations if it is kept. A statement that is dropped leaves exactly
/// one diagnostic of its own.
pub open spec fn check_statement(s: StatementView, st: AnalysisState) -> (
    AnalysisState,
    Option<AnnotatedStatementView>,
)
    decreases s, 0int,
{
    match s {
        StatementView::VariableDecl { position, var_type, name, initializer } => {
            if !st.table.can_insert(name) {
                (st.report(position, duplicate_symbol_message(name)), None)
            } else {
                let st1 = st.with_table(
                    st.table.inserted(
                        name,
                        SymbolView::Variable {
                            name,
                            type_: var_type,
                            defined: initializer is Some,
                        },
                    ),
                );
                check_initializer(s, st1)
            }
        },
        StatementView::ExprStmt { position, expr } => match infer(expr, st.table) {
            Err(err) => (st.report(position, type_error_message(err)), None),
            Ok(t) => (st, kept(s, seq![AnnotatedExprView { expr, type_: t }])),
        },
        StatementView::IfStmt { position, condition, then_branch, else_branch } => match infer(
            condition,
            st.table,
        ) {
            Err(err) => (st.report(position, type_error_message(err)), None),
            Ok(t) => if t != Type::Logico {
                (st.report(position, if_condition_message()), None)
            } else {
                let (st1, then_kept) = check_block(then_branch, st);
                let annotations = seq![AnnotatedExprView { expr: condition, type_: t }];
                match else_branch {
                    None => (
                        st1,
                        kept(
                            StatementView::IfStmt { position,
                                condition,
                                then_branch: then_kept,
                                else_branch: None,
                            },
                            annotations,
                        ),
                    ),
                    Some(b) => {
                        let (st2, else_kept) = check_block(b, st1);
                        (
                            st2,
                            kept(
                                StatementView::IfStmt { position,
                                    condition,
                                    then_branch: then_kept,
                                    else_branch: Some(else_kept),
                                },
                                annotations,
                            ),
                        )
                    },
                }
            },
        },
        StatementView::WhileStmt { position, condition, body } => match infer(condition, st.table) {
            Err(err) => (st.report(position, type_error_message(err)), None),
            Ok(t) => if t != Type::Logico {
                (st.report(position, while_condition_message()), None)
            } else {
                let (st1, body_kept) = check_block(body, st);
                (
                    st1,
                    kept(
                        StatementView::WhileStmt { position, condition, body: body_kept },
                        seq![AnnotatedExprView { expr: condition, type_: t }],
                    ),
                )
            },
        },
        StatementView::ForStmt { position, variable, start, end, body } => match infer(start, st.table) {
            Err(err) => (st.report(position, type_error_message(err)), None),
            Ok(ts) => match infer(end, st.table) {
                Err(err) => (st.report(position, type_error_message(err)), None),
                Ok(te) => {
                    let (st1, body_kept) = check_block(body, st);
                    (
                        st1,
                        kept(
                            StatementView::ForStmt { position, variable, start, end, body: body_kept },
                            seq![
                                AnnotatedExprView { expr: start, type_: ts },
                                AnnotatedExprView { expr: end, type_: te },
                            ],
                        ),
                    )
                },
            },
        },
        StatementView::ReturnStmt { position, value } => match (value, st.return_context) {
            (Some(e), Some(expected)) => match infer(e, st.table) {
                Err(err) => (st.report(position, type_error_message(err)), None),
                Ok(t) => if t != expected {
                    (st.report(position, return_mismatch_message(expected, t)), None)
                } else {
                    (st, kept(s, seq![AnnotatedExprView { expr: e, type_: t }]))
                },
            },
            (Some(_), None) => (st.report(position, return_value_in_void_message()), None),
            (None, Some(_)) => (st.report(position, return_without_value_message()), None),
            (None, None) => (st, kept(s, Seq::empty())),
        },
        StatementView::WriteStmt { position, arguments } => match first_type_error(arguments, 0, st.table) {
            Some(err) => (st.report(position, type_error_message(err)), None),
            None => (st, kept(s, annotate_all(arguments, st.table))),
        },
        StatementView::ReadStmt { position, target } => match infer(target, st.table) {
            Err(err) => (st.report(position, type_error_message(err)), None),
            Ok(t) => if target is Variable {
                (st, kept(s, seq![AnnotatedExprView { expr: target, type_: t }]))
            } else {
                (st.report(position, read_target_message()), None)
            },
        },
    }
}

/// The check of the first `n` statements of a list, in order: the state
/// after them, and those that are kept.
pub open spec fn check_statements(stmts: Seq<StatementView>, n: int, st: AnalysisState) -> (
    AnalysisState,
    Seq<StatementView>,
)
    decreases stmts, n,
{
    if n <= 0 || n > stmts.len() {
        (st, Seq::empty())
    } else {
        let (st1, out) = check_statements(stmts, n - 1, st);
        let (st2, checked) = check_statement(stmts[n - 1], st1);
        (
            st2,
            match checked {
                Some(a) => out.push(a.statement),
                None => out,
            },
        )
    }
}

/// The check of a block: its statements are checked in a scope of their
/// own, which is left again at the end.
pub open spec fn check_block(b: Seq<StatementView>, st: AnalysisState) -> (
    AnalysisState,
    Seq<StatementView>,
)
    decreases b, b.len() + 1,
{
    let (st1, out) = check_statements(b, b.len() as int, st.with_table(st.table.entered()));
    (st1.with_table(st1.table.exited()), out)
}

/// The table after the parameters from position `i` on were declared, or
/// the table and the diagnostic at the first parameter whose name is taken.
pub open spec fn declare_parameters(params: Seq<ParameterView>, i: int, table: SymbolTableView)
    -> Result<SymbolTableView, (SymbolTableView, Seq<char>)>
    decreases params.len() - i,
{
    if i < 0 || i >= params.len() {
        Ok(table)
    } else if table.can_insert(params[i].name) {
        declare_parameters(
            params,
            i + 1,
            table.inserted(
                params[i].name,
                SymbolView::Variable {
                    name: params[i].name,
                    type_: params[i].param_type,
                    defined: true,
                },
            ),
        )
    } else {
        Err((table, duplicate_symbol_message(params[i].name)))
    }
}

/// The check of a function: its parameters are declared in a new scope, its
/// body is checked as a block inside that scope with the function's return
/// type in force. A function with two parameters of one name is dropped.
pub open spec fn check_function(f: FunctionDeclView, st: AnalysisState) -> (
    AnalysisState,
    Option<FunctionDeclView>,
) {
    match declare_parameters(f.parameters, 0, st.table.entered()) {
        Err((t, message)) => (st.with_table(t.exited()).report(f.position, message), None),
        Ok(t) => {
            let (st1, body) = check_block(f.body, st.with_table(t).with_return(f.return_type));
            (
                st1.with_table(st1.table.exited()).with_return(st.return_context),
                Some(FunctionDeclView { body, ..f }),
            )
        },
    }
}

/// The check of the first `n` functions of a list, in order. A function
/// that the first pass did not declare, its name being taken, is left out.
pub open spec fn check_functions(
    fs: Seq<FunctionDeclView>,
    declared: Seq<bool>,
    n: int,
    st: AnalysisState,
) -> (AnalysisState, Seq<FunctionDeclView>)
    decreases n,
{
    if n <= 0 || n > fs.len() {
        (st, Seq::empty())
    } else {
        let (st1, out) = check_functions(fs, declared, n - 1, st);
        if n - 1 < declared.len() && declared[n - 1] {
            let (st2, checked) = check_function(fs[n - 1], st1);
            (
                st2,
                match checked {
                    Some(f) => out.push(f),
                    None => out,
                },
            )
        } else {
            (st1, out)
        }
    }
}

/// The check of a statement at the top level. The first pass has declared
/// the variables of the top level: a declaration that it declared has its
/// initializer checked, and one that it did not declare, its name being
/// taken, is left out. Any other statement is checked as everywhere.
#[verifier::opaque]
pub open spec fn check_top_statement(s: StatementView, declared: bool, st: AnalysisState) -> (
    AnalysisState,
    Option<AnnotatedStatementView>,
) {
    if s is VariableDecl {
        if declared {
            check_initializer(s, st)
        } else {
            (st, None)
        }
    } else {
        check_statement(s, st)
    }
}

/// The check of the first `n` statements of the top level, in order.
pub open spec fn check_top_statements(
    stmts: Seq<StatementView>,
    declared: Seq<bool>,
    n: int,
    st: AnalysisState,
) -> (AnalysisState, Seq<StatementView>)
    decreases n,
{
    if n <= 0 || n > stmts.len() {
        (st, Seq::empty())
    } else {
        let (st1, out) = check_top_statements(stmts, declared, n - 1, st);
        let (st2, checked) = check_top_statement(
            stmts[n - 1],
            n - 1 < declared.len() && declared[n - 1],
            st1,
        );
        (
            st2,
            match checked {
                Some(a) => out.push(a.statement),
                None => out,
            },
        )
    }
}

/// The state after the first `n` functions were declared in the current
/// scope; a name that is taken leaves a diagnostic.
pub open spec fn collect_functions(fs: Seq<FunctionDeclView>, n: int, st: AnalysisState)
    -> AnalysisState
    decreases n,
{
    if n <= 0 || n > fs.len() {
        st
    } else {
        let st1 = collect_functions(fs, n - 1, st);
        let f = fs[n - 1];
        if st1.table.can_insert(f.name) {
            st1.with_table(st1.table.inserted(f.name, SymbolView::Function { declaration: f }))
        } else {
            st1.report(f.position, duplicate_symbol_message(f.name))
        }
    }
}

/// The state after the variable declarations among the first `n`
/// statements were declared in the current scope.
pub open spec fn collect_variables(stmts: Seq<StatementView>, n: int, st: AnalysisState)
    -> AnalysisState
    decreases n,
{
    if n <= 0 || n > stmts.len() {
        st
    } else {
        let st1 = collect_variables(stmts, n - 1, st);
        match stmts[n - 1] {
            StatementView::VariableDecl { position, var_type, name, initializer } => {
                if st1.table.can_insert(name) {
                    st1.with_table(
                        st1.table.inserted(
                            name,
                            SymbolView::Variable {
                                name,
                                type_: var_type,
                                defined: initializer is Some,
                            },
                        ),
                    )
                } else {
                    st1.report(position, duplicate_symbol_message(name))
                }
            },
            _ => st1,
        }
    }
}

/// Whether the first `n` of `flags` are there and true.
pub open spec fn all_true(flags: Seq<bool>, n: int) -> bool {
    forall|i: int| 0 <= i < n ==> i < flags.len() && #[trigger] flags[i]
}

/// Whether the first pass declares function `i`: its name is free when
/// its turn comes.
pub open spec fn function_declared(fs: Seq<FunctionDeclView>, i: int, st: AnalysisState) -> bool {
    collect_functions(fs, i, st).table.can_insert(fs[i].name)
}

/// For each function, whether the first pass declares it.
pub open spec fn declared_functions(fs: Seq<FunctionDeclView>, st: AnalysisState) -> Seq<bool> {
    Seq::new(fs.len(), |i: int| function_declared(fs, i, st))
}

/// Whether statement `i` is no declaration, or one that the first pass
/// declares.
pub open spec fn variable_declared(stmts: Seq<StatementView>, i: int, st: AnalysisState) -> bool {
    match stmts[i] {
        StatementView::VariableDecl { name, .. } => collect_variables(stmts, i, st).table.can_insert(
            name,
        ),
        _ => true,
    }
}

/// For each statement of the top level, whether it is no declaration, or
/// one that the first pass declares.
pub open spec fn declared_variables(stmts: Seq<StatementView>, st: AnalysisState) -> Seq<bool> {
    Seq::new(stmts.len(), |i: int| variable_declared(stmts, i, st))
}

/// The first pass: every function, then every top-level variable, is
/// declared in the current scope. Of two declarations of one name the
/// first is declared, and the second leaves a diagnostic.
pub open spec fn collect_declarations(p: ProgramView, st: AnalysisState) -> AnalysisState {
    collect_variables(
        p.statements,
        p.statements.len() as int,
        collect_functions(p.functions, p.functions.len() as int, st),
    )
}

/// The second pass: the top-level statements are checked, then the
/// functions; what the first pass did not declare is left out.
pub open spec fn check_program(
    p: ProgramView,
    functions_declared: Seq<bool>,
    variables_declared: Seq<bool>,
    st: AnalysisState,
) -> (AnalysisState, ProgramView) {
    let (st1, statements) = check_top_statements(
        p.statements,
        variables_declared,
        p.statements.len() as int,
        st,
    );
    let (st2, functions) = check_functions(
        p.functions,
        functions_declared,
        p.functions.len() as int,
        st1,
    );
    (st2, ProgramView { functions, statements })
}

/// The whole analysis of a program from a given state.
pub open spec fn analysis(p: ProgramView, st: AnalysisState) -> (AnalysisState, ProgramView) {
    let st1 = collect_functions(p.functions, p.functions.len() as int, st);
    check_program(
        p,
        declared_functions(p.functions, st),
        declared_variables(p.statements, st1),
        collect_declarations(p, st),
    )
}

/// Whether what a check returned is the expected outcome.
pub open spec fn statement_outcome_is(
    r: Result<AnnotatedStatement, ()>,
    expected: Option<AnnotatedStatementView>,
) -> bool {
    match r {
        Ok(a) => expected == Some(a@),
        Err(_) => expected is None,
    }
}

/// Whether a check ended in the expected state with the expected outcome.
pub open spec fn checked_as(
    after: AnalysisState,
    r: Result<AnnotatedStatement, ()>,
    expected: (AnalysisState, Option<AnnotatedStatementView>),
) -> bool {
    after == expected.0 && statement_outcome_is(r, expected.1)
}

fn one_annotation(a: AnnotatedExpr) -> (v: Vec<AnnotatedExpr>)
    ensures
        annotations_view(v@) == seq![a@],
{
    let mut v: Vec<AnnotatedExpr> = Vec::new();
    v.push(a);
    assert(annotations_view(v@) =~= seq![a@]);
    v
}

fn no_annotation() -> (v: Vec<AnnotatedExpr>)
    ensures
        annotations_view(v@) == Seq::<AnnotatedExprView>::empty(),
{
    let v: Vec<AnnotatedExpr> = Vec::new();
    assert(annotations_view(v@) =~= Seq::<AnnotatedExprView>::empty());
    v
}

/// The analyzer: the table of names, the diagnostics, and the return type
/// of the function that is being checked.
#[derive(Debug)]
pub struct SemanticAnalyzer {
    symbol_table: SymbolTable,
    errors: Vec<SemanticError>,
    current_function_return: Option<Type>,
}

impl SemanticAnalyzer {
    /// The state that the analyzer is in.
    pub closed spec fn state(&self) -> AnalysisState {
        AnalysisState {
            table: self.symbol_table@,
            errors: errors_view(self.errors@),
            return_context: self.current_function_return,
        }
    }

    /// The table of the analyzer is well formed.
    pub closed spec fn wf(&self) -> bool {
        self.symbol_table.wf()
    }

    pub fn new() -> (r: SemanticAnalyzer)
        ensures
            r.wf(),
            r.state() == AnalysisState::initial(),
    {
        let r = SemanticAnalyzer {
            symbol_table: SymbolTable::new(),
            errors: Vec::new(),
            current_function_return: None,
        };
        assert(r.state().errors =~= Seq::empty());
        r
    }

    /// Analyzes a program: declares what stands at its top level, then
    /// checks its statements and functions. What fails the check is left out
    /// of the program that is returned, with one diagnostic each.
    pub fn analyze(&mut self, program: Program) -> (r: SemanticAnalysisResult)
        requires
            old(self).wf(),
        ensures
            final(self).wf(),
            final(self).state() == analysis(program@, old(self).state()).0,
            r.annotated_ast@ == analysis(program@, old(self).state()).1,
            r.symbol_table.wf(),
            r.symbol_table@ == final(self).state().table,
            errors_view(r.errors@) == final(self).state().errors,
    {
        let (functions_declared, variables_declared) = self.collect_declarations(&program);
        let annotated_ast = self.check_and_annotate_program(
            &program,
            &functions_declared,
            &variables_declared,
        );
        let mut errors: Vec<SemanticError> = Vec::new();
        let mut i: usize = 0;
        while i < self.errors.len()
            invariant
                i <= self.errors@.len(),
                errors@.len() == i,
                forall|k: int| 0 <= k < i ==> errors@[k]@ == self.errors@[k]@,
            decreases self.errors@.len() - i,
        {
            let e = &self.errors[i];
            errors.push(SemanticError { message: e.message.clone(), line: e.line, column: e.column });
            i += 1;
        }
        assert(errors_view(errors@) =~= errors_view(self.errors@));
        SemanticAnalysisResult { annotated_ast, symbol_table: self.symbol_table.duplicate(), errors }
    }

    /// Records a diagnostic.
    pub fn report_error(&mut self, message: &str, line: usize, column: usize)
        requires
            old(self).wf(),
        ensures
            final(self).wf(),
            final(self).state() == (AnalysisState {
                errors: old(self).state().errors.push(
                    SemanticErrorView { message: message@, line: line as nat, column: column as nat },
                ),
                ..old(self).state()
            }),
    {
        self.errors.push(SemanticError { message: String::from_str(message), line, column });
        assert(self.state().errors =~= old(self).state().errors.push(
            SemanticErrorView { message: message@, line: line as nat, column: column as nat },
        ));
    }

    /// The first pass. It returns, for each function and for each statement
    /// of the top level, whether it was declared: of two declarations of
    /// one name only the first is, and a statement that declares nothing
    /// counts as declared.
    pub fn collect_declarations(&mut self, program: &Program) -> (r: (Vec<bool>, Vec<bool>))
        requires
            old(self).wf(),
        ensures
            final(self).wf(),
            final(self).state() == collect_declarations(program@, old(self).state()),
            r.0@ == declared_functions(program@.functions, old(self).state()),
            r.1@ == declared_variables(
                program@.statements,
                collect_functions(
                    program@.functions,
                    program@.functions.len() as int,
                    old(self).state(),
                ),
            ),
    {
        let ghost st0 = self.state();
        let ghost fs = program@.functions;
        let mut functions_declared: Vec<bool> = Vec::new();
        let mut i: usize = 0;
        while i < program.functions.len()
            invariant
                self.wf(),
                i <= program.functions@.len(),
                fs == program@.functions,
                self.state() == collect_functions(fs, i as int, st0),
                functions_declared@.len() == i,
                forall|k: int|
                    0 <= k < i ==> functions_declared@[k] == function_declared(fs, k, st0),
            decreases program.functions@.len() - i,
        {
            let function = &program.functions[i];
            assert(fs[i as int] == function@);
            let symbol = Symbol::Function { declaration: function.duplicate() };
            match self.symbol_table.insert_symbol(function.name.clone(), symbol) {
                Ok(_) => {
                    functions_declared.push(true);
                },
                Err(e) => {
                    self.report_error(e.as_str(), function.position.line, function.position.column);
                    functions_declared.push(false);
                },
            }
            i += 1;
        }
        assert(functions_declared@ =~= declared_functions(fs, st0));
        let ghost st1 = self.state();
        let ghost ss = program@.statements;
        let mut variables_declared: Vec<bool> = Vec::new();
        let mut j: usize = 0;
        while j < program.statements.len()
            invariant
                self.wf(),
                j <= program.statements@.len(),
                ss == program@.statements,
                self.state() == collect_variables(ss, j as int, st1),
                variables_declared@.len() == j,
                forall|k: int|
                    0 <= k < j ==> variables_declared@[k] == variable_declared(ss, k, st1),
            decreases program.statements@.len() - j,
        {
            assert(ss[j as int] == program.statements@[j as int]@);
            if let Statement::VariableDecl(decl) = &program.statements[j] {
                let symbol = Symbol::Variable {
                    name: decl.name.clone(),
                    type_: decl.var_type,
                    defined: decl.initializer.is_some(),
                };
                match self.symbol_table.insert_symbol(decl.name.clone(), symbol) {
                    Ok(_) => {
                        variables_declared.push(true);
                    },
                    Err(e) => {
                        self.report_error(e.as_str(), decl.position.line, decl.position.column);
                        variables_declared.push(false);
                    },
                }
            } else {
                variables_declared.push(true);
            }
            j += 1;
        }
        assert(variables_declared@ =~= declared_variables(ss, st1));
        (functions_declared, variables_declared)
    }

    /// The second pass. What the first pass did not declare is left out.
    pub fn check_and_annotate_program(
        &mut self,
        program: &Program,
        functions_declared: &Vec<bool>,
        variables_declared: &Vec<bool>,
    ) -> (r: Program)
        requires
            old(self).wf(),
        ensures
            final(self).wf(),
            final(self).state() == check_program(
                program@,
                functions_declared@,
                variables_declared@,
                old(self).state(),
            ).0,
            r@ == check_program(
                program@,
                functions_declared@,
                variables_declared@,
                old(self).state(),
            ).1,
    {
        let ghost st0 = self.state();
        let ghost ss = program@.statements;
        let mut statements: Vec<Statement> = Vec::new();
        let mut i: usize = 0;
        while i < program.statements.len()
            invariant
                self.wf(),
                i <= program.statements@.len(),
                ss == program@.statements,
                (self.state(), statements_view(statements@)) == check_top_statements(
                    ss,
                    variables_declared@,
                    i as int,
                    st0,
                ),
            decreases program.statements@.len() - i,
        {
            assert(ss[i as int] == program.statements@[i as int]@);
            let ghost before = statements@;
            let declared = i < variables_declared.len() && variables_declared[i];
            match self.check_top_level_statement(&program.statements[i], declared) {
                Ok(annotated) => {
                    statements.push(annotated.statement);
                    assert(statements_view(statements@) =~= statements_view(before).push(
                        annotated.statement@,
                    ));
                },
                Err(_) => {},
            }
            i += 1;
        }
        let ghost st1 = self.state();
        let ghost fs = program@.functions;
        let mut functions: Vec<FunctionDecl> = Vec::new();
        let mut j: usize = 0;
        while j < program.functions.len()
            invariant
                self.wf(),
                j <= program.functions@.len(),
                fs == program@.functions,
                (self.state(), functions@.map_values(|f: FunctionDecl| f@)) == check_functions(
                    fs,
                    functions_declared@,
                    j as int,
                    st1,
                ),
            decreases program.functions@.len() - j,
        {
            assert(fs[j as int] == program.functions@[j as int]@);
            let ghost before = functions@;
            if j < functions_declared.len() && functions_declared[j] {
                match self.check_and_annotate_function(&program.functions[j]) {
                    Ok(annotated) => {
                        functions.push(annotated);
                        assert(functions@.map_values(|f: FunctionDecl| f@) =~= before.map_values(
                            |f: FunctionDecl| f@,
                        ).push(annotated@));
                    },
                    Err(_) => {},
                }
            }
            j += 1;
        }
        Program { functions, statements }
    }

    /// Checks one statement of the top level, of which `declared` says
    /// whether the first pass declared it.
    pub fn check_top_level_statement(&mut self, statement: &Statement, declared: bool) -> (r:
        Result<AnnotatedStatement, ()>)
        requires
            old(self).wf(),
        ensures
            final(self).wf(),
            checked_as(
                final(self).state(),
                r,
                check_top_statement(statement@, declared, old(self).state()),
            ),
    {
        reveal(check_top_statement);
        match statement {
            Statement::VariableDecl(decl) => {
                if declared {
                    self.check_initializer(decl)
                } else {
                    Err(())
                }
            },
            _ => self.check_and_annotate_statement(statement),
        }
    }

    /// Checks one function.
    #[verifier::loop_isolation(false)]
    pub fn check_and_annotate_function(&mut self, function: &FunctionDecl) -> (r: Result<
        FunctionDecl,
        (),
    >)
        requires
            old(self).wf(),
        ensures
            final(self).wf(),
            final(self).state() == check_function(function@, old(self).state()).0,
            match r {
                Ok(f) => check_function(function@, old(self).state()).1 == Some(f@),
                Err(_) => check_function(function@, old(self).state()).1 is None,
            },
    {
        let at = function.position;
        let ghost st0 = self.state();
        let ghost params = function@.parameters;
        self.symbol_table.enter_scope();
        let mut i: usize = 0;
        while i < function.parameters.len()
            invariant
                self.wf(),
                i <= function.parameters@.len(),
                params == function@.parameters,
                self.state().errors == st0.errors,
                self.state().return_context == st0.return_context,
                declare_parameters(params, i as int, self.state().table) == declare_parameters(
                    params,
                    0,
                    st0.table.entered(),
                ),
            decreases function.parameters@.len() - i,
        {
            let param = &function.parameters[i];
            assert(params[i as int] == param@);
            let symbol = Symbol::Variable {
                name: param.name.clone(),
                type_: param.param_type,
                defined: true,
            };
            if let Err(e) = self.symbol_table.insert_symbol(param.name.clone(), symbol) {
                self.report_error(e.as_str(), at.line, at.column);
                self.symbol_table.exit_scope();
                return Err(());
            }
            i += 1;
        }
        let old_return_context = self.current_function_return;
        self.current_function_return = function.return_type;
        let annotated_body = match self.check_and_annotate_block(&function.body) {
            Ok(b) => b,
            Err(_) => {
                return Err(());
            },
        };
        self.current_function_return = old_return_context;
        self.symbol_table.exit_scope();
        Ok(
            FunctionDecl { position: at,
                return_type: function.return_type,
                name: function.name.clone(),
                parameters: duplicate_parameters(&function.parameters),
                body: annotated_body,
            },
        )
    }

    /// Checks a block in a scope of its own. A block is always kept; the
    /// statements in it that fail are left out.
    pub fn check_and_annotate_block(&mut self, block: &Block) -> (r: Result<Block, ()>)
        requires
            old(self).wf(),
        ensures
            final(self).wf(),
            r is Ok,
            final(self).state() == check_block(block@, old(self).state()).0,
            r->Ok_0@ == check_block(block@, old(self).state()).1,
        decreases block,
    {
        proof {
            lemma_block_view(*block);
        }
        let ghost ss = block@;
        self.symbol_table.enter_scope();
        let ghost st0 = self.state();
        let mut statements: Vec<Statement> = Vec::new();
        let mut i: usize = 0;
        while i < block.statements.len()
            invariant
                self.wf(),
                i <= block.statements@.len(),
                ss == statements_view(block.statements@),
                (self.state(), statements_view(statements@)) == check_statements(ss, i as int, st0),
            decreases block.statements@.len() - i,
        {
            let ghost before = statements@;
            match self.check_and_annotate_statement(&block.statements[i]) {
                Ok(annotated) => {
                    statements.push(annotated.statement);
                    assert(statements_view(statements@) =~= statements_view(before).push(
                        annotated.statement@,
                    ));
                },
                Err(_) => {},
            }
            i += 1;
        }
        self.symbol_table.exit_scope();
        let r = Block { statements };
        proof {
            lemma_block_view(r);
        }
        Ok(r)
    }

    /// Checks one statement. It is kept, with the expressions that were
    /// typed for it, or dropped with one diagnostic.
    pub fn check_and_annotate_statement(&mut self, statement: &Statement) -> (r: Result<
        AnnotatedStatement,
        (),
    >)
        requires
            old(self).wf(),
        ensures
            final(self).wf(),
            checked_as(final(self).state(), r, check_statement(statement@, old(self).state())),
        decreases statement,
    {
        match statement {
            Statement::VariableDecl(decl) => self.check_variable_declaration(decl),
            Statement::ExprStmt(expr_stmt) => self.check_expression_statement(expr_stmt),
            Statement::IfStmt(if_stmt) => self.check_if_statement(if_stmt),
            Statement::WhileStmt(while_stmt) => self.check_while_statement(while_stmt),
            Statement::ForStmt(for_stmt) => self.check_for_statement(for_stmt),
            Statement::ReturnStmt(return_stmt) => self.check_return_statement(return_stmt),
            Statement::WriteStmt(write_stmt) => self.check_write_statement(write_stmt),
            Statement::ReadStmt(read_stmt) => self.check_read_statement(read_stmt),
        }
    }

    /// Types one expression; a type error is recorded as a diagnostic for
    /// what stands at `at`.
    pub fn check_and_annotate_expression(&mut self, expr: &Expr, at: Position) -> (r: Result<
        (AnnotatedExpr, Type),
        (),
    >)
        requires
            old(self).wf(),
        ensures
            final(self).wf(),
            match infer(expr@, old(self).state().table) {
                Ok(t) => r is Ok && r->Ok_0.1 == t && r->Ok_0.0@ == (AnnotatedExprView {
                    expr: expr@,
                    type_: t,
                }) && final(self).state() == old(self).state(),
                Err(e) => r is Err && final(self).state() == old(self).state().report(
                    at,
                    type_error_message(e),
                ),
            },
    {
        match TypeChecker::infer_expression_type(expr, &self.symbol_table) {
            Ok(type_) => Ok((AnnotatedExpr { expr: expr.duplicate(), type_ }, type_)),
            Err(e) => {
                let message = e.message();
                self.report_error(message.as_str(), at.line, at.column);
                Err(())
            },
        }
    }

    fn check_variable_declaration(&mut self, decl: &VariableDecl) -> (r: Result<
        AnnotatedStatement,
        (),
    >)
        requires
            old(self).wf(),
        ensures
            final(self).wf(),
            checked_as(
                final(self).state(),
                r,
                check_statement(Statement::VariableDecl(*decl)@, old(self).state()),
            ),
    {
        let at = decl.position;
        let symbol = Symbol::Variable {
            name: decl.name.clone(),
            type_: decl.var_type,
            defined: decl.initializer.is_some(),
        };
        if let Err(e) = self.symbol_table.insert_symbol(decl.name.clone(), symbol) {
            self.report_error(e.as_str(), at.line, at.column);
            return Err(());
        }
        self.check_initializer(decl)
    }

    /// Checks the initializer of a declaration whose name is declared.
    pub fn check_initializer(&mut self, decl: &VariableDecl) -> (r: Result<AnnotatedStatement, ()>)
        requires
            old(self).wf(),
        ensures
            final(self).wf(),
            checked_as(
                final(self).state(),
                r,
                check_initializer(Statement::VariableDecl(*decl)@, old(self).state()),
            ),
    {
        let at = decl.position;
        match &decl.initializer {
            Some(initializer) => {
                let (annotated_expr, expr_type) = match self.check_and_annotate_expression(
                    initializer,
                    at,
                ) {
                    Ok(p) => p,
                    Err(_) => {
                        return Err(());
                    },
                };
                if expr_type != decl.var_type {
                    let message = join5(
                        "Tipo do inicializador (",
                        expr_type.as_str(),
                        ") não corresponde ao tipo da variável (",
                        decl.var_type.as_str(),
                        ")",
                    );
                    self.report_error(message.as_str(), at.line, at.column);
                    return Err(());
                }
                Ok(
                    AnnotatedStatement {
                        statement: Statement::VariableDecl(
                            VariableDecl {
                                position: at,
                                var_type: decl.var_type,
                                name: decl.name.clone(),
                                initializer: Some(initializer.duplicate()),
                            },
                        ),
                        expr_annotations: one_annotation(annotated_expr),
                    },
                )
            },
            None => Ok(
                AnnotatedStatement {
                    statement: Statement::VariableDecl(
                        VariableDecl {
                            position: at,
                            var_type: decl.var_type,
                            name: decl.name.clone(),
                            initializer: None,
                        },
                    ),
                    expr_annotations: no_annotation(),
                },
            ),
        }
    }

    fn check_expression_statement(&mut self, expr_stmt: &ExprStmt) -> (r: Result<
        AnnotatedStatement,
        (),
    >)
        requires
            old(self).wf(),
        ensures
            final(self).wf(),
            checked_as(
                final(self).state(),
                r,
                check_statement(Statement::ExprStmt(*expr_stmt)@, old(self).state()),
            ),
    {
        let at = expr_stmt.position;
        let (annotated_expr, _) = match self.check_and_annotate_expression(&expr_stmt.expr, at) {
            Ok(p) => p,
            Err(_) => {
                return Err(());
            },
        };
        Ok(
            AnnotatedStatement {
                statement: Statement::ExprStmt(ExprStmt { position: at, expr: expr_stmt.expr.duplicate() }),
                expr_annotations: one_annotation(annotated_expr),
            },
        )
    }

    fn check_if_statement(&mut self, if_stmt: &IfStmt) -> (r: Result<AnnotatedStatement, ()>)
        requires
            old(self).wf(),
        ensures
            final(self).wf(),
            checked_as(
                final(self).state(),
                r,
                check_statement(Statement::IfStmt(*if_stmt)@, old(self).state()),
            ),
        decreases if_stmt,
    {
        let at = if_stmt.position;
        let (annotated_condition, condition_type) = match self.check_and_annotate_expression(&if_stmt.condition, at) {
            Ok(p) => p,
            Err(_) => {
                return Err(());
            },
        };
        if condition_type != Type::Logico {
            self.report_error("Condição do if deve ser do tipo lógico", at.line, at.column);
            return Err(());
        }
        let then_branch = match self.check_and_annotate_block(&if_stmt.then_branch) {
            Ok(b) => b,
            Err(_) => {
                return Err(());
            },
        };
        let else_branch = match &if_stmt.else_branch {
            Some(b) => match self.check_and_annotate_block(b) {
                Ok(b) => Some(b),
                Err(_) => {
                    return Err(());
                },
            },
            None => None,
        };
        Ok(
            AnnotatedStatement {
                statement: Statement::IfStmt(
                    IfStmt { position: at, condition: if_stmt.condition.duplicate(), then_branch, else_branch },
                ),
                expr_annotations: one_annotation(annotated_condition),
            },
        )
    }

    fn check_while_statement(&mut self, while_stmt: &WhileStmt) -> (r: Result<
        AnnotatedStatement,
        (),
    >)
        requires
            old(self).wf(),
        ensures
            final(self).wf(),
            checked_as(
                final(self).state(),
                r,
                check_statement(Statement::WhileStmt(*while_stmt)@, old(self).state()),
            ),
        decreases while_stmt,
    {
        let at = while_stmt.position;
        let (annotated_condition, condition_type) = match self.check_and_annotate_expression(&while_stmt.condition, at) {
            Ok(p) => p,
            Err(_) => {
                return Err(());
            },
        };
        if condition_type != Type::Logico {
            self.report_error("Condição do while deve ser do tipo lógico", at.line, at.column);
            return Err(());
        }
        let body = match self.check_and_annotate_block(&while_stmt.body) {
            Ok(b) => b,
            Err(_) => {
                return Err(());
            },
        };
        Ok(
            AnnotatedStatement {
                statement: Statement::WhileStmt(
                    WhileStmt { position: at, condition: while_stmt.condition.duplicate(), body },
                ),
                expr_annotations: one_annotation(annotated_condition),
            },
        )
    }

    /// The bounds of the loop are typed; the loop variable is not declared,
    /// so a body that names it resolves the name in the scopes around.
    fn check_for_statement(&mut self, for_stmt: &ForStmt) -> (r: Result<AnnotatedStatement, ()>)
        requires
            old(self).wf(),
        ensures
            final(self).wf(),
            checked_as(
                final(self).state(),
                r,
                check_statement(Statement::ForStmt(*for_stmt)@, old(self).state()),
            ),
        decreases for_stmt,
    {
        let at = for_stmt.position;
        let (annotated_start, _) = match self.check_and_annotate_expression(&for_stmt.start, at) {
            Ok(p) => p,
            Err(_) => {
                return Err(());
            },
        };
        let (annotated_end, _) = match self.check_and_annotate_expression(&for_stmt.end, at) {
            Ok(p) => p,
            Err(_) => {
                return Err(());
            },
        };
        let mut annotations = one_annotation(annotated_start);
        let ghost first = annotations@;
        annotations.push(annotated_end);
        assert(annotations_view(annotations@) =~= annotations_view(first).push(annotated_end@));
        let body = match self.check_and_annotate_block(&for_stmt.body) {
            Ok(b) => b,
            Err(_) => {
                return Err(());
            },
        };
        let r = AnnotatedStatement {
            statement: Statement::ForStmt(
                ForStmt { position: at,
                    variable: for_stmt.variable.clone(),
                    start: for_stmt.start.duplicate(),
                    end: for_stmt.end.duplicate(),
                    body,
                },
            ),
            expr_annotations: annotations,
        };
        assert(r@.expr_annotations =~= seq![annotated_start@, annotated_end@]);
        Ok(r)
    }

    fn check_return_statement(&mut self, return_stmt: &ReturnStmt) -> (r: Result<
        AnnotatedStatement,
        (),
    >)
        requires
            old(self).wf(),
        ensures
            final(self).wf(),
            checked_as(
                final(self).state(),
                r,
                check_statement(Statement::ReturnStmt(*return_stmt)@, old(self).state()),
            ),
    {
        let at = return_stmt.position;
        match (&return_stmt.value, self.current_function_return) {
            (Some(value), Some(expected_type)) => {
                let (annotated_value, actual_type) = match self.check_and_annotate_expression(value, at) {
                    Ok(p) => p,
                    Err(_) => {
                        return Err(());
                    },
                };
                if actual_type != expected_type {
                    let mut message = String::from_str("Tipo de retorno esperado: ");
                    message.append(expected_type.as_str());
                    message.append(", encontrado: ");
                    message.append(actual_type.as_str());
                    self.report_error(message.as_str(), at.line, at.column);
                    return Err(());
                }
                Ok(
                    AnnotatedStatement {
                        statement: Statement::ReturnStmt(
                            ReturnStmt { position: at, value: Some(value.duplicate()) },
                        ),
                        expr_annotations: one_annotation(annotated_value),
                    },
                )
            },
            (Some(_), None) => {
                self.report_error("Retorno com valor em função sem tipo de retorno", at.line, at.column);
                Err(())
            },
            (None, Some(_)) => {
                self.report_error("Retorno sem valor em função com tipo de retorno", at.line, at.column);
                Err(())
            },
            (None, None) => Ok(
                AnnotatedStatement {
                    statement: Statement::ReturnStmt(ReturnStmt { position: at, value: None }),
                    expr_annotations: no_annotation(),
                },
            ),
        }
    }

    #[verifier::loop_isolation(false)]
    fn check_write_statement(&mut self, write_stmt: &WriteStmt) -> (r: Result<
        AnnotatedStatement,
        (),
    >)
        requires
            old(self).wf(),
        ensures
            final(self).wf(),
            checked_as(
                final(self).state(),
                r,
                check_statement(Statement::WriteStmt(*write_stmt)@, old(self).state()),
            ),
    {
        let at = write_stmt.position;
        let ghost st0 = self.state();
        let ghost args = exprs_view(write_stmt.arguments@);
        let mut annotations: Vec<AnnotatedExpr> = Vec::new();
        let mut checked_arguments: Vec<Expr> = Vec::new();
        let mut i: usize = 0;
        while i < write_stmt.arguments.len()
            invariant
                self.wf(),
                self.state() == st0,
                i <= write_stmt.arguments@.len(),
                args == exprs_view(write_stmt.arguments@),
                annotations@.len() == i,
                checked_arguments@.len() == i,
                first_type_error(args, i as int, st0.table) == first_type_error(args, 0, st0.table),
                forall|k: int| 0 <= k < i ==> checked_arguments@[k]@ == args[k],
                forall|k: int| 0 <= k < i ==> annotations@[k]@ == annotate_all(args, st0.table)[k],
            decreases write_stmt.arguments@.len() - i,
        {
            let (annotated_arg, _) = match self.check_and_annotate_expression(&write_stmt.arguments[i], at) {
                Ok(p) => p,
                Err(_) => {
                    return Err(());
                },
            };
            checked_arguments.push(write_stmt.arguments[i].duplicate());
            annotations.push(annotated_arg);
            i += 1;
        }
        let r = AnnotatedStatement {
            statement: Statement::WriteStmt(WriteStmt { position: at, arguments: checked_arguments }),
            expr_annotations: annotations,
        };
        proof {
            assert(exprs_view(checked_arguments@) =~= args);
            assert(r@.expr_annotations =~= annotate_all(args, st0.table));
        }
        Ok(r)
    }

    fn check_read_statement(&mut self, read_stmt: &ReadStmt) -> (r: Result<AnnotatedStatement, ()>)
        requires
            old(self).wf(),
        ensures
            final(self).wf(),
            checked_as(
                final(self).state(),
                r,
                check_statement(Statement::ReadStmt(*read_stmt)@, old(self).state()),
            ),
    {
        let at = read_stmt.position;
        let (annotated_target, _) = match self.check_and_annotate_expression(&read_stmt.target, at) {
            Ok(p) => p,
            Err(_) => {
                return Err(());
            },
        };
        match &read_stmt.target {
            Expr::Variable(_) => {},
            _ => {
                self.report_error("Comando 'leia' só pode ser usado com variáveis", at.line, at.column);
                return Err(());
            },
        }
        Ok(
            AnnotatedStatement {
                statement: Statement::ReadStmt(ReadStmt { position: at, target: read_stmt.target.duplicate() }),
                expr_annotations: one_annotation(annotated_target),
            },
        )
    }
}

} // verus!
