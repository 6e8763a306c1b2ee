//! Laws of the library: what holds of the table of names, of the type
//! checker, of the analysis and of the parser on every input.

use vstd::prelude::*;
use crate::ast::{
    ParameterView,BinaryOperator, ExprView, FunctionDeclView, ProgramView, StatementView, Type};
use crate::grammar::{
    bounded, function_decl, kind_at, program_items, statement_or_declaration, top_recovery, ParserState, SyncSet,
};
use crate::semantic::{
    all_true, check_top_statement, check_top_statements, declared_functions, declared_variables,
    function_declared, variable_declared,
    analysis, check_block, check_function, check_functions, check_statement, check_statements,
    collect_declarations, collect_functions, collect_variables, declare_parameters, AnalysisState,
};
use crate::lexing::{all_tokens, forward, inside, marker, next_token, skip_whitespace, LexPos};
use crate::symbol_table::{duplicate_symbol_message, SymbolTableView, SymbolView};
use crate::token::{TokenKind, TokenView};
use crate::type_checker::infer;

verus! {

/// What a name resolves to from a scope depends on that scope and the
/// scopes before it alone.
pub proof fn lemma_resolve_local(a: SymbolTableView, b: SymbolTableView, idx: int, name: Seq<char>)
    requires
        0 <= idx < a.scopes.len(),
        idx < b.scopes.len(),
        forall|i: int| 0 <= i <= idx ==> a.scopes[i] == b.scopes[i],
    ensures
        a.resolve(idx, name) == b.resolve(idx, name),
    decreases idx,
{
    if !a.scopes[idx].symbols.contains_key(name) {
        match a.scopes[idx].parent {
            Some(p) => {
                if 0 <= p < idx {
                    lemma_resolve_local(a, b, p, name);
                }
            },
            None => {},
        }
    }
}

/// Shadowing. A name that an outer scope declares can be declared again in
/// a scope opened inside it: there the name resolves to the inner
/// declaration, and once that scope is left it resolves to the outer one
/// again.
pub proof fn lemma_shadowing(t: SymbolTableView, name: Seq<char>, inner: SymbolView)
    requires
        t.wf(),
    ensures
        t.entered().can_insert(name),
        t.entered().inserted(name, inner).lookup(name) == Some(inner),
        t.entered().inserted(name, inner).exited().lookup(name) == t.lookup(name),
        t.entered().lookup(name) == t.lookup(name),
{
    let e = t.entered();
    let i = e.inserted(name, inner);
    let x = i.exited();
    assert(x.current_scope == t.current_scope);
    lemma_resolve_local(x, t, t.current_scope, name);
    lemma_resolve_local(e, t, t.current_scope, name);
}

/// Type promotion. Arithmetic on an integer and a decimal gives a decimal,
/// in either order; equality and modulo on them are type errors; two texts
/// compare to a logical value.
pub proof fn lemma_promotion(
    integer: ExprView,
    decimal: ExprView,
    text_a: ExprView,
    text_b: ExprView,
    table: SymbolTableView,
)
    requires
        infer(integer, table) == Ok::<Type, crate::type_checker::TypeErrorView>(Type::Inteiro),
        infer(decimal, table) == Ok::<Type, crate::type_checker::TypeErrorView>(Type::Decimal),
        infer(text_a, table) == Ok::<Type, crate::type_checker::TypeErrorView>(Type::Texto),
        infer(text_b, table) == Ok::<Type, crate::type_checker::TypeErrorView>(Type::Texto),
    ensures
        infer(ExprView::BinaryOp(BinaryOperator::Add, Box::new(integer), Box::new(decimal)), table)
            == Ok::<Type, crate::type_checker::TypeErrorView>(Type::Decimal),
        infer(ExprView::BinaryOp(BinaryOperator::Add, Box::new(decimal), Box::new(integer)), table)
            == Ok::<Type, crate::type_checker::TypeErrorView>(Type::Decimal),
        infer(
            ExprView::BinaryOp(BinaryOperator::Equal, Box::new(integer), Box::new(decimal)),
            table,
        ) is Err,
        infer(
            ExprView::BinaryOp(BinaryOperator::Modulo, Box::new(integer), Box::new(decimal)),
            table,
        ) is Err,
        infer(ExprView::BinaryOp(BinaryOperator::Less, Box::new(text_a), Box::new(text_b)), table)
            == Ok::<Type, crate::type_checker::TypeErrorView>(Type::Logico),
{
}

/// Two functions of one name. The first pass declares the first and
/// records one diagnostic, at the place of the second, that cites the
/// name; afterwards the name resolves to the first. The second pass leaves
/// the second function out without a further diagnostic and checks the
/// first alone: only the first declaration survives.
pub proof fn lemma_duplicate_function(f: FunctionDeclView, g: FunctionDeclView, st: AnalysisState)
    requires
        st.table.wf(),
        f.name == g.name,
        st.table.can_insert(f.name),
    ensures
        ({
            let p = ProgramView { functions: seq![f, g], statements: Seq::empty() };
            let declared = collect_declarations(p, st);
            &&& declared == st.with_table(
                st.table.inserted(f.name, SymbolView::Function { declaration: f }),
            ).report(g.position, duplicate_symbol_message(f.name))
            &&& declared.errors.len() == st.errors.len() + 1
            &&& declared.table.lookup(f.name) == Some(SymbolView::Function { declaration: f })
            &&& declared_functions(p.functions, st) == seq![true, false]
            &&& analysis(p, st).0 == check_function(f, declared).0
            &&& analysis(p, st).1.functions == (match check_function(f, declared).1 {
                Some(x) => seq![x],
                None => Seq::empty(),
            })
            &&& check_function(f, declared).0.errors.len() == declared.errors.len() ==> analysis(
                p,
                st,
            ).1.functions == seq![f] && analysis(p, st).0.errors.len() == st.errors.len() + 1
        }),
{
    let fs = seq![f, g];
    let p = ProgramView { functions: fs, statements: Seq::empty() };
    assert(collect_functions(fs, 0, st) == st);
    let st1 = collect_functions(fs, 1, st);
    assert(st1 == st.with_table(
        st.table.inserted(f.name, SymbolView::Function { declaration: f }),
    ));
    assert(!st1.table.can_insert(g.name));
    let st2 = collect_functions(fs, 2, st);
    assert(collect_variables(p.statements, 0, st2) == st2);
    assert(declared_functions(fs, st) =~= seq![true, false]);
    let flags = declared_functions(fs, st);
    let none = declared_variables(p.statements, st2);
    assert(check_top_statements(p.statements, none, 0, st2) == (st2, Seq::<StatementView>::empty()));
    assert(check_functions(fs, flags, 0, st2) == (st2, Seq::<FunctionDeclView>::empty()));
    let first = check_functions(fs, flags, 1, st2);
    assert(first.0 == check_function(f, st2).0);
    assert(first.1 =~= (match check_function(f, st2).1 {
        Some(x) => seq![x],
        None => Seq::empty(),
    }));
    assert(check_functions(fs, flags, 2, st2) == first);
    lemma_function_kept(f, st2);
}

/// The check of a statement, of a list of statements and of a block only
/// adds diagnostics; where it adds none, everything is kept as it was.
pub proof fn lemma_statement_kept(s: StatementView, st: AnalysisState)
    ensures
        check_statement(s, st).0.errors.len() >= st.errors.len(),
        check_statement(s, st).0.return_context == st.return_context,
        check_statement(s, st).0.errors.len() == st.errors.len() ==> check_statement(s, st).1
            is Some && check_statement(s, st).1->0.statement == s,
    decreases s, 0int,
{
    match s {
        StatementView::IfStmt { then_branch, else_branch, .. } => {
            lemma_block_kept(then_branch, st);
            match else_branch {
                Some(b) => {
                    lemma_block_kept(b, check_block(then_branch, st).0);
                },
                None => {},
            }
        },
        StatementView::WhileStmt { body, .. } => {
            lemma_block_kept(body, st);
        },
        StatementView::ForStmt { body, .. } => {
            lemma_block_kept(body, st);
        },
        _ => {},
    }
}

/// See `lemma_statement_kept`.
pub proof fn lemma_statements_kept(stmts: Seq<StatementView>, n: int, st: AnalysisState)
    requires
        0 <= n <= stmts.len(),
    ensures
        check_statements(stmts, n, st).0.errors.len() >= st.errors.len(),
        check_statements(stmts, n, st).0.return_context == st.return_context,
        check_statements(stmts, n, st).0.errors.len() == st.errors.len() ==> check_statements(
            stmts,
            n,
            st,
        ).1 == stmts.take(n),
    decreases stmts, n,
{
    if n > 0 {
        lemma_statements_kept(stmts, n - 1, st);
        let st1 = check_statements(stmts, n - 1, st).0;
        lemma_statement_kept(stmts[n - 1], st1);
        if check_statements(stmts, n, st).0.errors.len() == st.errors.len() {
            assert(stmts.take(n) =~= stmts.take(n - 1).push(stmts[n - 1]));
        }
    } else {
        assert(stmts.take(0) =~= Seq::empty());
    }
}

/// See `lemma_statement_kept`.
pub proof fn lemma_block_kept(b: Seq<StatementView>, st: AnalysisState)
    ensures
        check_block(b, st).0.errors.len() >= st.errors.len(),
        check_block(b, st).0.return_context == st.return_context,
        check_block(b, st).0.errors.len() == st.errors.len() ==> check_block(b, st).1 == b,
    decreases b, b.len() + 1,
{
    lemma_statements_kept(b, b.len() as int, st.with_table(st.table.entered()));
    assert(b.take(b.len() as int) =~= b);
}

/// The check of a statement of the top level only adds diagnostics; where
/// it adds none to a statement that the first pass declared, the statement
/// is kept as it was.
pub proof fn lemma_top_statement_kept(s: StatementView, declared: bool, st: AnalysisState)
    ensures
        check_top_statement(s, declared, st).0.errors.len() >= st.errors.len(),
        declared && check_top_statement(s, declared, st).0.errors.len() == st.errors.len()
            ==> check_top_statement(s, declared, st).1 is Some && check_top_statement(
            s,
            declared,
            st,
        ).1->0.statement == s,
{
    reveal(check_top_statement);
    lemma_statement_kept(s, st);
}

/// See `lemma_top_statement_kept`.
pub proof fn lemma_top_statements_kept(
    stmts: Seq<StatementView>,
    declared: Seq<bool>,
    n: int,
    st: AnalysisState,
)
    requires
        0 <= n <= stmts.len(),
    ensures
        check_top_statements(stmts, declared, n, st).0.errors.len() >= st.errors.len(),
        check_top_statements(stmts, declared, n, st).0.errors.len() == st.errors.len() && all_true(
            declared,
            n,
        ) ==> check_top_statements(stmts, declared, n, st).1 == stmts.take(n),
    decreases n,
{
    if n > 0 {
        lemma_top_statements_kept(stmts, declared, n - 1, st);
        let st1 = check_top_statements(stmts, declared, n - 1, st).0;
        lemma_top_statement_kept(stmts[n - 1], n - 1 < declared.len() && declared[n - 1], st1);
        assert(stmts.take(n) =~= stmts.take(n - 1).push(stmts[n - 1]));
        if all_true(declared, n) {
            assert(declared[n - 1]);
            assert(all_true(declared, n - 1));
        }
    } else {
        assert(stmts.take(0) =~= Seq::empty());
    }
}

/// The check of a function only adds diagnostics; where it adds none, the
/// function is kept as it was.
pub proof fn lemma_function_kept(f: FunctionDeclView, st: AnalysisState)
    ensures
        check_function(f, st).0.errors.len() >= st.errors.len(),
        check_function(f, st).0.return_context == st.return_context,
        check_function(f, st).0.errors.len() == st.errors.len() ==> check_function(f, st).1
            == Some(f),
{
    match declare_parameters(f.parameters, 0, st.table.entered()) {
        Err(_) => {},
        Ok(t) => {
            lemma_block_kept(f.body, st.with_table(t).with_return(f.return_type));
        },
    }
}

/// See `lemma_function_kept`.
pub proof fn lemma_functions_kept(
    fs: Seq<FunctionDeclView>,
    declared: Seq<bool>,
    n: int,
    st: AnalysisState,
)
    requires
        0 <= n <= fs.len(),
    ensures
        check_functions(fs, declared, n, st).0.errors.len() >= st.errors.len(),
        check_functions(fs, declared, n, st).0.errors.len() == st.errors.len() && all_true(
            declared,
            n,
        ) ==> check_functions(fs, declared, n, st).1 == fs.take(n),
    decreases n,
{
    if n > 0 {
        lemma_functions_kept(fs, declared, n - 1, st);
        lemma_function_kept(fs[n - 1], check_functions(fs, declared, n - 1, st).0);
        assert(fs.take(n) =~= fs.take(n - 1).push(fs[n - 1]));
        if all_true(declared, n) {
            assert(declared[n - 1]);
            assert(all_true(declared, n - 1));
        }
    } else {
        assert(fs.take(0) =~= Seq::empty());
    }
}

/// The first pass only adds diagnostics; where it adds none, it declares
/// every function and every variable of the top level.
pub proof fn lemma_collect_grows(p: ProgramView, st: AnalysisState)
    ensures
        collect_declarations(p, st).errors.len() >= st.errors.len(),
        collect_declarations(p, st).errors.len() == st.errors.len() ==> all_true(
            declared_functions(p.functions, st),
            p.functions.len() as int,
        ) && all_true(
            declared_variables(
                p.statements,
                collect_functions(p.functions, p.functions.len() as int, st),
            ),
            p.statements.len() as int,
        ),
{
    let st1 = collect_functions(p.functions, p.functions.len() as int, st);
    lemma_collect_functions_grows(p.functions, p.functions.len() as int, st);
    lemma_collect_variables_grows(p.statements, p.statements.len() as int, st1);
}

proof fn lemma_collect_functions_grows(fs: Seq<FunctionDeclView>, n: int, st: AnalysisState)
    requires
        0 <= n <= fs.len(),
    ensures
        collect_functions(fs, n, st).errors.len() >= st.errors.len(),
        collect_functions(fs, n, st).errors.len() == st.errors.len() ==> forall|i: int|
            0 <= i < n ==> function_declared(fs, i, st),
    decreases n,
{
    if n > 0 {
        lemma_collect_functions_grows(fs, n - 1, st);
    }
}

proof fn lemma_collect_variables_grows(stmts: Seq<StatementView>, n: int, st: AnalysisState)
    requires
        0 <= n <= stmts.len(),
    ensures
        collect_variables(stmts, n, st).errors.len() >= st.errors.len(),
        collect_variables(stmts, n, st).errors.len() == st.errors.len() ==> forall|i: int|
            0 <= i < n ==> variable_declared(stmts, i, st),
    decreases n,
{
    if n > 0 {
        lemma_collect_variables_grows(stmts, n - 1, st);
    }
}

/// A program that the analysis finds no fault with comes back whole. The
/// analysis only adds diagnostics to those it started with; and where it
/// adds none, the program it returns is the program it was given, with
/// every function and every statement: nothing is dropped without a
/// diagnostic.
pub proof fn lemma_clean_analysis_keeps_program(p: ProgramView, st: AnalysisState)
    ensures
        analysis(p, st).0.errors.len() >= st.errors.len(),
        analysis(p, st).0.errors.len() == st.errors.len() ==> analysis(p, st).1 == p,
        analysis(p, st).0.errors.len() == st.errors.len() ==> analysis(p, st).1.functions.len()
            == p.functions.len() && analysis(p, st).1.statements.len() == p.statements.len(),
{
    let st0 = collect_functions(p.functions, p.functions.len() as int, st);
    let st1 = collect_declarations(p, st);
    let fd = declared_functions(p.functions, st);
    let vd = declared_variables(p.statements, st0);
    lemma_collect_grows(p, st);
    lemma_top_statements_kept(p.statements, vd, p.statements.len() as int, st1);
    let st2 = check_top_statements(p.statements, vd, p.statements.len() as int, st1).0;
    lemma_functions_kept(p.functions, fd, p.functions.len() as int, st2);
    assert(p.statements.take(p.statements.len() as int) =~= p.statements);
    assert(p.functions.take(p.functions.len() as int) =~= p.functions);
}

/// The table `b` stands in the scope in which `a` stood, and the scopes
/// of `a` are still there with the parents they had.
pub open spec fn scope_kept(a: SymbolTableView, b: SymbolTableView) -> bool {
    &&& b.wf()
    &&& b.current_scope == a.current_scope
    &&& b.scopes.len() >= a.scopes.len()
    &&& forall|i: int| 0 <= i < a.scopes.len() ==> (#[trigger] b.scopes[i]).parent == a.scopes[i].parent
}

/// The check of a statement, of a list of statements and of a block ends
/// in the scope in which it began: every scope that it enters it leaves.
pub proof fn lemma_statement_scope(s: StatementView, st: AnalysisState)
    requires
        st.table.wf(),
    ensures
        scope_kept(st.table, check_statement(s, st).0.table),
    decreases s, 0int,
{
    match s {
        StatementView::IfStmt { then_branch, else_branch, .. } => {
            lemma_block_scope(then_branch, st);
            match else_branch {
                Some(b) => {
                    lemma_block_scope(b, check_block(then_branch, st).0);
                },
                None => {},
            }
        },
        StatementView::WhileStmt { body, .. } => {
            lemma_block_scope(body, st);
        },
        StatementView::ForStmt { body, .. } => {
            lemma_block_scope(body, st);
        },
        _ => {},
    }
}

/// See `lemma_statement_scope`.
pub proof fn lemma_statements_scope(stmts: Seq<StatementView>, n: int, st: AnalysisState)
    requires
        st.table.wf(),
        0 <= n <= stmts.len(),
    ensures
        scope_kept(st.table, check_statements(stmts, n, st).0.table),
    decreases stmts, n,
{
    if n > 0 {
        lemma_statements_scope(stmts, n - 1, st);
        lemma_statement_scope(stmts[n - 1], check_statements(stmts, n - 1, st).0);
    }
}

/// See `lemma_statement_scope`.
pub proof fn lemma_block_scope(b: Seq<StatementView>, st: AnalysisState)
    requires
        st.table.wf(),
    ensures
        scope_kept(st.table, check_block(b, st).0.table),
    decreases b, b.len() + 1,
{
    let inner = st.with_table(st.table.entered());
    assert(inner.table.wf());
    lemma_statements_scope(b, b.len() as int, inner);
    let after = check_statements(b, b.len() as int, inner).0.table;
    assert(after.scopes[after.current_scope].parent == Some(st.table.current_scope));
}

/// The declaration of parameters stays in the scope it began in.
pub proof fn lemma_parameters_scope(params: Seq<ParameterView>, i: int, table: SymbolTableView)
    requires
        table.wf(),
    ensures
        match declare_parameters(params, i, table) {
            Ok(t) => scope_kept(table, t),
            Err((t, _)) => scope_kept(table, t),
        },
    decreases params.len() - i,
{
    if 0 <= i < params.len() && table.can_insert(params[i].name) {
        lemma_parameters_scope(
            params,
            i + 1,
            table.inserted(
                params[i].name,
                SymbolView::Variable {
                    name: params[i].name,
                    type_: params[i].param_type,
                    defined: true,
                },
            ),
        );
    }
}

/// The check of a function ends in the scope in which it began.
pub proof fn lemma_function_scope(f: FunctionDeclView, st: AnalysisState)
    requires
        st.table.wf(),
    ensures
        scope_kept(st.table, check_function(f, st).0.table),
{
    let entered = st.table.entered();
    assert(entered.wf());
    lemma_parameters_scope(f.parameters, 0, entered);
    match declare_parameters(f.parameters, 0, entered) {
        Err((t, _)) => {
            assert(t.scopes[t.current_scope].parent == Some(st.table.current_scope));
        },
        Ok(t) => {
            assert(t.scopes[t.current_scope].parent == Some(st.table.current_scope));
            let inner = st.with_table(t).with_return(f.return_type);
            lemma_block_scope(f.body, inner);
            let after = check_block(f.body, inner).0.table;
            assert(after.scopes[after.current_scope].parent == Some(st.table.current_scope));
        },
    }
}

proof fn lemma_collect_functions_scope(fs: Seq<FunctionDeclView>, n: int, st: AnalysisState)
    requires
        st.table.wf(),
    ensures
        scope_kept(st.table, collect_functions(fs, n, st).table),
    decreases n,
{
    if 0 < n <= fs.len() {
        lemma_collect_functions_scope(fs, n - 1, st);
    }
}

proof fn lemma_collect_variables_scope(stmts: Seq<StatementView>, n: int, st: AnalysisState)
    requires
        st.table.wf(),
    ensures
        scope_kept(st.table, collect_variables(stmts, n, st).table),
    decreases n,
{
    if 0 < n <= stmts.len() {
        lemma_collect_variables_scope(stmts, n - 1, st);
    }
}

proof fn lemma_top_statements_scope(
    stmts: Seq<StatementView>,
    declared: Seq<bool>,
    n: int,
    st: AnalysisState,
)
    requires
        st.table.wf(),
        0 <= n <= stmts.len(),
    ensures
        scope_kept(st.table, check_top_statements(stmts, declared, n, st).0.table),
        check_top_statements(stmts, declared, n, st).1.len() <= n,
    decreases n,
{
    if n > 0 {
        lemma_top_statements_scope(stmts, declared, n - 1, st);
        reveal(check_top_statement);
        lemma_statement_scope(stmts[n - 1], check_top_statements(stmts, declared, n - 1, st).0);
    }
}

proof fn lemma_functions_scope(
    fs: Seq<FunctionDeclView>,
    declared: Seq<bool>,
    n: int,
    st: AnalysisState,
)
    requires
        st.table.wf(),
        0 <= n <= fs.len(),
    ensures
        scope_kept(st.table, check_functions(fs, declared, n, st).0.table),
        check_functions(fs, declared, n, st).1.len() <= n,
    decreases n,
{
    if n > 0 {
        lemma_functions_scope(fs, declared, n - 1, st);
        lemma_function_scope(fs[n - 1], check_functions(fs, declared, n - 1, st).0);
    }
}

/// The analysis ends where it began: in the scope in which it started
/// (the global scope, for a new analyzer). It returns no more functions
/// and statements than it was given.
pub proof fn lemma_analysis_ends_where_it_began(p: ProgramView, st: AnalysisState)
    requires
        st.table.wf(),
    ensures
        scope_kept(st.table, analysis(p, st).0.table),
        analysis(p, st).1.functions.len() <= p.functions.len(),
        analysis(p, st).1.statements.len() <= p.statements.len(),
{
    let st0 = collect_functions(p.functions, p.functions.len() as int, st);
    lemma_collect_functions_scope(p.functions, p.functions.len() as int, st);
    lemma_collect_variables_scope(p.statements, p.statements.len() as int, st0);
    let st1 = collect_declarations(p, st);
    let fd = declared_functions(p.functions, st);
    let vd = declared_variables(p.statements, st0);
    lemma_top_statements_scope(p.statements, vd, p.statements.len() as int, st1);
    let st2 = check_top_statements(p.statements, vd, p.statements.len() as int, st1).0;
    lemma_functions_scope(p.functions, fd, p.functions.len() as int, st2);
}

/// The parser reads the whole input whatever it meets: a program parsed
/// from any position of the input ends at the end of the input, so an
/// error does not keep what follows it from being parsed.
pub proof fn lemma_program_reads_all_input(p: Seq<TokenView>, st: ParserState, acc: ProgramView)
    requires
        0 <= st.pos <= p.len(),
    ensures
        kind_at(p, program_items(p, st, acc).0.pos) == TokenKind::EOF,
    decreases p.len() - st.pos,
{
    reveal(program_items);
    let k = kind_at(p, st.pos);
    if k != TokenKind::EOF {
        if k == TokenKind::Funcao {
            let f = function_decl(p, st);
            match f.result {
                Ok(x) => {
                    lemma_program_reads_all_input(
                        p,
                        bounded(p, f.state, st.pos + 1),
                        ProgramView { functions: acc.functions.push(x), ..acc },
                    );
                },
                Err(e) => {
                    lemma_program_reads_all_input(
                        p,
                        bounded(p, top_recovery(p, f.state, SyncSet::Function, e), st.pos + 1),
                        acc,
                    );
                },
            }
        } else {
            let s = statement_or_declaration(p, st);
            match s.result {
                Ok(x) => {
                    lemma_program_reads_all_input(
                        p,
                        bounded(p, s.state, st.pos + 1),
                        ProgramView { statements: acc.statements.push(x), ..acc },
                    );
                },
                Err(e) => {
                    lemma_program_reads_all_input(
                        p,
                        bounded(p, top_recovery(p, s.state, SyncSet::TopLevel, e), st.pos + 1),
                        acc,
                    );
                },
            }
        }
    }
}

/// What the tokenizer hands to the parser ends with the token that marks
/// the end of the input, after every token that was read before it.
pub proof fn lemma_tokens_end_with_marker(src: Seq<char>, c: LexPos, acc: Seq<TokenView>)
    ensures
        match all_tokens(src, c, acc) {
            Ok(v) => v.len() > acc.len() && v.last().token_type.kind == TokenKind::EOF
                && v.subrange(0, acc.len() as int) == acc,
            Err(_) => true,
        },
    decreases src.len() - c.pos,
{
    let t = next_token(src, c);
    match t.result {
        Err(_) => {},
        Ok(None) => {
            assert(acc.push(marker(t.at)).subrange(0, acc.len() as int) =~= acc);
        },
        Ok(Some(token)) => {
            if inside(src, c) {
                let next = forward(src, t.at, c.pos + 1);
                lemma_tokens_end_with_marker(src, next, acc.push(token));
                match all_tokens(src, next, acc.push(token)) {
                    Ok(v) => {
                        assert(v.subrange(0, acc.len() as int) =~= v.subrange(
                            0,
                            acc.len() as int + 1,
                        ).subrange(0, acc.len() as int));
                        assert(acc.push(token).subrange(0, acc.len() as int) =~= acc);
                    },
                    Err(_) => {},
                }
            } else {
                assert(skip_whitespace(src, c) == c);
            }
        },
    }
}

} // verus!
