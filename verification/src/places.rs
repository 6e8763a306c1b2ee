//! Laws on places: where every statement and function of a program has a
//! line and a column counted from 1, so has every diagnostic of the
//! analysis.

use vstd::prelude::*;
use crate::ast::{FunctionDeclView, Position, ProgramView, StatementView};
use crate::semantic::{
    analysis, check_block, check_function, check_functions, check_statement, check_statements,
    check_top_statement, check_top_statements, collect_declarations, collect_functions,
    collect_variables, declare_parameters, declared_functions, declared_variables, AnalysisState,
    SemanticErrorView,
};

use crate::grammar::{
    advance, block, block_items, block_recovery, bounded, consume, expr_stmt, expression_then,
    for_stmt, function_decl, identifier, if_stmt, kind_at, parameter, parameters, parse_type,
    program_items, read_stmt, return_stmt, return_type, statement, statement_or_declaration,
    top_recovery, variable_decl, while_stmt, write_stmt, ParserState, SyncSet,
};
use crate::grammar_laws::{
    lemma_block_onward, lemma_expression_then_onward, lemma_for_stmt_onward,
    lemma_function_decl_onward, lemma_if_stmt_onward, lemma_parameter_onward,
    lemma_parameters_rest_onward, lemma_simple_statements_onward, lemma_variable_decl_onward,
    lemma_while_stmt_onward,
};
use crate::token::{TokenKind, TokenView};

verus! {

/// The line and the column are counted from 1.
pub open spec fn position_placed(at: Position) -> bool {
    at.line >= 1 && at.column >= 1
}

/// The place of a statement.
pub open spec fn statement_position(s: StatementView) -> Position {
    match s {
        StatementView::VariableDecl { position, .. } => position,
        StatementView::ExprStmt { position, .. } => position,
        StatementView::IfStmt { position, .. } => position,
        StatementView::WhileStmt { position, .. } => position,
        StatementView::ForStmt { position, .. } => position,
        StatementView::ReturnStmt { position, .. } => position,
        StatementView::WriteStmt { position, .. } => position,
        StatementView::ReadStmt { position, .. } => position,
    }
}

/// The statement and every statement inside it has a place counted from 1.
pub open spec fn statement_placed(s: StatementView) -> bool
    decreases s, 0int,
{
    &&& position_placed(statement_position(s))
    &&& match s {
        StatementView::IfStmt { then_branch, else_branch, .. } => block_placed(then_branch) && (
        match else_branch {
            Some(b) => block_placed(b),
            None => true,
        }),
        StatementView::WhileStmt { body, .. } => block_placed(body),
        StatementView::ForStmt { body, .. } => block_placed(body),
        _ => true,
    }
}

/// Every statement of the block has a place counted from 1.
pub open spec fn block_placed(b: Seq<StatementView>) -> bool
    decreases b, 1int,
{
    forall|i: int| 0 <= i < b.len() ==> statement_placed(#[trigger] b[i])
}

/// The function and every statement of its body has a place counted from 1.
pub open spec fn function_placed(f: FunctionDeclView) -> bool {
    position_placed(f.position) && block_placed(f.body)
}

/// Every function and statement of the program has a place counted from 1.
pub open spec fn program_placed(p: ProgramView) -> bool {
    &&& forall|i: int| 0 <= i < p.functions.len() ==> function_placed(#[trigger] p.functions[i])
    &&& block_placed(p.statements)
}

/// Every diagnostic has a line and a column counted from 1.
pub open spec fn diagnostics_placed(errors: Seq<SemanticErrorView>) -> bool {
    forall|i: int| 0 <= i < errors.len() ==> (#[trigger] errors[i]).line >= 1 && errors[i].column >= 1
}

/// The diagnostics of the check of a well placed statement are well placed.
pub proof fn lemma_statement_diagnostics(s: StatementView, st: AnalysisState)
    requires
        statement_placed(s),
        diagnostics_placed(st.errors),
    ensures
        diagnostics_placed(check_statement(s, st).0.errors),
    decreases s, 0int,
{
    match s {
        StatementView::IfStmt { then_branch, else_branch, .. } => {
            lemma_block_diagnostics(then_branch, st);
            match else_branch {
                Some(b) => {
                    lemma_block_diagnostics(b, check_block(then_branch, st).0);
                },
                None => {},
            }
        },
        StatementView::WhileStmt { body, .. } => {
            lemma_block_diagnostics(body, st);
        },
        StatementView::ForStmt { body, .. } => {
            lemma_block_diagnostics(body, st);
        },
        _ => {},
    }
}

/// See `lemma_statement_diagnostics`.
pub proof fn lemma_statements_diagnostics(stmts: Seq<StatementView>, n: int, st: AnalysisState)
    requires
        block_placed(stmts),
        diagnostics_placed(st.errors),
        0 <= n <= stmts.len(),
    ensures
        diagnostics_placed(check_statements(stmts, n, st).0.errors),
    decreases stmts, n,
{
    if n > 0 {
        lemma_statements_diagnostics(stmts, n - 1, st);
        lemma_statement_diagnostics(stmts[n - 1], check_statements(stmts, n - 1, st).0);
    }
}

/// See `lemma_statement_diagnostics`.
pub proof fn lemma_block_diagnostics(b: Seq<StatementView>, st: AnalysisState)
    requires
        block_placed(b),
        diagnostics_placed(st.errors),
    ensures
        diagnostics_placed(check_block(b, st).0.errors),
    decreases b, b.len() + 1,
{
    lemma_statements_diagnostics(b, b.len() as int, st.with_table(st.table.entered()));
}

/// The diagnostics of the check of a well placed function are well placed.
pub proof fn lemma_function_diagnostics(f: FunctionDeclView, st: AnalysisState)
    requires
        function_placed(f),
        diagnostics_placed(st.errors),
    ensures
        diagnostics_placed(check_function(f, st).0.errors),
{
    match declare_parameters(f.parameters, 0, st.table.entered()) {
        Err(_) => {},
        Ok(t) => {
            lemma_block_diagnostics(f.body, st.with_table(t).with_return(f.return_type));
        },
    }
}

proof fn lemma_functions_diagnostics(
    fs: Seq<FunctionDeclView>,
    declared: Seq<bool>,
    n: int,
    st: AnalysisState,
)
    requires
        forall|i: int| 0 <= i < fs.len() ==> function_placed(#[trigger] fs[i]),
        diagnostics_placed(st.errors),
        0 <= n <= fs.len(),
    ensures
        diagnostics_placed(check_functions(fs, declared, n, st).0.errors),
    decreases n,
{
    if n > 0 {
        lemma_functions_diagnostics(fs, declared, n - 1, st);
        lemma_function_diagnostics(fs[n - 1], check_functions(fs, declared, n - 1, st).0);
    }
}

proof fn lemma_top_statements_diagnostics(
    stmts: Seq<StatementView>,
    declared: Seq<bool>,
    n: int,
    st: AnalysisState,
)
    requires
        block_placed(stmts),
        diagnostics_placed(st.errors),
        0 <= n <= stmts.len(),
    ensures
        diagnostics_placed(check_top_statements(stmts, declared, n, st).0.errors),
    decreases n,
{
    if n > 0 {
        lemma_top_statements_diagnostics(stmts, declared, n - 1, st);
        reveal(check_top_statement);
        lemma_statement_diagnostics(
            stmts[n - 1],
            check_top_statements(stmts, declared, n - 1, st).0,
        );
    }
}

proof fn lemma_collect_functions_diagnostics(fs: Seq<FunctionDeclView>, n: int, st: AnalysisState)
    requires
        forall|i: int| 0 <= i < fs.len() ==> function_placed(#[trigger] fs[i]),
        diagnostics_placed(st.errors),
    ensures
        diagnostics_placed(collect_functions(fs, n, st).errors),
    decreases n,
{
    if 0 < n <= fs.len() {
        lemma_collect_functions_diagnostics(fs, n - 1, st);
    }
}

proof fn lemma_collect_variables_diagnostics(
    stmts: Seq<StatementView>,
    n: int,
    st: AnalysisState,
)
    requires
        block_placed(stmts),
        diagnostics_placed(st.errors),
    ensures
        diagnostics_placed(collect_variables(stmts, n, st).errors),
    decreases n,
{
    if 0 < n <= stmts.len() {
        lemma_collect_variables_diagnostics(stmts, n - 1, st);
        assert(statement_placed(stmts[n - 1]));
    }
}

/// Every diagnostic of the analysis carries a place: where every function
/// and statement of the program has a line and a column counted from 1, as
/// those of a parsed program have, so has every diagnostic that the
/// analysis adds.
pub proof fn lemma_diagnostics_are_placed(p: ProgramView, st: AnalysisState)
    requires
        program_placed(p),
        diagnostics_placed(st.errors),
    ensures
        diagnostics_placed(analysis(p, st).0.errors),
{
    let st0 = collect_functions(p.functions, p.functions.len() as int, st);
    lemma_collect_functions_diagnostics(p.functions, p.functions.len() as int, st);
    lemma_collect_variables_diagnostics(p.statements, p.statements.len() as int, st0);
    let st1 = collect_declarations(p, st);
    let fd = declared_functions(p.functions, st);
    let vd = declared_variables(p.statements, st0);
    lemma_top_statements_diagnostics(p.statements, vd, p.statements.len() as int, st1);
    let st2 = check_top_statements(p.statements, vd, p.statements.len() as int, st1).0;
    lemma_functions_diagnostics(p.functions, fd, p.functions.len() as int, st2);
}

/// Every token has a line and a column counted from 1.
pub open spec fn tokens_placed(p: Seq<TokenView>) -> bool {
    forall|i: int|
        0 <= i < p.len() ==> 1 <= (#[trigger] p[i]).linha <= usize::MAX && 1 <= p[i].coluna
            <= usize::MAX
}

/// A statement without blocks, parsed from well placed tokens, is well
/// placed.
pub proof fn lemma_simple_statements_placed(p: Seq<TokenView>, st: ParserState)
    requires
        tokens_placed(p),
        0 <= st.pos <= p.len(),
    ensures
        variable_decl(p, st).result is Ok ==> statement_placed(variable_decl(p, st).result->Ok_0),
        expr_stmt(p, st).result is Ok ==> statement_placed(expr_stmt(p, st).result->Ok_0),
        return_stmt(p, st).result is Ok ==> statement_placed(return_stmt(p, st).result->Ok_0),
        write_stmt(p, st).result is Ok ==> statement_placed(write_stmt(p, st).result->Ok_0),
        read_stmt(p, st).result is Ok ==> statement_placed(read_stmt(p, st).result->Ok_0),
{
    reveal(variable_decl);
    reveal(expr_stmt);
    reveal(return_stmt);
    reveal(write_stmt);
    reveal(read_stmt);
    lemma_variable_decl_onward(p, st);
    lemma_simple_statements_onward(p, st);
}

pub proof fn lemma_if_stmt_placed(p: Seq<TokenView>, st: ParserState)
    requires
        tokens_placed(p),
        0 <= st.pos <= p.len(),
    ensures
        if_stmt(p, st).result is Ok ==> statement_placed(if_stmt(p, st).result->Ok_0),
    decreases p.len() - st.pos, 20int,
{
    reveal(if_stmt);
    reveal(block);
    lemma_if_stmt_onward(p, st);
    let k = consume(p, st, TokenKind::Se);
    if k.result is Ok {
        lemma_expression_then_onward(p, k.state, TokenKind::Entao);
        let c = expression_then(p, k.state, TokenKind::Entao);
        if c.result is Ok {
            let b1 = bounded(p, c.state, st.pos + 1);
            lemma_block_placed(p, b1);
            lemma_block_onward(p, b1);
            let t = block(p, b1);
            if t.result is Ok && kind_at(p, t.state.pos) == TokenKind::Senao {
                lemma_block_placed(p, bounded(p, advance(p, t.state), st.pos + 1));
            }
        }
    }
}

pub proof fn lemma_while_stmt_placed(p: Seq<TokenView>, st: ParserState)
    requires
        tokens_placed(p),
        0 <= st.pos <= p.len(),
    ensures
        while_stmt(p, st).result is Ok ==> statement_placed(while_stmt(p, st).result->Ok_0),
    decreases p.len() - st.pos, 20int,
{
    reveal(while_stmt);
    reveal(block);
    lemma_while_stmt_onward(p, st);
    let k = consume(p, st, TokenKind::Enquanto);
    if k.result is Ok {
        lemma_expression_then_onward(p, k.state, TokenKind::Faca);
        let c = expression_then(p, k.state, TokenKind::Faca);
        if c.result is Ok {
            lemma_block_placed(p, bounded(p, c.state, st.pos + 1));
        }
    }
}

pub proof fn lemma_for_stmt_placed(p: Seq<TokenView>, st: ParserState)
    requires
        tokens_placed(p),
        0 <= st.pos <= p.len(),
    ensures
        for_stmt(p, st).result is Ok ==> statement_placed(for_stmt(p, st).result->Ok_0),
    decreases p.len() - st.pos, 20int,
{
    reveal(for_stmt);
    reveal(block);
    reveal(identifier);
    lemma_for_stmt_onward(p, st);
    let k = consume(p, st, TokenKind::Para);
    if k.result is Ok {
        let n = identifier(p, k.state, "Esperado identificador para variável do loop"@);
        if n.result is Ok {
            let d = consume(p, n.state, TokenKind::De);
            if d.result is Ok {
                lemma_expression_then_onward(p, d.state, TokenKind::Ate);
                let s = expression_then(p, d.state, TokenKind::Ate);
                if s.result is Ok {
                    lemma_expression_then_onward(p, s.state, TokenKind::Faca);
                    let e = expression_then(p, s.state, TokenKind::Faca);
                    if e.result is Ok {
                        lemma_block_placed(p, bounded(p, e.state, st.pos + 1));
                    }
                }
            }
        }
    }
}

pub proof fn lemma_statement_placed(p: Seq<TokenView>, st: ParserState)
    requires
        tokens_placed(p),
        0 <= st.pos <= p.len(),
    ensures
        statement(p, st).result is Ok ==> statement_placed(statement(p, st).result->Ok_0),
    decreases p.len() - st.pos, 21int,
{
    reveal(statement);
    reveal(if_stmt);
    reveal(while_stmt);
    reveal(for_stmt);
    lemma_simple_statements_placed(p, st);
    let kind = kind_at(p, st.pos);
    if kind == TokenKind::Se {
        lemma_if_stmt_placed(p, st);
    } else if kind == TokenKind::Enquanto {
        lemma_while_stmt_placed(p, st);
    } else if kind == TokenKind::Para {
        lemma_for_stmt_placed(p, st);
    }
}

pub proof fn lemma_statement_or_declaration_placed(p: Seq<TokenView>, st: ParserState)
    requires
        tokens_placed(p),
        0 <= st.pos <= p.len(),
    ensures
        statement_or_declaration(p, st).result is Ok ==> statement_placed(
            statement_or_declaration(p, st).result->Ok_0,
        ),
    decreases p.len() - st.pos, 22int,
{
    reveal(statement_or_declaration);
    reveal(statement);
    if kind_at(p, st.pos).spec_is_type_keyword() {
        lemma_simple_statements_placed(p, st);
    } else {
        lemma_statement_placed(p, st);
    }
}

pub proof fn lemma_block_items_placed(p: Seq<TokenView>, st: ParserState, acc: Seq<StatementView>)
    requires
        tokens_placed(p),
        0 <= st.pos <= p.len(),
        block_placed(acc),
    ensures
        block_placed(block_items(p, st, acc).1),
    decreases p.len() - st.pos, 23int,
{
    reveal(block_items);
    reveal(statement_or_declaration);
    let k = kind_at(p, st.pos);
    if !(k == TokenKind::ChaveDireita || k == TokenKind::EOF) {
        lemma_statement_or_declaration_placed(p, st);
        let s = statement_or_declaration(p, st);
        match s.result {
            Ok(x) => {
                lemma_block_items_placed(p, bounded(p, s.state, st.pos + 1), acc.push(x));
            },
            Err(e) => {
                lemma_block_items_placed(
                    p,
                    bounded(p, block_recovery(p, s.state, st.pos, e), st.pos + 1),
                    acc,
                );
            },
        }
    }
}

pub proof fn lemma_block_placed(p: Seq<TokenView>, st: ParserState)
    requires
        tokens_placed(p),
        0 <= st.pos <= p.len(),
    ensures
        block(p, st).result is Ok ==> block_placed(block(p, st).result->Ok_0),
    decreases p.len() - st.pos, 24int,
{
    reveal(block);
    reveal(block_items);
    let o = consume(p, st, TokenKind::ChaveEsquerda);
    if o.result is Ok {
        lemma_block_items_placed(p, o.state, Seq::empty());
    }
}

pub proof fn lemma_function_decl_placed(p: Seq<TokenView>, st: ParserState)
    requires
        tokens_placed(p),
        0 <= st.pos <= p.len(),
    ensures
        function_decl(p, st).result is Ok ==> function_placed(function_decl(p, st).result->Ok_0),
{
    reveal(function_decl);
    reveal(return_type);
    reveal(parse_type);
    reveal(identifier);
    reveal(parameters);
    lemma_function_decl_onward(p, st);
    let k = consume(p, st, TokenKind::Funcao);
    if k.result is Ok {
        let t = return_type(p, k.state);
        if t.result is Ok {
            let n = identifier(p, t.state, "Esperado identificador para nome da função"@);
            if n.result is Ok {
                let o = consume(p, n.state, TokenKind::ParenteseEsquerdo);
                if o.result is Ok {
                    if kind_at(p, o.state.pos).spec_is_type_keyword() {
                        lemma_parameter_onward(p, o.state);
                        let first = parameter(p, o.state);
                        match first.result {
                            Ok(x) => {
                                lemma_parameters_rest_onward(p, first.state, seq![x]);
                            },
                            Err(_) => {},
                        }
                    }
                    let ps = parameters(p, o.state);
                    if ps.result is Ok {
                        let c = consume(p, ps.state, TokenKind::ParenteseDireito);
                        if c.result is Ok {
                            lemma_block_placed(p, c.state);
                        }
                    }
                }
            }
        }
    }
}

/// A program parsed from well placed tokens is well placed: every function
/// and statement in it has the place of its first token, counted from 1.
/// With `lexing_laws::lemma_tokens_are_placed` and
/// `lemma_diagnostics_are_placed`, every diagnostic of the analysis of a
/// program parsed from a text has a line and a column counted from 1.
pub proof fn lemma_parsed_program_is_placed(p: Seq<TokenView>, st: ParserState, acc: ProgramView)
    requires
        tokens_placed(p),
        0 <= st.pos <= p.len(),
        program_placed(acc),
    ensures
        program_placed(program_items(p, st, acc).1),
    decreases p.len() - st.pos,
{
    reveal(program_items);
    let k = kind_at(p, st.pos);
    if k != TokenKind::EOF {
        if k == TokenKind::Funcao {
            lemma_function_decl_placed(p, st);
            let f = function_decl(p, st);
            match f.result {
                Ok(x) => {
                    lemma_parsed_program_is_placed(
                        p,
                        bounded(p, f.state, st.pos + 1),
                        ProgramView { functions: acc.functions.push(x), ..acc },
                    );
                },
                Err(e) => {
                    lemma_parsed_program_is_placed(
                        p,
                        bounded(p, top_recovery(p, f.state, SyncSet::Function, e), st.pos + 1),
                        acc,
                    );
                },
            }
        } else {
            lemma_statement_or_declaration_placed(p, st);
            let s = statement_or_declaration(p, st);
            match s.result {
                Ok(x) => {
                    lemma_parsed_program_is_placed(
                        p,
                        bounded(p, s.state, st.pos + 1),
                        ProgramView { statements: acc.statements.push(x), ..acc },
                    );
                },
                Err(e) => {
                    lemma_parsed_program_is_placed(
                        p,
                        bounded(p, top_recovery(p, s.state, SyncSet::TopLevel, e), st.pos + 1),
                        acc,
                    );
                },
            }
        }
    }
}

} // verus!
