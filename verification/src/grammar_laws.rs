//! Laws of the grammar: every production leaves the parser inside the
//! input and no further back than it started, with every error that was
//! recorded before; and a production that succeeds has read a token. The
//! bounds that the definitions of the grammar put on positions therefore
//! never change a position.

use vstd::prelude::*;
use crate::ast::{ExprView, ParameterView, ProgramView, StatementView};
use crate::grammar::{
    ParserErrorView,
    advance, arguments, arguments_rest, binary, binary_rest, block, block_items, block_recovery,
    bounded, consume, end_from, expr_stmt, expression, expression_then, for_stmt, function_decl,
    identifier, if_stmt, kind_at, operator_at, parameter, parameters, parameters_rest, parse_type,
    prefix_operator, primary, program_items, rank, read_stmt, recorded, return_stmt, return_type,
    skip_to_sync, statement, statement_or_declaration, synchronized, top_recovery, unary,
    variable_decl, while_stmt, write_stmt, ParserState, SyncSet, MAX_RECOVERY_ATTEMPTS,
};
use crate::token::{TokenKind, TokenView};

verus! {

/// The errors `a` are the first of the errors `b`, in the same order.
pub open spec fn first_of(a: Seq<ParserErrorView>, b: Seq<ParserErrorView>) -> bool {
    a.len() <= b.len() && forall|i: int| 0 <= i < a.len() ==> a[i] == b[i]
}

/// The state `after` is inside the input and no further back than
/// `before`, and its errors begin with the errors of `before`.
pub open spec fn onward(p: Seq<TokenView>, before: ParserState, after: ParserState) -> bool {
    before.pos <= after.pos <= p.len() && first_of(before.errors, after.errors)
}

pub proof fn lemma_end_from_onward(p: Seq<TokenView>, pos: int)
    requires
        0 <= pos <= p.len(),
    ensures
        pos <= end_from(p, pos) <= p.len(),
    decreases p.len() - pos,
{
    reveal(end_from);
    if kind_at(p, pos) != TokenKind::EOF {
        lemma_end_from_onward(p, pos + 1);
    }
}

pub proof fn lemma_skip_to_sync_onward(p: Seq<TokenView>, pos: int, set: SyncSet, count: int)
    requires
        0 <= pos <= p.len(),
    ensures
        pos <= skip_to_sync(p, pos, set, count).0 <= p.len(),
    decreases MAX_RECOVERY_ATTEMPTS - count,
{
    reveal(skip_to_sync);
    if !(set.spec_contains(kind_at(p, pos)) || kind_at(p, pos) == TokenKind::EOF || count
        >= MAX_RECOVERY_ATTEMPTS) {
        lemma_skip_to_sync_onward(p, pos + 1, set, count + 1);
    }
}

/// A recovery only skips tokens.
pub proof fn lemma_synchronized_onward(p: Seq<TokenView>, st: ParserState, set: SyncSet)
    requires
        0 <= st.pos <= p.len(),
    ensures
        onward(p, st, synchronized(p, st, set)),
        synchronized(p, st, set).errors == st.errors,
{
    reveal(synchronized);
    lemma_skip_to_sync_onward(p, st.pos, set, 0);
    lemma_end_from_onward(p, skip_to_sync(p, st.pos, set, 0).0);
}

pub proof fn lemma_primary_onward(p: Seq<TokenView>, st: ParserState)
    requires
        0 <= st.pos <= p.len(),
    ensures
        onward(p, st, primary(p, st).state),
        primary(p, st).result is Ok ==> primary(p, st).state.pos > st.pos,
    decreases p.len() - st.pos, 0int,
{
    reveal(primary);
    reveal(arguments);
    reveal(expression);
    let kind = kind_at(p, st.pos);
    if kind == TokenKind::Identificador {
        let st1 = advance(p, st);
        if kind_at(p, st1.pos) == TokenKind::ParenteseEsquerdo {
            lemma_arguments_onward(p, advance(p, st1));
        }
    } else if kind == TokenKind::ParenteseEsquerdo {
        lemma_expression_onward(p, advance(p, st));
    }
}

pub proof fn lemma_unary_onward(p: Seq<TokenView>, st: ParserState)
    requires
        0 <= st.pos <= p.len(),
    ensures
        onward(p, st, unary(p, st).state),
        unary(p, st).result is Ok ==> unary(p, st).state.pos > st.pos,
    decreases p.len() - st.pos, 1int,
{
    reveal(unary);
    reveal(primary);
    match prefix_operator(kind_at(p, st.pos)) {
        Some(_) => {
            lemma_unary_onward(p, advance(p, st));
        },
        None => {
            lemma_primary_onward(p, st);
        },
    }
}

pub proof fn lemma_binary_onward(level: int, p: Seq<TokenView>, st: ParserState)
    requires
        0 <= st.pos <= p.len(),
    ensures
        onward(p, st, binary(level, p, st).state),
        binary(level, p, st).result is Ok ==> binary(level, p, st).state.pos > st.pos,
    decreases p.len() - st.pos, rank(level),
{
    reveal(binary);
    reveal(binary_rest);
    reveal(unary);
    let first = if level >= 5 {
        unary(p, st)
    } else if level < 0 {
        binary(1, p, st)
    } else {
        binary(level + 1, p, st)
    };
    if level >= 5 {
        lemma_unary_onward(p, st);
    } else if level < 0 {
        lemma_binary_onward(1, p, st);
    } else {
        lemma_binary_onward(level + 1, p, st);
    }
    match first.result {
        Ok(left) => {
            lemma_binary_rest_onward(level, p, bounded(p, first.state, st.pos), left);
        },
        Err(_) => {},
    }
}

pub proof fn lemma_binary_rest_onward(
    level: int,
    p: Seq<TokenView>,
    st: ParserState,
    left: ExprView,
)
    requires
        0 <= st.pos <= p.len(),
    ensures
        onward(p, st, binary_rest(level, p, st, left).state),
    decreases p.len() - st.pos, rank(level) - 1,
{
    reveal(binary_rest);
    reveal(binary);
    reveal(unary);
    match operator_at(level, kind_at(p, st.pos)) {
        None => {},
        Some(op) => {
            let st1 = advance(p, st);
            let right = if level >= 5 {
                unary(p, st1)
            } else if level < 0 {
                binary(1, p, st1)
            } else {
                binary(level + 1, p, st1)
            };
            if level >= 5 {
                lemma_unary_onward(p, st1);
            } else if level < 0 {
                lemma_binary_onward(1, p, st1);
            } else {
                lemma_binary_onward(level + 1, p, st1);
            }
            match right.result {
                Ok(r) => {
                    lemma_binary_rest_onward(
                        level,
                        p,
                        bounded(p, right.state, st1.pos),
                        ExprView::BinaryOp(op, Box::new(left), Box::new(r)),
                    );
                },
                Err(_) => {},
            }
        },
    }
}

pub proof fn lemma_expression_onward(p: Seq<TokenView>, st: ParserState)
    requires
        0 <= st.pos <= p.len(),
    ensures
        onward(p, st, expression(p, st).state),
        expression(p, st).result is Ok ==> expression(p, st).state.pos > st.pos,
    decreases p.len() - st.pos, 14int,
{
    reveal(expression);
    reveal(binary);
    lemma_binary_onward(0, p, st);
}

pub proof fn lemma_arguments_onward(p: Seq<TokenView>, st: ParserState)
    requires
        0 <= st.pos <= p.len(),
    ensures
        onward(p, st, arguments(p, st).state),
    decreases p.len() - st.pos, 16int,
{
    reveal(arguments);
    reveal(arguments_rest);
    reveal(expression);
    if kind_at(p, st.pos) != TokenKind::ParenteseDireito {
        lemma_expression_onward(p, st);
        let first = expression(p, st);
        match first.result {
            Ok(x) => {
                lemma_arguments_rest_onward(p, bounded(p, first.state, st.pos), seq![x]);
            },
            Err(_) => {},
        }
    }
}

pub proof fn lemma_arguments_rest_onward(p: Seq<TokenView>, st: ParserState, acc: Seq<ExprView>)
    requires
        0 <= st.pos <= p.len(),
    ensures
        onward(p, st, arguments_rest(p, st, acc).state),
    decreases p.len() - st.pos, 15int,
{
    reveal(arguments_rest);
    reveal(expression);
    if kind_at(p, st.pos) == TokenKind::Virgula {
        let st1 = advance(p, st);
        lemma_expression_onward(p, st1);
        let next = expression(p, st1);
        match next.result {
            Ok(x) => {
                lemma_arguments_rest_onward(p, bounded(p, next.state, st1.pos), acc.push(x));
            },
            Err(_) => {},
        }
    }
}

pub proof fn lemma_expression_then_onward(p: Seq<TokenView>, st: ParserState, kind: TokenKind)
    requires
        0 <= st.pos <= p.len(),
    ensures
        onward(p, st, expression_then(p, st, kind).state),
        expression_then(p, st, kind).result is Ok ==> expression_then(p, st, kind).state.pos
            > st.pos,
{
    reveal(expression_then);
    lemma_expression_onward(p, st);
}

pub proof fn lemma_variable_decl_onward(p: Seq<TokenView>, st: ParserState)
    requires
        0 <= st.pos <= p.len(),
    ensures
        onward(p, st, variable_decl(p, st).state),
        variable_decl(p, st).result is Ok ==> variable_decl(p, st).state.pos > st.pos,
{
    reveal(variable_decl);
    reveal(parse_type);
    reveal(identifier);
    let t = parse_type(p, st);
    if t.result is Ok {
        let n = identifier(p, t.state, "Esperado identificador para variável"@);
        if n.result is Ok && kind_at(p, n.state.pos) == TokenKind::Atribuicao {
            lemma_expression_then_onward(p, advance(p, n.state), TokenKind::PontoEVirgula);
        }
    }
}

pub proof fn lemma_simple_statements_onward(p: Seq<TokenView>, st: ParserState)
    requires
        0 <= st.pos <= p.len(),
    ensures
        onward(p, st, expr_stmt(p, st).state),
        expr_stmt(p, st).result is Ok ==> expr_stmt(p, st).state.pos > st.pos,
        onward(p, st, return_stmt(p, st).state),
        return_stmt(p, st).result is Ok ==> return_stmt(p, st).state.pos > st.pos,
        onward(p, st, write_stmt(p, st).state),
        write_stmt(p, st).result is Ok ==> write_stmt(p, st).state.pos > st.pos,
        onward(p, st, read_stmt(p, st).state),
        read_stmt(p, st).result is Ok ==> read_stmt(p, st).state.pos > st.pos,
{
    reveal(expr_stmt);
    reveal(return_stmt);
    reveal(write_stmt);
    reveal(read_stmt);
    lemma_expression_then_onward(p, st, TokenKind::PontoEVirgula);
    let k = consume(p, st, TokenKind::Retorne);
    if k.result is Ok {
        lemma_expression_then_onward(p, k.state, TokenKind::PontoEVirgula);
    }
    let w = consume(p, st, TokenKind::Escreva);
    if w.result is Ok {
        let o = consume(p, w.state, TokenKind::ParenteseEsquerdo);
        if o.result is Ok {
            lemma_arguments_onward(p, o.state);
        }
    }
    let r = consume(p, st, TokenKind::Leia);
    if r.result is Ok {
        let o = consume(p, r.state, TokenKind::ParenteseEsquerdo);
        if o.result is Ok {
            lemma_expression_then_onward(p, o.state, TokenKind::ParenteseDireito);
        }
    }
}

pub proof fn lemma_if_stmt_onward(p: Seq<TokenView>, st: ParserState)
    requires
        0 <= st.pos <= p.len(),
    ensures
        onward(p, st, if_stmt(p, st).state),
        if_stmt(p, st).result is Ok ==> if_stmt(p, st).state.pos > st.pos,
    decreases p.len() - st.pos, 20int,
{
    reveal(if_stmt);
    reveal(block);
    let k = consume(p, st, TokenKind::Se);
    if k.result is Ok {
        lemma_expression_then_onward(p, k.state, TokenKind::Entao);
        let c = expression_then(p, k.state, TokenKind::Entao);
        if c.result is Ok {
            let b1 = bounded(p, c.state, st.pos + 1);
            lemma_block_onward(p, b1);
            let t = block(p, b1);
            if t.result is Ok && kind_at(p, t.state.pos) == TokenKind::Senao {
                lemma_block_onward(p, bounded(p, advance(p, t.state), st.pos + 1));
            }
        }
    }
}

pub proof fn lemma_while_stmt_onward(p: Seq<TokenView>, st: ParserState)
    requires
        0 <= st.pos <= p.len(),
    ensures
        onward(p, st, while_stmt(p, st).state),
        while_stmt(p, st).result is Ok ==> while_stmt(p, st).state.pos > st.pos,
    decreases p.len() - st.pos, 20int,
{
    reveal(while_stmt);
    reveal(block);
    let k = consume(p, st, TokenKind::Enquanto);
    if k.result is Ok {
        lemma_expression_then_onward(p, k.state, TokenKind::Faca);
        let c = expression_then(p, k.state, TokenKind::Faca);
        if c.result is Ok {
            lemma_block_onward(p, bounded(p, c.state, st.pos + 1));
        }
    }
}

pub proof fn lemma_for_stmt_onward(p: Seq<TokenView>, st: ParserState)
    requires
        0 <= st.pos <= p.len(),
    ensures
        onward(p, st, for_stmt(p, st).state),
        for_stmt(p, st).result is Ok ==> for_stmt(p, st).state.pos > st.pos,
    decreases p.len() - st.pos, 20int,
{
    reveal(for_stmt);
    reveal(block);
    reveal(identifier);
    let k = consume(p, st, TokenKind::Para);
    if k.result is Ok {
        let n = identifier(p, k.state, "Esperado identificador para variável do loop"@);
        if n.result is Ok {
            let d = consume(p, n.state, TokenKind::De);
            if d.result is Ok {
                lemma_expression_then_onward(p, d.state, TokenKind::Ate);
                let s = expression_then(p, d.state, TokenKind::Ate);
                if s.result is Ok {
                    lemma_expression_then_onward(p, s.state, TokenKind::Faca);
                    let e = expression_then(p, s.state, TokenKind::Faca);
                    if e.result is Ok {
                        lemma_block_onward(p, bounded(p, e.state, st.pos + 1));
                    }
                }
            }
        }
    }
}

pub proof fn lemma_statement_onward(p: Seq<TokenView>, st: ParserState)
    requires
        0 <= st.pos <= p.len(),
    ensures
        onward(p, st, statement(p, st).state),
        statement(p, st).result is Ok ==> statement(p, st).state.pos > st.pos,
    decreases p.len() - st.pos, 21int,
{
    reveal(statement);
    reveal(if_stmt);
    reveal(while_stmt);
    reveal(for_stmt);
    lemma_simple_statements_onward(p, st);
    let kind = kind_at(p, st.pos);
    if kind == TokenKind::Se {
        lemma_if_stmt_onward(p, st);
    } else if kind == TokenKind::Enquanto {
        lemma_while_stmt_onward(p, st);
    } else if kind == TokenKind::Para {
        lemma_for_stmt_onward(p, st);
    }
}

pub proof fn lemma_statement_or_declaration_onward(p: Seq<TokenView>, st: ParserState)
    requires
        0 <= st.pos <= p.len(),
    ensures
        onward(p, st, statement_or_declaration(p, st).state),
        statement_or_declaration(p, st).result is Ok ==> statement_or_declaration(
            p,
            st,
        ).state.pos > st.pos,
    decreases p.len() - st.pos, 22int,
{
    reveal(statement_or_declaration);
    reveal(statement);
    if kind_at(p, st.pos).spec_is_type_keyword() {
        lemma_variable_decl_onward(p, st);
    } else {
        lemma_statement_onward(p, st);
    }
}

pub proof fn lemma_block_items_onward(
    p: Seq<TokenView>,
    st: ParserState,
    acc: Seq<StatementView>,
)
    requires
        0 <= st.pos <= p.len(),
    ensures
        onward(p, st, block_items(p, st, acc).0),
    decreases p.len() - st.pos, 23int,
{
    reveal(block_items);
    reveal(statement_or_declaration);
    let k = kind_at(p, st.pos);
    if !(k == TokenKind::ChaveDireita || k == TokenKind::EOF) {
        lemma_statement_or_declaration_onward(p, st);
        let s = statement_or_declaration(p, st);
        match s.result {
            Ok(x) => {
                lemma_block_items_onward(p, bounded(p, s.state, st.pos + 1), acc.push(x));
            },
            Err(e) => {
                let st1 = recorded(s.state, e);
                let st2 = if st1.pos == st.pos {
                    advance(p, st1)
                } else {
                    st1
                };
                lemma_synchronized_onward(p, st2, SyncSet::Block);
                lemma_block_items_onward(
                    p,
                    bounded(p, block_recovery(p, s.state, st.pos, e), st.pos + 1),
                    acc,
                );
            },
        }
    }
}

pub proof fn lemma_block_onward(p: Seq<TokenView>, st: ParserState)
    requires
        0 <= st.pos <= p.len(),
    ensures
        onward(p, st, block(p, st).state),
        block(p, st).result is Ok ==> block(p, st).state.pos > st.pos,
    decreases p.len() - st.pos, 24int,
{
    reveal(block);
    reveal(block_items);
    let o = consume(p, st, TokenKind::ChaveEsquerda);
    if o.result is Ok {
        lemma_block_items_onward(p, o.state, Seq::empty());
    }
}

pub proof fn lemma_parameter_onward(p: Seq<TokenView>, st: ParserState)
    requires
        0 <= st.pos <= p.len(),
    ensures
        onward(p, st, parameter(p, st).state),
        parameter(p, st).result is Ok ==> parameter(p, st).state.pos > st.pos,
{
    reveal(parameter);
    reveal(parse_type);
    reveal(identifier);
}

pub proof fn lemma_parameters_rest_onward(
    p: Seq<TokenView>,
    st: ParserState,
    acc: Seq<ParameterView>,
)
    requires
        0 <= st.pos <= p.len(),
    ensures
        onward(p, st, parameters_rest(p, st, acc).state),
    decreases p.len() - st.pos,
{
    reveal(parameters_rest);
    if kind_at(p, st.pos) == TokenKind::Virgula {
        let st1 = advance(p, st);
        lemma_parameter_onward(p, st1);
        let next = parameter(p, st1);
        match next.result {
            Ok(x) => {
                lemma_parameters_rest_onward(p, bounded(p, next.state, st1.pos), acc.push(x));
            },
            Err(_) => {},
        }
    }
}

pub proof fn lemma_function_decl_onward(p: Seq<TokenView>, st: ParserState)
    requires
        0 <= st.pos <= p.len(),
    ensures
        onward(p, st, function_decl(p, st).state),
        function_decl(p, st).result is Ok ==> function_decl(p, st).state.pos > st.pos,
{
    reveal(function_decl);
    reveal(return_type);
    reveal(parse_type);
    reveal(identifier);
    reveal(parameters);
    let k = consume(p, st, TokenKind::Funcao);
    if k.result is Ok {
        let t = return_type(p, k.state);
        if t.result is Ok {
            let n = identifier(p, t.state, "Esperado identificador para nome da função"@);
            if n.result is Ok {
                let o = consume(p, n.state, TokenKind::ParenteseEsquerdo);
                if o.result is Ok {
                    if kind_at(p, o.state.pos).spec_is_type_keyword() {
                        lemma_parameter_onward(p, o.state);
                        let first = parameter(p, o.state);
                        match first.result {
                            Ok(x) => {
                                lemma_parameters_rest_onward(p, first.state, seq![x]);
                            },
                            Err(_) => {},
                        }
                    }
                    let ps = parameters(p, o.state);
                    if ps.result is Ok {
                        let c = consume(p, ps.state, TokenKind::ParenteseDireito);
                        if c.result is Ok {
                            lemma_block_onward(p, c.state);
                        }
                    }
                }
            }
        }
    }
}

/// A program is parsed onward to the end of the input, and every error
/// that was recorded before is still recorded after.
pub proof fn lemma_program_items_onward(p: Seq<TokenView>, st: ParserState, acc: ProgramView)
    requires
        0 <= st.pos <= p.len(),
    ensures
        onward(p, st, program_items(p, st, acc).0),
    decreases p.len() - st.pos,
{
    reveal(program_items);
    let k = kind_at(p, st.pos);
    if k != TokenKind::EOF {
        if k == TokenKind::Funcao {
            lemma_function_decl_onward(p, st);
            let f = function_decl(p, st);
            match f.result {
                Ok(x) => {
                    lemma_program_items_onward(
                        p,
                        bounded(p, f.state, st.pos + 1),
                        ProgramView { functions: acc.functions.push(x), ..acc },
                    );
                },
                Err(e) => {
                    lemma_synchronized_onward(
                        p,
                        advance(p, recorded(f.state, e)),
                        SyncSet::Function,
                    );
                    lemma_program_items_onward(
                        p,
                        bounded(p, top_recovery(p, f.state, SyncSet::Function, e), st.pos + 1),
                        acc,
                    );
                },
            }
        } else {
            lemma_statement_or_declaration_onward(p, st);
            let s = statement_or_declaration(p, st);
            match s.result {
                Ok(x) => {
                    lemma_program_items_onward(
                        p,
                        bounded(p, s.state, st.pos + 1),
                        ProgramView { statements: acc.statements.push(x), ..acc },
                    );
                },
                Err(e) => {
                    lemma_synchronized_onward(
                        p,
                        advance(p, recorded(s.state, e)),
                        SyncSet::TopLevel,
                    );
                    lemma_program_items_onward(
                        p,
                        bounded(p, top_recovery(p, s.state, SyncSet::TopLevel, e), st.pos + 1),
                        acc,
                    );
                },
            }
        }
    }
}

/// No error is lost at the top level. Where the function or statement
/// that starts at the current token fails, its error is recorded behind
/// the errors met so far and the parser goes on behind it: in the errors of
/// the whole program it stands at that place, whatever fails later. Each
/// failure of a program is met in this way at the position where parsing
/// resumed, so every one of them leaves its own error.
pub proof fn lemma_top_level_failure_is_recorded(
    p: Seq<TokenView>,
    st: ParserState,
    acc: ProgramView,
)
    requires
        0 <= st.pos <= p.len(),
        kind_at(p, st.pos) != TokenKind::EOF,
        if kind_at(p, st.pos) == TokenKind::Funcao {
            function_decl(p, st).result is Err
        } else {
            statement_or_declaration(p, st).result is Err
        },
    ensures
        program_items(p, st, acc).0.errors.len() > st.errors.len(),
        first_of(st.errors, program_items(p, st, acc).0.errors),
        ({
            let at = if kind_at(p, st.pos) == TokenKind::Funcao {
                function_decl(p, st).state.errors.len() as int
            } else {
                statement_or_declaration(p, st).state.errors.len() as int
            };
            let error = if kind_at(p, st.pos) == TokenKind::Funcao {
                function_decl(p, st).result->Err_0
            } else {
                statement_or_declaration(p, st).result->Err_0
            };
            at < program_items(p, st, acc).0.errors.len() && program_items(p, st, acc).0.errors[at]
                == error
        }),
{
    reveal(program_items);
    if kind_at(p, st.pos) == TokenKind::Funcao {
        lemma_function_decl_onward(p, st);
        let f = function_decl(p, st);
        let e = f.result->Err_0;
        lemma_synchronized_onward(p, advance(p, recorded(f.state, e)), SyncSet::Function);
        lemma_program_items_onward(
            p,
            bounded(p, top_recovery(p, f.state, SyncSet::Function, e), st.pos + 1),
            acc,
        );
    } else {
        lemma_statement_or_declaration_onward(p, st);
        let s = statement_or_declaration(p, st);
        let e = s.result->Err_0;
        lemma_synchronized_onward(p, advance(p, recorded(s.state, e)), SyncSet::TopLevel);
        lemma_program_items_onward(
            p,
            bounded(p, top_recovery(p, s.state, SyncSet::TopLevel, e), st.pos + 1),
            acc,
        );
    }
}

/// No error is lost inside a block. Where the statement that starts at
/// the current token fails, its error is recorded and the block goes on
/// behind it.
pub proof fn lemma_block_failure_is_recorded(
    p: Seq<TokenView>,
    st: ParserState,
    acc: Seq<StatementView>,
)
    requires
        0 <= st.pos <= p.len(),
        kind_at(p, st.pos) != TokenKind::EOF,
        kind_at(p, st.pos) != TokenKind::ChaveDireita,
        statement_or_declaration(p, st).result is Err,
    ensures
        block_items(p, st, acc).0.errors.len() > st.errors.len(),
        first_of(st.errors, block_items(p, st, acc).0.errors),
        ({
            let failed = statement_or_declaration(p, st);
            let at = failed.state.errors.len() as int;
            at < block_items(p, st, acc).0.errors.len() && block_items(p, st, acc).0.errors[at]
                == failed.result->Err_0
        }),
{
    reveal(block_items);
    reveal(statement_or_declaration);
    lemma_statement_or_declaration_onward(p, st);
    let s = statement_or_declaration(p, st);
    let e = s.result->Err_0;
    let st1 = recorded(s.state, e);
    let st2 = if st1.pos == st.pos {
        advance(p, st1)
    } else {
        st1
    };
    lemma_synchronized_onward(p, st2, SyncSet::Block);
    lemma_block_items_onward(
        p,
        bounded(p, block_recovery(p, s.state, st.pos, e), st.pos + 1),
        acc,
    );
}

/// Where the top level resumes after the function or statement that
/// starts at the current token failed.
pub open spec fn resumed_after(p: Seq<TokenView>, st: ParserState) -> ParserState {
    if kind_at(p, st.pos) == TokenKind::Funcao {
        let f = function_decl(p, st);
        top_recovery(p, f.state, SyncSet::Function, f.result->Err_0)
    } else {
        let s = statement_or_declaration(p, st);
        top_recovery(p, s.state, SyncSet::TopLevel, s.result->Err_0)
    }
}

/// Parsing does not stop at an error. After a failure at the top level
/// the rest of the program is parsed from the place where the recovery
/// ended, which lies behind the failure, with the error recorded last; so
/// a second failure there is recorded behind the first, and so on for
/// every failure of the program.
pub proof fn lemma_parsing_resumes_after_failure(
    p: Seq<TokenView>,
    st: ParserState,
    acc: ProgramView,
)
    requires
        0 <= st.pos <= p.len(),
        kind_at(p, st.pos) != TokenKind::EOF,
        if kind_at(p, st.pos) == TokenKind::Funcao {
            function_decl(p, st).result is Err
        } else {
            statement_or_declaration(p, st).result is Err
        },
    ensures
        program_items(p, st, acc) == program_items(p, resumed_after(p, st), acc),
        st.pos < resumed_after(p, st).pos <= p.len(),
        resumed_after(p, st).errors.len() > 0,
        resumed_after(p, st).errors.last() == (if kind_at(p, st.pos) == TokenKind::Funcao {
            function_decl(p, st).result->Err_0
        } else {
            statement_or_declaration(p, st).result->Err_0
        }),
        first_of(st.errors, resumed_after(p, st).errors),
{
    reveal(program_items);
    if kind_at(p, st.pos) == TokenKind::Funcao {
        lemma_function_decl_onward(p, st);
        let f = function_decl(p, st);
        lemma_synchronized_onward(
            p,
            advance(p, recorded(f.state, f.result->Err_0)),
            SyncSet::Function,
        );
    } else {
        lemma_statement_or_declaration_onward(p, st);
        let s = statement_or_declaration(p, st);
        lemma_synchronized_onward(
            p,
            advance(p, recorded(s.state, s.result->Err_0)),
            SyncSet::TopLevel,
        );
    }
}

} // verus!
