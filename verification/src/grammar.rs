//! The grammar of the language, as functions from a sequence of tokens and
//! a position to what is parsed from there. They say what the parser
//! returns, which diagnostics it records, and where it resumes after an
//! error.
//!
//! Positions only move forward. Where a definition goes on from a position
//! that an earlier part returned, it bounds that position from below by the
//! position it started from, so that each definition is seen to end; that
//! the bound never changes a position is proved in `grammar_laws`.

use vstd::prelude::*;
use crate::ast::{
    Position,
    BinaryOperator, ExprView, FunctionDeclView, LiteralView, ParameterView, ProgramView,
    StatementView, Type, UnaryOperator,
};
use crate::token::{TokenKind, TokenTypeView, TokenView};

verus! {

/// The value of a syntax error: a message, the place of the token at which
/// it was met, the token types that would have been accepted there, and
/// the one that was found.
pub struct ParserErrorView {
    pub message: Seq<char>,
    pub linha: nat,
    pub coluna: nat,
    pub expected: Seq<TokenTypeView>,
    pub found: TokenTypeView,
}

/// Where the parser stands in the input, and the diagnostics recorded.
pub struct ParserState {
    pub pos: int,
    pub errors: Seq<ParserErrorView>,
}

/// What a production returns: the state after it, and its result.
pub struct Parsed<T> {
    pub state: ParserState,
    pub result: Result<T, ParserErrorView>,
}

/// The sets of tokens at which parsing resumes after an error.
#[derive(Debug, Clone, Copy, PartialEq, Eq, Structural)]
pub enum SyncSet {
    /// After a function that failed: the next function.
    Function,
    /// After a top-level statement that failed: the next function or
    /// declaration.
    TopLevel,
    /// After a statement that failed inside a block: the end of the block
    /// or the start of a statement.
    Block,
}

impl SyncSet {
    /// Whether a token of tag `kind` belongs to the set. The end of the
    /// input stops every recovery and is not listed.
    pub open spec fn spec_contains(self, kind: TokenKind) -> bool {
        match self {
            SyncSet::Function => kind == TokenKind::Funcao,
            SyncSet::TopLevel => kind == TokenKind::Funcao || kind.spec_is_type_keyword(),
            SyncSet::Block => kind == TokenKind::ChaveDireita || kind.spec_is_type_keyword() || kind
                == TokenKind::Se || kind == TokenKind::Enquanto || kind == TokenKind::Para || kind
                == TokenKind::Retorne || kind == TokenKind::Escreva || kind == TokenKind::Leia,
        }
    }

    /// Whether a token of tag `kind` belongs to the set.
    #[verifier::when_used_as_spec(spec_contains)]
    pub fn contains(self, kind: TokenKind) -> (r: bool)
        ensures
            r == self.spec_contains(kind),
    {
        match self {
            SyncSet::Function => kind == TokenKind::Funcao,
            SyncSet::TopLevel => kind == TokenKind::Funcao || kind.is_type_keyword(),
            SyncSet::Block => kind == TokenKind::ChaveDireita || kind.is_type_keyword() || kind
                == TokenKind::Se || kind == TokenKind::Enquanto || kind == TokenKind::Para || kind
                == TokenKind::Retorne || kind == TokenKind::Escreva || kind == TokenKind::Leia,
        }
    }
}

/// The number of tokens that a recovery skips one by one before it gives
/// up and goes to the end of the input.
pub const MAX_RECOVERY_ATTEMPTS: usize = 50;

/// The token at `pos`; past the last token, the end of the input.
pub open spec fn token_at(p: Seq<TokenView>, pos: int) -> TokenView {
    if 0 <= pos < p.len() {
        p[pos]
    } else {
        TokenView::eof(0, 0)
    }
}

/// The place of the token at `pos`.
pub open spec fn position_at(p: Seq<TokenView>, pos: int) -> Position {
    Position { line: token_at(p, pos).linha as usize, column: token_at(p, pos).coluna as usize }
}

/// The tag of the token at `pos`.
pub open spec fn kind_at(p: Seq<TokenView>, pos: int) -> TokenKind {
    token_at(p, pos).token_type.kind
}

/// The state after the current token was taken; the end of the input is
/// never passed.
pub open spec fn advance(p: Seq<TokenView>, st: ParserState) -> ParserState {
    if kind_at(p, st.pos) != TokenKind::EOF {
        ParserState { pos: st.pos + 1, ..st }
    } else {
        st
    }
}

/// The state `st`, no further back than `lo` and no further than the end.
pub open spec fn bounded(p: Seq<TokenView>, st: ParserState, lo: int) -> ParserState {
    if st.pos < lo || lo >= p.len() {
        ParserState { pos: lo, ..st }
    } else if st.pos > p.len() {
        ParserState { pos: p.len() as int, ..st }
    } else {
        st
    }
}

/// The state with one more diagnostic.
pub open spec fn recorded(st: ParserState, e: ParserErrorView) -> ParserState {
    ParserState { errors: st.errors.push(e), ..st }
}

/// The token types of the given tags that carry nothing.
pub open spec fn plain_types(kinds: Seq<TokenKind>) -> Seq<TokenTypeView> {
    kinds.map_values(|k: TokenKind| TokenTypeView::plain(k))
}

/// The error met at the current token.
pub open spec fn error_at(
    p: Seq<TokenView>,
    pos: int,
    message: Seq<char>,
    expected: Seq<TokenKind>,
) -> ParserErrorView {
    ParserErrorView {
        message,
        linha: token_at(p, pos).linha,
        coluna: token_at(p, pos).coluna,
        expected: plain_types(expected),
        found: token_at(p, pos).token_type,
    }
}

pub open spec fn fail<T>(state: ParserState, e: ParserErrorView) -> Parsed<T> {
    Parsed { state, result: Err(e) }
}

pub open spec fn done<T>(state: ParserState, v: T) -> Parsed<T> {
    Parsed { state, result: Ok(v) }
}

/// The current token is taken if it has the tag `kind`; else it is an error.
pub open spec fn consume(p: Seq<TokenView>, st: ParserState, kind: TokenKind) -> Parsed<()> {
    if kind_at(p, st.pos) == kind {
        done(advance(p, st), ())
    } else {
        fail(st, error_at(p, st.pos, "Token inesperado"@, seq![kind]))
    }
}

/// The first position from `pos` on at which the input ends.
#[verifier::opaque]
pub open spec fn end_from(p: Seq<TokenView>, pos: int) -> int
    decreases p.len() - pos,
{
    if kind_at(p, pos) == TokenKind::EOF {
        pos
    } else {
        end_from(p, pos + 1)
    }
}

/// The position reached by skipping tokens from `pos` until one of `set`
/// or the end of the input stands there, or `count` reaches the limit; and
/// the count of tokens skipped, `count` included.
#[verifier::opaque]
pub open spec fn skip_to_sync(p: Seq<TokenView>, pos: int, set: SyncSet, count: int) -> (int, int)
    decreases MAX_RECOVERY_ATTEMPTS - count,
{
    if set.spec_contains(kind_at(p, pos)) || kind_at(p, pos) == TokenKind::EOF || count
        >= MAX_RECOVERY_ATTEMPTS {
        (pos, count)
    } else {
        skip_to_sync(p, pos + 1, set, count + 1)
    }
}

/// The state after a recovery: tokens are skipped up to one of `set`; after
/// as many as the limit allows, the rest of the input is skipped too.
#[verifier::opaque]
pub open spec fn synchronized(p: Seq<TokenView>, st: ParserState, set: SyncSet) -> ParserState {
    let (pos, count) = skip_to_sync(p, st.pos, set, 0);
    if count >= MAX_RECOVERY_ATTEMPTS {
        ParserState { pos: end_from(p, pos), ..st }
    } else {
        ParserState { pos, ..st }
    }
}

pub open spec fn type_kinds() -> Seq<TokenKind> {
    seq![TokenKind::Inteiro, TokenKind::Decimal, TokenKind::Texto, TokenKind::Logico]
}

pub open spec fn primary_kinds() -> Seq<TokenKind> {
    seq![
        TokenKind::InteiroLiteral,
        TokenKind::DecimalLiteral,
        TokenKind::StringLiteral,
        TokenKind::Verdadeiro,
        TokenKind::Falso,
        TokenKind::Identificador,
        TokenKind::ParenteseEsquerdo,
    ]
}

/// tipo ::= "inteiro" | "decimal" | "texto" | "logico"
#[verifier::opaque]
pub open spec fn parse_type(p: Seq<TokenView>, st: ParserState) -> Parsed<Type> {
    match kind_at(p, st.pos) {
        TokenKind::Inteiro => done(advance(p, st), Type::Inteiro),
        TokenKind::Decimal => done(advance(p, st), Type::Decimal),
        TokenKind::Texto => done(advance(p, st), Type::Texto),
        TokenKind::Logico => done(advance(p, st), Type::Logico),
        _ => fail(st, error_at(p, st.pos, "Esperado tipo de dado"@, type_kinds())),
    }
}

/// An identifier, or the error with the given message.
#[verifier::opaque]
pub open spec fn identifier(p: Seq<TokenView>, st: ParserState, message: Seq<char>) -> Parsed<
    Seq<char>,
> {
    if kind_at(p, st.pos) == TokenKind::Identificador {
        done(advance(p, st), token_at(p, st.pos).token_type.text)
    } else {
        fail(st, error_at(p, st.pos, message, seq![TokenKind::Identificador]))
    }
}

/// The binary operator that a token of tag `kind` stands for at a level of
/// precedence: level 0 binds least (`||`), level 5 most (`* / %`).
pub open spec fn operator_at(level: int, kind: TokenKind) -> Option<BinaryOperator> {
    if level == 0 {
        match kind {
            TokenKind::OuLogico => Some(BinaryOperator::Or),
            _ => None,
        }
    } else if level == 1 {
        match kind {
            TokenKind::ELogico => Some(BinaryOperator::And),
            _ => None,
        }
    } else if level == 2 {
        match kind {
            TokenKind::Igual => Some(BinaryOperator::Equal),
            TokenKind::Diferente => Some(BinaryOperator::NotEqual),
            _ => None,
        }
    } else if level == 3 {
        match kind {
            TokenKind::Menor => Some(BinaryOperator::Less),
            TokenKind::MenorIgual => Some(BinaryOperator::LessEqual),
            TokenKind::Maior => Some(BinaryOperator::Greater),
            TokenKind::MaiorIgual => Some(BinaryOperator::GreaterEqual),
            _ => None,
        }
    } else if level == 4 {
        match kind {
            TokenKind::Mais => Some(BinaryOperator::Add),
            TokenKind::Menos => Some(BinaryOperator::Subtract),
            _ => None,
        }
    } else if level == 5 {
        match kind {
            TokenKind::Multiplicacao => Some(BinaryOperator::Multiply),
            TokenKind::Divisao => Some(BinaryOperator::Divide),
            TokenKind::Modulo => Some(BinaryOperator::Modulo),
            _ => None,
        }
    } else {
        None
    }
}

/// The prefix operator that a token of tag `kind` stands for.
pub open spec fn prefix_operator(kind: TokenKind) -> Option<UnaryOperator> {
    match kind {
        TokenKind::Menos => Some(UnaryOperator::Negate),
        TokenKind::Mais => Some(UnaryOperator::Plus),
        TokenKind::NaoLogico => Some(UnaryOperator::Not),
        _ => None,
    }
}

/// How far a level of precedence stands above the operands of the
/// tightest one.
pub open spec fn rank(level: int) -> int {
    if level >= 5 {
        3
    } else if level <= 0 {
        13
    } else {
        3 + 2 * (5 - level)
    }
}

/// base_fator ::= literal | identificador | chamada_funcao | "(" expressao ")"
///
/// An identifier followed by `(` is a call; one token of lookahead decides.
#[verifier::opaque]
pub open spec fn primary(p: Seq<TokenView>, st: ParserState) -> Parsed<ExprView>
    decreases p.len() - st.pos, 0int,
{
    let t = token_at(p, st.pos).token_type;
    match t.kind {
        TokenKind::InteiroLiteral => done(
            advance(p, st),
            ExprView::Literal(LiteralView::Inteiro(t.number)),
        ),
        TokenKind::DecimalLiteral => done(
            advance(p, st),
            ExprView::Literal(LiteralView::Decimal(t.text)),
        ),
        TokenKind::StringLiteral => done(
            advance(p, st),
            ExprView::Literal(LiteralView::Texto(t.text)),
        ),
        TokenKind::Verdadeiro => done(advance(p, st), ExprView::Literal(LiteralView::Logico(true))),
        TokenKind::Falso => done(advance(p, st), ExprView::Literal(LiteralView::Logico(false))),
        TokenKind::Identificador => {
            let st1 = advance(p, st);
            if kind_at(p, st1.pos) == TokenKind::ParenteseEsquerdo {
                let args = arguments(p, advance(p, st1));
                match args.result {
                    Err(e) => fail(args.state, e),
                    Ok(list) => {
                        let close = consume(p, args.state, TokenKind::ParenteseDireito);
                        match close.result {
                            Err(e) => fail(close.state, e),
                            Ok(_) => done(close.state, ExprView::Call(t.text, list)),
                        }
                    },
                }
            } else {
                done(st1, ExprView::Variable(t.text))
            }
        },
        TokenKind::ParenteseEsquerdo => {
            let inner = expression(p, advance(p, st));
            match inner.result {
                Err(e) => fail(inner.state, e),
                Ok(x) => {
                    let close = consume(p, inner.state, TokenKind::ParenteseDireito);
                    match close.result {
                        Err(e) => fail(close.state, e),
                        Ok(_) => done(close.state, x),
                    }
                },
            }
        },
        _ => fail(st, error_at(p, st.pos, "Esperado expressão"@, primary_kinds())),
    }
}

/// fator ::= operador_unario fator | base_fator
#[verifier::opaque]
pub open spec fn unary(p: Seq<TokenView>, st: ParserState) -> Parsed<ExprView>
    decreases p.len() - st.pos, 1int,
{
    match prefix_operator(kind_at(p, st.pos)) {
        Some(op) => {
            let operand = unary(p, advance(p, st));
            match operand.result {
                Err(e) => fail(operand.state, e),
                Ok(x) => done(operand.state, ExprView::UnaryOp(op, Box::new(x))),
            }
        },
        None => primary(p, st),
    }
}

/// The expressions of one level of precedence: operands of the next
/// level, joined from the left by the operators of this level.
#[verifier::opaque]
pub open spec fn binary(level: int, p: Seq<TokenView>, st: ParserState) -> Parsed<ExprView>
    decreases p.len() - st.pos, rank(level),
{
    let first = if level >= 5 {
        unary(p, st)
    } else if level < 0 {
        binary(1, p, st)
    } else {
        binary(level + 1, p, st)
    };
    match first.result {
        Err(e) => fail(first.state, e),
        Ok(left) => binary_rest(level, p, bounded(p, first.state, st.pos), left),
    }
}

/// What follows a left operand at one level of precedence.
#[verifier::opaque]
pub open spec fn binary_rest(level: int, p: Seq<TokenView>, st: ParserState, left: ExprView)
    -> Parsed<ExprView>
    decreases p.len() - st.pos, rank(level) - 1,
{
    match operator_at(level, kind_at(p, st.pos)) {
        None => done(st, left),
        Some(op) => {
            let st1 = advance(p, st);
            let right = if level >= 5 {
                unary(p, st1)
            } else if level < 0 {
                binary(1, p, st1)
            } else {
                binary(level + 1, p, st1)
            };
            match right.result {
                Err(e) => fail(right.state, e),
                Ok(r) => binary_rest(
                    level,
                    p,
                    bounded(p, right.state, st1.pos),
                    ExprView::BinaryOp(op, Box::new(left), Box::new(r)),
                ),
            }
        },
    }
}

/// expressao ::= the loosest level of precedence
#[verifier::opaque]
pub open spec fn expression(p: Seq<TokenView>, st: ParserState) -> Parsed<ExprView>
    decreases p.len() - st.pos, 14int,
{
    binary(0, p, st)
}

/// argumentos ::= (expressao ("," expressao)*)?   up to a ")"
#[verifier::opaque]
pub open spec fn arguments(p: Seq<TokenView>, st: ParserState) -> Parsed<Seq<ExprView>>
    decreases p.len() - st.pos, 16int,
{
    if kind_at(p, st.pos) == TokenKind::ParenteseDireito {
        done(st, Seq::empty())
    } else {
        let first = expression(p, st);
        match first.result {
            Err(e) => fail(first.state, e),
            Ok(x) => arguments_rest(p, bounded(p, first.state, st.pos), seq![x]),
        }
    }
}

/// What follows the arguments `acc`.
#[verifier::opaque]
pub open spec fn arguments_rest(p: Seq<TokenView>, st: ParserState, acc: Seq<ExprView>) -> Parsed<
    Seq<ExprView>,
>
    decreases p.len() - st.pos, 15int,
{
    if kind_at(p, st.pos) == TokenKind::Virgula {
        let st1 = advance(p, st);
        let next = expression(p, st1);
        match next.result {
            Err(e) => fail(next.state, e),
            Ok(x) => arguments_rest(p, bounded(p, next.state, st1.pos), acc.push(x)),
        }
    } else {
        done(st, acc)
    }
}

/// An expression, then the token of tag `kind`.
#[verifier::opaque]
pub open spec fn expression_then(p: Seq<TokenView>, st: ParserState, kind: TokenKind) -> Parsed<
    ExprView,
> {
    let e = expression(p, st);
    match e.result {
        Err(err) => fail(e.state, err),
        Ok(x) => {
            let c = consume(p, e.state, kind);
            match c.result {
                Err(err) => fail(c.state, err),
                Ok(_) => done(c.state, x),
            }
        },
    }
}

/// declaracao_variavel ::= tipo identificador ("=" expressao)? ";"
#[verifier::opaque]
pub open spec fn variable_decl(p: Seq<TokenView>, st: ParserState) -> Parsed<StatementView> {
    let t = parse_type(p, st);
    match t.result {
        Err(e) => fail(t.state, e),
        Ok(var_type) => {
            let n = identifier(p, t.state, "Esperado identificador para variável"@);
            match n.result {
                Err(e) => fail(n.state, e),
                Ok(name) => {
                    if kind_at(p, n.state.pos) == TokenKind::Atribuicao {
                        let init = expression_then(
                            p,
                            advance(p, n.state),
                            TokenKind::PontoEVirgula,
                        );
                        match init.result {
                            Err(e) => fail(init.state, e),
                            Ok(x) => done(
                                init.state,
                                StatementView::VariableDecl { position: position_at(p, st.pos),
                                    var_type,
                                    name,
                                    initializer: Some(x),
                                },
                            ),
                        }
                    } else {
                        let c = consume(p, n.state, TokenKind::PontoEVirgula);
                        match c.result {
                            Err(e) => fail(c.state, e),
                            Ok(_) => done(
                                c.state,
                                StatementView::VariableDecl { position: position_at(p, st.pos), var_type, name, initializer: None },
                            ),
                        }
                    }
                },
            }
        },
    }
}

/// expressao_comando ::= expressao ";"
#[verifier::opaque]
pub open spec fn expr_stmt(p: Seq<TokenView>, st: ParserState) -> Parsed<StatementView> {
    let e = expression_then(p, st, TokenKind::PontoEVirgula);
    match e.result {
        Err(err) => fail(e.state, err),
        Ok(x) => done(e.state, StatementView::ExprStmt { position: position_at(p, st.pos), expr: x }),
    }
}

/// comando_retorno ::= "retorne" expressao? ";"
#[verifier::opaque]
pub open spec fn return_stmt(p: Seq<TokenView>, st: ParserState) -> Parsed<StatementView> {
    let k = consume(p, st, TokenKind::Retorne);
    match k.result {
        Err(e) => fail(k.state, e),
        Ok(_) => if kind_at(p, k.state.pos) != TokenKind::PontoEVirgula {
            let e = expression_then(p, k.state, TokenKind::PontoEVirgula);
            match e.result {
                Err(err) => fail(e.state, err),
                Ok(x) => done(e.state, StatementView::ReturnStmt { position: position_at(p, st.pos), value: Some(x) }),
            }
        } else {
            done(advance(p, k.state), StatementView::ReturnStmt { position: position_at(p, st.pos), value: None })
        },
    }
}

/// comando_escreva ::= "escreva" "(" argumentos ")" ";"
#[verifier::opaque]
pub open spec fn write_stmt(p: Seq<TokenView>, st: ParserState) -> Parsed<StatementView> {
    let k = consume(p, st, TokenKind::Escreva);
    match k.result {
        Err(e) => fail(k.state, e),
        Ok(_) => {
            let o = consume(p, k.state, TokenKind::ParenteseEsquerdo);
            match o.result {
                Err(e) => fail(o.state, e),
                Ok(_) => {
                    let a = arguments(p, o.state);
                    match a.result {
                        Err(e) => fail(a.state, e),
                        Ok(list) => {
                            let c = consume(p, a.state, TokenKind::ParenteseDireito);
                            match c.result {
                                Err(e) => fail(c.state, e),
                                Ok(_) => {
                                    let s = consume(p, c.state, TokenKind::PontoEVirgula);
                                    match s.result {
                                        Err(e) => fail(s.state, e),
                                        Ok(_) => done(
                                            s.state,
                                            StatementView::WriteStmt { position: position_at(p, st.pos), arguments: list },
                                        ),
                                    }
                                },
                            }
                        },
                    }
                },
            }
        },
    }
}

/// comando_leia ::= "leia" "(" expressao ")" ";"
#[verifier::opaque]
pub open spec fn read_stmt(p: Seq<TokenView>, st: ParserState) -> Parsed<StatementView> {
    let k = consume(p, st, TokenKind::Leia);
    match k.result {
        Err(e) => fail(k.state, e),
        Ok(_) => {
            let o = consume(p, k.state, TokenKind::ParenteseEsquerdo);
            match o.result {
                Err(e) => fail(o.state, e),
                Ok(_) => {
                    let t = expression_then(p, o.state, TokenKind::ParenteseDireito);
                    match t.result {
                        Err(e) => fail(t.state, e),
                        Ok(x) => {
                            let s = consume(p, t.state, TokenKind::PontoEVirgula);
                            match s.result {
                                Err(e) => fail(s.state, e),
                                Ok(_) => done(s.state, StatementView::ReadStmt { position: position_at(p, st.pos), target: x }),
                            }
                        },
                    }
                },
            }
        },
    }
}

/// condicional ::= "se" expressao "entao" bloco ("senao" bloco)? "fimse"
#[verifier::opaque]
pub open spec fn if_stmt(p: Seq<TokenView>, st: ParserState) -> Parsed<StatementView>
    decreases p.len() - st.pos, 20int,
{
    let k = consume(p, st, TokenKind::Se);
    match k.result {
        Err(e) => fail(k.state, e),
        Ok(_) => {
            let c = expression_then(p, k.state, TokenKind::Entao);
            match c.result {
                Err(e) => fail(c.state, e),
                Ok(condition) => {
                    let t = block(p, bounded(p, c.state, st.pos + 1));
                    match t.result {
                        Err(e) => fail(t.state, e),
                        Ok(then_branch) => {
                            if kind_at(p, t.state.pos) == TokenKind::Senao {
                                let e = block(p, bounded(p, advance(p, t.state), st.pos + 1));
                                match e.result {
                                    Err(err) => fail(e.state, err),
                                    Ok(else_branch) => {
                                        let f = consume(p, e.state, TokenKind::FimSe);
                                        match f.result {
                                            Err(err) => fail(f.state, err),
                                            Ok(_) => done(
                                                f.state,
                                                StatementView::IfStmt { position: position_at(p, st.pos),
                                                    condition,
                                                    then_branch,
                                                    else_branch: Some(else_branch),
                                                },
                                            ),
                                        }
                                    },
                                }
                            } else {
                                let f = consume(p, t.state, TokenKind::FimSe);
                                match f.result {
                                    Err(err) => fail(f.state, err),
                                    Ok(_) => done(
                                        f.state,
                                        StatementView::IfStmt { position: position_at(p, st.pos),
                                            condition,
                                            then_branch,
                                            else_branch: None,
                                        },
                                    ),
                                }
                            }
                        },
                    }
                },
            }
        },
    }
}

/// loop_enquanto ::= "enquanto" expressao "faca" bloco "fimenquanto"
#[verifier::opaque]
pub open spec fn while_stmt(p: Seq<TokenView>, st: ParserState) -> Parsed<StatementView>
    decreases p.len() - st.pos, 20int,
{
    let k = consume(p, st, TokenKind::Enquanto);
    match k.result {
        Err(e) => fail(k.state, e),
        Ok(_) => {
            let c = expression_then(p, k.state, TokenKind::Faca);
            match c.result {
                Err(e) => fail(c.state, e),
                Ok(condition) => {
                    let b = block(p, bounded(p, c.state, st.pos + 1));
                    match b.result {
                        Err(e) => fail(b.state, e),
                        Ok(body) => {
                            let f = consume(p, b.state, TokenKind::FimEnquanto);
                            match f.result {
                                Err(e) => fail(f.state, e),
                                Ok(_) => done(f.state, StatementView::WhileStmt { position: position_at(p, st.pos), condition, body }),
                            }
                        },
                    }
                },
            }
        },
    }
}

/// loop_para ::= "para" identificador "de" expressao "ate" expressao "faca" bloco "fimpara"
#[verifier::opaque]
pub open spec fn for_stmt(p: Seq<TokenView>, st: ParserState) -> Parsed<StatementView>
    decreases p.len() - st.pos, 20int,
{
    let k = consume(p, st, TokenKind::Para);
    match k.result {
        Err(e) => fail(k.state, e),
        Ok(_) => {
            let n = identifier(p, k.state, "Esperado identificador para variável do loop"@);
            match n.result {
                Err(e) => fail(n.state, e),
                Ok(variable) => {
                    let d = consume(p, n.state, TokenKind::De);
                    match d.result {
                        Err(e) => fail(d.state, e),
                        Ok(_) => {
                            let s = expression_then(p, d.state, TokenKind::Ate);
                            match s.result {
                                Err(e) => fail(s.state, e),
                                Ok(start) => {
                                    let e = expression_then(p, s.state, TokenKind::Faca);
                                    match e.result {
                                        Err(err) => fail(e.state, err),
                                        Ok(end) => {
                                            let b = block(p, bounded(p, e.state, st.pos + 1));
                                            match b.result {
                                                Err(err) => fail(b.state, err),
                                                Ok(body) => {
                                                    let f = consume(
                                                        p,
                                                        b.state,
                                                        TokenKind::FimPara,
                                                    );
                                                    match f.result {
                                                        Err(err) => fail(f.state, err),
                                                        Ok(_) => done(
                                                            f.state,
                                                            StatementView::ForStmt { position: position_at(p, st.pos),
                                                                variable,
                                                                start,
                                                                end,
                                                                body,
                                                            },
                                                        ),
                                                    }
                                                },
                                            }
                                        },
                                    }
                                },
                            }
                        },
                    }
                },
            }
        },
    }
}

/// comando ::= condicional | loop | retorno | escreva | leia | expressao_comando
#[verifier::opaque]
pub open spec fn statement(p: Seq<TokenView>, st: ParserState) -> Parsed<StatementView>
    decreases p.len() - st.pos, 21int,
{
    match kind_at(p, st.pos) {
        TokenKind::Se => if_stmt(p, st),
        TokenKind::Enquanto => while_stmt(p, st),
        TokenKind::Para => for_stmt(p, st),
        TokenKind::Retorne => return_stmt(p, st),
        TokenKind::Escreva => write_stmt(p, st),
        TokenKind::Leia => read_stmt(p, st),
        _ => expr_stmt(p, st),
    }
}

/// Inside a block a statement may also be a variable declaration.
#[verifier::opaque]
pub open spec fn statement_or_declaration(p: Seq<TokenView>, st: ParserState) -> Parsed<
    StatementView,
>
    decreases p.len() - st.pos, 22int,
{
    if kind_at(p, st.pos).spec_is_type_keyword() {
        variable_decl(p, st)
    } else {
        statement(p, st)
    }
}

/// The state in which a block resumes after a statement that began at
/// `start` failed in state `st` with the error `e`: the error is recorded,
/// a statement that took no token loses one, and tokens are skipped up to
/// the end of the block or the start of a statement.
pub open spec fn block_recovery(p: Seq<TokenView>, st: ParserState, start: int, e: ParserErrorView)
    -> ParserState {
    let st1 = recorded(st, e);
    let st2 = if st1.pos == start {
        advance(p, st1)
    } else {
        st1
    };
    synchronized(p, st2, SyncSet::Block)
}

/// The statements of a block after the statements `acc`, up to the "}" or
/// the end of the input. A statement that fails leaves a diagnostic, and
/// the block goes on after it.
#[verifier::opaque]
pub open spec fn block_items(p: Seq<TokenView>, st: ParserState, acc: Seq<StatementView>) -> (
    ParserState,
    Seq<StatementView>,
)
    decreases p.len() - st.pos, 23int,
{
    let k = kind_at(p, st.pos);
    if k == TokenKind::ChaveDireita || k == TokenKind::EOF {
        (st, acc)
    } else {
        let s = statement_or_declaration(p, st);
        match s.result {
            Ok(x) => block_items(p, bounded(p, s.state, st.pos + 1), acc.push(x)),
            Err(e) => block_items(
                p,
                bounded(p, block_recovery(p, s.state, st.pos, e), st.pos + 1),
                acc,
            ),
        }
    }
}

/// bloco ::= "{" (comando | declaracao_variavel)* "}"
#[verifier::opaque]
pub open spec fn block(p: Seq<TokenView>, st: ParserState) -> Parsed<Seq<StatementView>>
    decreases p.len() - st.pos, 24int,
{
    let o = consume(p, st, TokenKind::ChaveEsquerda);
    match o.result {
        Err(e) => fail(o.state, e),
        Ok(_) => {
            let (st1, items) = block_items(p, o.state, Seq::empty());
            let c = consume(p, st1, TokenKind::ChaveDireita);
            match c.result {
                Err(e) => fail(c.state, e),
                Ok(_) => done(c.state, items),
            }
        },
    }
}

/// parametro ::= tipo identificador
#[verifier::opaque]
pub open spec fn parameter(p: Seq<TokenView>, st: ParserState) -> Parsed<ParameterView> {
    let t = parse_type(p, st);
    match t.result {
        Err(e) => fail(t.state, e),
        Ok(param_type) => {
            let n = identifier(p, t.state, "Esperado identificador para parâmetro"@);
            match n.result {
                Err(e) => fail(n.state, e),
                Ok(name) => done(n.state, ParameterView { param_type, name }),
            }
        },
    }
}

/// What follows the parameters `acc`.
#[verifier::opaque]
pub open spec fn parameters_rest(p: Seq<TokenView>, st: ParserState, acc: Seq<ParameterView>)
    -> Parsed<Seq<ParameterView>>
    decreases p.len() - st.pos,
{
    if kind_at(p, st.pos) == TokenKind::Virgula {
        let st1 = advance(p, st);
        let next = parameter(p, st1);
        match next.result {
            Err(e) => fail(next.state, e),
            Ok(x) => parameters_rest(p, bounded(p, next.state, st1.pos), acc.push(x)),
        }
    } else {
        done(st, acc)
    }
}

/// parametros ::= (parametro ("," parametro)*)?
#[verifier::opaque]
pub open spec fn parameters(p: Seq<TokenView>, st: ParserState) -> Parsed<Seq<ParameterView>> {
    if kind_at(p, st.pos).spec_is_type_keyword() {
        let first = parameter(p, st);
        match first.result {
            Err(e) => fail(first.state, e),
            Ok(x) => parameters_rest(p, first.state, seq![x]),
        }
    } else {
        done(st, Seq::empty())
    }
}

/// The return type of a function, where one is written.
#[verifier::opaque]
pub open spec fn return_type(p: Seq<TokenView>, st: ParserState) -> Parsed<Option<Type>> {
    if kind_at(p, st.pos).spec_is_type_keyword() {
        let t = parse_type(p, st);
        match t.result {
            Err(e) => fail(t.state, e),
            Ok(x) => done(t.state, Some(x)),
        }
    } else {
        done(st, None)
    }
}

/// funcao ::= "funcao" tipo? identificador "(" parametros ")" bloco
#[verifier::opaque]
pub open spec fn function_decl(p: Seq<TokenView>, st: ParserState) -> Parsed<FunctionDeclView> {
    let k = consume(p, st, TokenKind::Funcao);
    match k.result {
        Err(e) => fail(k.state, e),
        Ok(_) => {
            let t = return_type(p, k.state);
            match t.result {
                Err(e) => fail(t.state, e),
                Ok(return_type) => {
                    let n = identifier(
                        p,
                        t.state,
                        "Esperado identificador para nome da função"@,
                    );
                    match n.result {
                        Err(e) => fail(n.state, e),
                        Ok(name) => {
                            let o = consume(p, n.state, TokenKind::ParenteseEsquerdo);
                            match o.result {
                                Err(e) => fail(o.state, e),
                                Ok(_) => {
                                    let ps = parameters(p, o.state);
                                    match ps.result {
                                        Err(e) => fail(ps.state, e),
                                        Ok(parameters) => {
                                            let c = consume(
                                                p,
                                                ps.state,
                                                TokenKind::ParenteseDireito,
                                            );
                                            match c.result {
                                                Err(e) => fail(c.state, e),
                                                Ok(_) => {
                                                    let b = block(p, c.state);
                                                    match b.result {
                                                        Err(e) => fail(b.state, e),
                                                        Ok(body) => done(
                                                            b.state,
                                                            FunctionDeclView { position: position_at(p, st.pos),
                                                                return_type,
                                                                name,
                                                                parameters,
                                                                body,
                                                            },
                                                        ),
                                                    }
                                                },
                                            }
                                        },
                                    }
                                },
                            }
                        },
                    }
                },
            }
        },
    }
}

/// The state in which the top level resumes after a function or a
/// statement failed in state `st` with the error `e`: the error is
/// recorded, one token is skipped, then tokens up to one of `set`.
pub open spec fn top_recovery(p: Seq<TokenView>, st: ParserState, set: SyncSet, e: ParserErrorView)
    -> ParserState {
    synchronized(p, advance(p, recorded(st, e)), set)
}

/// The functions and statements of a program after those of `acc`, up to
/// the end of the input.
#[verifier::opaque]
pub open spec fn program_items(p: Seq<TokenView>, st: ParserState, acc: ProgramView) -> (
    ParserState,
    ProgramView,
)
    decreases p.len() - st.pos,
{
    let k = kind_at(p, st.pos);
    if k == TokenKind::EOF {
        (st, acc)
    } else if k == TokenKind::Funcao {
        let f = function_decl(p, st);
        match f.result {
            Ok(x) => program_items(
                p,
                bounded(p, f.state, st.pos + 1),
                ProgramView { functions: acc.functions.push(x), ..acc },
            ),
            Err(e) => program_items(
                p,
                bounded(p, top_recovery(p, f.state, SyncSet::Function, e), st.pos + 1),
                acc,
            ),
        }
    } else {
        let s = statement_or_declaration(p, st);
        match s.result {
            Ok(x) => program_items(
                p,
                bounded(p, s.state, st.pos + 1),
                ProgramView { statements: acc.statements.push(x), ..acc },
            ),
            Err(e) => program_items(
                p,
                bounded(p, top_recovery(p, s.state, SyncSet::TopLevel, e), st.pos + 1),
                acc,
            ),
        }
    }
}

/// programa ::= (funcao | comando | declaracao_variavel)*   up to the end of the input
#[verifier::opaque]
pub open spec fn program(p: Seq<TokenView>, st: ParserState) -> (ParserState, ProgramView) {
    program_items(p, st, ProgramView { functions: Seq::empty(), statements: Seq::empty() })
}

} // verus!
