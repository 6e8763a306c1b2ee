//! The parser: recursive descent over a sequence of tokens. It goes on
//! after a syntax error, so that one pass reports every error it can
//! recover from.

use vstd::prelude::*;
use vstd::string::*;
use crate::ast::{
    Position,
    exprs_view, lemma_block_view, lemma_call_view, statements_view, BinaryOperator, Block, CallExpr,
    Expr, ExprStmt, ExprView, ForStmt, FunctionDecl, IfStmt, Literal, Parameter, ParameterView,
    Program, ReadStmt, ReturnStmt, Statement, Type, UnaryOperator, VariableDecl, WhileStmt,
    WriteStmt,
};
use crate::grammar::{
    position_at,
    advance, arguments, arguments_rest, binary, binary_rest, block, block_items, consume, end_from,
    error_at, expr_stmt, expression, expression_then, for_stmt, function_decl, identifier, if_stmt,
    kind_at, operator_at, parameter, parameters, parameters_rest, parse_type, plain_types,
    prefix_operator, primary, primary_kinds, program, program_items, rank, read_stmt, recorded,
    return_stmt, return_type, skip_to_sync, statement, statement_or_declaration, synchronized,
    token_at, type_kinds, unary, variable_decl, while_stmt, write_stmt, ParserErrorView,
    ParserState, SyncSet, MAX_RECOVERY_ATTEMPTS,
};
use crate::error::LexerErrorView;
use crate::lexer::Lexer;
use crate::lexing::{all_tokens, start_of_text};
use crate::text::{decimal_string, decimal_text, join5};
use crate::token::{tokens_view, Token, TokenKind, TokenType, TokenTypeView, TokenView};

verus! {

/// A syntax error.
#[derive(Debug, Clone)]
pub struct ParserError {
    pub message: String,
    pub linha: usize,
    pub coluna: usize,
    pub expected: Vec<TokenType>,
    pub found: TokenType,
}

/// The values of a list of token types, in order.
pub open spec fn token_types_view(v: Seq<TokenType>) -> Seq<TokenTypeView> {
    v.map_values(|t: TokenType| t@)
}

impl View for ParserError {
    type V = ParserErrorView;

    open spec fn view(&self) -> ParserErrorView {
        ParserErrorView {
            message: self.message@,
            linha: self.linha as nat,
            coluna: self.coluna as nat,
            expected: token_types_view(self.expected@),
            found: self.found@,
        }
    }
}

/// The values of a list of syntax errors, in order.
pub open spec fn parser_errors_view(v: Seq<ParserError>) -> Seq<ParserErrorView> {
    v.map_values(|e: ParserError| e@)
}

impl ParserError {
    pub fn new(
        message: String,
        linha: usize,
        coluna: usize,
        expected: Vec<TokenType>,
        found: TokenType,
    ) -> (r: ParserError)
        ensures
            r@ == (ParserErrorView {
                message: message@,
                linha: linha as nat,
                coluna: coluna as nat,
                expected: token_types_view(expected@),
                found: found@,
            }),
    {
        ParserError { message, linha, coluna, expected, found }
    }

    /// The first line of the text that presents the error to a user.
    pub open spec fn headline(e: ParserErrorView) -> Seq<char> {
        "ERRO SINTÁTICO: Linha "@ + decimal_text(e.linha) + ", Coluna "@ + decimal_text(e.coluna)
            + " - "@ + e.message
    }

    /// The first line of the text that presents the error to a user.
    pub fn to_string(&self) -> (r: String)
        ensures
            r@ == Self::headline(self@),
    {
        let l = decimal_string(self.linha);
        let c = decimal_string(self.coluna);
        let mut s = join5("ERRO SINTÁTICO: Linha ", l.as_str(), ", Coluna ", c.as_str(), " - ");
        s.append(self.message.as_str());
        s
    }
}

/// The token types of the given tags that carry nothing.
fn plain_list(kinds: &Vec<TokenKind>) -> (r: Vec<TokenType>)
    ensures
        token_types_view(r@) == plain_types(kinds@),
{
    let mut out: Vec<TokenType> = Vec::new();
    let mut i: usize = 0;
    while i < kinds.len()
        invariant
            i <= kinds@.len(),
            out@.len() == i,
            forall|k: int| 0 <= k < i ==> out@[k]@ == TokenTypeView::plain(kinds@[k]),
        decreases kinds@.len() - i,
    {
        out.push(TokenType::plain(kinds[i]));
        i += 1;
    }
    assert(token_types_view(out@) =~= plain_types(kinds@));
    out
}

fn one_kind(kind: TokenKind) -> (r: Vec<TokenKind>)
    ensures
        r@ == seq![kind],
{
    let mut v: Vec<TokenKind> = Vec::new();
    v.push(kind);
    assert(v@ =~= seq![kind]);
    v
}

fn type_kind_list() -> (r: Vec<TokenKind>)
    ensures
        r@ == type_kinds(),
{
    let mut v: Vec<TokenKind> = Vec::new();
    v.push(TokenKind::Inteiro);
    v.push(TokenKind::Decimal);
    v.push(TokenKind::Texto);
    v.push(TokenKind::Logico);
    assert(v@ =~= type_kinds());
    v
}

fn primary_kind_list() -> (r: Vec<TokenKind>)
    ensures
        r@ == primary_kinds(),
{
    let mut v: Vec<TokenKind> = Vec::new();
    v.push(TokenKind::InteiroLiteral);
    v.push(TokenKind::DecimalLiteral);
    v.push(TokenKind::StringLiteral);
    v.push(TokenKind::Verdadeiro);
    v.push(TokenKind::Falso);
    v.push(TokenKind::Identificador);
    v.push(TokenKind::ParenteseEsquerdo);
    assert(v@ =~= primary_kinds());
    v
}

/// The binary operator that a token of tag `kind` stands for at a level of
/// precedence.
pub fn binary_operator(level: u8, kind: TokenKind) -> (r: Option<BinaryOperator>)
    ensures
        r == operator_at(level as int, kind),
{
    if level == 0 {
        match kind {
            TokenKind::OuLogico => Some(BinaryOperator::Or),
            _ => None,
        }
    } else if level == 1 {
        match kind {
            TokenKind::ELogico => Some(BinaryOperator::And),
            _ => None,
        }
    } else if level == 2 {
        match kind {
            TokenKind::Igual => Some(BinaryOperator::Equal),
            TokenKind::Diferente => Some(BinaryOperator::NotEqual),
            _ => None,
        }
    } else if level == 3 {
        match kind {
            TokenKind::Menor => Some(BinaryOperator::Less),
            TokenKind::MenorIgual => Some(BinaryOperator::LessEqual),
            TokenKind::Maior => Some(BinaryOperator::Greater),
            TokenKind::MaiorIgual => Some(BinaryOperator::GreaterEqual),
            _ => None,
        }
    } else if level == 4 {
        match kind {
            TokenKind::Mais => Some(BinaryOperator::Add),
            TokenKind::Menos => Some(BinaryOperator::Subtract),
            _ => None,
        }
    } else if level == 5 {
        match kind {
            TokenKind::Multiplicacao => Some(BinaryOperator::Multiply),
            TokenKind::Divisao => Some(BinaryOperator::Divide),
            TokenKind::Modulo => Some(BinaryOperator::Modulo),
            _ => None,
        }
    } else {
        None
    }
}

/// The prefix operator that a token of tag `kind` stands for.
pub fn unary_operator(kind: TokenKind) -> (r: Option<UnaryOperator>)
    ensures
        r == prefix_operator(kind),
{
    match kind {
        TokenKind::Menos => Some(UnaryOperator::Negate),
        TokenKind::Mais => Some(UnaryOperator::Plus),
        TokenKind::NaoLogico => Some(UnaryOperator::Not),
        _ => None,
    }
}

/// Whether what a production returned is the expected result.
pub open spec fn result_is<T: View>(
    r: Result<T, ParserError>,
    expected: Result<T::V, ParserErrorView>,
) -> bool {
    match r {
        Ok(x) => expected == Ok::<T::V, ParserErrorView>(x@),
        Err(e) => expected == Err::<T::V, ParserErrorView>(e@),
    }
}

/// The syntax error that a lexical error is returned as: it has the place
/// of the lexical error, and no token was found there.
pub open spec fn lexical_error(e: LexerErrorView) -> ParserErrorView {
    ParserErrorView {
        message: e.text(),
        linha: e.linha,
        coluna: e.coluna,
        expected: Seq::empty(),
        found: TokenTypeView::plain(TokenKind::EOF),
    }
}

/// The parser: the tokens of the input, the position of the current token,
/// and the syntax errors recorded so far.
#[derive(Debug)]
pub struct Parser {
    tokens: Vec<Token>,
    position: usize,
    errors: Vec<ParserError>,
}

/// Whether the parser went from `before` to `after` as `expected` says: on
/// the same input, to the expected state, and not backward.
pub open spec fn steps(before: Parser, after: Parser, expected: ParserState) -> bool {
    &&& after.wf()
    &&& after.input() == before.input()
    &&& after.state() == expected
    &&& after.state().pos >= before.state().pos
}

impl Parser {
    /// The tokens that the parser reads.
    pub closed spec fn input(&self) -> Seq<TokenView> {
        tokens_view(self.tokens@)
    }

    /// Where the parser stands, and the errors it has recorded.
    pub closed spec fn state(&self) -> ParserState {
        ParserState { pos: self.position as int, errors: parser_errors_view(self.errors@) }
    }

    /// The position is not past the end of the input.
    pub closed spec fn wf(&self) -> bool {
        self.position <= self.tokens@.len()
    }

    /// A parser at the start of `tokens`. The sequence should end with the
    /// token that marks the end of the input; where it does not, the input
    /// ends after its last token.
    pub fn from_tokens(tokens: Vec<Token>) -> (r: Parser)
        ensures
            r.wf(),
            r.input() == tokens_view(tokens@),
            r.state() == (ParserState { pos: 0, errors: Seq::empty() }),
    {
        let r = Parser { tokens, position: 0, errors: Vec::new() };
        assert(r.state().errors =~= Seq::empty());
        r
    }

    /// A parser on the tokens of the text that `lexer` reads, taken from
    /// the start of the text. A lexical error anywhere in the text is
    /// returned as a syntax error.
    pub fn new(lexer: Lexer) -> (r: Result<Parser, ParserError>)
        requires
            lexer.wf(),
        ensures
            match all_tokens(lexer.text(), start_of_text(), Seq::empty()) {
                Ok(tokens) => r is Ok && r->Ok_0.wf() && r->Ok_0.input() == tokens
                    && r->Ok_0.state() == (ParserState { pos: 0, errors: Seq::empty() }),
                Err(e) => r is Err && r->Err_0@ == lexical_error(e),
            },
    {
        let mut lexer = lexer;
        match lexer.tokenize() {
            Ok(tokens) => Ok(Parser::from_tokens(tokens)),
            Err(e) => {
                let expected: Vec<TokenType> = Vec::new();
                assert(token_types_view(expected@) =~= Seq::empty());
                Err(ParserError::new(e.to_string(), e.linha, e.coluna, expected, TokenType::EOF))
            },
        }
    }

    /// Parses a source text: the program, or every error that was met.
    pub fn parse_from_source(source: &str) -> (r: Result<Program, Vec<ParserError>>)
        requires
            source@.len() < usize::MAX,
        ensures
            match all_tokens(source@, start_of_text(), Seq::empty()) {
                Err(e) => r is Err && parser_errors_view(r->Err_0@) == seq![lexical_error(e)],
                Ok(tokens) => match r {
                    Ok(x) => program(tokens, ParserState { pos: 0, errors: Seq::empty() }).0.errors.len()
                        == 0 && x@ == program(
                        tokens,
                        ParserState { pos: 0, errors: Seq::empty() },
                    ).1,
                    Err(es) => es@.len() > 0 && parser_errors_view(es@) == program(
                        tokens,
                        ParserState { pos: 0, errors: Seq::empty() },
                    ).0.errors,
                },
            },
    {
        let lexer = Lexer::new(source);
        match Parser::new(lexer) {
            Ok(mut parser) => parser.parse_program(),
            Err(e) => {
                let mut errors: Vec<ParserError> = Vec::new();
                errors.push(e);
                assert(parser_errors_view(errors@) =~= seq![e@]);
                Err(errors)
            },
        }
    }

    /// The tag of the current token.
    pub fn current_kind(&self) -> (r: TokenKind)
        requires
            self.wf(),
        ensures
            r == kind_at(self.input(), self.state().pos),
    {
        if self.position < self.tokens.len() {
            self.tokens[self.position].token_type.kind()
        } else {
            TokenKind::EOF
        }
    }

    /// The place of the current token.
    pub fn current_position(&self) -> (r: Position)
        requires
            self.wf(),
        ensures
            r == position_at(self.input(), self.state().pos),
    {
        if self.position < self.tokens.len() {
            Position {
                line: self.tokens[self.position].linha,
                column: self.tokens[self.position].coluna,
            }
        } else {
            Position { line: 0, column: 0 }
        }
    }

    /// The type of the current token.
    fn current_type(&self) -> (r: TokenType)
        requires
            self.wf(),
        ensures
            r@ == token_at(self.input(), self.state().pos).token_type,
    {
        if self.position < self.tokens.len() {
            self.tokens[self.position].token_type.duplicate()
        } else {
            TokenType::EOF
        }
    }

    /// The text that the current token carries.
    fn current_text(&self) -> (r: String)
        requires
            self.wf(),
        ensures
            r@ == token_at(self.input(), self.state().pos).token_type.text,
    {
        if self.position < self.tokens.len() {
            match &self.tokens[self.position].token_type {
                TokenType::Identificador(s) => s.clone(),
                TokenType::DecimalLiteral(s) => s.clone(),
                TokenType::StringLiteral(s) => s.clone(),
                _ => String::new(),
            }
        } else {
            String::new()
        }
    }

    /// The number that the current token carries.
    fn current_number(&self) -> (r: i64)
        requires
            self.wf(),
        ensures
            r == token_at(self.input(), self.state().pos).token_type.number,
    {
        if self.position < self.tokens.len() {
            match &self.tokens[self.position].token_type {
                TokenType::InteiroLiteral(n) => *n,
                _ => 0,
            }
        } else {
            0
        }
    }

    /// The error with the given message and expected tags, at the current
    /// token.
    fn error_here(&self, message: &str, expected: Vec<TokenKind>) -> (r: ParserError)
        requires
            self.wf(),
        ensures
            r@ == error_at(self.input(), self.state().pos, message@, expected@),
    {
        let (linha, coluna) = if self.position < self.tokens.len() {
            (self.tokens[self.position].linha, self.tokens[self.position].coluna)
        } else {
            (0, 0)
        };
        ParserError::new(
            String::from_str(message),
            linha,
            coluna,
            plain_list(&expected),
            self.current_type(),
        )
    }

    fn record(&mut self, e: ParserError)
        requires
            old(self).wf(),
        ensures
            steps(*old(self), *final(self), recorded(old(self).state(), e@)),
    {
        self.errors.push(e);
        assert(self.state().errors =~= old(self).state().errors.push(e@));
    }

    /// Takes the current token, unless it marks the end of the input.
    pub fn advance(&mut self)
        requires
            old(self).wf(),
        ensures
            steps(*old(self), *final(self), advance(old(self).input(), old(self).state())),
    {
        if self.position < self.tokens.len() && self.current_kind() != TokenKind::EOF {
            self.position += 1;
        }
    }

    /// Whether the current token has the tag `expected`.
    pub fn check(&self, expected: TokenKind) -> (r: bool)
        requires
            self.wf(),
        ensures
            r == (kind_at(self.input(), self.state().pos) == expected),
    {
        self.current_kind() == expected
    }

    /// Takes the current token if it has the tag `expected`; else returns
    /// the error, and takes nothing.
    pub fn consume(&mut self, expected: TokenKind) -> (r: Result<(), ParserError>)
        requires
            old(self).wf(),
        ensures
            steps(
                *old(self),
                *final(self),
                consume(old(self).input(), old(self).state(), expected).state,
            ),
            match r {
                Ok(_) => consume(old(self).input(), old(self).state(), expected).result is Ok,
                Err(e) => consume(old(self).input(), old(self).state(), expected).result == Err::<
                    (),
                    ParserErrorView,
                >(e@),
            },
            r is Ok && expected != TokenKind::EOF ==> final(self).state().pos > old(self).state().pos,
    {
        if self.check(expected) {
            self.advance();
            Ok(())
        } else {
            Err(self.error_here("Token inesperado", one_kind(expected)))
        }
    }

    /// Whether the current token has the tag `expected`; where it has not,
    /// the error is recorded.
    pub fn expect(&mut self, expected: TokenKind) -> (r: bool)
        requires
            old(self).wf(),
        ensures
            r == (kind_at(old(self).input(), old(self).state().pos) == expected),
            steps(
                *old(self),
                *final(self),
                if r {
                    old(self).state()
                } else {
                    recorded(
                        old(self).state(),
                        consume(old(self).input(), old(self).state(), expected).result->Err_0,
                    )
                },
            ),
    {
        if self.check(expected) {
            true
        } else {
            let e = self.error_here("Token inesperado", one_kind(expected));
            self.record(e);
            false
        }
    }

    /// The type of the token that stands `k` tokens after the current one.
    pub fn peek(&self, k: usize) -> (r: TokenType)
        requires
            self.wf(),
        ensures
            r@ == token_at(self.input(), self.state().pos + 1 + k).token_type,
    {
        let rest = self.tokens.len() - self.position;
        if rest > 1 && k < rest - 1 {
            self.tokens[self.position + 1 + k].token_type.duplicate()
        } else {
            TokenType::EOF
        }
    }

    /// Skips tokens up to one of `set` or the end of the input; after as
    /// many as the limit allows, skips the rest of the input.
    #[verifier::loop_isolation(false)]
    pub fn sync_recovery(&mut self, set: SyncSet)
        requires
            old(self).wf(),
        ensures
            steps(*old(self), *final(self), synchronized(old(self).input(), old(self).state(), set)),
    {
        reveal(synchronized);
        reveal(skip_to_sync);
        reveal(end_from);
        let mut recovery_count: usize = 0;
        loop
            invariant
                self.wf(),
                self.input() == old(self).input(),
                self.state().errors == old(self).state().errors,
                self.state().pos >= old(self).state().pos,
                recovery_count <= MAX_RECOVERY_ATTEMPTS,
                skip_to_sync(self.input(), self.state().pos, set, recovery_count as int)
                    == skip_to_sync(old(self).input(), old(self).state().pos, set, 0),
            decreases MAX_RECOVERY_ATTEMPTS - recovery_count,
        {
            let kind = self.current_kind();
            if set.contains(kind) || kind == TokenKind::EOF || recovery_count
                >= MAX_RECOVERY_ATTEMPTS {
                break ;
            }
            self.advance();
            recovery_count += 1;
        }
        if recovery_count >= MAX_RECOVERY_ATTEMPTS {
            loop
                invariant
                    self.wf(),
                    self.input() == old(self).input(),
                    self.state().errors == old(self).state().errors,
                    self.state().pos >= old(self).state().pos,
                    end_from(self.input(), self.state().pos) == end_from(
                        old(self).input(),
                        skip_to_sync(old(self).input(), old(self).state().pos, set, 0).0,
                    ),
                decreases self.tokens@.len() - self.position,
            {
                if self.current_kind() == TokenKind::EOF {
                    break ;
                }
                self.advance();
            }
        }
    }

    /// tipo ::= "inteiro" | "decimal" | "texto" | "logico"
    pub fn parse_type(&mut self) -> (r: Result<Type, ParserError>)
        requires
            old(self).wf(),
        ensures
            steps(*old(self), *final(self), parse_type(old(self).input(), old(self).state()).state),
            match r {
                Ok(t) => parse_type(old(self).input(), old(self).state()).result == Ok::<
                    Type,
                    ParserErrorView,
                >(t),
                Err(e) => parse_type(old(self).input(), old(self).state()).result == Err::<
                    Type,
                    ParserErrorView,
                >(e@),
            },
            r is Ok ==> final(self).state().pos > old(self).state().pos,
    {
        reveal(parse_type);
        match self.current_kind() {
            TokenKind::Inteiro => {
                self.advance();
                Ok(Type::Inteiro)
            },
            TokenKind::Decimal => {
                self.advance();
                Ok(Type::Decimal)
            },
            TokenKind::Texto => {
                self.advance();
                Ok(Type::Texto)
            },
            TokenKind::Logico => {
                self.advance();
                Ok(Type::Logico)
            },
            _ => Err(self.error_here("Esperado tipo de dado", type_kind_list())),
        }
    }

    /// An identifier, or the error with the given message.
    fn parse_identifier(&mut self, message: &str) -> (r: Result<String, ParserError>)
        requires
            old(self).wf(),
        ensures
            steps(
                *old(self),
                *final(self),
                identifier(old(self).input(), old(self).state(), message@).state,
            ),
            match r {
                Ok(n) => identifier(old(self).input(), old(self).state(), message@).result == Ok::<
                    Seq<char>,
                    ParserErrorView,
                >(n@),
                Err(e) => identifier(old(self).input(), old(self).state(), message@).result
                    == Err::<Seq<char>, ParserErrorView>(e@),
            },
            r is Ok ==> final(self).state().pos > old(self).state().pos,
    {
        reveal(identifier);
        if self.check(TokenKind::Identificador) {
            let name = self.current_text();
            self.advance();
            Ok(name)
        } else {
            Err(self.error_here(message, one_kind(TokenKind::Identificador)))
        }
    }

    /// base_fator ::= literal | identificador | chamada_funcao | "(" expressao ")"
    pub fn parse_primary(&mut self) -> (r: Result<Expr, ParserError>)
        requires
            old(self).wf(),
        ensures
            steps(*old(self), *final(self), primary(old(self).input(), old(self).state()).state),
            result_is(r, primary(old(self).input(), old(self).state()).result),
            r is Ok ==> final(self).state().pos > old(self).state().pos,
        decreases old(self).input().len() - old(self).state().pos, 0int,
    {
        reveal(arguments);
        reveal(expression);
        reveal(primary);
        match self.current_kind() {
            TokenKind::InteiroLiteral => {
                let value = self.current_number();
                self.advance();
                Ok(Expr::Literal(Literal::Inteiro(value)))
            },
            TokenKind::DecimalLiteral => {
                let value = self.current_text();
                self.advance();
                Ok(Expr::Literal(Literal::Decimal(value)))
            },
            TokenKind::StringLiteral => {
                let value = self.current_text();
                self.advance();
                Ok(Expr::Literal(Literal::Texto(value)))
            },
            TokenKind::Verdadeiro => {
                self.advance();
                Ok(Expr::Literal(Literal::Logico(true)))
            },
            TokenKind::Falso => {
                self.advance();
                Ok(Expr::Literal(Literal::Logico(false)))
            },
            TokenKind::Identificador => {
                let name = self.current_text();
                self.advance();
                if self.check(TokenKind::ParenteseEsquerdo) {
                    self.advance();
                    let arguments = match self.parse_arguments() {
                        Ok(a) => a,
                        Err(e) => {
                            return Err(e);
                        },
                    };
                    match self.consume(TokenKind::ParenteseDireito) {
                        Ok(_) => {},
                        Err(e) => {
                            return Err(e);
                        },
                    }
                    let call = CallExpr { function: name, arguments };
                    proof {
                        lemma_call_view(call);
                    }
                    Ok(Expr::Call(call))
                } else {
                    Ok(Expr::Variable(name))
                }
            },
            TokenKind::ParenteseEsquerdo => {
                self.advance();
                let expr = match self.parse_expression() {
                    Ok(x) => x,
                    Err(e) => {
                        return Err(e);
                    },
                };
                match self.consume(TokenKind::ParenteseDireito) {
                    Ok(_) => {},
                    Err(e) => {
                        return Err(e);
                    },
                }
                Ok(expr)
            },
            _ => Err(self.error_here("Esperado expressão", primary_kind_list())),
        }
    }

    /// fator ::= operador_unario fator | base_fator
    pub fn parse_unary(&mut self) -> (r: Result<Expr, ParserError>)
        requires
            old(self).wf(),
        ensures
            steps(*old(self), *final(self), unary(old(self).input(), old(self).state()).state),
            result_is(r, unary(old(self).input(), old(self).state()).result),
            r is Ok ==> final(self).state().pos > old(self).state().pos,
        decreases old(self).input().len() - old(self).state().pos, 1int,
    {
        reveal(primary);
        reveal(unary);
        match unary_operator(self.current_kind()) {
            Some(op) => {
                self.advance();
                let expr = match self.parse_unary() {
                    Ok(x) => x,
                    Err(e) => {
                        return Err(e);
                    },
                };
                Ok(Expr::UnaryOp(op, Box::new(expr)))
            },
            None => self.parse_primary(),
        }
    }

    /// The operand of an operator of the given level of precedence.
    fn parse_operand(&mut self, level: u8) -> (r: Result<Expr, ParserError>)
        requires
            old(self).wf(),
        ensures
            steps(
                *old(self),
                *final(self),
                (if level >= 5 {
                    unary(old(self).input(), old(self).state())
                } else {
                    binary(level + 1, old(self).input(), old(self).state())
                }).state,
            ),
            result_is(
                r,
                (if level >= 5 {
                    unary(old(self).input(), old(self).state())
                } else {
                    binary(level + 1, old(self).input(), old(self).state())
                }).result,
            ),
            r is Ok ==> final(self).state().pos > old(self).state().pos,
        decreases old(self).input().len() - old(self).state().pos, rank(level as int) - 1,
    {
        if level >= 5 {
            self.parse_unary()
        } else {
            self.parse_binary(level + 1)
        }
    }

    /// The expressions of one level of precedence, from level 0, which
    /// binds least, to level 5, which binds most.
    #[verifier::loop_isolation(false)]
    pub fn parse_binary(&mut self, level: u8) -> (r: Result<Expr, ParserError>)
        requires
            old(self).wf(),
        ensures
            steps(
                *old(self),
                *final(self),
                binary(level as int, old(self).input(), old(self).state()).state,
            ),
            result_is(r, binary(level as int, old(self).input(), old(self).state()).result),
            r is Ok ==> final(self).state().pos > old(self).state().pos,
        decreases old(self).input().len() - old(self).state().pos, rank(level as int),
    {
        reveal(unary);
        reveal(binary);
        reveal(binary_rest);
        let ghost p = self.input();
        let ghost goal = binary(level as int, p, self.state());
        let mut left = match self.parse_operand(level) {
            Ok(x) => x,
            Err(e) => {
                return Err(e);
            },
        };
        loop
            invariant
                self.wf(),
                self.input() == p,
                self.state().pos > old(self).state().pos,
                binary_rest(level as int, p, self.state(), left@) == goal,
            decreases self.tokens@.len() - self.position,
        {
            let op = match binary_operator(level, self.current_kind()) {
                Some(op) => op,
                None => {
                    break ;
                },
            };
            self.advance();
            let right = match self.parse_operand(level) {
                Ok(x) => x,
                Err(e) => {
                    return Err(e);
                },
            };
            left = Expr::BinaryOp(op, Box::new(left), Box::new(right));
        }
        Ok(left)
    }

    /// expressao ::= the loosest level of precedence
    pub fn parse_expression(&mut self) -> (r: Result<Expr, ParserError>)
        requires
            old(self).wf(),
        ensures
            steps(*old(self), *final(self), expression(old(self).input(), old(self).state()).state),
            result_is(r, expression(old(self).input(), old(self).state()).result),
            r is Ok ==> final(self).state().pos > old(self).state().pos,
        decreases old(self).input().len() - old(self).state().pos, 14int,
    {
        reveal(binary);
        reveal(expression);
        self.parse_binary(0)
    }

    /// expressao_logica ::= conjuncao ("||" conjuncao)*
    pub fn parse_logical_or(&mut self) -> (r: Result<Expr, ParserError>)
        requires
            old(self).wf(),
        ensures
            steps(*old(self), *final(self), binary(0, old(self).input(), old(self).state()).state),
            result_is(r, binary(0, old(self).input(), old(self).state()).result),
    {
        self.parse_binary(0)
    }

    /// conjuncao ::= igualdade ("&&" igualdade)*
    pub fn parse_logical_and(&mut self) -> (r: Result<Expr, ParserError>)
        requires
            old(self).wf(),
        ensures
            steps(*old(self), *final(self), binary(1, old(self).input(), old(self).state()).state),
            result_is(r, binary(1, old(self).input(), old(self).state()).result),
    {
        self.parse_binary(1)
    }

    /// igualdade ::= relacional (("==" | "!=") relacional)*
    pub fn parse_equality(&mut self) -> (r: Result<Expr, ParserError>)
        requires
            old(self).wf(),
        ensures
            steps(*old(self), *final(self), binary(2, old(self).input(), old(self).state()).state),
            result_is(r, binary(2, old(self).input(), old(self).state()).result),
    {
        self.parse_binary(2)
    }

    /// relacional ::= aditiva (("<" | "<=" | ">" | ">=") aditiva)*
    pub fn parse_relational(&mut self) -> (r: Result<Expr, ParserError>)
        requires
            old(self).wf(),
        ensures
            steps(*old(self), *final(self), binary(3, old(self).input(), old(self).state()).state),
            result_is(r, binary(3, old(self).input(), old(self).state()).result),
    {
        self.parse_binary(3)
    }

    /// aditiva ::= termo (("+" | "-") termo)*
    pub fn parse_additive(&mut self) -> (r: Result<Expr, ParserError>)
        requires
            old(self).wf(),
        ensures
            steps(*old(self), *final(self), binary(4, old(self).input(), old(self).state()).state),
            result_is(r, binary(4, old(self).input(), old(self).state()).result),
    {
        self.parse_binary(4)
    }

    /// termo ::= fator (("*" | "/" | "%") fator)*
    pub fn parse_multiplicative(&mut self) -> (r: Result<Expr, ParserError>)
        requires
            old(self).wf(),
        ensures
            steps(*old(self), *final(self), binary(5, old(self).input(), old(self).state()).state),
            result_is(r, binary(5, old(self).input(), old(self).state()).result),
    {
        self.parse_binary(5)
    }

    /// argumentos ::= (expressao ("," expressao)*)?   up to a ")"
    #[verifier::loop_isolation(false)]
    pub fn parse_arguments(&mut self) -> (r: Result<Vec<Expr>, ParserError>)
        requires
            old(self).wf(),
        ensures
            steps(*old(self), *final(self), arguments(old(self).input(), old(self).state()).state),
            match r {
                Ok(v) => arguments(old(self).input(), old(self).state()).result == Ok::<
                    Seq<ExprView>,
                    ParserErrorView,
                >(exprs_view(v@)),
                Err(e) => arguments(old(self).input(), old(self).state()).result == Err::<
                    Seq<ExprView>,
                    ParserErrorView,
                >(e@),
            },
        decreases old(self).input().len() - old(self).state().pos, 16int,
    {
        reveal(expression);
        reveal(arguments);
        reveal(arguments_rest);
        let ghost p = self.input();
        let ghost goal = arguments(p, self.state());
        let mut arguments: Vec<Expr> = Vec::new();
        if self.check(TokenKind::ParenteseDireito) {
            assert(exprs_view(arguments@) =~= Seq::empty());
            return Ok(arguments);
        }
        let first = match self.parse_expression() {
            Ok(x) => x,
            Err(e) => {
                return Err(e);
            },
        };
        arguments.push(first);
        assert(exprs_view(arguments@) =~= seq![first@]);
        loop
            invariant
                self.wf(),
                self.input() == p,
                self.state().pos > old(self).state().pos,
                arguments_rest(p, self.state(), exprs_view(arguments@)) == goal,
            decreases self.tokens@.len() - self.position,
        {
            if !self.check(TokenKind::Virgula) {
                break ;
            }
            self.advance();
            let next = match self.parse_expression() {
                Ok(x) => x,
                Err(e) => {
                    return Err(e);
                },
            };
            let ghost before = arguments@;
            arguments.push(next);
            assert(exprs_view(arguments@) =~= exprs_view(before).push(next@));
        }
        Ok(arguments)
    }

    /// An expression, then the token of tag `kind`.
    fn parse_expression_then(&mut self, kind: TokenKind) -> (r: Result<Expr, ParserError>)
        requires
            old(self).wf(),
        ensures
            steps(
                *old(self),
                *final(self),
                expression_then(old(self).input(), old(self).state(), kind).state,
            ),
            result_is(r, expression_then(old(self).input(), old(self).state(), kind).result),
            r is Ok ==> final(self).state().pos > old(self).state().pos,
    {
        reveal(expression_then);
        let expr = match self.parse_expression() {
            Ok(x) => x,
            Err(e) => {
                return Err(e);
            },
        };
        match self.consume(kind) {
            Ok(_) => Ok(expr),
            Err(e) => Err(e),
        }
    }

    /// declaracao_variavel ::= tipo identificador ("=" expressao)? ";"
    pub fn parse_variable_decl(&mut self) -> (r: Result<Statement, ParserError>)
        requires
            old(self).wf(),
        ensures
            steps(
                *old(self),
                *final(self),
                variable_decl(old(self).input(), old(self).state()).state,
            ),
            result_is(r, variable_decl(old(self).input(), old(self).state()).result),
            r is Ok ==> final(self).state().pos > old(self).state().pos,
    {
        let position = self.current_position();
        reveal(variable_decl);
        let var_type = match self.parse_type() {
            Ok(t) => t,
            Err(e) => {
                return Err(e);
            },
        };
        let name = match self.parse_identifier("Esperado identificador para variável") {
            Ok(n) => n,
            Err(e) => {
                return Err(e);
            },
        };
        let initializer = if self.check(TokenKind::Atribuicao) {
            self.advance();
            match self.parse_expression_then(TokenKind::PontoEVirgula) {
                Ok(x) => Some(x),
                Err(e) => {
                    return Err(e);
                },
            }
        } else {
            match self.consume(TokenKind::PontoEVirgula) {
                Ok(_) => None,
                Err(e) => {
                    return Err(e);
                },
            }
        };
        Ok(Statement::VariableDecl(VariableDecl { position, var_type, name, initializer }))
    }

    /// expressao_comando ::= expressao ";"
    pub fn parse_expr_stmt(&mut self) -> (r: Result<Statement, ParserError>)
        requires
            old(self).wf(),
        ensures
            steps(*old(self), *final(self), expr_stmt(old(self).input(), old(self).state()).state),
            result_is(r, expr_stmt(old(self).input(), old(self).state()).result),
            r is Ok ==> final(self).state().pos > old(self).state().pos,
    {
        let position = self.current_position();
        reveal(expr_stmt);
        match self.parse_expression_then(TokenKind::PontoEVirgula) {
            Ok(expr) => Ok(Statement::ExprStmt(ExprStmt { position, expr })),
            Err(e) => Err(e),
        }
    }

    /// comando_retorno ::= "retorne" expressao? ";"
    pub fn parse_return_stmt(&mut self) -> (r: Result<Statement, ParserError>)
        requires
            old(self).wf(),
        ensures
            steps(*old(self), *final(self), return_stmt(old(self).input(), old(self).state()).state),
            result_is(r, return_stmt(old(self).input(), old(self).state()).result),
            r is Ok ==> final(self).state().pos > old(self).state().pos,
    {
        let position = self.current_position();
        reveal(return_stmt);
        match self.consume(TokenKind::Retorne) {
            Ok(_) => {},
            Err(e) => {
                return Err(e);
            },
        }
        if !self.check(TokenKind::PontoEVirgula) {
            match self.parse_expression_then(TokenKind::PontoEVirgula) {
                Ok(x) => Ok(Statement::ReturnStmt(ReturnStmt { position, value: Some(x) })),
                Err(e) => Err(e),
            }
        } else {
            self.advance();
            Ok(Statement::ReturnStmt(ReturnStmt { position, value: None }))
        }
    }

    /// comando_escreva ::= "escreva" "(" argumentos ")" ";"
    pub fn parse_write_stmt(&mut self) -> (r: Result<Statement, ParserError>)
        requires
            old(self).wf(),
        ensures
            steps(*old(self), *final(self), write_stmt(old(self).input(), old(self).state()).state),
            result_is(r, write_stmt(old(self).input(), old(self).state()).result),
            r is Ok ==> final(self).state().pos > old(self).state().pos,
    {
        let position = self.current_position();
        reveal(write_stmt);
        match self.consume(TokenKind::Escreva) {
            Ok(_) => {},
            Err(e) => {
                return Err(e);
            },
        }
        match self.consume(TokenKind::ParenteseEsquerdo) {
            Ok(_) => {},
            Err(e) => {
                return Err(e);
            },
        }
        let arguments = match self.parse_arguments() {
            Ok(a) => a,
            Err(e) => {
                return Err(e);
            },
        };
        match self.consume(TokenKind::ParenteseDireito) {
            Ok(_) => {},
            Err(e) => {
                return Err(e);
            },
        }
        match self.consume(TokenKind::PontoEVirgula) {
            Ok(_) => {},
            Err(e) => {
                return Err(e);
            },
        }
        Ok(Statement::WriteStmt(WriteStmt { position, arguments }))
    }

    /// comando_leia ::= "leia" "(" expressao ")" ";"
    pub fn parse_read_stmt(&mut self) -> (r: Result<Statement, ParserError>)
        requires
            old(self).wf(),
        ensures
            steps(*old(self), *final(self), read_stmt(old(self).input(), old(self).state()).state),
            result_is(r, read_stmt(old(self).input(), old(self).state()).result),
            r is Ok ==> final(self).state().pos > old(self).state().pos,
    {
        let position = self.current_position();
        reveal(read_stmt);
        match self.consume(TokenKind::Leia) {
            Ok(_) => {},
            Err(e) => {
                return Err(e);
            },
        }
        match self.consume(TokenKind::ParenteseEsquerdo) {
            Ok(_) => {},
            Err(e) => {
                return Err(e);
            },
        }
        let target = match self.parse_expression_then(TokenKind::ParenteseDireito) {
            Ok(x) => x,
            Err(e) => {
                return Err(e);
            },
        };
        match self.consume(TokenKind::PontoEVirgula) {
            Ok(_) => {},
            Err(e) => {
                return Err(e);
            },
        }
        Ok(Statement::ReadStmt(ReadStmt { position, target }))
    }

    /// condicional ::= "se" expressao "entao" bloco ("senao" bloco)? "fimse"
    pub fn parse_if_stmt(&mut self) -> (r: Result<Statement, ParserError>)
        requires
            old(self).wf(),
        ensures
            steps(*old(self), *final(self), if_stmt(old(self).input(), old(self).state()).state),
            result_is(r, if_stmt(old(self).input(), old(self).state()).result),
            r is Ok ==> final(self).state().pos > old(self).state().pos,
        decreases old(self).input().len() - old(self).state().pos, 20int,
    {
        let position = self.current_position();
        reveal(block);
        reveal(if_stmt);
        match self.consume(TokenKind::Se) {
            Ok(_) => {},
            Err(e) => {
                return Err(e);
            },
        }
        let condition = match self.parse_expression_then(TokenKind::Entao) {
            Ok(x) => x,
            Err(e) => {
                return Err(e);
            },
        };
        let then_branch = match self.parse_block() {
            Ok(b) => b,
            Err(e) => {
                return Err(e);
            },
        };
        let else_branch = if self.check(TokenKind::Senao) {
            self.advance();
            match self.parse_block() {
                Ok(b) => Some(b),
                Err(e) => {
                    return Err(e);
                },
            }
        } else {
            None
        };
        match self.consume(TokenKind::FimSe) {
            Ok(_) => {},
            Err(e) => {
                return Err(e);
            },
        }
        Ok(Statement::IfStmt(IfStmt { position, condition, then_branch, else_branch }))
    }

    /// loop_enquanto ::= "enquanto" expressao "faca" bloco "fimenquanto"
    pub fn parse_while_stmt(&mut self) -> (r: Result<Statement, ParserError>)
        requires
            old(self).wf(),
        ensures
            steps(*old(self), *final(self), while_stmt(old(self).input(), old(self).state()).state),
            result_is(r, while_stmt(old(self).input(), old(self).state()).result),
            r is Ok ==> final(self).state().pos > old(self).state().pos,
        decreases old(self).input().len() - old(self).state().pos, 20int,
    {
        let position = self.current_position();
        reveal(block);
        reveal(while_stmt);
        match self.consume(TokenKind::Enquanto) {
            Ok(_) => {},
            Err(e) => {
                return Err(e);
            },
        }
        let condition = match self.parse_expression_then(TokenKind::Faca) {
            Ok(x) => x,
            Err(e) => {
                return Err(e);
            },
        };
        let body = match self.parse_block() {
            Ok(b) => b,
            Err(e) => {
                return Err(e);
            },
        };
        match self.consume(TokenKind::FimEnquanto) {
            Ok(_) => {},
            Err(e) => {
                return Err(e);
            },
        }
        Ok(Statement::WhileStmt(WhileStmt { position, condition, body }))
    }

    /// loop_para ::= "para" identificador "de" expressao "ate" expressao "faca" bloco "fimpara"
    pub fn parse_for_stmt(&mut self) -> (r: Result<Statement, ParserError>)
        requires
            old(self).wf(),
        ensures
            steps(*old(self), *final(self), for_stmt(old(self).input(), old(self).state()).state),
            result_is(r, for_stmt(old(self).input(), old(self).state()).result),
            r is Ok ==> final(self).state().pos > old(self).state().pos,
        decreases old(self).input().len() - old(self).state().pos, 20int,
    {
        let position = self.current_position();
        reveal(block);
        reveal(for_stmt);
        match self.consume(TokenKind::Para) {
            Ok(_) => {},
            Err(e) => {
                return Err(e);
            },
        }
        let variable = match self.parse_identifier("Esperado identificador para variável do loop") {
            Ok(n) => n,
            Err(e) => {
                return Err(e);
            },
        };
        match self.consume(TokenKind::De) {
            Ok(_) => {},
            Err(e) => {
                return Err(e);
            },
        }
        let start = match self.parse_expression_then(TokenKind::Ate) {
            Ok(x) => x,
            Err(e) => {
                return Err(e);
            },
        };
        let end = match self.parse_expression_then(TokenKind::Faca) {
            Ok(x) => x,
            Err(e) => {
                return Err(e);
            },
        };
        let body = match self.parse_block() {
            Ok(b) => b,
            Err(e) => {
                return Err(e);
            },
        };
        match self.consume(TokenKind::FimPara) {
            Ok(_) => {},
            Err(e) => {
                return Err(e);
            },
        }
        Ok(Statement::ForStmt(ForStmt { position, variable, start, end, body }))
    }

    /// comando ::= condicional | loop | retorno | escreva | leia | expressao_comando
    pub fn parse_statement(&mut self) -> (r: Result<Statement, ParserError>)
        requires
            old(self).wf(),
        ensures
            steps(*old(self), *final(self), statement(old(self).input(), old(self).state()).state),
            result_is(r, statement(old(self).input(), old(self).state()).result),
            r is Ok ==> final(self).state().pos > old(self).state().pos,
        decreases old(self).input().len() - old(self).state().pos, 21int,
    {
        reveal(if_stmt);
        reveal(while_stmt);
        reveal(for_stmt);
        reveal(statement);
        match self.current_kind() {
            TokenKind::Se => self.parse_if_stmt(),
            TokenKind::Enquanto => self.parse_while_stmt(),
            TokenKind::Para => self.parse_for_stmt(),
            TokenKind::Retorne => self.parse_return_stmt(),
            TokenKind::Escreva => self.parse_write_stmt(),
            TokenKind::Leia => self.parse_read_stmt(),
            _ => self.parse_expr_stmt(),
        }
    }

    /// Inside a block a statement may also be a variable declaration.
    pub fn parse_statement_or_declaration(&mut self) -> (r: Result<Statement, ParserError>)
        requires
            old(self).wf(),
        ensures
            steps(
                *old(self),
                *final(self),
                statement_or_declaration(old(self).input(), old(self).state()).state,
            ),
            result_is(r, statement_or_declaration(old(self).input(), old(self).state()).result),
            r is Ok ==> final(self).state().pos > old(self).state().pos,
        decreases old(self).input().len() - old(self).state().pos, 22int,
    {
        reveal(statement);
        reveal(statement_or_declaration);
        if self.current_kind().is_type_keyword() {
            self.parse_variable_decl()
        } else {
            self.parse_statement()
        }
    }

    /// bloco ::= "{" (comando | declaracao_variavel)* "}"
    ///
    /// A statement that fails is recorded and left out, and the block goes
    /// on at the next statement.
    #[verifier::loop_isolation(false)]
    pub fn parse_block(&mut self) -> (r: Result<Block, ParserError>)
        requires
            old(self).wf(),
        ensures
            steps(*old(self), *final(self), block(old(self).input(), old(self).state()).state),
            result_is(r, block(old(self).input(), old(self).state()).result),
            r is Ok ==> final(self).state().pos > old(self).state().pos,
        decreases old(self).input().len() - old(self).state().pos, 24int,
    {
        reveal(statement_or_declaration);
        reveal(block);
        reveal(block_items);
        let ghost p = self.input();
        match self.consume(TokenKind::ChaveEsquerda) {
            Ok(_) => {},
            Err(e) => {
                return Err(e);
            },
        }
        let ghost goal = block_items(p, self.state(), Seq::empty());
        let mut statements: Vec<Statement> = Vec::new();
        assert(statements_view(statements@) =~= Seq::empty());
        loop
            invariant
                self.wf(),
                self.input() == p,
                self.state().pos > old(self).state().pos,
                block_items(p, self.state(), statements_view(statements@)) == goal,
            decreases self.tokens@.len() - self.position,
        {
            let kind = self.current_kind();
            if kind == TokenKind::ChaveDireita || kind == TokenKind::EOF {
                break ;
            }
            let start = self.position;
            match self.parse_statement_or_declaration() {
                Ok(stmt) => {
                    let ghost before = statements@;
                    statements.push(stmt);
                    assert(statements_view(statements@) =~= statements_view(before).push(stmt@));
                },
                Err(e) => {
                    self.record(e);
                    if self.position == start {
                        self.advance();
                    }
                    self.sync_recovery(SyncSet::Block);
                },
            }
        }
        match self.consume(TokenKind::ChaveDireita) {
            Ok(_) => {},
            Err(e) => {
                return Err(e);
            },
        }
        let r = Block { statements };
        proof {
            lemma_block_view(r);
        }
        Ok(r)
    }

    /// parametro ::= tipo identificador
    pub fn parse_parameter(&mut self) -> (r: Result<Parameter, ParserError>)
        requires
            old(self).wf(),
        ensures
            steps(*old(self), *final(self), parameter(old(self).input(), old(self).state()).state),
            result_is(r, parameter(old(self).input(), old(self).state()).result),
            r is Ok ==> final(self).state().pos > old(self).state().pos,
    {
        reveal(parameter);
        let param_type = match self.parse_type() {
            Ok(t) => t,
            Err(e) => {
                return Err(e);
            },
        };
        let name = match self.parse_identifier("Esperado identificador para parâmetro") {
            Ok(n) => n,
            Err(e) => {
                return Err(e);
            },
        };
        Ok(Parameter { param_type, name })
    }

    /// parametros ::= (parametro ("," parametro)*)?
    #[verifier::loop_isolation(false)]
    pub fn parse_parameters(&mut self) -> (r: Result<Vec<Parameter>, ParserError>)
        requires
            old(self).wf(),
        ensures
            steps(*old(self), *final(self), parameters(old(self).input(), old(self).state()).state),
            match r {
                Ok(v) => parameters(old(self).input(), old(self).state()).result == Ok::<
                    Seq<ParameterView>,
                    ParserErrorView,
                >(v@.map_values(|x: Parameter| x@)),
                Err(e) => parameters(old(self).input(), old(self).state()).result == Err::<
                    Seq<ParameterView>,
                    ParserErrorView,
                >(e@),
            },
    {
        reveal(parameters);
        reveal(parameters_rest);
        let ghost p = self.input();
        let ghost goal = parameters(p, self.state());
        let mut parameters: Vec<Parameter> = Vec::new();
        if !self.current_kind().is_type_keyword() {
            assert(parameters@.map_values(|x: Parameter| x@) =~= Seq::empty());
            return Ok(parameters);
        }
        let first = match self.parse_parameter() {
            Ok(x) => x,
            Err(e) => {
                return Err(e);
            },
        };
        parameters.push(first);
        assert(parameters@.map_values(|x: Parameter| x@) =~= seq![first@]);
        loop
            invariant
                self.wf(),
                self.input() == p,
                self.state().pos >= old(self).state().pos,
                parameters_rest(p, self.state(), parameters@.map_values(|x: Parameter| x@)) == goal,
            decreases self.tokens@.len() - self.position,
        {
            if !self.check(TokenKind::Virgula) {
                break ;
            }
            self.advance();
            let next = match self.parse_parameter() {
                Ok(x) => x,
                Err(e) => {
                    return Err(e);
                },
            };
            let ghost before = parameters@;
            parameters.push(next);
            assert(parameters@.map_values(|x: Parameter| x@) =~= before.map_values(
                |x: Parameter| x@,
            ).push(next@));
        }
        Ok(parameters)
    }

    /// funcao ::= "funcao" tipo? identificador "(" parametros ")" bloco
    pub fn parse_function_decl(&mut self) -> (r: Result<FunctionDecl, ParserError>)
        requires
            old(self).wf(),
        ensures
            steps(
                *old(self),
                *final(self),
                function_decl(old(self).input(), old(self).state()).state,
            ),
            result_is(r, function_decl(old(self).input(), old(self).state()).result),
            r is Ok ==> final(self).state().pos > old(self).state().pos,
    {
        let position = self.current_position();
        reveal(function_decl);
        reveal(return_type);
        match self.consume(TokenKind::Funcao) {
            Ok(_) => {},
            Err(e) => {
                return Err(e);
            },
        }
        let return_type = if self.current_kind().is_type_keyword() {
            match self.parse_type() {
                Ok(t) => Some(t),
                Err(e) => {
                    return Err(e);
                },
            }
        } else {
            None
        };
        let name = match self.parse_identifier("Esperado identificador para nome da função") {
            Ok(n) => n,
            Err(e) => {
                return Err(e);
            },
        };
        match self.consume(TokenKind::ParenteseEsquerdo) {
            Ok(_) => {},
            Err(e) => {
                return Err(e);
            },
        }
        let parameters = match self.parse_parameters() {
            Ok(x) => x,
            Err(e) => {
                return Err(e);
            },
        };
        match self.consume(TokenKind::ParenteseDireito) {
            Ok(_) => {},
            Err(e) => {
                return Err(e);
            },
        }
        let body = match self.parse_block() {
            Ok(b) => b,
            Err(e) => {
                return Err(e);
            },
        };
        Ok(FunctionDecl { position, return_type, name, parameters, body })
    }

    /// programa ::= (funcao | comando | declaracao_variavel)*   up to the end of the input
    ///
    /// Returns the program if no syntax error was recorded, before or
    /// during the call; else every error, in the order in which they were
    /// met. The parser has no recorded error afterwards.
    #[verifier::loop_isolation(false)]
    pub fn parse_program(&mut self) -> (r: Result<Program, Vec<ParserError>>)
        requires
            old(self).wf(),
        ensures
            final(self).wf(),
            final(self).input() == old(self).input(),
            final(self).state() == (ParserState {
                pos: program(old(self).input(), old(self).state()).0.pos,
                errors: Seq::empty(),
            }),
            match r {
                Ok(x) => program(old(self).input(), old(self).state()).0.errors.len() == 0 && x@
                    == program(old(self).input(), old(self).state()).1,
                Err(es) => es@.len() > 0 && parser_errors_view(es@) == program(
                    old(self).input(),
                    old(self).state(),
                ).0.errors,
            },
    {
        reveal(program);
        reveal(program_items);
        let ghost p = self.input();
        let ghost goal = program(p, self.state());
        let mut functions: Vec<FunctionDecl> = Vec::new();
        let mut statements: Vec<Statement> = Vec::new();
        assert(statements_view(statements@) =~= Seq::empty());
        assert(functions@.map_values(|f: FunctionDecl| f@) =~= Seq::empty());
        loop
            invariant
                self.wf(),
                self.input() == p,
                program_items(
                    p,
                    self.state(),
                    crate::ast::ProgramView {
                        functions: functions@.map_values(|f: FunctionDecl| f@),
                        statements: statements_view(statements@),
                    },
                ) == goal,
            decreases self.tokens@.len() - self.position,
        {
            let kind = self.current_kind();
            if kind == TokenKind::EOF {
                break ;
            }
            if kind == TokenKind::Funcao {
                match self.parse_function_decl() {
                    Ok(func) => {
                        let ghost before = functions@;
                        functions.push(func);
                        assert(functions@.map_values(|f: FunctionDecl| f@) =~= before.map_values(
                            |f: FunctionDecl| f@,
                        ).push(func@));
                    },
                    Err(e) => {
                        self.record(e);
                        self.advance();
                        self.sync_recovery(SyncSet::Function);
                    },
                }
            } else {
                match self.parse_statement_or_declaration() {
                    Ok(stmt) => {
                        let ghost before = statements@;
                        statements.push(stmt);
                        assert(statements_view(statements@) =~= statements_view(before).push(
                            stmt@,
                        ));
                    },
                    Err(e) => {
                        self.record(e);
                        self.advance();
                        self.sync_recovery(SyncSet::TopLevel);
                    },
                }
            }
        }
        if self.errors.len() > 0 {
            let mut errors: Vec<ParserError> = Vec::new();
            core::mem::swap(&mut self.errors, &mut errors);
            assert(self.state().errors =~= Seq::empty());
            Err(errors)
        } else {
            assert(self.state().errors =~= Seq::empty());
            Ok(Program { functions, statements })
        }
    }

    /// The syntax errors recorded so far.
    pub fn get_errors(&self) -> (r: &Vec<ParserError>)
        ensures
            parser_errors_view(r@) == self.state().errors,
    {
        &self.errors
    }

    /// Whether a syntax error was recorded.
    pub fn has_errors(&self) -> (r: bool)
        ensures
            r == (self.state().errors.len() > 0),
    {
        self.errors.len() > 0
    }
}

} // verus!
