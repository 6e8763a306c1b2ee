//! The tokenizer: it reads a source text token by token, and lets its
//! caller look ahead.

use vstd::prelude::*;
use vstd::std_specs::iter::IteratorSpec;
use vstd::string::*;
use crate::afds::{
    advance, char_is_whitespace, place, room, scanned_as, stays, try_consume_comment,
    try_consume_delimiter, try_consume_identifier, try_consume_keyword, try_consume_number,
    try_consume_operator, try_consume_string,
};
use crate::error::{LexerError, LexerErrorView};
use crate::lexing::{
    all_tokens, first_token, inside, marker, next_token, skip_whitespace, start_of_text, LexPos,
};
use crate::text::push_char;
use crate::token::{tokens_view, Token, TokenType, TokenView};

verus! {

/// The tokenizer: the characters of the source, the place of the next
/// character, and the tokens that were read ahead.
#[derive(Debug)]
pub struct Lexer {
    source: Vec<char>,
    current_pos: usize,
    current_line: usize,
    current_column: usize,
    lookahead_buffer: Vec<Token>,
}

/// The tokens read ahead after `buf` until more than `k` are there or the
/// text ends: the place reached, the tokens, and the lexical error that
/// stopped the reading, if one did.
pub open spec fn read_ahead(src: Seq<char>, c: LexPos, buf: Seq<TokenView>, k: int) -> (
    LexPos,
    Seq<TokenView>,
    Option<LexerErrorView>,
)
    decreases k + 1 - buf.len(),
{
    if buf.len() > k {
        (c, buf, None)
    } else {
        let t = next_token(src, c);
        match t.result {
            Err(e) => (t.at, buf, Some(e)),
            Ok(None) => (t.at, buf, None),
            Ok(Some(token)) => read_ahead(src, t.at, buf.push(token), k),
        }
    }
}

/// The characters of a text.
fn chars_of(text: &str) -> (r: Vec<char>)
    ensures
        r@ == text@,
{
    broadcast use {axiom_spec_iter, next_postcondition};

    let mut out: Vec<char> = Vec::new();
    let mut it = text.chars();
    loop
        invariant
            out@ + it.remaining() == text@,
            it.obeys_prophetic_iter_laws(),
            it.decrease() is Some,
        ensures
            out@ == text@,
        decreases it.decrease()->0,
    {
        match it.next() {
            Some(c) => {
                out.push(c);
                assert(out@ + it.remaining() =~= text@);
            },
            None => {
                assert(out@ =~= text@);
                break ;
            },
        }
    }
    out
}

impl Lexer {
    /// The text that is read.
    pub closed spec fn text(&self) -> Seq<char> {
        self.source@
    }

    /// The place of the next character.
    pub closed spec fn cursor(&self) -> LexPos {
        place(self.current_pos, self.current_line, self.current_column)
    }

    /// The tokens that were read ahead and not yet handed out.
    pub closed spec fn pending(&self) -> Seq<TokenView> {
        tokens_view(self.lookahead_buffer@)
    }

    /// The place is in the text, and its lines and columns can be counted.
    pub closed spec fn wf(&self) -> bool {
        &&& self.source@.len() < usize::MAX
        &&& room(self.source@, self.cursor())
    }

    /// A tokenizer at the start of `source_code`.
    pub fn new(source_code: &str) -> (r: Lexer)
        requires
            source_code@.len() < usize::MAX,
        ensures
            r.wf(),
            r.text() == source_code@,
            r.cursor() == start_of_text(),
            r.pending() == Seq::<TokenView>::empty(),
    {
        let r = Lexer {
            source: chars_of(source_code),
            current_pos: 0,
            current_line: 1,
            current_column: 1,
            lookahead_buffer: Vec::new(),
        };
        assert(r.pending() =~= Seq::<TokenView>::empty());
        r
    }

    /// Goes back to the start of the text and forgets what was read ahead.
    pub fn reset(&mut self)
        requires
            old(self).wf(),
        ensures
            final(self).wf(),
            final(self).text() == old(self).text(),
            final(self).cursor() == start_of_text(),
            final(self).pending() == Seq::<TokenView>::empty(),
    {
        self.current_pos = 0;
        self.current_line = 1;
        self.current_column = 1;
        self.lookahead_buffer = Vec::new();
        assert(self.pending() =~= Seq::<TokenView>::empty());
    }

    /// Every token of the text from its start, closed by the token that
    /// marks the end of the input; or the first lexical error.
    #[verifier::loop_isolation(false)]
    pub fn tokenize(&mut self) -> (r: Result<Vec<Token>, LexerError>)
        requires
            old(self).wf(),
        ensures
            final(self).wf(),
            final(self).text() == old(self).text(),
            match r {
                Ok(v) => all_tokens(old(self).text(), start_of_text(), Seq::empty()) == Ok::<
                    Seq<TokenView>,
                    LexerErrorView,
                >(tokens_view(v@)),
                Err(e) => all_tokens(old(self).text(), start_of_text(), Seq::empty()) == Err::<
                    Seq<TokenView>,
                    LexerErrorView,
                >(e@),
            },
    {
        let mut tokens: Vec<Token> = Vec::new();
        self.reset();
        let ghost src = self.text();
        let ghost goal = all_tokens(src, start_of_text(), Seq::empty());
        assert(tokens_view(tokens@) =~= Seq::empty());
        loop
            invariant
                self.wf(),
                self.text() == src,
                all_tokens(src, self.cursor(), tokens_view(tokens@)) == goal,
            decreases src.len() - self.cursor().pos,
        {
            let ghost before = tokens@;
            match self.next_token_internal() {
                Err(e) => {
                    return Err(e);
                },
                Ok(None) => {
                    tokens.push(Token::eof(self.current_line, self.current_column));
                    assert(tokens_view(tokens@) =~= tokens_view(before).push(
                        marker(self.cursor()),
                    ));
                    return Ok(tokens);
                },
                Ok(Some(token)) => {
                    tokens.push(token);
                    assert(tokens_view(tokens@) =~= tokens_view(before).push(token@));
                },
            }
        }
    }

    /// The same as `tokenize`.
    pub fn get_all_tokens(&mut self) -> (r: Result<Vec<Token>, LexerError>)
        requires
            old(self).wf(),
        ensures
            final(self).wf(),
            final(self).text() == old(self).text(),
            match r {
                Ok(v) => all_tokens(old(self).text(), start_of_text(), Seq::empty()) == Ok::<
                    Seq<TokenView>,
                    LexerErrorView,
                >(tokens_view(v@)),
                Err(e) => all_tokens(old(self).text(), start_of_text(), Seq::empty()) == Err::<
                    Seq<TokenView>,
                    LexerErrorView,
                >(e@),
            },
    {
        self.tokenize()
    }

    /// The next token: the first of those read ahead, else the next of the
    /// text; at the end of the text, the token that marks it.
    pub fn next_token_for_parser(&mut self) -> (r: Result<Token, LexerError>)
        requires
            old(self).wf(),
        ensures
            final(self).wf(),
            final(self).text() == old(self).text(),
            old(self).pending().len() > 0 ==> r is Ok && r->Ok_0@ == old(self).pending()[0]
                && final(self).pending() == old(self).pending().drop_first() && final(self).cursor() == old(self).cursor(),
            old(self).pending().len() == 0 ==> final(self).pending() == old(self).pending()
                && final(self).cursor() == next_token(old(self).text(), old(self).cursor()).at
                && match r {
                Ok(t) => match next_token(old(self).text(), old(self).cursor()).result {
                    Ok(Some(x)) => t@ == x,
                    Ok(None) => t@ == marker(final(self).cursor()),
                    Err(_) => false,
                },
                Err(e) => next_token(old(self).text(), old(self).cursor()).result == Err::<
                    Option<TokenView>,
                    LexerErrorView,
                >(e@),
            },
    {
        if self.lookahead_buffer.len() > 0 {
            let t = self.lookahead_buffer.remove(0);
            assert(self.pending() =~= old(self).pending().drop_first());
            Ok(t)
        } else {
            match self.next_token_internal() {
                Ok(Some(token)) => Ok(token),
                Ok(None) => Ok(Token::eof(self.current_line, self.current_column)),
                Err(e) => Err(e),
            }
        }
    }

    /// The token that stands `k` tokens ahead, if the text has that many;
    /// tokens are read ahead as far as needed.
    #[verifier::loop_isolation(false)]
    pub fn peek(&mut self, k: usize) -> (r: Result<Option<&Token>, LexerError>)
        requires
            old(self).wf(),
        ensures
            final(self).wf(),
            final(self).text() == old(self).text(),
            (final(self).cursor(), final(self).pending()) == (
                read_ahead(old(self).text(), old(self).cursor(), old(self).pending(), k as int).0,
                read_ahead(old(self).text(), old(self).cursor(), old(self).pending(), k as int).1,
            ),
            match r {
                Ok(Some(t)) => k < final(self).pending().len() && t@ == final(self).pending()[k as int]
                    && read_ahead(
                    old(self).text(),
                    old(self).cursor(),
                    old(self).pending(),
                    k as int,
                ).2 is None,
                Ok(None) => k >= final(self).pending().len() && read_ahead(
                    old(self).text(),
                    old(self).cursor(),
                    old(self).pending(),
                    k as int,
                ).2 is None,
                Err(e) => read_ahead(
                    old(self).text(),
                    old(self).cursor(),
                    old(self).pending(),
                    k as int,
                ).2 == Some(e@),
            },
    {
        let ghost src = self.text();
        let ghost goal = read_ahead(src, self.cursor(), self.pending(), k as int);
        while self.lookahead_buffer.len() <= k
            invariant
                self.wf(),
                self.text() == src,
                read_ahead(src, self.cursor(), self.pending(), k as int) == goal,
            decreases k + 1 - self.lookahead_buffer@.len(),
        {
            let ghost before = self.lookahead_buffer@;
            match self.next_token_internal() {
                Err(e) => {
                    return Err(e);
                },
                Ok(None) => {
                    return Ok(None);
                },
                Ok(Some(token)) => {
                    self.lookahead_buffer.push(token);
                    assert(self.pending() =~= tokens_view(before).push(token@));
                },
            }
        }
        Ok(Some(&self.lookahead_buffer[k]))
    }

    /// Takes the next token: the first of those read ahead, else the next
    /// of the text; none at the end of the text.
    pub fn consume(&mut self) -> (r: Result<Option<Token>, LexerError>)
        requires
            old(self).wf(),
        ensures
            final(self).wf(),
            final(self).text() == old(self).text(),
            old(self).pending().len() > 0 ==> r is Ok && r->Ok_0 is Some && r->Ok_0->0@ == old(self).pending()[0] && final(self).pending() == old(self).pending().drop_first() && final(self).cursor() == old(self).cursor(),
            old(self).pending().len() == 0 ==> final(self).pending() == old(self).pending()
                && scanned_as(
                old(self).text(),
                old(self).cursor(),
                final(self).cursor(),
                r,
                next_token(old(self).text(), old(self).cursor()),
            ),
    {
        if self.lookahead_buffer.len() > 0 {
            let t = self.lookahead_buffer.remove(0);
            assert(self.pending() =~= old(self).pending().drop_first());
            Ok(Some(t))
        } else {
            self.next_token_internal()
        }
    }

    /// Whether the next token has exactly the type `expected_type`; the
    /// token is read ahead and stays.
    pub fn expect(&mut self, expected_type: TokenType) -> (r: Result<bool, LexerError>)
        requires
            old(self).wf(),
        ensures
            final(self).wf(),
            final(self).text() == old(self).text(),
            (final(self).cursor(), final(self).pending()) == (
                read_ahead(old(self).text(), old(self).cursor(), old(self).pending(), 0).0,
                read_ahead(old(self).text(), old(self).cursor(), old(self).pending(), 0).1,
            ),
            match r {
                Ok(b) => read_ahead(old(self).text(), old(self).cursor(), old(self).pending(), 0).2
                    is None && b == (final(self).pending().len() > 0 && final(self).pending()[0].token_type == expected_type@),
                Err(e) => read_ahead(old(self).text(), old(self).cursor(), old(self).pending(), 0).2
                    == Some(e@),
            },
    {
        match self.peek(0) {
            Ok(Some(next_token)) => Ok(next_token.token_type.same(&expected_type)),
            Ok(None) => Ok(false),
            Err(e) => Err(e),
        }
    }

    /// Moves past the white space at the place.
    fn skip_whitespace(&mut self)
        requires
            old(self).wf(),
        ensures
            final(self).wf(),
            final(self).text() == old(self).text(),
            final(self).pending() == old(self).pending(),
            final(self).cursor() == skip_whitespace(old(self).text(), old(self).cursor()),
            final(self).cursor().pos >= old(self).cursor().pos,
    {
        let ghost src = self.text();
        let ghost goal = skip_whitespace(src, self.cursor());
        while self.current_pos < self.source.len() && char_is_whitespace(
            self.source[self.current_pos],
        )
            invariant
                self.wf(),
                self.text() == src,
                self.pending() == old(self).pending(),
                self.cursor().pos >= old(self).cursor().pos,
                skip_whitespace(src, self.cursor()) == goal,
            decreases self.source@.len() - self.current_pos,
        {
            advance(
                self.source.as_slice(),
                &mut self.current_pos,
                &mut self.current_line,
                &mut self.current_column,
            );
        }
    }

    /// The token that starts at the place, where a character stands that
    /// starts no comment.
    fn first_token(&mut self) -> (r: Result<Option<Token>, LexerError>)
        requires
            old(self).wf(),
            inside(old(self).text(), old(self).cursor()),
        ensures
            final(self).wf(),
            final(self).text() == old(self).text(),
            final(self).pending() == old(self).pending(),
            scanned_as(
                old(self).text(),
                old(self).cursor(),
                final(self).cursor(),
                r,
                first_token(old(self).text(), old(self).cursor()),
            ),
            r is Ok ==> r->Ok_0 is Some,
    {
        let start_line = self.current_line;
        let start_column = self.current_column;
        match try_consume_string(
            self.source.as_slice(),
            &mut self.current_pos,
            &mut self.current_line,
            &mut self.current_column,
        ) {
            Ok(None) => {},
            other => {
                return other;
            },
        }
        match try_consume_number(
            self.source.as_slice(),
            &mut self.current_pos,
            &mut self.current_line,
            &mut self.current_column,
        ) {
            Ok(None) => {},
            other => {
                return other;
            },
        }
        match try_consume_operator(
            self.source.as_slice(),
            &mut self.current_pos,
            &mut self.current_line,
            &mut self.current_column,
        ) {
            Ok(None) => {},
            other => {
                return other;
            },
        }
        match try_consume_delimiter(
            self.source.as_slice(),
            &mut self.current_pos,
            &mut self.current_line,
            &mut self.current_column,
        ) {
            Ok(None) => {},
            other => {
                return other;
            },
        }
        match try_consume_keyword(
            self.source.as_slice(),
            &mut self.current_pos,
            &mut self.current_line,
            &mut self.current_column,
        ) {
            Ok(None) => {},
            other => {
                return other;
            },
        }
        match try_consume_identifier(
            self.source.as_slice(),
            &mut self.current_pos,
            &mut self.current_line,
            &mut self.current_column,
        ) {
            Ok(None) => {},
            other => {
                return other;
            },
        }
        let char_invalido = self.source[self.current_pos];
        let mut message = String::from_str("Caractere inválido: '");
        push_char(&mut message, char_invalido);
        message.append("'");
        let erro = LexerError::with_recovery_suggestion(
            message,
            start_line,
            start_column,
            String::from_str("Tente usar apenas caracteres válidos da linguagem Symplia"),
        );
        advance(
            self.source.as_slice(),
            &mut self.current_pos,
            &mut self.current_line,
            &mut self.current_column,
        );
        Err(erro)
    }

    /// The next token of the text, after white space and comments; none at
    /// the end of the text.
    #[verifier::loop_isolation(false)]
    pub fn next_token_internal(&mut self) -> (r: Result<Option<Token>, LexerError>)
        requires
            old(self).wf(),
        ensures
            final(self).wf(),
            final(self).text() == old(self).text(),
            final(self).pending() == old(self).pending(),
            scanned_as(
                old(self).text(),
                old(self).cursor(),
                final(self).cursor(),
                r,
                next_token(old(self).text(), old(self).cursor()),
            ),
    {
        let ghost src = self.text();
        let ghost goal = next_token(src, self.cursor());
        loop
            invariant
                self.wf(),
                self.text() == src,
                self.pending() == old(self).pending(),
                self.cursor().pos >= old(self).cursor().pos,
                next_token(src, self.cursor()) == goal,
            decreases src.len() - self.cursor().pos,
        {
            let ghost c = self.cursor();
            self.skip_whitespace();
            if self.current_pos >= self.source.len() {
                return Ok(None);
            }
            match try_consume_comment(
                self.source.as_slice(),
                &mut self.current_pos,
                &mut self.current_line,
                &mut self.current_column,
            ) {
                Err(e) => {
                    return Err(e);
                },
                Ok(Some(_)) => {},
                Ok(None) => {
                    return self.first_token();
                },
            }
        }
    }
}

} // verus!
