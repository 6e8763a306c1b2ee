//! Laws of the tokenizer: every scanner leaves the place inside the text
//! and no further back than it started, and a scanner that reads a token
//! has read a character. The bounds that the definitions put on places
//! therefore never change a place.

use vstd::prelude::*;
use crate::lexing::{
    all_tokens, first_token,
    block_comment_rest, forward, inside, keyword, line_end, next_token, number_end, scan_comment,
    scan_delimiter, scan_identifier, scan_keyword, scan_number, scan_operator, scan_string,
    skip_whitespace, step, string_rest, word_end, LexPos, Scanned,
};

use crate::token::TokenView;

verus! {

/// The place `after` is inside the text or at its end, and no further
/// back than `before`.
pub open spec fn ahead(src: Seq<char>, before: LexPos, after: LexPos) -> bool {
    before.pos <= after.pos <= src.len()
}

/// What was scanned lies ahead, and a token that was read took a
/// character.
pub open spec fn scanned_ahead(src: Seq<char>, before: LexPos, s: Scanned) -> bool {
    ahead(src, before, s.at) && (s.result is Ok && s.result->Ok_0 is Some ==> s.at.pos
        > before.pos)
}

/// The line and the column of the place are counted from 1.
pub open spec fn placed(c: LexPos) -> bool {
    c.line >= 1 && c.column >= 1
}

/// What was scanned has its place: the place after it, and the token or
/// the error, each with a line and a column counted from 1.
pub open spec fn scanned_placed(s: Scanned) -> bool {
    &&& placed(s.at)
    &&& match s.result {
        Ok(Some(t)) => t.linha >= 1 && t.coluna >= 1,
        Ok(None) => true,
        Err(e) => e.linha >= 1 && e.coluna >= 1,
    }
}

/// A keyword has at least one character.
pub proof fn lemma_keyword_is_not_empty(word: Seq<char>)
    requires
        keyword(word) is Some,
    ensures
        word.len() > 0,
{
    reveal_strlit("se");
    reveal_strlit("entao");
    reveal_strlit("senao");
    reveal_strlit("fimse");
    reveal_strlit("enquanto");
    reveal_strlit("faca");
    reveal_strlit("fimenquanto");
    reveal_strlit("para");
    reveal_strlit("de");
    reveal_strlit("ate");
    reveal_strlit("fimpara");
    reveal_strlit("funcao");
    reveal_strlit("retorne");
    reveal_strlit("fimfuncao");
    reveal_strlit("inteiro");
    reveal_strlit("decimal");
    reveal_strlit("texto");
    reveal_strlit("logico");
    reveal_strlit("verdadeiro");
    reveal_strlit("falso");
    reveal_strlit("escreva");
    reveal_strlit("leia");
    reveal_strlit("principal");
}

pub proof fn lemma_line_end_ahead(src: Seq<char>, c: LexPos)
    requires
        0 <= c.pos <= src.len(),
    ensures
        placed(c) ==> placed(line_end(src, c)),
        ahead(src, c, line_end(src, c)),
    decreases src.len() - c.pos,
{
    if inside(src, c) && src[c.pos] != '\n' {
        lemma_line_end_ahead(src, step(src, c));
    }
}

pub proof fn lemma_block_comment_ahead(src: Seq<char>, c: LexPos, start: LexPos)
    requires
        0 <= c.pos <= src.len(),
    ensures
        placed(c) && placed(start) ==> scanned_placed(block_comment_rest(src, c, start)),
        ahead(src, c, block_comment_rest(src, c, start).at),
    decreases src.len() - c.pos,
{
    if 0 <= c.pos && c.pos + 1 < src.len() {
        if !(src[c.pos] == '*' && src[c.pos + 1] == '/') {
            lemma_block_comment_ahead(src, step(src, c), start);
        }
    }
}

pub proof fn lemma_string_rest_ahead(
    src: Seq<char>,
    c: LexPos,
    content: Seq<char>,
    escape: bool,
    start: LexPos,
)
    requires
        0 <= c.pos <= src.len(),
    ensures
        placed(c) && placed(start) ==> scanned_placed(
            string_rest(src, c, content, escape, start),
        ),
        ahead(src, c, string_rest(src, c, content, escape, start).at),
    decreases src.len() - c.pos,
{
    if inside(src, c) {
        if escape {
            match crate::lexing::escaped(src[c.pos]) {
                Some(x) => {
                    lemma_string_rest_ahead(src, step(src, c), content.push(x), false, start);
                },
                None => {},
            }
        } else if src[c.pos] == '\\' {
            lemma_string_rest_ahead(src, step(src, c), content, true, start);
        } else if src[c.pos] != '"' {
            lemma_string_rest_ahead(src, step(src, c), content.push(src[c.pos]), false, start);
        }
    }
}

pub proof fn lemma_number_end_ahead(src: Seq<char>, c: LexPos, has_point: bool)
    requires
        0 <= c.pos <= src.len(),
    ensures
        placed(c) ==> placed(number_end(src, c, has_point).0),
        ahead(src, c, number_end(src, c, has_point).0),
        inside(src, c) && crate::lexing::is_digit(src[c.pos]) ==> number_end(
            src,
            c,
            has_point,
        ).0.pos > c.pos,
    decreases src.len() - c.pos,
{
    if inside(src, c) && crate::lexing::is_digit(src[c.pos]) {
        lemma_number_end_ahead(src, step(src, c), has_point);
    } else if inside(src, c) && src[c.pos] == '.' && !has_point {
        let c1 = step(src, c);
        if inside(src, c1) && crate::lexing::is_digit(src[c1.pos]) {
            lemma_number_end_ahead(src, c1, true);
        }
    }
}

pub proof fn lemma_word_end_ahead(src: Seq<char>, c: LexPos)
    requires
        0 <= c.pos <= src.len(),
    ensures
        placed(c) ==> placed(word_end(src, c)),
        ahead(src, c, word_end(src, c)),
    decreases src.len() - c.pos,
{
    if inside(src, c) && (crate::lexing::is_alphanumeric(src[c.pos]) || src[c.pos] == '_') {
        lemma_word_end_ahead(src, step(src, c));
    }
}

pub proof fn lemma_skip_whitespace_ahead(src: Seq<char>, c: LexPos)
    requires
        0 <= c.pos <= src.len(),
    ensures
        placed(c) ==> placed(skip_whitespace(src, c)),
        ahead(src, c, skip_whitespace(src, c)),
    decreases src.len() - c.pos,
{
    if inside(src, c) && crate::lexing::is_whitespace(src[c.pos]) {
        lemma_skip_whitespace_ahead(src, step(src, c));
    }
}

/// Each scanner scans ahead.
pub proof fn lemma_scanners_ahead(src: Seq<char>, c: LexPos)
    requires
        0 <= c.pos <= src.len(),
    ensures
        placed(c) ==> scanned_placed(scan_comment(src, c)) && scanned_placed(scan_string(src, c))
            && scanned_placed(scan_number(src, c)) && scanned_placed(scan_operator(src, c))
            && scanned_placed(scan_delimiter(src, c)) && scanned_placed(scan_keyword(src, c))
            && scanned_placed(scan_identifier(src, c)) && scanned_placed(first_token(src, c)),
        scanned_ahead(src, c, scan_comment(src, c)),
        scanned_ahead(src, c, scan_string(src, c)),
        scanned_ahead(src, c, scan_number(src, c)),
        scanned_ahead(src, c, scan_operator(src, c)),
        scanned_ahead(src, c, scan_delimiter(src, c)),
        scanned_ahead(src, c, scan_keyword(src, c)),
        scanned_ahead(src, c, scan_identifier(src, c)),
{
    if inside(src, c) {
        lemma_line_end_ahead(src, step(src, c));
        lemma_block_comment_ahead(src, step(src, step(src, c)), c);
        lemma_string_rest_ahead(src, step(src, c), Seq::empty(), false, c);
        lemma_number_end_ahead(src, c, false);
        lemma_word_end_ahead(src, c);
        lemma_word_end_ahead(src, step(src, c));
        let e = word_end(src, c);
        if keyword(src.subrange(c.pos, e.pos)) is Some {
            lemma_keyword_is_not_empty(src.subrange(c.pos, e.pos));
        }
    }
}

/// The next token is scanned ahead: white space and comments are passed,
/// and a token that is read took a character.
pub proof fn lemma_next_token_ahead(src: Seq<char>, c: LexPos)
    requires
        0 <= c.pos <= src.len(),
    ensures
        placed(c) ==> scanned_placed(next_token(src, c)),
        scanned_ahead(src, c, next_token(src, c)),
    decreases src.len() - c.pos,
{
    lemma_skip_whitespace_ahead(src, c);
    let c1 = skip_whitespace(src, c);
    if inside(src, c1) && inside(src, c) {
        lemma_scanners_ahead(src, c1);
        let comment = scan_comment(src, c1);
        match comment.result {
            Ok(Some(_)) => {
                lemma_next_token_ahead(src, forward(src, comment.at, c.pos + 1));
            },
            _ => {},
        }
    }
}

/// Every token that the tokenizer reads, and the lexical error that it
/// meets, has a line and a column counted from 1.
pub proof fn lemma_tokens_are_placed(src: Seq<char>, c: LexPos, acc: Seq<TokenView>)
    requires
        0 <= c.pos <= src.len(),
        placed(c),
        forall|i: int| 0 <= i < acc.len() ==> (#[trigger] acc[i]).linha >= 1 && acc[i].coluna >= 1,
    ensures
        match all_tokens(src, c, acc) {
            Ok(v) => forall|i: int|
                0 <= i < v.len() ==> (#[trigger] v[i]).linha >= 1 && v[i].coluna >= 1,
            Err(e) => e.linha >= 1 && e.coluna >= 1,
        },
    decreases src.len() - c.pos,
{
    lemma_next_token_ahead(src, c);
    let t = next_token(src, c);
    match t.result {
        Ok(Some(token)) => {
            if inside(src, c) {
                lemma_tokens_are_placed(src, forward(src, t.at, c.pos + 1), acc.push(token));
            }
        },
        _ => {},
    }
}

} // verus!
