//! What the tokenizer reads from a source text: for each kind of token, a
//! function from the characters of the source and a place in it to the
//! token that starts there, or to the lexical error that is met.

use vstd::prelude::*;
use crate::error::LexerErrorView;
use crate::token::{TokenKind, TokenTypeView, TokenView};

verus! {

/// A place in a source text: the index of the next character, and its
/// line and column, both counted from 1.
pub struct LexPos {
    pub pos: int,
    pub line: int,
    pub column: int,
}

/// What a scanner returns: the place after it, and the token it read, if
/// one of its kind starts at the place it was called at.
pub struct Scanned {
    pub at: LexPos,
    pub result: Result<Option<TokenView>, LexerErrorView>,
}

/// Whether `c` is a letter. This is `char::is_alphabetic` of the standard
/// library, which goes by the Unicode property `Alphabetic`.
pub uninterp spec fn is_alphabetic(c: char) -> bool;

/// Whether `c` is a letter or a digit. This is `char::is_alphanumeric` of
/// the standard library.
pub uninterp spec fn is_alphanumeric(c: char) -> bool;

/// Whether `c` is white space. This is `char::is_whitespace` of the
/// standard library, which goes by the Unicode property `White_Space`.
pub uninterp spec fn is_whitespace(c: char) -> bool;

/// Whether `c` is one of the digits `0` to `9`.
pub open spec fn is_digit(c: char) -> bool {
    '0' <= c && c <= '9'
}

/// The start of a text.
pub open spec fn start_of_text() -> LexPos {
    LexPos { pos: 0, line: 1, column: 1 }
}

/// Whether a character stands at `c`.
pub open spec fn inside(src: Seq<char>, c: LexPos) -> bool {
    0 <= c.pos < src.len()
}

/// The place after the character at `c`: a line feed starts a new line.
pub open spec fn step(src: Seq<char>, c: LexPos) -> LexPos {
    if !inside(src, c) {
        c
    } else if src[c.pos] == '\n' {
        LexPos { pos: c.pos + 1, line: c.line + 1, column: 1 }
    } else {
        LexPos { pos: c.pos + 1, line: c.line, column: c.column + 1 }
    }
}

/// The place `c`, no further back than `lo` and no further than the end.
/// It is there so that each definition is seen to end; that scanners only
/// move forward, so that it never changes a place, is proved in
/// `lexing_laws`.
pub open spec fn forward(src: Seq<char>, c: LexPos, lo: int) -> LexPos {
    if c.pos < lo || lo >= src.len() {
        LexPos { pos: lo, ..c }
    } else if c.pos > src.len() {
        LexPos { pos: src.len() as int, ..c }
    } else {
        c
    }
}

/// The token of the given type that was read from `lexema` at `start`.
pub open spec fn token_of(token_type: TokenTypeView, lexema: Seq<char>, start: LexPos)
    -> TokenView {
    TokenView {
        token_type,
        lexema,
        linha: start.line as nat,
        coluna: start.column as nat,
        comprimento: lexema.len(),
    }
}

/// The token that a comment leaves: it only says that a comment was read.
pub open spec fn marker(c: LexPos) -> TokenView {
    TokenView::eof(c.line as nat, c.column as nat)
}

pub open spec fn found(at: LexPos, t: TokenView) -> Scanned {
    Scanned { at, result: Ok(Some(t)) }
}

pub open spec fn nothing(at: LexPos) -> Scanned {
    Scanned { at, result: Ok(None) }
}

pub open spec fn failed(at: LexPos, e: LexerErrorView) -> Scanned {
    Scanned { at, result: Err(e) }
}

/// The end of the line that `c` stands in.
pub open spec fn line_end(src: Seq<char>, c: LexPos) -> LexPos
    decreases src.len() - c.pos,
{
    if inside(src, c) && src[c.pos] != '\n' {
        line_end(src, step(src, c))
    } else {
        c
    }
}

/// The rest of a block comment that began at `start`.
pub open spec fn block_comment_rest(src: Seq<char>, c: LexPos, start: LexPos) -> Scanned
    decreases src.len() - c.pos,
{
    if 0 <= c.pos && c.pos + 1 < src.len() {
        if src[c.pos] == '*' && src[c.pos + 1] == '/' {
            let e = step(src, step(src, c));
            found(e, marker(e))
        } else {
            block_comment_rest(src, step(src, c), start)
        }
    } else {
        failed(c, LexerErrorView::unclosed_comment(start.line as nat, start.column as nat))
    }
}

/// A comment: from `//` to the end of the line, or from `/*` to `*/`.
pub open spec fn scan_comment(src: Seq<char>, c: LexPos) -> Scanned {
    if inside(src, c) && src[c.pos] == '/' && c.pos + 1 < src.len() && src[c.pos + 1] == '/' {
        let e = line_end(src, c);
        found(e, marker(e))
    } else if inside(src, c) && src[c.pos] == '/' && c.pos + 1 < src.len() && src[c.pos + 1]
        == '*' {
        block_comment_rest(src, step(src, step(src, c)), c)
    } else {
        nothing(c)
    }
}

/// The character that stands after a backslash for `c`.
pub open spec fn escaped(c: char) -> Option<char> {
    if c == 'n' {
        Some('\n')
    } else if c == 't' {
        Some('\t')
    } else if c == 'r' {
        Some('\r')
    } else if c == '"' {
        Some('"')
    } else if c == '\\' {
        Some('\\')
    } else {
        None
    }
}

/// The rest of a string literal that began at `start`, after the content
/// `content`; `escape` says that a backslash was just read.
pub open spec fn string_rest(
    src: Seq<char>,
    c: LexPos,
    content: Seq<char>,
    escape: bool,
    start: LexPos,
) -> Scanned
    decreases src.len() - c.pos,
{
    if !inside(src, c) {
        failed(c, LexerErrorView::unterminated_string(start.line as nat, start.column as nat))
    } else if escape {
        match escaped(src[c.pos]) {
            Some(x) => string_rest(src, step(src, c), content.push(x), false, start),
            None => failed(
                c,
                LexerErrorView::invalid_escape(src[c.pos], c.line as nat, c.column as nat),
            ),
        }
    } else if src[c.pos] == '\\' {
        string_rest(src, step(src, c), content, true, start)
    } else if src[c.pos] == '"' {
        found(
            step(src, c),
            token_of(
                TokenTypeView { kind: TokenKind::StringLiteral, text: content, number: 0 },
                "\""@ + content + "\""@,
                start,
            ),
        )
    } else {
        string_rest(src, step(src, c), content.push(src[c.pos]), false, start)
    }
}

/// A string literal between double quotes.
pub open spec fn scan_string(src: Seq<char>, c: LexPos) -> Scanned {
    if inside(src, c) && src[c.pos] == '"' {
        string_rest(src, step(src, c), Seq::empty(), false, c)
    } else {
        nothing(c)
    }
}

/// The end of the number that `c` stands in, whether it has a decimal
/// point, and whether it is well formed: a point must be followed by a
/// digit.
pub open spec fn number_end(src: Seq<char>, c: LexPos, has_point: bool) -> (LexPos, bool, bool)
    decreases src.len() - c.pos,
{
    if inside(src, c) && is_digit(src[c.pos]) {
        number_end(src, step(src, c), has_point)
    } else if inside(src, c) && src[c.pos] == '.' && !has_point {
        let c1 = step(src, c);
        if inside(src, c1) && is_digit(src[c1.pos]) {
            number_end(src, c1, true)
        } else {
            (c1, true, false)
        }
    } else {
        (c, has_point, true)
    }
}

/// The number that a sequence of digits stands for in base ten.
pub open spec fn digits_value(s: Seq<char>) -> nat
    decreases s.len(),
{
    if s.len() == 0 {
        0
    } else {
        digits_value(s.drop_last()) * 10 + ((s.last() as u32 - '0' as u32) as nat)
    }
}

/// A number: digits, and at most one decimal point between digits. An
/// integer literal must fit in 64 bits; a decimal literal keeps its digits.
pub open spec fn scan_number(src: Seq<char>, c: LexPos) -> Scanned {
    if inside(src, c) && is_digit(src[c.pos]) {
        let (e, has_point, well_formed) = number_end(src, c, false);
        let lexema = src.subrange(c.pos, e.pos);
        if !well_formed {
            failed(e, LexerErrorView::invalid_number(lexema, c.line as nat, c.column as nat))
        } else if has_point {
            found(
                e,
                token_of(
                    TokenTypeView { kind: TokenKind::DecimalLiteral, text: lexema, number: 0 },
                    lexema,
                    c,
                ),
            )
        } else if digits_value(lexema) > i64::MAX {
            failed(e, LexerErrorView::invalid_number(lexema, c.line as nat, c.column as nat))
        } else {
            found(
                e,
                token_of(
                    TokenTypeView {
                        kind: TokenKind::InteiroLiteral,
                        text: Seq::empty(),
                        number: digits_value(lexema) as i64,
                    },
                    lexema,
                    c,
                ),
            )
        }
    } else {
        nothing(c)
    }
}

/// The operator that two characters stand for together.
pub open spec fn double_operator(a: char, b: char) -> Option<TokenKind> {
    if a == '=' && b == '=' {
        Some(TokenKind::Igual)
    } else if a == '!' && b == '=' {
        Some(TokenKind::Diferente)
    } else if a == '<' && b == '=' {
        Some(TokenKind::MenorIgual)
    } else if a == '>' && b == '=' {
        Some(TokenKind::MaiorIgual)
    } else if a == '&' && b == '&' {
        Some(TokenKind::ELogico)
    } else if a == '|' && b == '|' {
        Some(TokenKind::OuLogico)
    } else {
        None
    }
}

/// The operator that one character stands for.
pub open spec fn single_operator(a: char) -> Option<TokenKind> {
    if a == '+' {
        Some(TokenKind::Mais)
    } else if a == '-' {
        Some(TokenKind::Menos)
    } else if a == '*' {
        Some(TokenKind::Multiplicacao)
    } else if a == '/' {
        Some(TokenKind::Divisao)
    } else if a == '%' {
        Some(TokenKind::Modulo)
    } else if a == '=' {
        Some(TokenKind::Atribuicao)
    } else if a == '!' {
        Some(TokenKind::NaoLogico)
    } else if a == '<' {
        Some(TokenKind::Menor)
    } else if a == '>' {
        Some(TokenKind::Maior)
    } else {
        None
    }
}

/// An operator; one of two characters wins over one of one.
pub open spec fn scan_operator(src: Seq<char>, c: LexPos) -> Scanned {
    if !inside(src, c) {
        nothing(c)
    } else if c.pos + 1 < src.len() && double_operator(src[c.pos], src[c.pos + 1]) is Some {
        found(
            step(src, step(src, c)),
            token_of(
                TokenTypeView::plain(double_operator(src[c.pos], src[c.pos + 1])->0),
                seq![src[c.pos], src[c.pos + 1]],
                c,
            ),
        )
    } else if single_operator(src[c.pos]) is Some {
        found(
            step(src, c),
            token_of(TokenTypeView::plain(single_operator(src[c.pos])->0), seq![src[c.pos]], c),
        )
    } else {
        nothing(c)
    }
}

/// The delimiter that one character stands for.
pub open spec fn delimiter(a: char) -> Option<TokenKind> {
    if a == '(' {
        Some(TokenKind::ParenteseEsquerdo)
    } else if a == ')' {
        Some(TokenKind::ParenteseDireito)
    } else if a == '{' {
        Some(TokenKind::ChaveEsquerda)
    } else if a == '}' {
        Some(TokenKind::ChaveDireita)
    } else if a == '[' {
        Some(TokenKind::ColcheteEsquerdo)
    } else if a == ']' {
        Some(TokenKind::ColcheteDireito)
    } else if a == ',' {
        Some(TokenKind::Virgula)
    } else if a == ';' {
        Some(TokenKind::PontoEVirgula)
    } else if a == ':' {
        Some(TokenKind::DoisPontos)
    } else if a == '.' {
        Some(TokenKind::Ponto)
    } else {
        None
    }
}

/// A delimiter.
pub open spec fn scan_delimiter(src: Seq<char>, c: LexPos) -> Scanned {
    if inside(src, c) && delimiter(src[c.pos]) is Some {
        found(step(src, c), token_of(TokenTypeView::plain(delimiter(src[c.pos])->0), seq![src[c.pos]], c))
    } else {
        nothing(c)
    }
}

/// The keyword that a word is, if it is one.
pub open spec fn keyword(word: Seq<char>) -> Option<TokenKind> {
    if word == "se"@ {
        Some(TokenKind::Se)
    } else if word == "entao"@ {
        Some(TokenKind::Entao)
    } else if word == "senao"@ {
        Some(TokenKind::Senao)
    } else if word == "fimse"@ {
        Some(TokenKind::FimSe)
    } else if word == "enquanto"@ {
        Some(TokenKind::Enquanto)
    } else if word == "faca"@ {
        Some(TokenKind::Faca)
    } else if word == "fimenquanto"@ {
        Some(TokenKind::FimEnquanto)
    } else if word == "para"@ {
        Some(TokenKind::Para)
    } else if word == "de"@ {
        Some(TokenKind::De)
    } else if word == "ate"@ {
        Some(TokenKind::Ate)
    } else if word == "fimpara"@ {
        Some(TokenKind::FimPara)
    } else if word == "funcao"@ {
        Some(TokenKind::Funcao)
    } else if word == "retorne"@ {
        Some(TokenKind::Retorne)
    } else if word == "fimfuncao"@ {
        Some(TokenKind::FimFuncao)
    } else if word == "inteiro"@ {
        Some(TokenKind::Inteiro)
    } else if word == "decimal"@ {
        Some(TokenKind::Decimal)
    } else if word == "texto"@ {
        Some(TokenKind::Texto)
    } else if word == "logico"@ {
        Some(TokenKind::Logico)
    } else if word == "verdadeiro"@ {
        Some(TokenKind::Verdadeiro)
    } else if word == "falso"@ {
        Some(TokenKind::Falso)
    } else if word == "escreva"@ {
        Some(TokenKind::Escreva)
    } else if word == "leia"@ {
        Some(TokenKind::Leia)
    } else if word == "principal"@ {
        Some(TokenKind::Principal)
    } else {
        None
    }
}

/// The end of the word that `c` stands in: letters, digits and `_`.
pub open spec fn word_end(src: Seq<char>, c: LexPos) -> LexPos
    decreases src.len() - c.pos,
{
    if inside(src, c) && (is_alphanumeric(src[c.pos]) || src[c.pos] == '_') {
        word_end(src, step(src, c))
    } else {
        c
    }
}

/// A keyword: a word that starts with a letter and is one of the keywords.
pub open spec fn scan_keyword(src: Seq<char>, c: LexPos) -> Scanned {
    if inside(src, c) && is_alphabetic(src[c.pos]) {
        let e = word_end(src, c);
        let lexema = src.subrange(c.pos, e.pos);
        match keyword(lexema) {
            Some(k) => found(e, token_of(TokenTypeView::plain(k), lexema, c)),
            None => nothing(c),
        }
    } else {
        nothing(c)
    }
}

/// An identifier: a letter or `_`, then letters, digits and `_`.
pub open spec fn scan_identifier(src: Seq<char>, c: LexPos) -> Scanned {
    if inside(src, c) && (is_alphabetic(src[c.pos]) || src[c.pos] == '_') {
        let e = word_end(src, step(src, c));
        let lexema = src.subrange(c.pos, e.pos);
        found(
            e,
            token_of(
                TokenTypeView { kind: TokenKind::Identificador, text: lexema, number: 0 },
                lexema,
                c,
            ),
        )
    } else {
        nothing(c)
    }
}

/// The first place from `c` on that holds no white space.
pub open spec fn skip_whitespace(src: Seq<char>, c: LexPos) -> LexPos
    decreases src.len() - c.pos,
{
    if inside(src, c) && is_whitespace(src[c.pos]) {
        skip_whitespace(src, step(src, c))
    } else {
        c
    }
}

pub open spec fn invalid_char_suggestion() -> Seq<char> {
    "Tente usar apenas caracteres válidos da linguagem Symplia"@
}

/// The error for a character with which no token starts.
pub open spec fn invalid_char_error(ch: char, c: LexPos) -> LexerErrorView {
    LexerErrorView {
        recovery_suggestion: invalid_char_suggestion(),
        ..LexerErrorView::invalid_char(ch, c.line as nat, c.column as nat)
    }
}

/// The token that starts at `c`, where a character stands that starts no
/// comment: the scanners are tried in a fixed order, and the first that
/// reads a token or meets an error decides.
pub open spec fn first_token(src: Seq<char>, c: LexPos) -> Scanned {
    let s = scan_string(src, c);
    if s.result != Ok::<Option<TokenView>, LexerErrorView>(None) {
        s
    } else {
        let n = scan_number(src, c);
        if n.result != Ok::<Option<TokenView>, LexerErrorView>(None) {
            n
        } else {
            let o = scan_operator(src, c);
            if o.result != Ok::<Option<TokenView>, LexerErrorView>(None) {
                o
            } else {
                let d = scan_delimiter(src, c);
                if d.result != Ok::<Option<TokenView>, LexerErrorView>(None) {
                    d
                } else {
                    let k = scan_keyword(src, c);
                    if k.result != Ok::<Option<TokenView>, LexerErrorView>(None) {
                        k
                    } else {
                        let i = scan_identifier(src, c);
                        if i.result != Ok::<Option<TokenView>, LexerErrorView>(None) {
                            i
                        } else {
                            failed(step(src, c), invalid_char_error(src[c.pos], c))
                        }
                    }
                }
            }
        }
    }
}

/// The next token from `c` on, after white space and comments; none at the
/// end of the text.
pub open spec fn next_token(src: Seq<char>, c: LexPos) -> Scanned
    decreases src.len() - c.pos,
{
    let c1 = skip_whitespace(src, c);
    if !inside(src, c1) || !inside(src, c) {
        nothing(c1)
    } else {
        let comment = scan_comment(src, c1);
        match comment.result {
            Err(e) => comment,
            Ok(Some(_)) => next_token(src, forward(src, comment.at, c.pos + 1)),
            Ok(None) => first_token(src, c1),
        }
    }
}

/// Every token from `c` on, after the tokens `acc`, closed by the token
/// that marks the end of the input; or the first lexical error.
pub open spec fn all_tokens(src: Seq<char>, c: LexPos, acc: Seq<TokenView>) -> Result<
    Seq<TokenView>,
    LexerErrorView,
>
    decreases src.len() - c.pos,
{
    let t = next_token(src, c);
    match t.result {
        Err(e) => Err(e),
        Ok(None) => Ok(acc.push(marker(t.at))),
        Ok(Some(token)) => if inside(src, c) {
            all_tokens(src, forward(src, t.at, c.pos + 1), acc.push(token))
        } else {
            Ok(acc.push(token))
        },
    }
}

} // verus!
