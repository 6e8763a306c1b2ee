//! The scanners of the tokenizer, one for each kind of token. Each is
//! called at a character of the source and reads the token of its kind
//! that starts there, if there is one.

use vstd::prelude::*;
use vstd::string::*;
use crate::error::{LexerError, LexerErrorView};
use crate::lexing::{
    block_comment_rest, delimiter, digits_value, double_operator, escaped, is_alphabetic,
    is_alphanumeric, is_digit, is_whitespace, keyword, line_end, number_end, scan_comment,
    scan_delimiter, scan_identifier, scan_keyword, scan_number, scan_operator, scan_string,
    single_operator, step, string_rest, word_end, LexPos, Scanned,
};
use crate::text::{join3, push_char};
use crate::token::{Token, TokenKind, TokenType, TokenTypeView, TokenView};

verus! {

/// Whether `c` is a letter. This is `char::is_alphabetic` of the standard
/// library; nothing is claimed of it but that it depends on `c` alone.
#[verifier::external_body]
pub(crate) fn char_is_alphabetic(c: char) -> (r: bool)
    ensures
        r == is_alphabetic(c),
{
    c.is_alphabetic()
}

/// Whether `c` is a letter or a digit. This is `char::is_alphanumeric` of
/// the standard library; nothing is claimed of it but that it depends on
/// `c` alone.
#[verifier::external_body]
pub(crate) fn char_is_alphanumeric(c: char) -> (r: bool)
    ensures
        r == is_alphanumeric(c),
{
    c.is_alphanumeric()
}

/// Whether `c` is white space. This is `char::is_whitespace` of the
/// standard library; nothing is claimed of it but that it depends on `c`
/// alone.
#[verifier::external_body]
pub(crate) fn char_is_whitespace(c: char) -> (r: bool)
    ensures
        r == is_whitespace(c),
{
    c.is_whitespace()
}

/// Whether `c` is one of the digits `0` to `9`.
pub fn char_is_digit(c: char) -> (r: bool)
    ensures
        r == is_digit(c),
{
    '0' <= c && c <= '9'
}

/// The place that an index, a line and a column stand for.
pub open spec fn place(pos: usize, line: usize, column: usize) -> LexPos {
    LexPos { pos: pos as int, line: line as int, column: column as int }
}

/// The place is in the text or at its end, and the lines and columns of
/// the rest of the text can be counted.
pub open spec fn room(src: Seq<char>, c: LexPos) -> bool {
    &&& 0 <= c.pos <= src.len()
    &&& 0 <= c.line
    &&& 0 <= c.column
    &&& c.line + (src.len() - c.pos) <= usize::MAX
    &&& c.column + (src.len() - c.pos) <= usize::MAX
}

/// Whether a scanner that went from `before` to `after` and returned `r`
/// did what `expected` says; a scanner that reads a token moves forward.
pub open spec fn scanned_as(
    src: Seq<char>,
    before: LexPos,
    after: LexPos,
    r: Result<Option<Token>, LexerError>,
    expected: Scanned,
) -> bool {
    &&& after == expected.at
    &&& room(src, after)
    &&& after.pos >= before.pos
    &&& match r {
        Ok(Some(t)) => expected.result == Ok::<Option<TokenView>, LexerErrorView>(Some(t@))
            && after.pos > before.pos,
        Ok(None) => expected.result == Ok::<Option<TokenView>, LexerErrorView>(None),
        Err(e) => expected.result == Err::<Option<TokenView>, LexerErrorView>(e@),
    }
}

/// A scanner that reads nothing leaves the place as it was.
pub open spec fn stays(before: LexPos, after: LexPos, r: Result<Option<Token>, LexerError>) -> bool {
    r is Ok && r->Ok_0 is None ==> after == before
}

/// The character after the one at `current_pos`.
pub fn peek_next(source: &[char], current_pos: usize) -> (r: Option<char>)
    ensures
        r == (if current_pos + 1 < source@.len() {
            Some(source@[current_pos + 1])
        } else {
            None
        }),
{
    if current_pos < source.len() && current_pos + 1 < source.len() {
        Some(source[current_pos + 1])
    } else {
        None
    }
}

/// Moves past one character; a line feed starts a new line.
pub fn advance(
    source: &[char],
    current_pos: &mut usize,
    current_line: &mut usize,
    current_column: &mut usize,
)
    requires
        room(source@, place(*old(current_pos), *old(current_line), *old(current_column))),
    ensures
        place(*final(current_pos), *final(current_line), *final(current_column)) == step(
            source@,
            place(*old(current_pos), *old(current_line), *old(current_column)),
        ),
        room(source@, place(*final(current_pos), *final(current_line), *final(current_column))),
{
    if *current_pos < source.len() {
        if source[*current_pos] == '\n' {
            *current_line += 1;
            *current_column = 1;
        } else {
            *current_column += 1;
        }
        *current_pos += 1;
    }
}

/// The characters of `source` from `from` up to `to`, as a string.
pub fn collect_chars(source: &[char], from: usize, to: usize) -> (r: String)
    requires
        from <= to <= source@.len(),
    ensures
        r@ == source@.subrange(from as int, to as int),
{
    let mut s = String::new();
    let mut i = from;
    while i < to
        invariant
            from <= i <= to <= source@.len(),
            s@ == source@.subrange(from as int, i as int),
        decreases to - i,
    {
        push_char(&mut s, source[i]);
        i += 1;
        assert(s@ =~= source@.subrange(from as int, i as int));
    }
    s
}

/// A comment: from `//` to the end of the line, or from `/*` to `*/`.
#[verifier::loop_isolation(false)]
pub fn try_consume_comment(
    source: &[char],
    current_pos: &mut usize,
    current_line: &mut usize,
    current_column: &mut usize,
) -> (r: Result<Option<Token>, LexerError>)
    requires
        *old(current_pos) < source@.len(),
        room(source@, place(*old(current_pos), *old(current_line), *old(current_column))),
    ensures
        scanned_as(
            source@,
            place(*old(current_pos), *old(current_line), *old(current_column)),
            place(*final(current_pos), *final(current_line), *final(current_column)),
            r,
            scan_comment(
                source@,
                place(*old(current_pos), *old(current_line), *old(current_column)),
            ),
        ),
        stays(
            place(*old(current_pos), *old(current_line), *old(current_column)),
            place(*final(current_pos), *final(current_line), *final(current_column)),
            r,
        ),
{
    let ghost src = source@;
    let ghost start = place(*current_pos, *current_line, *current_column);
    if source[*current_pos] == '/' && peek_next(source, *current_pos) == Some('/') {
        while *current_pos < source.len() && source[*current_pos] != '\n'
            invariant
                room(src, place(*current_pos, *current_line, *current_column)),
                *current_pos >= start.pos,
                line_end(src, place(*current_pos, *current_line, *current_column)) == line_end(
                    src,
                    start,
                ),
            decreases source@.len() - *current_pos,
        {
            advance(source, current_pos, current_line, current_column);
        }
        assert(*current_pos > start.pos);
        Ok(Some(Token::eof(*current_line, *current_column)))
    } else if source[*current_pos] == '/' && peek_next(source, *current_pos) == Some('*') {
        let start_line = *current_line;
        let start_column = *current_column;
        advance(source, current_pos, current_line, current_column);
        advance(source, current_pos, current_line, current_column);
        let ghost goal = block_comment_rest(
            src,
            place(*current_pos, *current_line, *current_column),
            start,
        );
        while *current_pos < source.len() && *current_pos + 1 < source.len()
            invariant
                room(src, place(*current_pos, *current_line, *current_column)),
                *current_pos > start.pos,
                block_comment_rest(
                    src,
                    place(*current_pos, *current_line, *current_column),
                    start,
                ) == goal,
            decreases source@.len() - *current_pos,
        {
            if source[*current_pos] == '*' && peek_next(source, *current_pos) == Some('/') {
                advance(source, current_pos, current_line, current_column);
                advance(source, current_pos, current_line, current_column);
                return Ok(Some(Token::eof(*current_line, *current_column)));
            }
            advance(source, current_pos, current_line, current_column);
        }
        Err(LexerError::unclosed_comment(start_line, start_column))
    } else {
        Ok(None)
    }
}

/// The character that stands after a backslash for `c`.
pub fn escape_of(c: char) -> (r: Option<char>)
    ensures
        r == escaped(c),
{
    if c == 'n' {
        Some('\n')
    } else if c == 't' {
        Some('\t')
    } else if c == 'r' {
        Some('\r')
    } else if c == '"' {
        Some('"')
    } else if c == '\\' {
        Some('\\')
    } else {
        None
    }
}

/// A string literal between double quotes.
#[verifier::loop_isolation(false)]
pub fn try_consume_string(
    source: &[char],
    current_pos: &mut usize,
    current_line: &mut usize,
    current_column: &mut usize,
) -> (r: Result<Option<Token>, LexerError>)
    requires
        *old(current_pos) < source@.len(),
        room(source@, place(*old(current_pos), *old(current_line), *old(current_column))),
    ensures
        scanned_as(
            source@,
            place(*old(current_pos), *old(current_line), *old(current_column)),
            place(*final(current_pos), *final(current_line), *final(current_column)),
            r,
            scan_string(source@, place(*old(current_pos), *old(current_line), *old(current_column))),
        ),
        stays(
            place(*old(current_pos), *old(current_line), *old(current_column)),
            place(*final(current_pos), *final(current_line), *final(current_column)),
            r,
        ),
{
    let ghost src = source@;
    let ghost start = place(*current_pos, *current_line, *current_column);
    if source[*current_pos] != '"' {
        return Ok(None);
    }
    let start_line = *current_line;
    let start_column = *current_column;
    let mut string_content = String::new();
    let mut escape = false;
    advance(source, current_pos, current_line, current_column);
    let ghost goal = string_rest(
        src,
        place(*current_pos, *current_line, *current_column),
        Seq::empty(),
        false,
        start,
    );
    while *current_pos < source.len()
        invariant
            room(src, place(*current_pos, *current_line, *current_column)),
            *current_pos > start.pos,
            string_rest(
                src,
                place(*current_pos, *current_line, *current_column),
                string_content@,
                escape,
                start,
            ) == goal,
        decreases source@.len() - *current_pos,
    {
        let ch = source[*current_pos];
        if escape {
            match escape_of(ch) {
                Some(x) => {
                    push_char(&mut string_content, x);
                },
                None => {
                    return Err(LexerError::invalid_escape(ch, *current_line, *current_column));
                },
            }
            escape = false;
            advance(source, current_pos, current_line, current_column);
        } else if ch == '\\' {
            escape = true;
            advance(source, current_pos, current_line, current_column);
        } else if ch == '"' {
            advance(source, current_pos, current_line, current_column);
            let lexema = join3("\"", string_content.as_str(), "\"");
            return Ok(
                Some(
                    Token::new(
                        TokenType::StringLiteral(string_content),
                        lexema,
                        start_line,
                        start_column,
                    ),
                ),
            );
        } else {
            push_char(&mut string_content, ch);
            advance(source, current_pos, current_line, current_column);
        }
    }
    Err(LexerError::unterminated_string(start_line, start_column))
}

/// The value of a longer run of digits is no smaller.
proof fn lemma_digits_grow(src: Seq<char>, from: int, i: int, j: int)
    requires
        0 <= from <= i <= j <= src.len(),
        forall|k: int| from <= k < j ==> is_digit(src[k]),
    ensures
        digits_value(src.subrange(from, i)) <= digits_value(src.subrange(from, j)),
    decreases j - i,
{
    if i < j {
        lemma_digits_grow(src, from, i, j - 1);
        assert(src.subrange(from, j).drop_last() =~= src.subrange(from, j - 1));
    }
}

/// The number that the digits of `source` from `from` up to `to` stand
/// for, if it fits in 64 bits.
pub fn parse_digits(source: &[char], from: usize, to: usize) -> (r: Option<i64>)
    requires
        from <= to <= source@.len(),
        forall|k: int| from <= k < to ==> is_digit(source@[k]),
    ensures
        match r {
            Some(v) => v >= 0 && v as nat == digits_value(source@.subrange(from as int, to as int)),
            None => digits_value(source@.subrange(from as int, to as int)) > i64::MAX,
        },
{
    let mut acc: i64 = 0;
    let mut i = from;
    assert(source@.subrange(from as int, from as int) =~= Seq::empty());
    while i < to
        invariant
            from <= i <= to <= source@.len(),
            forall|k: int| from <= k < to ==> is_digit(source@[k]),
            acc >= 0,
            acc as nat == digits_value(source@.subrange(from as int, i as int)),
        decreases to - i,
    {
        let c = source[i];
        let d: i64 = (c as u32 - '0' as u32) as i64;
        proof {
            assert(source@.subrange(from as int, i + 1).drop_last() =~= source@.subrange(
                from as int,
                i as int,
            ));
            assert(source@.subrange(from as int, i + 1).last() == c);
        }
        if acc > (i64::MAX - d) / 10 {
            proof {
                lemma_digits_grow(source@, from as int, i + 1, to as int);
            }
            return None;
        }
        acc = acc * 10 + d;
        i += 1;
    }
    Some(acc)
}

/// A number: digits, and at most one decimal point between digits.
#[verifier::loop_isolation(false)]
pub fn try_consume_number(
    source: &[char],
    current_pos: &mut usize,
    current_line: &mut usize,
    current_column: &mut usize,
) -> (r: Result<Option<Token>, LexerError>)
    requires
        *old(current_pos) < source@.len(),
        room(source@, place(*old(current_pos), *old(current_line), *old(current_column))),
    ensures
        scanned_as(
            source@,
            place(*old(current_pos), *old(current_line), *old(current_column)),
            place(*final(current_pos), *final(current_line), *final(current_column)),
            r,
            scan_number(source@, place(*old(current_pos), *old(current_line), *old(current_column))),
        ),
        stays(
            place(*old(current_pos), *old(current_line), *old(current_column)),
            place(*final(current_pos), *final(current_line), *final(current_column)),
            r,
        ),
{
    let ghost src = source@;
    let ghost start = place(*current_pos, *current_line, *current_column);
    if !char_is_digit(source[*current_pos]) {
        return Ok(None);
    }
    let start_pos = *current_pos;
    let start_line = *current_line;
    let start_column = *current_column;
    let mut has_decimal_point = false;
    let ghost goal = number_end(src, start, false);
    while *current_pos < source.len()
        invariant
            room(src, place(*current_pos, *current_line, *current_column)),
            *current_pos >= start.pos,
            number_end(src, place(*current_pos, *current_line, *current_column), has_decimal_point)
                == goal,
            !has_decimal_point ==> forall|k: int| start.pos <= k < *current_pos ==> is_digit(src[k]),
        decreases source@.len() - *current_pos,
    {
        let ch = source[*current_pos];
        if char_is_digit(ch) {
            advance(source, current_pos, current_line, current_column);
        } else if ch == '.' && !has_decimal_point {
            has_decimal_point = true;
            advance(source, current_pos, current_line, current_column);
            if *current_pos >= source.len() || !char_is_digit(source[*current_pos]) {
                let lexema = collect_chars(source, start_pos, *current_pos);
                return Err(LexerError::invalid_number(lexema.as_str(), start_line, start_column));
            }
        } else {
            break ;
        }
    }
    assert(*current_pos > start.pos);
    let lexema = collect_chars(source, start_pos, *current_pos);
    if has_decimal_point {
        Ok(
            Some(
                Token::new(
                    TokenType::DecimalLiteral(lexema.clone()),
                    lexema,
                    start_line,
                    start_column,
                ),
            ),
        )
    } else {
        match parse_digits(source, start_pos, *current_pos) {
            Some(v) => Ok(
                Some(Token::new(TokenType::InteiroLiteral(v), lexema, start_line, start_column)),
            ),
            None => Err(LexerError::invalid_number(lexema.as_str(), start_line, start_column)),
        }
    }
}

/// The operator that two characters stand for together.
pub fn match_operator_duplo(a: char, b: char) -> (r: Option<TokenKind>)
    ensures
        r == double_operator(a, b),
{
    if a == '=' && b == '=' {
        Some(TokenKind::Igual)
    } else if a == '!' && b == '=' {
        Some(TokenKind::Diferente)
    } else if a == '<' && b == '=' {
        Some(TokenKind::MenorIgual)
    } else if a == '>' && b == '=' {
        Some(TokenKind::MaiorIgual)
    } else if a == '&' && b == '&' {
        Some(TokenKind::ELogico)
    } else if a == '|' && b == '|' {
        Some(TokenKind::OuLogico)
    } else {
        None
    }
}

/// The operator that one character stands for.
pub fn match_operator_simples(a: char) -> (r: Option<TokenKind>)
    ensures
        r == single_operator(a),
{
    if a == '+' {
        Some(TokenKind::Mais)
    } else if a == '-' {
        Some(TokenKind::Menos)
    } else if a == '*' {
        Some(TokenKind::Multiplicacao)
    } else if a == '/' {
        Some(TokenKind::Divisao)
    } else if a == '%' {
        Some(TokenKind::Modulo)
    } else if a == '=' {
        Some(TokenKind::Atribuicao)
    } else if a == '!' {
        Some(TokenKind::NaoLogico)
    } else if a == '<' {
        Some(TokenKind::Menor)
    } else if a == '>' {
        Some(TokenKind::Maior)
    } else {
        None
    }
}

/// An operator; one of two characters wins over one of one.
pub fn try_consume_operator(
    source: &[char],
    current_pos: &mut usize,
    current_line: &mut usize,
    current_column: &mut usize,
) -> (r: Result<Option<Token>, LexerError>)
    requires
        *old(current_pos) < source@.len(),
        room(source@, place(*old(current_pos), *old(current_line), *old(current_column))),
    ensures
        scanned_as(
            source@,
            place(*old(current_pos), *old(current_line), *old(current_column)),
            place(*final(current_pos), *final(current_line), *final(current_column)),
            r,
            scan_operator(
                source@,
                place(*old(current_pos), *old(current_line), *old(current_column)),
            ),
        ),
        stays(
            place(*old(current_pos), *old(current_line), *old(current_column)),
            place(*final(current_pos), *final(current_line), *final(current_column)),
            r,
        ),
{
    let char_atual = source[*current_pos];
    if *current_pos + 1 < source.len() {
        let seguinte = source[*current_pos + 1];
        if let Some(kind) = match_operator_duplo(char_atual, seguinte) {
            let mut lexema = String::new();
            push_char(&mut lexema, char_atual);
            push_char(&mut lexema, seguinte);
            assert(lexema@ =~= seq![char_atual, seguinte]);
            let token = Token::new(TokenType::plain(kind), lexema, *current_line, *current_column);
            advance(source, current_pos, current_line, current_column);
            advance(source, current_pos, current_line, current_column);
            return Ok(Some(token));
        }
    }
    if let Some(kind) = match_operator_simples(char_atual) {
        let mut lexema = String::new();
        push_char(&mut lexema, char_atual);
        assert(lexema@ =~= seq![char_atual]);
        let token = Token::new(TokenType::plain(kind), lexema, *current_line, *current_column);
        advance(source, current_pos, current_line, current_column);
        return Ok(Some(token));
    }
    Ok(None)
}

/// The delimiter that one character stands for.
pub fn match_delimiter(a: char) -> (r: Option<TokenKind>)
    ensures
        r == delimiter(a),
{
    if a == '(' {
        Some(TokenKind::ParenteseEsquerdo)
    } else if a == ')' {
        Some(TokenKind::ParenteseDireito)
    } else if a == '{' {
        Some(TokenKind::ChaveEsquerda)
    } else if a == '}' {
        Some(TokenKind::ChaveDireita)
    } else if a == '[' {
        Some(TokenKind::ColcheteEsquerdo)
    } else if a == ']' {
        Some(TokenKind::ColcheteDireito)
    } else if a == ',' {
        Some(TokenKind::Virgula)
    } else if a == ';' {
        Some(TokenKind::PontoEVirgula)
    } else if a == ':' {
        Some(TokenKind::DoisPontos)
    } else if a == '.' {
        Some(TokenKind::Ponto)
    } else {
        None
    }
}

/// A delimiter.
pub fn try_consume_delimiter(
    source: &[char],
    current_pos: &mut usize,
    current_line: &mut usize,
    current_column: &mut usize,
) -> (r: Result<Option<Token>, LexerError>)
    requires
        *old(current_pos) < source@.len(),
        room(source@, place(*old(current_pos), *old(current_line), *old(current_column))),
    ensures
        scanned_as(
            source@,
            place(*old(current_pos), *old(current_line), *old(current_column)),
            place(*final(current_pos), *final(current_line), *final(current_column)),
            r,
            scan_delimiter(
                source@,
                place(*old(current_pos), *old(current_line), *old(current_column)),
            ),
        ),
        stays(
            place(*old(current_pos), *old(current_line), *old(current_column)),
            place(*final(current_pos), *final(current_line), *final(current_column)),
            r,
        ),
{
    let char_atual = source[*current_pos];
    if let Some(kind) = match_delimiter(char_atual) {
        let mut lexema = String::new();
        push_char(&mut lexema, char_atual);
        assert(lexema@ =~= seq![char_atual]);
        let token = Token::new(TokenType::plain(kind), lexema, *current_line, *current_column);
        advance(source, current_pos, current_line, current_column);
        Ok(Some(token))
    } else {
        Ok(None)
    }
}

/// The keyword that a word is, if it is one.
pub fn classify_keyword(lexema: &str) -> (r: Option<TokenType>)
    ensures
        match r {
            Some(t) => keyword(lexema@) is Some && t@ == TokenTypeView::plain(keyword(lexema@)->0),
            None => keyword(lexema@) is None,
        },
{
    let word = String::from_str(lexema);
    if word == String::from_str("se") {
        Some(TokenType::Se)
    } else if word == String::from_str("entao") {
        Some(TokenType::Entao)
    } else if word == String::from_str("senao") {
        Some(TokenType::Senao)
    } else if word == String::from_str("fimse") {
        Some(TokenType::FimSe)
    } else if word == String::from_str("enquanto") {
        Some(TokenType::Enquanto)
    } else if word == String::from_str("faca") {
        Some(TokenType::Faca)
    } else if word == String::from_str("fimenquanto") {
        Some(TokenType::FimEnquanto)
    } else if word == String::from_str("para") {
        Some(TokenType::Para)
    } else if word == String::from_str("de") {
        Some(TokenType::De)
    } else if word == String::from_str("ate") {
        Some(TokenType::Ate)
    } else if word == String::from_str("fimpara") {
        Some(TokenType::FimPara)
    } else if word == String::from_str("funcao") {
        Some(TokenType::Funcao)
    } else if word == String::from_str("retorne") {
        Some(TokenType::Retorne)
    } else if word == String::from_str("fimfuncao") {
        Some(TokenType::FimFuncao)
    } else if word == String::from_str("inteiro") {
        Some(TokenType::Inteiro)
    } else if word == String::from_str("decimal") {
        Some(TokenType::Decimal)
    } else if word == String::from_str("texto") {
        Some(TokenType::Texto)
    } else if word == String::from_str("logico") {
        Some(TokenType::Logico)
    } else if word == String::from_str("verdadeiro") {
        Some(TokenType::Verdadeiro)
    } else if word == String::from_str("falso") {
        Some(TokenType::Falso)
    } else if word == String::from_str("escreva") {
        Some(TokenType::Escreva)
    } else if word == String::from_str("leia") {
        Some(TokenType::Leia)
    } else if word == String::from_str("principal") {
        Some(TokenType::Principal)
    } else {
        None
    }
}

/// Moves to the end of the word that the place stands in.
fn consume_word(
    source: &[char],
    current_pos: &mut usize,
    current_line: &mut usize,
    current_column: &mut usize,
)
    requires
        room(source@, place(*old(current_pos), *old(current_line), *old(current_column))),
    ensures
        place(*final(current_pos), *final(current_line), *final(current_column)) == word_end(
            source@,
            place(*old(current_pos), *old(current_line), *old(current_column)),
        ),
        room(source@, place(*final(current_pos), *final(current_line), *final(current_column))),
        *final(current_pos) >= *old(current_pos),
{
    let ghost src = source@;
    let ghost goal = word_end(src, place(*current_pos, *current_line, *current_column));
    while *current_pos < source.len() && (char_is_alphanumeric(source[*current_pos])
        || source[*current_pos] == '_')
        invariant
            room(src, place(*current_pos, *current_line, *current_column)),
            src == source@,
            *current_pos >= *old(current_pos),
            word_end(src, place(*current_pos, *current_line, *current_column)) == goal,
        decreases source@.len() - *current_pos,
    {
        advance(source, current_pos, current_line, current_column);
    }
}

/// A keyword: a word that starts with a letter and is one of the
/// keywords. At any other word the place does not move.
pub fn try_consume_keyword(
    source: &[char],
    current_pos: &mut usize,
    current_line: &mut usize,
    current_column: &mut usize,
) -> (r: Result<Option<Token>, LexerError>)
    requires
        *old(current_pos) < source@.len(),
        room(source@, place(*old(current_pos), *old(current_line), *old(current_column))),
    ensures
        scanned_as(
            source@,
            place(*old(current_pos), *old(current_line), *old(current_column)),
            place(*final(current_pos), *final(current_line), *final(current_column)),
            r,
            scan_keyword(
                source@,
                place(*old(current_pos), *old(current_line), *old(current_column)),
            ),
        ),
        stays(
            place(*old(current_pos), *old(current_line), *old(current_column)),
            place(*final(current_pos), *final(current_line), *final(current_column)),
            r,
        ),
{
    let start_pos = *current_pos;
    let start_line = *current_line;
    let start_column = *current_column;
    let first = source[*current_pos];
    if !char_is_alphabetic(first) {
        return Ok(None);
    }
    consume_word(source, current_pos, current_line, current_column);
    let lexema = collect_chars(source, start_pos, *current_pos);
    match classify_keyword(lexema.as_str()) {
        Some(token_type) => {
            proof {
                // The empty word is no keyword, so the place has moved.
                reveal_strlit("se");
                reveal_strlit("entao");
                reveal_strlit("senao");
                reveal_strlit("fimse");
                reveal_strlit("enquanto");
                reveal_strlit("faca");
                reveal_strlit("fimenquanto");
                reveal_strlit("para");
                reveal_strlit("de");
                reveal_strlit("ate");
                reveal_strlit("fimpara");
                reveal_strlit("funcao");
                reveal_strlit("retorne");
                reveal_strlit("fimfuncao");
                reveal_strlit("inteiro");
                reveal_strlit("decimal");
                reveal_strlit("texto");
                reveal_strlit("logico");
                reveal_strlit("verdadeiro");
                reveal_strlit("falso");
                reveal_strlit("escreva");
                reveal_strlit("leia");
                reveal_strlit("principal");
                assert(lexema@.len() > 0);
            }
            Ok(Some(Token::new(token_type, lexema, start_line, start_column)))
        },
        None => {
            *current_pos = start_pos;
            *current_line = start_line;
            *current_column = start_column;
            Ok(None)
        },
    }
}

/// An identifier: a letter or `_`, then letters, digits and `_`.
pub fn try_consume_identifier(
    source: &[char],
    current_pos: &mut usize,
    current_line: &mut usize,
    current_column: &mut usize,
) -> (r: Result<Option<Token>, LexerError>)
    requires
        *old(current_pos) < source@.len(),
        room(source@, place(*old(current_pos), *old(current_line), *old(current_column))),
    ensures
        scanned_as(
            source@,
            place(*old(current_pos), *old(current_line), *old(current_column)),
            place(*final(current_pos), *final(current_line), *final(current_column)),
            r,
            scan_identifier(
                source@,
                place(*old(current_pos), *old(current_line), *old(current_column)),
            ),
        ),
        stays(
            place(*old(current_pos), *old(current_line), *old(current_column)),
            place(*final(current_pos), *final(current_line), *final(current_column)),
            r,
        ),
{
    let start_pos = *current_pos;
    let start_line = *current_line;
    let start_column = *current_column;
    let first = source[*current_pos];
    if !(char_is_alphabetic(first) || first == '_') {
        return Ok(None);
    }
    advance(source, current_pos, current_line, current_column);
    consume_word(source, current_pos, current_line, current_column);
    let lexema = collect_chars(source, start_pos, *current_pos);
    Ok(
        Some(
            Token::new(
                TokenType::Identificador(lexema.clone()),
                lexema,
                start_line,
                start_column,
            ),
        ),
    )
}

} // verus!
