//! Lexical errors.

use vstd::prelude::*;
use vstd::string::*;
use crate::text::{decimal_string, decimal_text, join3, join5, push_char};

verus! {

/// How grave a lexical error is.
#[derive(Debug, Clone, Copy, PartialEq, Eq, Structural)]
pub enum ErrorSeverity {
    Warning,
    Error,
    Fatal,
}

/// A lexical error, with the place in the source where it was met.
#[derive(Debug, Clone)]
pub struct LexerError {
    pub message: String,
    pub linha: usize,
    pub coluna: usize,
    pub severity: ErrorSeverity,
    pub recovery_suggestion: String,
}

/// The value of a lexical error.
pub struct LexerErrorView {
    pub message: Seq<char>,
    pub linha: nat,
    pub coluna: nat,
    pub severity: ErrorSeverity,
    pub recovery_suggestion: Seq<char>,
}

impl View for LexerError {
    type V = LexerErrorView;

    open spec fn view(&self) -> LexerErrorView {
        LexerErrorView {
            message: self.message@,
            linha: self.linha as nat,
            coluna: self.coluna as nat,
            severity: self.severity,
            recovery_suggestion: self.recovery_suggestion@,
        }
    }
}

impl LexerErrorView {
    /// An error of severity `Error`, without a suggestion.
    pub open spec fn plain(message: Seq<char>, linha: nat, coluna: nat) -> LexerErrorView {
        LexerErrorView {
            message,
            linha,
            coluna,
            severity: ErrorSeverity::Error,
            recovery_suggestion: Seq::empty(),
        }
    }

    pub open spec fn invalid_char(c: char, linha: nat, coluna: nat) -> LexerErrorView {
        Self::plain("Caractere inválido: '"@.push(c) + "'"@, linha, coluna)
    }

    pub open spec fn unterminated_string(linha: nat, coluna: nat) -> LexerErrorView {
        Self::plain("String não foi fechada"@, linha, coluna)
    }

    pub open spec fn invalid_number(lexema: Seq<char>, linha: nat, coluna: nat) -> LexerErrorView {
        Self::plain("Número inválido: '"@ + lexema + "'"@, linha, coluna)
    }

    pub open spec fn invalid_escape(c: char, linha: nat, coluna: nat) -> LexerErrorView {
        Self::plain("Sequência de escape inválida: '\\"@.push(c) + "'"@, linha, coluna)
    }

    pub open spec fn unclosed_comment(linha: nat, coluna: nat) -> LexerErrorView {
        Self::plain("Comentário de bloco não foi fechado"@, linha, coluna)
    }

    /// The line that presents the error to a user.
    pub open spec fn text(self) -> Seq<char> {
        "ERRO LÉXICO: Linha "@ + decimal_text(self.linha) + ", Coluna "@ + decimal_text(
            self.coluna,
        ) + " - "@ + self.message
    }
}

impl LexerError {
    pub fn new(message: String, linha: usize, coluna: usize) -> (r: LexerError)
        ensures
            r@ == LexerErrorView::plain(message@, linha as nat, coluna as nat),
    {
        LexerError {
            message,
            linha,
            coluna,
            severity: ErrorSeverity::Error,
            recovery_suggestion: String::new(),
        }
    }

    pub fn invalid_char(c: char, linha: usize, coluna: usize) -> (r: LexerError)
        ensures
            r@ == LexerErrorView::invalid_char(c, linha as nat, coluna as nat),
    {
        let mut m = String::from_str("Caractere inválido: '");
        push_char(&mut m, c);
        m.append("'");
        Self::new(m, linha, coluna)
    }

    pub fn unterminated_string(linha: usize, coluna: usize) -> (r: LexerError)
        ensures
            r@ == LexerErrorView::unterminated_string(linha as nat, coluna as nat),
    {
        Self::new(String::from_str("String não foi fechada"), linha, coluna)
    }

    pub fn invalid_number(lexema: &str, linha: usize, coluna: usize) -> (r: LexerError)
        ensures
            r@ == LexerErrorView::invalid_number(lexema@, linha as nat, coluna as nat),
    {
        Self::new(join3("Número inválido: '", lexema, "'"), linha, coluna)
    }

    pub fn invalid_escape(c: char, linha: usize, coluna: usize) -> (r: LexerError)
        ensures
            r@ == LexerErrorView::invalid_escape(c, linha as nat, coluna as nat),
    {
        let mut m = String::from_str("Sequência de escape inválida: '\\");
        push_char(&mut m, c);
        m.append("'");
        Self::new(m, linha, coluna)
    }

    pub fn unclosed_comment(linha: usize, coluna: usize) -> (r: LexerError)
        ensures
            r@ == LexerErrorView::unclosed_comment(linha as nat, coluna as nat),
    {
        Self::new(String::from_str("Comentário de bloco não foi fechado"), linha, coluna)
    }

    pub fn with_recovery_suggestion(
        message: String,
        linha: usize,
        coluna: usize,
        suggestion: String,
    ) -> (r: LexerError)
        ensures
            r@ == (LexerErrorView {
                message: message@,
                linha: linha as nat,
                coluna: coluna as nat,
                severity: ErrorSeverity::Error,
                recovery_suggestion: suggestion@,
            }),
    {
        LexerError {
            message,
            linha,
            coluna,
            severity: ErrorSeverity::Error,
            recovery_suggestion: suggestion,
        }
    }

    /// The line that presents the error to a user.
    pub fn to_string(&self) -> (r: String)
        ensures
            r@ == self@.text(),
    {
        let l = decimal_string(self.linha);
        let c = decimal_string(self.coluna);
        let mut s = join5("ERRO LÉXICO: Linha ", l.as_str(), ", Coluna ", c.as_str(), " - ");
        s.append(self.message.as_str());
        s
    }
}

} // verus!
