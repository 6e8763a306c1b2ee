//! Tokens: the words of a program, each with its place in the source.

use vstd::prelude::*;
use vstd::string::*;

verus! {

/// The tag of a token, without what a literal or an identifier carries.
#[derive(Debug, Clone, Copy, PartialEq, Eq, Structural)]
pub enum TokenKind {
    Se,
    Entao,
    Senao,
    FimSe,
    Enquanto,
    Faca,
    FimEnquanto,
    Para,
    De,
    Ate,
    FimPara,
    Funcao,
    Retorne,
    FimFuncao,
    Inteiro,
    Decimal,
    Texto,
    Logico,
    Verdadeiro,
    Falso,
    Escreva,
    Leia,
    Principal,
    Identificador,
    InteiroLiteral,
    DecimalLiteral,
    StringLiteral,
    Mais,
    Menos,
    Multiplicacao,
    Divisao,
    Modulo,
    Atribuicao,
    Igual,
    Diferente,
    Menor,
    Maior,
    MenorIgual,
    MaiorIgual,
    ELogico,
    OuLogico,
    NaoLogico,
    ParenteseEsquerdo,
    ParenteseDireito,
    ChaveEsquerda,
    ChaveDireita,
    ColcheteEsquerdo,
    ColcheteDireito,
    Ponto,
    Virgula,
    PontoEVirgula,
    DoisPontos,
    EOF,
}

/// A token's tag, with the name of an identifier, the value of an integer
/// literal, the digits of a decimal literal as they were written, or the
/// content of a string literal.
#[derive(Debug, Clone, PartialEq)]
pub enum TokenType {
    Se,
    Entao,
    Senao,
    FimSe,
    Enquanto,
    Faca,
    FimEnquanto,
    Para,
    De,
    Ate,
    FimPara,
    Funcao,
    Retorne,
    FimFuncao,
    Inteiro,
    Decimal,
    Texto,
    Logico,
    Verdadeiro,
    Falso,
    Escreva,
    Leia,
    Principal,
    Identificador(String),
    InteiroLiteral(i64),
    DecimalLiteral(String),
    StringLiteral(String),
    Mais,
    Menos,
    Multiplicacao,
    Divisao,
    Modulo,
    Atribuicao,
    Igual,
    Diferente,
    Menor,
    Maior,
    MenorIgual,
    MaiorIgual,
    ELogico,
    OuLogico,
    NaoLogico,
    ParenteseEsquerdo,
    ParenteseDireito,
    ChaveEsquerda,
    ChaveDireita,
    ColcheteEsquerdo,
    ColcheteDireito,
    Ponto,
    Virgula,
    PontoEVirgula,
    DoisPontos,
    EOF,
}

/// The value of a token type: its tag, the text it carries (empty where it
/// carries none) and the number it carries (0 where it carries none).
pub struct TokenTypeView {
    pub kind: TokenKind,
    pub text: Seq<char>,
    pub number: i64,
}

impl TokenTypeView {
    /// The value of a token type that carries nothing.
    pub open spec fn plain(kind: TokenKind) -> TokenTypeView {
        TokenTypeView { kind, text: Seq::empty(), number: 0 }
    }
}

impl View for TokenType {
    type V = TokenTypeView;

    open spec fn view(&self) -> TokenTypeView {
        match self {
            TokenType::Identificador(s) => TokenTypeView {
                kind: TokenKind::Identificador,
                text: s@,
                number: 0,
            },
            TokenType::InteiroLiteral(n) => TokenTypeView {
                kind: TokenKind::InteiroLiteral,
                text: Seq::empty(),
                number: *n,
            },
            TokenType::DecimalLiteral(s) => TokenTypeView {
                kind: TokenKind::DecimalLiteral,
                text: s@,
                number: 0,
            },
            TokenType::StringLiteral(s) => TokenTypeView {
                kind: TokenKind::StringLiteral,
                text: s@,
                number: 0,
            },
            TokenType::Se => TokenTypeView::plain(TokenKind::Se),
            TokenType::Entao => TokenTypeView::plain(TokenKind::Entao),
            TokenType::Senao => TokenTypeView::plain(TokenKind::Senao),
            TokenType::FimSe => TokenTypeView::plain(TokenKind::FimSe),
            TokenType::Enquanto => TokenTypeView::plain(TokenKind::Enquanto),
            TokenType::Faca => TokenTypeView::plain(TokenKind::Faca),
            TokenType::FimEnquanto => TokenTypeView::plain(TokenKind::FimEnquanto),
            TokenType::Para => TokenTypeView::plain(TokenKind::Para),
            TokenType::De => TokenTypeView::plain(TokenKind::De),
            TokenType::Ate => TokenTypeView::plain(TokenKind::Ate),
            TokenType::FimPara => TokenTypeView::plain(TokenKind::FimPara),
            TokenType::Funcao => TokenTypeView::plain(TokenKind::Funcao),
            TokenType::Retorne => TokenTypeView::plain(TokenKind::Retorne),
            TokenType::FimFuncao => TokenTypeView::plain(TokenKind::FimFuncao),
            TokenType::Inteiro => TokenTypeView::plain(TokenKind::Inteiro),
            TokenType::Decimal => TokenTypeView::plain(TokenKind::Decimal),
            TokenType::Texto => TokenTypeView::plain(TokenKind::Texto),
            TokenType::Logico => TokenTypeView::plain(TokenKind::Logico),
            TokenType::Verdadeiro => TokenTypeView::plain(TokenKind::Verdadeiro),
            TokenType::Falso => TokenTypeView::plain(TokenKind::Falso),
            TokenType::Escreva => TokenTypeView::plain(TokenKind::Escreva),
            TokenType::Leia => TokenTypeView::plain(TokenKind::Leia),
            TokenType::Principal => TokenTypeView::plain(TokenKind::Principal),
            TokenType::Mais => TokenTypeView::plain(TokenKind::Mais),
            TokenType::Menos => TokenTypeView::plain(TokenKind::Menos),
            TokenType::Multiplicacao => TokenTypeView::plain(TokenKind::Multiplicacao),
            TokenType::Divisao => TokenTypeView::plain(TokenKind::Divisao),
            TokenType::Modulo => TokenTypeView::plain(TokenKind::Modulo),
            TokenType::Atribuicao => TokenTypeView::plain(TokenKind::Atribuicao),
            TokenType::Igual => TokenTypeView::plain(TokenKind::Igual),
            TokenType::Diferente => TokenTypeView::plain(TokenKind::Diferente),
            TokenType::Menor => TokenTypeView::plain(TokenKind::Menor),
            TokenType::Maior => TokenTypeView::plain(TokenKind::Maior),
            TokenType::MenorIgual => TokenTypeView::plain(TokenKind::MenorIgual),
            TokenType::MaiorIgual => TokenTypeView::plain(TokenKind::MaiorIgual),
            TokenType::ELogico => TokenTypeView::plain(TokenKind::ELogico),
            TokenType::OuLogico => TokenTypeView::plain(TokenKind::OuLogico),
            TokenType::NaoLogico => TokenTypeView::plain(TokenKind::NaoLogico),
            TokenType::ParenteseEsquerdo => TokenTypeView::plain(TokenKind::ParenteseEsquerdo),
            TokenType::ParenteseDireito => TokenTypeView::plain(TokenKind::ParenteseDireito),
            TokenType::ChaveEsquerda => TokenTypeView::plain(TokenKind::ChaveEsquerda),
            TokenType::ChaveDireita => TokenTypeView::plain(TokenKind::ChaveDireita),
            TokenType::ColcheteEsquerdo => TokenTypeView::plain(TokenKind::ColcheteEsquerdo),
            TokenType::ColcheteDireito => TokenTypeView::plain(TokenKind::ColcheteDireito),
            TokenType::Ponto => TokenTypeView::plain(TokenKind::Ponto),
            TokenType::Virgula => TokenTypeView::plain(TokenKind::Virgula),
            TokenType::PontoEVirgula => TokenTypeView::plain(TokenKind::PontoEVirgula),
            TokenType::DoisPontos => TokenTypeView::plain(TokenKind::DoisPontos),
            TokenType::EOF => TokenTypeView::plain(TokenKind::EOF),
        }
    }
}

impl TokenType {
    /// The tag of the token type.
    pub fn kind(&self) -> (r: TokenKind)
        ensures
            r == self@.kind,
    {
        match self {
            TokenType::Identificador(_) => TokenKind::Identificador,
            TokenType::InteiroLiteral(_) => TokenKind::InteiroLiteral,
            TokenType::DecimalLiteral(_) => TokenKind::DecimalLiteral,
            TokenType::StringLiteral(_) => TokenKind::StringLiteral,
            TokenType::Se => TokenKind::Se,
            TokenType::Entao => TokenKind::Entao,
            TokenType::Senao => TokenKind::Senao,
            TokenType::FimSe => TokenKind::FimSe,
            TokenType::Enquanto => TokenKind::Enquanto,
            TokenType::Faca => TokenKind::Faca,
            TokenType::FimEnquanto => TokenKind::FimEnquanto,
            TokenType::Para => TokenKind::Para,
            TokenType::De => TokenKind::De,
            TokenType::Ate => TokenKind::Ate,
            TokenType::FimPara => TokenKind::FimPara,
            TokenType::Funcao => TokenKind::Funcao,
            TokenType::Retorne => TokenKind::Retorne,
            TokenType::FimFuncao => TokenKind::FimFuncao,
            TokenType::Inteiro => TokenKind::Inteiro,
            TokenType::Decimal => TokenKind::Decimal,
            TokenType::Texto => TokenKind::Texto,
            TokenType::Logico => TokenKind::Logico,
            TokenType::Verdadeiro => TokenKind::Verdadeiro,
            TokenType::Falso => TokenKind::Falso,
            TokenType::Escreva => TokenKind::Escreva,
            TokenType::Leia => TokenKind::Leia,
            TokenType::Principal => TokenKind::Principal,
            TokenType::Mais => TokenKind::Mais,
            TokenType::Menos => TokenKind::Menos,
            TokenType::Multiplicacao => TokenKind::Multiplicacao,
            TokenType::Divisao => TokenKind::Divisao,
            TokenType::Modulo => TokenKind::Modulo,
            TokenType::Atribuicao => TokenKind::Atribuicao,
            TokenType::Igual => TokenKind::Igual,
            TokenType::Diferente => TokenKind::Diferente,
            TokenType::Menor => TokenKind::Menor,
            TokenType::Maior => TokenKind::Maior,
            TokenType::MenorIgual => TokenKind::MenorIgual,
            TokenType::MaiorIgual => TokenKind::MaiorIgual,
            TokenType::ELogico => TokenKind::ELogico,
            TokenType::OuLogico => TokenKind::OuLogico,
            TokenType::NaoLogico => TokenKind::NaoLogico,
            TokenType::ParenteseEsquerdo => TokenKind::ParenteseEsquerdo,
            TokenType::ParenteseDireito => TokenKind::ParenteseDireito,
            TokenType::ChaveEsquerda => TokenKind::ChaveEsquerda,
            TokenType::ChaveDireita => TokenKind::ChaveDireita,
            TokenType::ColcheteEsquerdo => TokenKind::ColcheteEsquerdo,
            TokenType::ColcheteDireito => TokenKind::ColcheteDireito,
            TokenType::Ponto => TokenKind::Ponto,
            TokenType::Virgula => TokenKind::Virgula,
            TokenType::PontoEVirgula => TokenKind::PontoEVirgula,
            TokenType::DoisPontos => TokenKind::DoisPontos,
            TokenType::EOF => TokenKind::EOF,
        }
    }

    /// The token type of tag `kind` that carries nothing: an empty text or
    /// the number 0 where the tag is one that carries something.
    pub fn plain(kind: TokenKind) -> (r: TokenType)
        ensures
            r@ == TokenTypeView::plain(kind),
    {
        match kind {
            TokenKind::Identificador => TokenType::Identificador(String::new()),
            TokenKind::InteiroLiteral => TokenType::InteiroLiteral(0),
            TokenKind::DecimalLiteral => TokenType::DecimalLiteral(String::new()),
            TokenKind::StringLiteral => TokenType::StringLiteral(String::new()),
            TokenKind::Se => TokenType::Se,
            TokenKind::Entao => TokenType::Entao,
            TokenKind::Senao => TokenType::Senao,
            TokenKind::FimSe => TokenType::FimSe,
            TokenKind::Enquanto => TokenType::Enquanto,
            TokenKind::Faca => TokenType::Faca,
            TokenKind::FimEnquanto => TokenType::FimEnquanto,
            TokenKind::Para => TokenType::Para,
            TokenKind::De => TokenType::De,
            TokenKind::Ate => TokenType::Ate,
            TokenKind::FimPara => TokenType::FimPara,
            TokenKind::Funcao => TokenType::Funcao,
            TokenKind::Retorne => TokenType::Retorne,
            TokenKind::FimFuncao => TokenType::FimFuncao,
            TokenKind::Inteiro => TokenType::Inteiro,
            TokenKind::Decimal => TokenType::Decimal,
            TokenKind::Texto => TokenType::Texto,
            TokenKind::Logico => TokenType::Logico,
            TokenKind::Verdadeiro => TokenType::Verdadeiro,
            TokenKind::Falso => TokenType::Falso,
            TokenKind::Escreva => TokenType::Escreva,
            TokenKind::Leia => TokenType::Leia,
            TokenKind::Principal => TokenType::Principal,
            TokenKind::Mais => TokenType::Mais,
            TokenKind::Menos => TokenType::Menos,
            TokenKind::Multiplicacao => TokenType::Multiplicacao,
            TokenKind::Divisao => TokenType::Divisao,
            TokenKind::Modulo => TokenType::Modulo,
            TokenKind::Atribuicao => TokenType::Atribuicao,
            TokenKind::Igual => TokenType::Igual,
            TokenKind::Diferente => TokenType::Diferente,
            TokenKind::Menor => TokenType::Menor,
            TokenKind::Maior => TokenType::Maior,
            TokenKind::MenorIgual => TokenType::MenorIgual,
            TokenKind::MaiorIgual => TokenType::MaiorIgual,
            TokenKind::ELogico => TokenType::ELogico,
            TokenKind::OuLogico => TokenType::OuLogico,
            TokenKind::NaoLogico => TokenType::NaoLogico,
            TokenKind::ParenteseEsquerdo => TokenType::ParenteseEsquerdo,
            TokenKind::ParenteseDireito => TokenType::ParenteseDireito,
            TokenKind::ChaveEsquerda => TokenType::ChaveEsquerda,
            TokenKind::ChaveDireita => TokenType::ChaveDireita,
            TokenKind::ColcheteEsquerdo => TokenType::ColcheteEsquerdo,
            TokenKind::ColcheteDireito => TokenType::ColcheteDireito,
            TokenKind::Ponto => TokenType::Ponto,
            TokenKind::Virgula => TokenType::Virgula,
            TokenKind::PontoEVirgula => TokenType::PontoEVirgula,
            TokenKind::DoisPontos => TokenType::DoisPontos,
            TokenKind::EOF => TokenType::EOF,
        }
    }

    /// A copy with the same value.
    pub fn duplicate(&self) -> (r: TokenType)
        ensures
            r@ == self@,
    {
        match self {
            TokenType::Identificador(s) => TokenType::Identificador(s.clone()),
            TokenType::InteiroLiteral(n) => TokenType::InteiroLiteral(*n),
            TokenType::DecimalLiteral(s) => TokenType::DecimalLiteral(s.clone()),
            TokenType::StringLiteral(s) => TokenType::StringLiteral(s.clone()),
            _ => TokenType::plain(self.kind()),
        }
    }
}

impl TokenType {
    /// The text that the token type carries.
    pub fn text(&self) -> (r: String)
        ensures
            r@ == self@.text,
    {
        match self {
            TokenType::Identificador(s) => s.clone(),
            TokenType::DecimalLiteral(s) => s.clone(),
            TokenType::StringLiteral(s) => s.clone(),
            _ => String::new(),
        }
    }

    /// The number that the token type carries.
    pub fn number(&self) -> (r: i64)
        ensures
            r == self@.number,
    {
        match self {
            TokenType::InteiroLiteral(n) => *n,
            _ => 0,
        }
    }

    /// Whether both have the same tag and carry the same.
    pub fn same(&self, other: &TokenType) -> (r: bool)
        ensures
            r == (self@ == other@),
    {
        self.kind() == other.kind() && self.number() == other.number() && self.text()
            == other.text()
    }
}

impl TokenKind {
    /// Whether the tag is one of the four type keywords.
    pub open spec fn spec_is_type_keyword(self) -> bool {
        self == TokenKind::Inteiro || self == TokenKind::Decimal || self == TokenKind::Texto
            || self == TokenKind::Logico
    }

    /// Whether the tag is one of the four type keywords.
    #[verifier::when_used_as_spec(spec_is_type_keyword)]
    pub fn is_type_keyword(self) -> (r: bool)
        ensures
            r == self.spec_is_type_keyword(),
    {
        self == TokenKind::Inteiro || self == TokenKind::Decimal || self == TokenKind::Texto
            || self == TokenKind::Logico
    }
}

/// A token: its type, the text it was read from, the line and column where
/// that text starts, and the number of characters of the text.
#[derive(Debug, Clone)]
pub struct Token {
    pub token_type: TokenType,
    pub lexema: String,
    pub linha: usize,
    pub coluna: usize,
    pub comprimento: usize,
}

/// The value of a token.
pub struct TokenView {
    pub token_type: TokenTypeView,
    pub lexema: Seq<char>,
    pub linha: nat,
    pub coluna: nat,
    pub comprimento: nat,
}

impl View for Token {
    type V = TokenView;

    open spec fn view(&self) -> TokenView {
        TokenView {
            token_type: self.token_type@,
            lexema: self.lexema@,
            linha: self.linha as nat,
            coluna: self.coluna as nat,
            comprimento: self.comprimento as nat,
        }
    }
}

/// The values of a list of tokens, in order.
pub open spec fn tokens_view(v: Seq<Token>) -> Seq<TokenView> {
    v.map_values(|t: Token| t@)
}

impl TokenView {
    /// The token that marks the end of the input.
    pub open spec fn eof(linha: nat, coluna: nat) -> TokenView {
        TokenView {
            token_type: TokenTypeView::plain(TokenKind::EOF),
            lexema: Seq::empty(),
            linha,
            coluna,
            comprimento: 0,
        }
    }
}

impl Token {
    /// A token read from `lexema` at the given place.
    pub fn new(token_type: TokenType, lexema: String, linha: usize, coluna: usize) -> (r: Token)
        ensures
            r@ == (TokenView {
                token_type: token_type@,
                lexema: lexema@,
                linha: linha as nat,
                coluna: coluna as nat,
                comprimento: lexema@.len(),
            }),
    {
        let comprimento = lexema.as_str().unicode_len();
        Token { token_type, lexema, linha, coluna, comprimento }
    }

    /// The token that marks the end of the input.
    pub fn eof(linha: usize, coluna: usize) -> (r: Token)
        ensures
            r@ == TokenView::eof(linha as nat, coluna as nat),
    {
        Token::new(TokenType::EOF, String::new(), linha, coluna)
    }

    /// Whether the token marks the end of the input.
    pub fn is_eof(&self) -> (r: bool)
        ensures
            r == (self@.token_type.kind == TokenKind::EOF),
    {
        self.token_type.kind() == TokenKind::EOF
    }

    /// A copy with the same value.
    pub fn duplicate(&self) -> (r: Token)
        ensures
            r@ == self@,
    {
        Token {
            token_type: self.token_type.duplicate(),
            lexema: self.lexema.clone(),
            linha: self.linha,
            coluna: self.coluna,
            comprimento: self.comprimento,
        }
    }
}

} // verus!
