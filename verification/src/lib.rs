//! Front end of a compiler for a small imperative teaching language with
//! Portuguese keywords: tokenizer, error-tolerant recursive-descent parser,
//! scoped symbol table, type checker and semantic analyzer.
//!
//! Every contract is stated over the values of the data: `token` and `ast`
//! define them, `lexing` and `grammar` say what is read from a text and
//! from its tokens, `type_checker` and `semantic` what a program means.
//! `laws`, `lexing_laws`, `grammar_laws` and `places` hold what is proved of
//! them on every input; `instruction` chooses the machine instruction for
//! an operator.

pub mod text;
pub mod token;
pub mod error;
pub mod lexing;
pub mod lexing_laws;
pub mod afds;
pub mod lexer;
pub mod afn;
pub mod ast;
pub mod grammar;
pub mod grammar_laws;
pub mod parser;
pub mod symbol_table;
pub mod type_checker;
pub mod semantic;
pub mod laws;
pub mod instruction;
pub mod places;

pub use ast::{Expr, Literal, Program, Statement, Type};
pub use error::LexerError;
pub use lexer::Lexer;
pub use parser::{Parser, ParserError};
pub use semantic::{SemanticAnalysisResult, SemanticAnalyzer, SemanticError};
pub use symbol_table::SymbolTable;
pub use token::{Token, TokenType};
