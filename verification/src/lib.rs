//! A minimal interpreter for a line-oriented templating expression language.
//!
//! A line is either a bare variable reference or a conditional of the form
//! `if <cond> ; <then> [: <else>]`. It is evaluated against an environment
//! that maps names to values.

pub mod error;
pub mod eval;
pub mod eval_laws;
pub mod lookahead;
pub mod text;
pub mod token;
pub mod tokenizer;
pub mod tokenizer_laws;
pub mod value;

pub use error::TauschError;
pub use eval::{eval, eval_tokens, expect_token, parse_if};
pub use token::{Token, TokenType};
pub use tokenizer::Tokenizer;
pub use value::{Environment, Variable, VariableValue};
