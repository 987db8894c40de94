//! The errors of tokenizing and parsing, and the messages they carry.

use vstd::prelude::*;
use vstd::string::StringExecFns;

verus! {

/// What an error is: the stage that failed and the message it carries.
pub enum ErrorView {
    Tokenizer(Seq<char>),
    Parser(Seq<char>),
}

/// Why a line could not be evaluated. `Tokenizer` reports a character that
/// belongs to no token; `Parser` reports a line that is not of the grammar,
/// a name that is not bound, or a condition that is not a boolean.
#[derive(Debug)]
pub enum TauschError {
    Tokenizer(String),
    Parser(String),
}

impl View for TauschError {
    type V = ErrorView;

    open spec fn view(&self) -> ErrorView {
        match self {
            TauschError::Tokenizer(message) => ErrorView::Tokenizer(message@),
            TauschError::Parser(message) => ErrorView::Parser(message@),
        }
    }
}

/// The message for a character that belongs to no token.
pub open spec fn unknown_token_message(c: char) -> Seq<char> {
    "Unknown token: '"@.push(c) + "'"@
}

/// The message for a bare variable reference whose name is not bound.
pub open spec fn not_found_message(name: Seq<char>) -> Seq<char> {
    "Variable '"@ + name + "' not found!"@
}

/// The message for a name inside a conditional that is not bound.
pub open spec fn missing_variable_message(name: Seq<char>) -> Seq<char> {
    "Variable '"@ + name + "' does not exist!"@
}

/// The message for a condition that is bound to something other than a
/// boolean.
pub open spec fn not_bool_message(name: Seq<char>) -> Seq<char> {
    "Variable '"@ + name + "' is not a bool!"@
}

/// The message for a line without tokens.
pub open spec fn no_tokens_message() -> Seq<char> {
    "No tokens"@
}

/// The message for a line that starts with neither `if` nor a name.
pub open spec fn expected_start_message() -> Seq<char> {
    "Expected start of an if-statement or variable name!"@
}

/// The message for an `if` that no name follows.
pub open spec fn expected_condition_message() -> Seq<char> {
    "Expected variable name after 'if'!"@
}

/// The message for a condition that no `;` follows.
pub open spec fn expected_if_end_message() -> Seq<char> {
    "Expected ';' after variable name inside of 'if'!"@
}

/// The message for a branch that does not start with a name.
pub open spec fn expected_branch_message() -> Seq<char> {
    "Expected variable name inside of 'if'-branch of if-statement."@
}

/// The message for a token after the first branch that is not `:`.
pub open spec fn expected_else_message() -> Seq<char> {
    "Expected ':' to start an 'else'-branch for the if-statement"@
}

impl TauschError {
    /// The message that the error carries.
    pub fn message(&self) -> (message: &String)
        ensures
            self@ == ErrorView::Tokenizer(message@) || self@ == ErrorView::Parser(message@),
    {
        match self {
            TauschError::Tokenizer(message) => message,
            TauschError::Parser(message) => message,
        }
    }

    /// The tokenizer's error for the character `c`.
    pub fn unknown_token(c: char) -> (error: TauschError)
        ensures
            error@ == ErrorView::Tokenizer(unknown_token_message(c)),
    {
        let mut message = String::from_str("Unknown token: '");
        message.push(c);
        message.append("'");
        TauschError::Tokenizer(message)
    }

    /// The parser's error with the message `message`.
    pub fn parser(message: &str) -> (error: TauschError)
        ensures
            error@ == ErrorView::Parser(message@),
    {
        TauschError::Parser(String::from_str(message))
    }

    /// The parser's error about the variable `name`: a message that starts
    /// with `Variable '`, names the variable and ends with `ending`.
    pub fn about_variable(name: &String, ending: &str) -> (error: TauschError)
        ensures
            error@ == ErrorView::Parser("Variable '"@ + name@ + ending@),
    {
        let mut message = String::from_str("Variable '");
        message.append(name.as_str());
        message.append(ending);
        TauschError::Parser(message)
    }
}

} // verus!
