//! The evaluator: it checks a sequence of tokens against the grammar,
//! resolves the names it holds in an environment and gives the value of the
//! line.
//!
//! ```text
//! line         := variable_ref | conditional
//! variable_ref := Variable
//! conditional  := IfStart Variable IfEnd Variable (IfElse Variable)?
//! ```
//!
//! Tokens are read from left to right, and the first failure ends the
//! evaluation. Tokens that follow a bare variable reference, or the `else`
//! branch of a conditional, are not read at all.

use crate::error::{
    expected_branch_message, expected_condition_message, expected_else_message,
    expected_if_end_message, expected_start_message, missing_variable_message, no_tokens_message,
    not_bool_message, not_found_message, unknown_token_message, ErrorView, TauschError,
};
use crate::token::{token_views, Token, TokenType, TokenView};
use crate::tokenizer::{reserved_words, tokens_of, Tokenizer};
use crate::value::{Environment, ValueView, VariableValue};
use vstd::prelude::*;
use vstd::string::StringExecFns;

verus! {

/// Whether `tokens` holds a token of kind `typ` at position `pos`.
pub open spec fn has_kind_at(tokens: Seq<TokenView>, pos: int, typ: TokenType) -> bool {
    0 <= pos < tokens.len() && tokens[pos].typ == typ
}

/// The value of a conditional whose condition is `condition`: the value
/// `on_true` if it holds, else `on_false`.
pub open spec fn choose_branch(condition: bool, on_true: ValueView, on_false: ValueView)
    -> ValueView {
    if condition {
        on_true
    } else {
        on_false
    }
}

/// The value of the conditional whose tokens stand in `tokens` from position
/// `pos` on, `pos` being the position after the `if`; or the message of the
/// first failure.
pub open spec fn parse_if_spec(env: Map<Seq<char>, ValueView>, tokens: Seq<TokenView>, pos: int)
    -> Result<ValueView, Seq<char>> {
    if !has_kind_at(tokens, pos, TokenType::Variable) {
        Err(expected_condition_message())
    } else if !env.contains_key(tokens[pos].label) {
        Err(missing_variable_message(tokens[pos].label))
    } else if !(env[tokens[pos].label] is Bool) {
        Err(not_bool_message(tokens[pos].label))
    } else if !has_kind_at(tokens, pos + 1, TokenType::IfEnd) {
        Err(expected_if_end_message())
    } else if !has_kind_at(tokens, pos + 2, TokenType::Variable) {
        Err(expected_branch_message())
    } else if !env.contains_key(tokens[pos + 2].label) {
        Err(missing_variable_message(tokens[pos + 2].label))
    } else if pos + 3 >= tokens.len() {
        Ok(choose_branch(env[tokens[pos].label]->Bool_0, env[tokens[pos + 2].label], ValueView::Empty))
    } else if !has_kind_at(tokens, pos + 3, TokenType::IfElse) {
        Err(expected_else_message())
    } else if !has_kind_at(tokens, pos + 4, TokenType::Variable) {
        Err(expected_branch_message())
    } else if !env.contains_key(tokens[pos + 4].label) {
        Err(missing_variable_message(tokens[pos + 4].label))
    } else {
        Ok(
            choose_branch(
                env[tokens[pos].label]->Bool_0,
                env[tokens[pos + 2].label],
                env[tokens[pos + 4].label],
            ),
        )
    }
}

/// The value of the line whose tokens are `tokens`, or the message of the
/// first failure.
pub open spec fn eval_tokens_spec(env: Map<Seq<char>, ValueView>, tokens: Seq<TokenView>) -> Result<
    ValueView,
    Seq<char>,
> {
    if tokens.len() == 0 {
        Err(no_tokens_message())
    } else if tokens[0].typ == TokenType::Variable {
        if env.contains_key(tokens[0].label) {
            Ok(env[tokens[0].label])
        } else {
            Err(not_found_message(tokens[0].label))
        }
    } else if tokens[0].typ == TokenType::IfStart {
        parse_if_spec(env, tokens, 1)
    } else {
        Err(expected_start_message())
    }
}

/// The value of the line `input` in the environment `env`, or the error that
/// evaluating it fails with.
pub open spec fn eval_spec(env: Map<Seq<char>, ValueView>, input: Seq<char>) -> Result<
    ValueView,
    ErrorView,
> {
    match tokens_of(reserved_words(), input) {
        Err(c) => Err(ErrorView::Tokenizer(unknown_token_message(c))),
        Ok(tokens) => match eval_tokens_spec(env, tokens) {
            Ok(value) => Ok(value),
            Err(message) => Err(ErrorView::Parser(message)),
        },
    }
}

/// Whether `res` is the value or the parser's error that `expected` says.
pub open spec fn parsed_as(res: Result<VariableValue, TauschError>, expected: Result<
    ValueView,
    Seq<char>,
>) -> bool {
    match expected {
        Ok(value) => res matches Ok(found) && found@ == value,
        Err(message) => res matches Err(error) && error@ == ErrorView::Parser(message),
    }
}

/// The token at position `pos` of `tokens`, if there is one and it is of
/// kind `typ`; else the parser's error with the message `on_fail`.
pub fn expect_token(tokens: &Vec<Token>, pos: usize, typ: TokenType, on_fail: String) -> (res:
    Result<Token, TauschError>)
    ensures
        match res {
            Ok(token) => has_kind_at(token_views(tokens@), pos as int, typ) && token@
                == token_views(tokens@)[pos as int],
            Err(error) => !has_kind_at(token_views(tokens@), pos as int, typ) && error@
                == ErrorView::Parser(on_fail@),
        },
{
    if pos < tokens.len() {
        let tok = &tokens[pos];
        if tok.typ == typ {
            Ok(tok.clone())
        } else {
            Err(TauschError::Parser(on_fail))
        }
    } else {
        Err(TauschError::Parser(on_fail))
    }
}

/// The value of the conditional whose tokens stand in `tokens` from position
/// `pos` on, `pos` being the position after the `if`.
///
/// The condition must be a name that is bound to a boolean, and each branch
/// a name that is bound. The result is the value of the first branch if the
/// condition holds; else that of the `else` branch, or `Empty` where there
/// is none. Tokens after the `else` branch are not read.
pub fn parse_if(variables: &Environment, tokens: &Vec<Token>, pos: usize) -> (res: Result<
    VariableValue,
    TauschError,
>)
    ensures
        parsed_as(res, parse_if_spec(variables@, token_views(tokens@), pos as int)),
{
    let ghost env = variables@;
    let ghost toks = token_views(tokens@);
    let len: usize = tokens.len();

    let tok_condition = match expect_token(
        tokens,
        pos,
        TokenType::Variable,
        String::from_str("Expected variable name after 'if'!"),
    ) {
        Ok(tok) => tok,
        Err(e) => {
            return Err(e);
        },
    };
    let val_condition: bool = match variables.get(&tok_condition.label) {
        None => {
            return Err(TauschError::about_variable(&tok_condition.label, "' does not exist!"));
        },
        Some(VariableValue::Bool(b)) => *b,
        Some(_) => {
            return Err(TauschError::about_variable(&tok_condition.label, "' is not a bool!"));
        },
    };

    match expect_token(
        tokens,
        pos + 1,
        TokenType::IfEnd,
        String::from_str("Expected ';' after variable name inside of 'if'!"),
    ) {
        Ok(_) => {},
        Err(e) => {
            return Err(e);
        },
    }

    let tok_on_true = match expect_token(
        tokens,
        pos + 2,
        TokenType::Variable,
        String::from_str("Expected variable name inside of 'if'-branch of if-statement."),
    ) {
        Ok(tok) => tok,
        Err(e) => {
            return Err(e);
        },
    };
    let val_on_true = match variables.get(&tok_on_true.label) {
        Some(value) => value,
        None => {
            return Err(TauschError::about_variable(&tok_on_true.label, "' does not exist!"));
        },
    };

    if pos + 3 >= len {
        return Ok(
            if val_condition {
                val_on_true.clone()
            } else {
                VariableValue::Empty
            },
        );
    }
    if tokens[pos + 3].typ != TokenType::IfElse {
        return Err(
            TauschError::parser("Expected ':' to start an 'else'-branch for the if-statement"),
        );
    }
    let tok_on_else = match expect_token(
        tokens,
        pos + 4,
        TokenType::Variable,
        String::from_str("Expected variable name inside of 'if'-branch of if-statement."),
    ) {
        Ok(tok) => tok,
        Err(e) => {
            return Err(e);
        },
    };
    let val_on_else = match variables.get(&tok_on_else.label) {
        Some(value) => value,
        None => {
            return Err(TauschError::about_variable(&tok_on_else.label, "' does not exist!"));
        },
    };

    Ok(
        if val_condition {
            val_on_true.clone()
        } else {
            val_on_else.clone()
        },
    )
}

/// The value of the line whose tokens are `tokens`.
///
/// A line is a bare variable reference, whose value is what the name is
/// bound to, or a conditional. Tokens after a bare variable reference are
/// not read.
pub fn eval_tokens(variables: &Environment, tokens: &Vec<Token>) -> (res: Result<
    VariableValue,
    TauschError,
>)
    ensures
        parsed_as(res, eval_tokens_spec(variables@, token_views(tokens@))),
{
    if tokens.len() == 0 {
        return Err(TauschError::parser("No tokens"));
    }
    let tok = &tokens[0];
    match tok.typ {
        TokenType::Variable => match variables.get(&tok.label) {
            Some(var) => Ok(var.clone()),
            None => Err(TauschError::about_variable(&tok.label, "' not found!")),
        },
        TokenType::IfStart => parse_if(variables, tokens, 1),
        _ => Err(TauschError::parser("Expected start of an if-statement or variable name!")),
    }
}

/// The value of the line `input` in the environment `variables`.
///
/// The line is split into tokens and the tokens are evaluated. A line that
/// cannot be split into tokens gives the tokenizer's error; one that is not
/// of the grammar, or that names a variable that is not bound, or whose
/// condition is not a boolean, gives the parser's error.
pub fn eval(variables: &Environment, input: String) -> (res: Result<VariableValue, TauschError>)
    ensures
        match eval_spec(variables@, input@) {
            Ok(value) => res matches Ok(found) && found@ == value,
            Err(error) => res matches Err(found) && found@ == error,
        },
{
    let toker = Tokenizer::new();
    let tokens = match toker.tokenize(input) {
        Ok(tokens) => tokens,
        Err(e) => {
            return Err(e);
        },
    };
    eval_tokens(variables, &tokens)
}

} // verus!
