//! Tokens: the classified lexical units of a line.

use vstd::prelude::*;
use vstd::std_specs::cmp::PartialEqSpecImpl;

verus! {

/// The kinds of token. `Variable` carries a name; the others are the
/// reserved words of the language.
#[derive(Clone, Copy, Debug, PartialEq, Eq, Structural)]
pub enum TokenType {
    Variable,
    IfStart,
    IfNegate,
    IfEnd,
    IfElse,
}

impl TokenType {
    /// The name of the kind, as it is shown to a reader.
    pub open spec fn spec_name(self) -> Seq<char> {
        match self {
            TokenType::Variable => "Variable"@,
            TokenType::IfStart => "IfStart"@,
            TokenType::IfNegate => "IfNegate"@,
            TokenType::IfEnd => "IfEnd"@,
            TokenType::IfElse => "IfElse"@,
        }
    }

    /// The name of the kind, as it is shown to a reader.
    pub fn name(&self) -> (name: &'static str)
        ensures
            name@ == self.spec_name(),
    {
        match self {
            TokenType::Variable => "Variable",
            TokenType::IfStart => "IfStart",
            TokenType::IfNegate => "IfNegate",
            TokenType::IfEnd => "IfEnd",
            TokenType::IfElse => "IfElse",
        }
    }
}

/// What a token is: its kind and the text it was read from.
pub struct TokenView {
    pub typ: TokenType,
    pub label: Seq<char>,
}

/// A classified lexical unit: a kind and the literal text of the unit.
#[derive(Debug)]
pub struct Token {
    pub typ: TokenType,
    pub label: String,
}

impl View for Token {
    type V = TokenView;

    open spec fn view(&self) -> TokenView {
        TokenView { typ: self.typ, label: self.label@ }
    }
}

impl Clone for Token {
    fn clone(&self) -> (copy: Self)
        ensures
            copy@ == self@,
    {
        Token { typ: self.typ, label: self.label.clone() }
    }
}

impl PartialEq for Token {
    /// Two tokens are equal when their kinds and their labels are.
    fn eq(&self, other: &Self) -> (equal: bool) {
        self.label == other.label && self.typ == other.typ
    }
}

impl PartialEqSpecImpl for Token {
    open spec fn obeys_eq_spec() -> bool {
        true
    }

    open spec fn eq_spec(&self, other: &Self) -> bool {
        self@ == other@
    }
}

/// The views of a sequence of tokens, in the same order.
pub open spec fn token_views(tokens: Seq<Token>) -> Seq<TokenView> {
    Seq::new(tokens.len(), |i: int| tokens[i]@)
}

} // verus!
