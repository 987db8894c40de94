//! What holds of the value of every line of a given form.
//!
//! The forms are written with a separator between the words. The blank is
//! the usual one; any character that is white space and no token character
//! does the same.

use crate::error::{not_bool_message, not_found_message, ErrorView};
use crate::eval::{eval_spec, eval_tokens_spec};
use crate::token::{TokenType, TokenView};
use crate::tokenizer::{prepend, reserved_words, tokens_of};
use crate::tokenizer_laws::{
    is_reserved, is_run, is_separator, lemma_leading_run, lemma_leading_separator,
    lemma_reserved_words, lemma_single_run,
};
use crate::value::ValueView;
use vstd::prelude::*;

verus! {

/// Whether `word` is a variable name: a run that is spelled like no reserved
/// word.
pub open spec fn is_name(word: Seq<char>) -> bool {
    is_run(reserved_words(), word) && !is_reserved(reserved_words(), word)
}

/// The variable token with the label `name`.
pub open spec fn variable(name: Seq<char>) -> TokenView {
    TokenView { typ: TokenType::Variable, label: name }
}

/// The token of the reserved word `if`.
pub open spec fn if_start() -> TokenView {
    TokenView { typ: TokenType::IfStart, label: "if"@ }
}

/// The token of the reserved word `;`.
pub open spec fn if_end() -> TokenView {
    TokenView { typ: TokenType::IfEnd, label: ";"@ }
}

/// The token of the reserved word `:`.
pub open spec fn if_else() -> TokenView {
    TokenView { typ: TokenType::IfElse, label: ":"@ }
}

/// The line `if <condition> ; <on_true>`, with `sep` between its words.
pub open spec fn conditional(sep: char, condition: Seq<char>, on_true: Seq<char>) -> Seq<char> {
    "if"@ + seq![sep] + condition + seq![sep] + ";"@ + seq![sep] + on_true
}

/// The line `if <condition> ; <on_true> : <on_false>`, with `sep` between
/// its words.
pub open spec fn conditional_else(
    sep: char,
    condition: Seq<char>,
    on_true: Seq<char>,
    on_false: Seq<char>,
) -> Seq<char> {
    conditional(sep, condition, on_true) + seq![sep] + ":"@ + seq![sep] + on_false
}

/// The reserved words are runs.
pub proof fn lemma_reserved_runs()
    ensures
        is_run(reserved_words(), "if"@),
        is_run(reserved_words(), ";"@),
        is_run(reserved_words(), ":"@),
        is_run(reserved_words(), "!"@),
{
    reveal_strlit("if");
    reveal_strlit(";");
    reveal_strlit(":");
    reveal_strlit("!");
    let table = reserved_words();
    assert(table[0].label.contains('i')) by {
        assert(table[0].label[0] == 'i');
    }
    assert(table[0].label.contains('f')) by {
        assert(table[0].label[1] == 'f');
    }
    assert(table[1].label.contains(';')) by {
        assert(table[1].label[0] == ';');
    }
    assert(table[2].label.contains(':')) by {
        assert(table[2].label[0] == ':');
    }
    assert(table[3].label.contains('!')) by {
        assert(table[3].label[0] == '!');
    }
}

/// A word, a separator and more text: the word is the first token, and the
/// other tokens are those of the text after the separator.
pub proof fn lemma_word_then_separator(
    table: Seq<TokenView>,
    word: Seq<char>,
    sep: char,
    rest: Seq<char>,
)
    requires
        is_run(table, word),
        is_separator(table, sep),
    ensures
        tokens_of(table, word + seq![sep] + rest) == prepend(
            seq![crate::tokenizer::classify(table, word)],
            tokens_of(table, rest),
        ),
{
    let tail = seq![sep] + rest;
    assert(tail[0] == sep);
    lemma_leading_run(table, word, tail);
    lemma_leading_separator(table, sep, rest);
    assert(word + seq![sep] + rest =~= word + tail);
}

/// The tokens of a conditional without an `else` branch.
pub proof fn lemma_conditional_tokens(sep: char, condition: Seq<char>, on_true: Seq<char>)
    requires
        is_separator(reserved_words(), sep),
        is_name(condition),
        is_name(on_true),
    ensures
        tokens_of(reserved_words(), conditional(sep, condition, on_true)) == Ok::<
            Seq<TokenView>,
            char,
        >(seq![if_start(), variable(condition), if_end(), variable(on_true)]),
{
    let table = reserved_words();
    lemma_reserved_runs();
    lemma_reserved_words("if"@);
    lemma_reserved_words(";"@);
    reveal_strlit("if");
    reveal_strlit(";");
    let after_end = on_true;
    let after_condition = ";"@ + seq![sep] + after_end;
    let after_if = condition + seq![sep] + after_condition;
    lemma_single_run(table, on_true);
    lemma_word_then_separator(table, ";"@, sep, after_end);
    lemma_single_run(table, condition);
    lemma_word_then_separator(table, condition, sep, after_condition);
    lemma_word_then_separator(table, "if"@, sep, after_if);
    assert(conditional(sep, condition, on_true) =~= "if"@ + seq![sep] + after_if);
    assert(seq![if_end()] + seq![variable(on_true)] =~= seq![if_end(), variable(on_true)]);
    assert(seq![variable(condition)] + seq![if_end(), variable(on_true)] =~= seq![
        variable(condition),
        if_end(),
        variable(on_true),
    ]);
    assert(seq![if_start()] + seq![variable(condition), if_end(), variable(on_true)] =~= seq![
        if_start(),
        variable(condition),
        if_end(),
        variable(on_true),
    ]);
}

/// The tokens of a conditional with an `else` branch.
pub proof fn lemma_conditional_else_tokens(
    sep: char,
    condition: Seq<char>,
    on_true: Seq<char>,
    on_false: Seq<char>,
)
    requires
        is_separator(reserved_words(), sep),
        is_name(condition),
        is_name(on_true),
        is_name(on_false),
    ensures
        tokens_of(reserved_words(), conditional_else(sep, condition, on_true, on_false)) == Ok::<
            Seq<TokenView>,
            char,
        >(
            seq![
                if_start(),
                variable(condition),
                if_end(),
                variable(on_true),
                if_else(),
                variable(on_false),
            ],
        ),
{
    let table = reserved_words();
    lemma_reserved_runs();
    lemma_reserved_words("if"@);
    lemma_reserved_words(";"@);
    lemma_reserved_words(":"@);
    reveal_strlit("if");
    reveal_strlit(";");
    reveal_strlit(":");
    let after_else = on_false;
    let after_true = ":"@ + seq![sep] + after_else;
    let after_end = on_true + seq![sep] + after_true;
    let after_condition = ";"@ + seq![sep] + after_end;
    let after_if = condition + seq![sep] + after_condition;
    lemma_single_run(table, on_false);
    lemma_word_then_separator(table, ":"@, sep, after_else);
    lemma_single_run(table, on_true);
    lemma_word_then_separator(table, on_true, sep, after_true);
    lemma_word_then_separator(table, ";"@, sep, after_end);
    lemma_single_run(table, condition);
    lemma_word_then_separator(table, condition, sep, after_condition);
    lemma_word_then_separator(table, "if"@, sep, after_if);
    assert(conditional_else(sep, condition, on_true, on_false) =~= "if"@ + seq![sep] + after_if);
    let t5 = seq![variable(on_false)];
    let t4 = seq![if_else()] + t5;
    let t3 = seq![variable(on_true)] + t4;
    let t2 = seq![if_end()] + t3;
    let t1 = seq![variable(condition)] + t2;
    let t0 = seq![if_start()] + t1;
    assert(t0 =~= seq![
        if_start(),
        variable(condition),
        if_end(),
        variable(on_true),
        if_else(),
        variable(on_false),
    ]);
}

/// A line that is the name of a bound variable has the value that the name
/// is bound to.
pub proof fn lemma_bound_name(env: Map<Seq<char>, ValueView>, name: Seq<char>)
    requires
        is_name(name),
        env.contains_key(name),
    ensures
        eval_spec(env, name) == Ok::<ValueView, ErrorView>(env[name]),
{
    lemma_single_run(reserved_words(), name);
}

/// A line that is a name that is not bound fails in the parser, with a
/// message that gives the name.
pub proof fn lemma_unbound_name(env: Map<Seq<char>, ValueView>, name: Seq<char>)
    requires
        is_name(name),
        !env.contains_key(name),
    ensures
        eval_spec(env, name) == Err::<ValueView, ErrorView>(
            ErrorView::Parser(not_found_message(name)),
        ),
{
    lemma_single_run(reserved_words(), name);
}

/// A conditional without an `else` branch whose condition holds has the
/// value of its branch.
pub proof fn lemma_conditional_true(
    env: Map<Seq<char>, ValueView>,
    sep: char,
    condition: Seq<char>,
    on_true: Seq<char>,
)
    requires
        is_separator(reserved_words(), sep),
        is_name(condition),
        is_name(on_true),
        env.contains_key(condition),
        env[condition] == ValueView::Bool(true),
        env.contains_key(on_true),
    ensures
        eval_spec(env, conditional(sep, condition, on_true)) == Ok::<ValueView, ErrorView>(
            env[on_true],
        ),
{
    lemma_conditional_tokens(sep, condition, on_true);
}

/// A conditional without an `else` branch whose condition does not hold has
/// the empty value, where the name of its branch is bound.
pub proof fn lemma_conditional_false(
    env: Map<Seq<char>, ValueView>,
    sep: char,
    condition: Seq<char>,
    on_true: Seq<char>,
)
    requires
        is_separator(reserved_words(), sep),
        is_name(condition),
        is_name(on_true),
        env.contains_key(condition),
        env[condition] == ValueView::Bool(false),
        env.contains_key(on_true),
    ensures
        eval_spec(env, conditional(sep, condition, on_true)) == Ok::<ValueView, ErrorView>(
            ValueView::Empty,
        ),
{
    lemma_conditional_tokens(sep, condition, on_true);
}

/// A conditional with an `else` branch has the value of its first branch if
/// the condition holds and that of its `else` branch if not, whatever the
/// kinds of the two values, where the names of both branches are bound.
pub proof fn lemma_conditional_else(
    env: Map<Seq<char>, ValueView>,
    sep: char,
    condition: Seq<char>,
    on_true: Seq<char>,
    on_false: Seq<char>,
    holds: bool,
)
    requires
        is_separator(reserved_words(), sep),
        is_name(condition),
        is_name(on_true),
        is_name(on_false),
        env.contains_key(condition),
        env[condition] == ValueView::Bool(holds),
        env.contains_key(on_true),
        env.contains_key(on_false),
    ensures
        eval_spec(env, conditional_else(sep, condition, on_true, on_false)) == Ok::<
            ValueView,
            ErrorView,
        >(
            if holds {
                env[on_true]
            } else {
                env[on_false]
            },
        ),
{
    lemma_conditional_else_tokens(sep, condition, on_true, on_false);
}

/// A conditional whose condition is bound to a value that is no boolean
/// fails in the parser, with a message that gives the name of the condition.
pub proof fn lemma_condition_not_bool(
    env: Map<Seq<char>, ValueView>,
    sep: char,
    condition: Seq<char>,
    on_true: Seq<char>,
)
    requires
        is_separator(reserved_words(), sep),
        is_name(condition),
        is_name(on_true),
        env.contains_key(condition),
        !(env[condition] is Bool),
    ensures
        eval_spec(env, conditional(sep, condition, on_true)) == Err::<ValueView, ErrorView>(
            ErrorView::Parser(not_bool_message(condition)),
        ),
{
    lemma_conditional_tokens(sep, condition, on_true);
}

/// The value of a line that starts with a name depends on that token alone:
/// the tokens after it are not read.
pub proof fn lemma_tokens_after_name(env: Map<Seq<char>, ValueView>, tokens: Seq<TokenView>)
    requires
        tokens.len() > 0,
        tokens[0].typ == TokenType::Variable,
    ensures
        eval_tokens_spec(env, tokens) == eval_tokens_spec(env, seq![tokens[0]]),
{
}

/// The value of a conditional with an `else` branch depends on its first six
/// tokens alone: the tokens after the `else` branch are not read.
pub proof fn lemma_tokens_after_else(env: Map<Seq<char>, ValueView>, tokens: Seq<TokenView>)
    requires
        tokens.len() >= 6,
        tokens[0].typ == TokenType::IfStart,
    ensures
        eval_tokens_spec(env, tokens) == eval_tokens_spec(env, tokens.take(6)),
{
}

} // verus!
