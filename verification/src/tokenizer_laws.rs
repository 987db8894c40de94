//! What holds of the tokens of every line.

use crate::text::whitespace;
use crate::token::{TokenType, TokenView};
use crate::tokenizer::{
    chars_left, classify, classify_from, is_token_char, is_unknown_char, prepend, reserved_words,
    run_len, scan_from, tokens_of,
};
use vstd::prelude::*;

verus! {

/// Whether `c` separates tokens: it is white space and no token character.
pub open spec fn is_separator(table: Seq<TokenView>, c: char) -> bool {
    whitespace(c) && !is_token_char(table, c)
}

/// Whether `word` can be a token: it is not empty and made of token
/// characters alone.
pub open spec fn is_run(table: Seq<TokenView>, word: Seq<char>) -> bool {
    word.len() > 0 && forall|i: int| 0 <= i < word.len() ==> is_token_char(table, #[trigger] word[i])
}

/// Whether `word` is spelled like one of the reserved words `table`.
pub open spec fn is_reserved(table: Seq<TokenView>, word: Seq<char>) -> bool {
    exists|i: int| 0 <= i < table.len() && (#[trigger] table[i]).label == word
}

/// Whether position `i` holds the first character of `text` that is neither
/// a token character nor white space.
pub open spec fn is_first_unknown(table: Seq<TokenView>, text: Seq<char>, i: int) -> bool {
    &&& 0 <= i < text.len()
    &&& is_unknown_char(table, text[i])
    &&& forall|j: int| 0 <= j < i ==> !is_unknown_char(table, #[trigger] text[j])
}

/// A run of token characters from `from` to `to` that ends at the end of the
/// text or before another character has the length `to - from`.
pub proof fn lemma_run_len(table: Seq<TokenView>, text: Seq<char>, from: int, to: int)
    requires
        0 <= from <= to <= text.len(),
        forall|i: int| from <= i < to ==> is_token_char(table, #[trigger] text[i]),
        to == text.len() || !is_token_char(table, text[to]),
    ensures
        run_len(table, text, from) == to - from,
    decreases to - from,
{
    if from < to {
        lemma_run_len(table, text, from + 1, to);
    }
}

/// The run that starts at `from` stays inside the text, holds token
/// characters alone, and ends at the end of the text or before a character
/// that is no token character.
pub proof fn lemma_run_extent(table: Seq<TokenView>, text: Seq<char>, from: int)
    requires
        0 <= from <= text.len(),
    ensures
        from + run_len(table, text, from) <= text.len(),
        forall|i: int|
            from <= i < from + run_len(table, text, from) ==> is_token_char(
                table,
                #[trigger] text[i],
            ),
        from + run_len(table, text, from) == text.len() || !is_token_char(
            table,
            text[from + run_len(table, text, from)],
        ),
    decreases text.len() - from,
{
    if from < text.len() && is_token_char(table, text[from]) {
        lemma_run_extent(table, text, from + 1);
    }
}

/// A word that is spelled like no reserved word is classified as a variable
/// of that name; any word keeps its spelling as the label of its token.
pub proof fn lemma_classify(table: Seq<TokenView>, word: Seq<char>, from: int)
    requires
        0 <= from,
    ensures
        classify_from(table, word, from).label == word,
        (forall|i: int| from <= i < table.len() ==> (#[trigger] table[i]).label != word)
            ==> classify_from(table, word, from) == (TokenView {
            typ: TokenType::Variable,
            label: word,
        }),
        (exists|i: int| from <= i < table.len() && (#[trigger] table[i]).label == word) ==> exists|
            i: int,
        |
            from <= i < table.len() && (#[trigger] table[i]).label == word && classify_from(
                table,
                word,
                from,
            ) == table[i],
    decreases table.len() - from,
{
    if from < table.len() && table[from].label != word {
        lemma_classify(table, word, from + 1);
        if exists|i: int| from <= i < table.len() && (#[trigger] table[i]).label == word {
            let i = choose|i: int| from <= i < table.len() && (#[trigger] table[i]).label == word;
            assert(from + 1 <= i < table.len() && table[i].label == word);
        }
    }
}

/// The outcome of scanning from `from` on: a failure names the first
/// character from there on that is neither a token character nor white
/// space, and a success means that there is none.
pub proof fn lemma_scan_outcome(table: Seq<TokenView>, text: Seq<char>, from: int)
    requires
        0 <= from <= text.len(),
    ensures
        match scan_from(table, text, from) {
            Ok(_) => forall|i: int|
                from <= i < text.len() ==> !is_unknown_char(table, #[trigger] text[i]),
            Err(c) => exists|i: int|
                from <= i < text.len() && #[trigger] text[i] == c && is_unknown_char(table, c)
                    && forall|j: int| from <= j < i ==> !is_unknown_char(table, #[trigger] text[j]),
        },
    decreases text.len() - from,
{
    if from >= text.len() {
    } else if is_token_char(table, text[from]) {
        lemma_run_extent(table, text, from + 1);
        let end = from + 1 + run_len(table, text, from + 1);
        lemma_scan_outcome(table, text, end);
        match scan_from(table, text, end) {
            Ok(_) => {},
            Err(c) => {
                let i = choose|i: int|
                    end <= i < text.len() && #[trigger] text[i] == c && is_unknown_char(table, c)
                        && forall|j: int| end <= j < i ==> !is_unknown_char(table, #[trigger] text[j]);
                assert(from <= i < text.len() && text[i] == c);
            },
        }
    } else if whitespace(text[from]) {
        lemma_scan_outcome(table, text, from + 1);
        match scan_from(table, text, from + 1) {
            Ok(_) => {},
            Err(c) => {
                let i = choose|i: int|
                    from + 1 <= i < text.len() && #[trigger] text[i] == c && is_unknown_char(
                        table,
                        c,
                    ) && forall|j: int|
                        from + 1 <= j < i ==> !is_unknown_char(table, #[trigger] text[j]);
                assert(from <= i < text.len() && text[i] == c);
            },
        }
    } else {
        assert(text[from] == text[from]);
    }
}

/// A line fails to tokenize exactly when it holds a character that is
/// neither a token character nor white space, and the failure then names
/// the first such character.
pub proof fn lemma_fails_on_unknown_char(table: Seq<TokenView>, text: Seq<char>)
    ensures
        tokens_of(table, text) is Err <==> exists|i: int|
            0 <= i < text.len() && is_unknown_char(table, #[trigger] text[i]),
        tokens_of(table, text) matches Err(c) ==> exists|i: int|
            is_first_unknown(table, text, i) && #[trigger] text[i] == c,
{
    lemma_scan_outcome(table, text, 0);
    match tokens_of(table, text) {
        Ok(_) => {},
        Err(c) => {
            let i = choose|i: int|
                0 <= i < text.len() && #[trigger] text[i] == c && is_unknown_char(table, c)
                    && forall|j: int| 0 <= j < i ==> !is_unknown_char(table, #[trigger] text[j]);
            assert(is_first_unknown(table, text, i) && text[i] == c);
        },
    }
}

/// The empty line has no tokens, and that is no failure.
pub proof fn lemma_empty_line(table: Seq<TokenView>)
    ensures
        tokens_of(table, Seq::<char>::empty()) == Ok::<Seq<TokenView>, char>(Seq::empty()),
{
}

/// From any position on, a text that holds separators alone has no tokens.
pub proof fn lemma_separators_from(table: Seq<TokenView>, text: Seq<char>, from: int)
    requires
        0 <= from,
        forall|i: int| from <= i < text.len() ==> is_separator(table, #[trigger] text[i]),
    ensures
        scan_from(table, text, from) == Ok::<Seq<TokenView>, char>(Seq::empty()),
    decreases chars_left(text, from),
{
    if from < text.len() {
        assert(is_separator(table, text[from]));
        lemma_separators_from(table, text, from + 1);
    }
}

/// A line that holds separators alone has no tokens, and that is no failure.
pub proof fn lemma_only_separators(table: Seq<TokenView>, text: Seq<char>)
    requires
        forall|i: int| 0 <= i < text.len() ==> is_separator(table, #[trigger] text[i]),
    ensures
        tokens_of(table, text) == Ok::<Seq<TokenView>, char>(Seq::empty()),
{
    lemma_separators_from(table, text, 0);
}

/// The length of a run does not depend on what stands before its start.
pub proof fn lemma_run_len_suffix(table: Seq<TokenView>, before: Seq<char>, text: Seq<char>, from: int)
    requires
        0 <= from <= text.len(),
    ensures
        run_len(table, before + text, before.len() + from) == run_len(table, text, from),
    decreases text.len() - from,
{
    if from < text.len() {
        assert((before + text)[before.len() + from] == text[from]);
        lemma_run_len_suffix(table, before, text, from + 1);
    }
}

/// The tokens from a position on do not depend on what stands before it.
pub proof fn lemma_scan_suffix(table: Seq<TokenView>, before: Seq<char>, text: Seq<char>, from: int)
    requires
        0 <= from <= text.len(),
    ensures
        scan_from(table, before + text, before.len() + from) == scan_from(table, text, from),
    decreases text.len() - from,
{
    let whole = before + text;
    let shift = before.len() as int;
    if from < text.len() {
        assert(whole[shift + from] == text[from]);
        if is_token_char(table, text[from]) {
            lemma_run_len_suffix(table, before, text, from + 1);
            lemma_run_extent(table, text, from + 1);
            let end = from + 1 + run_len(table, text, from + 1);
            assert(whole.subrange(shift + from, shift + end) =~= text.subrange(from, end));
            lemma_scan_suffix(table, before, text, end);
        } else if whitespace(text[from]) {
            lemma_scan_suffix(table, before, text, from + 1);
        }
    }
}

/// A run at the start of a line, followed by the end of the line or by a
/// character that is no token character, is the first token of the line;
/// the other tokens are those of what follows the run.
pub proof fn lemma_leading_run(table: Seq<TokenView>, word: Seq<char>, rest: Seq<char>)
    requires
        is_run(table, word),
        rest.len() == 0 || !is_token_char(table, rest[0]),
    ensures
        tokens_of(table, word + rest) == prepend(seq![classify(table, word)], tokens_of(table, rest)),
{
    let text = word + rest;
    let end = word.len() as int;
    assert forall|i: int| 0 <= i < end implies is_token_char(table, #[trigger] text[i]) by {
        assert(text[i] == word[i]);
    }
    if rest.len() > 0 {
        assert(text[end] == rest[0]);
    }
    lemma_run_len(table, text, 1, end);
    assert(text.subrange(0, end) =~= word);
    lemma_scan_suffix(table, word, rest, 0);
}

/// A separator at the start of a line adds no token.
pub proof fn lemma_leading_separator(table: Seq<TokenView>, sep: char, rest: Seq<char>)
    requires
        is_separator(table, sep),
    ensures
        tokens_of(table, seq![sep] + rest) == tokens_of(table, rest),
{
    let text = seq![sep] + rest;
    assert(text[0] == sep);
    lemma_scan_suffix(table, seq![sep], rest, 0);
}

/// A line that is one run has one token, the one that the run is classified
/// as: a reserved word only where the whole run is spelled like it, else a
/// variable that is named by the whole run.
pub proof fn lemma_single_run(table: Seq<TokenView>, word: Seq<char>)
    requires
        is_run(table, word),
    ensures
        tokens_of(table, word) == Ok::<Seq<TokenView>, char>(seq![classify(table, word)]),
        classify(table, word).label == word,
        !is_reserved(table, word) ==> classify(table, word) == (TokenView {
            typ: TokenType::Variable,
            label: word,
        }),
        is_reserved(table, word) ==> exists|i: int|
            0 <= i < table.len() && #[trigger] table[i] == classify(table, word),
{
    lemma_leading_run(table, word, Seq::<char>::empty());
    assert(word + Seq::<char>::empty() =~= word);
    assert(seq![classify(table, word)] + Seq::<TokenView>::empty() =~= seq![classify(table, word)]);
    lemma_classify(table, word, 0);
    if is_reserved(table, word) {
        let i = choose|i: int|
            0 <= i < table.len() && (#[trigger] table[i]).label == word && classify_from(
                table,
                word,
                0,
            ) == table[i];
        assert(table[i] == classify(table, word));
    }
}

/// Whether `token` is what a run of a line is classified as: its label is
/// a run, and the token is the classification of its label.
pub open spec fn is_token_of_run(table: Seq<TokenView>, token: TokenView) -> bool {
    is_run(table, token.label) && token == classify(table, token.label)
}

/// Every token from a position on is the classification of a run.
pub proof fn lemma_scanned_tokens(table: Seq<TokenView>, text: Seq<char>, from: int)
    requires
        0 <= from <= text.len(),
    ensures
        scan_from(table, text, from) matches Ok(tokens) ==> forall|k: int|
            0 <= k < tokens.len() ==> is_token_of_run(table, #[trigger] tokens[k]),
    decreases text.len() - from,
{
    if from >= text.len() {
    } else if is_token_char(table, text[from]) {
        lemma_run_extent(table, text, from + 1);
        let end = from + 1 + run_len(table, text, from + 1);
        let word = text.subrange(from, end);
        lemma_scanned_tokens(table, text, end);
        lemma_classify(table, word, 0);
        assert forall|i: int| 0 <= i < word.len() implies is_token_char(table, #[trigger] word[i]) by {
            assert(word[i] == text[from + i]);
        }
        assert(is_token_of_run(table, classify(table, word)));
        match scan_from(table, text, end) {
            Ok(more) => {
                let tokens = seq![classify(table, word)] + more;
                assert forall|k: int| 0 <= k < tokens.len() implies is_token_of_run(
                    table,
                    #[trigger] tokens[k],
                ) by {
                    if k > 0 {
                        assert(tokens[k] == more[k - 1]);
                    }
                }
            },
            Err(_) => {},
        }
    } else if whitespace(text[from]) {
        lemma_scanned_tokens(table, text, from + 1);
    }
}

/// Every token of a line is the classification of a run: its label is not
/// empty and holds token characters alone, and it is a variable unless its
/// label is spelled like a reserved word.
pub proof fn lemma_tokens_are_runs(table: Seq<TokenView>, text: Seq<char>)
    ensures
        tokens_of(table, text) matches Ok(tokens) ==> forall|k: int|
            0 <= k < tokens.len() ==> is_token_of_run(table, #[trigger] tokens[k]),
{
    lemma_scanned_tokens(table, text, 0);
}

/// The classification of a word by the reserved words of the language.
pub proof fn lemma_reserved_words(word: Seq<char>)
    ensures
        classify(reserved_words(), word) == if word == "if"@ {
            TokenView { typ: TokenType::IfStart, label: word }
        } else if word == ";"@ {
            TokenView { typ: TokenType::IfEnd, label: word }
        } else if word == ":"@ {
            TokenView { typ: TokenType::IfElse, label: word }
        } else if word == "!"@ {
            TokenView { typ: TokenType::IfNegate, label: word }
        } else {
            TokenView { typ: TokenType::Variable, label: word }
        },
{
    reveal_with_fuel(classify_from, 5);
}

} // verus!
