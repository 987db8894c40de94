//! The tokenizer: the lexical scanner that turns a line of text into a
//! sequence of tokens.
//!
//! A token is a maximal run of token characters. A run whose text is exactly
//! a reserved word becomes that word's token; any other run becomes a
//! `Variable` token with the run as its label. White space separates runs.
//! Any other character makes the whole line fail.

use crate::error::{unknown_token_message, ErrorView, TauschError};
use crate::lookahead::{cursor_next, cursor_over, cursor_peek, peeked, remaining};
use crate::text::{alphanumeric, contains_char, whitespace};
use crate::token::{token_views, Token, TokenType, TokenView};
use crate::tokenizer_laws::{lemma_fails_on_unknown_char, lemma_run_len};
use vstd::prelude::*;
use vstd::string::StringExecFns;

verus! {

/// The reserved words of the language, each with the kind of its token.
pub open spec fn reserved_words() -> Seq<TokenView> {
    seq![
        TokenView { typ: TokenType::IfStart, label: "if"@ },
        TokenView { typ: TokenType::IfEnd, label: ";"@ },
        TokenView { typ: TokenType::IfElse, label: ":"@ },
        TokenView { typ: TokenType::IfNegate, label: "!"@ },
    ]
}

/// Whether `c` may stand in a variable name: an alphanumeric character or an
/// underscore.
pub open spec fn is_variable_char(c: char) -> bool {
    alphanumeric(c) || c == '_'
}

/// Whether `c` occurs in the spelling of one of the reserved words `table`.
pub open spec fn is_reserved_char(table: Seq<TokenView>, c: char) -> bool {
    exists|i: int| 0 <= i < table.len() && (#[trigger] table[i]).label.contains(c)
}

/// Whether `c` may stand in a token: a variable character or a character of
/// a reserved word.
pub open spec fn is_token_char(table: Seq<TokenView>, c: char) -> bool {
    is_variable_char(c) || is_reserved_char(table, c)
}

/// Whether `c` makes a line fail: it is neither a token character nor white
/// space.
pub open spec fn is_unknown_char(table: Seq<TokenView>, c: char) -> bool {
    !is_token_char(table, c) && !whitespace(c)
}

/// The token for the run `word`, looking for its spelling among the reserved
/// words from position `from` on: the first reserved word with that spelling,
/// else a variable named `word`.
pub open spec fn classify_from(table: Seq<TokenView>, word: Seq<char>, from: int) -> TokenView
    decreases table.len() - from,
{
    if from < 0 || from >= table.len() {
        TokenView { typ: TokenType::Variable, label: word }
    } else if table[from].label == word {
        table[from]
    } else {
        classify_from(table, word, from + 1)
    }
}

/// The token for the run `word`.
pub open spec fn classify(table: Seq<TokenView>, word: Seq<char>) -> TokenView {
    classify_from(table, word, 0)
}

/// The number of token characters that stand in `text` from position `from`
/// on without interruption.
pub open spec fn run_len(table: Seq<TokenView>, text: Seq<char>, from: int) -> nat
    decreases text.len() - from,
{
    if 0 <= from < text.len() && is_token_char(table, text[from]) {
        1 + run_len(table, text, from + 1)
    } else {
        0
    }
}

/// The number of characters of `text` from position `from` on.
pub open spec fn chars_left(text: Seq<char>, from: int) -> nat {
    if from < text.len() {
        (text.len() - from) as nat
    } else {
        0
    }
}

/// `tokens` in front of what `rest` holds, where `rest` is a success.
pub open spec fn prepend(tokens: Seq<TokenView>, rest: Result<Seq<TokenView>, char>) -> Result<
    Seq<TokenView>,
    char,
> {
    match rest {
        Ok(more) => Ok(tokens + more),
        Err(c) => Err(c),
    }
}

/// The tokens of `text` from position `from` on, or the first character from
/// there on that belongs to no token and is not white space.
pub open spec fn scan_from(table: Seq<TokenView>, text: Seq<char>, from: int) -> Result<
    Seq<TokenView>,
    char,
>
    decreases chars_left(text, from),
{
    if from < 0 || from >= text.len() {
        Ok(Seq::empty())
    } else if is_token_char(table, text[from]) {
        let end = from + 1 + run_len(table, text, from + 1);
        prepend(seq![classify(table, text.subrange(from, end))], scan_from(table, text, end))
    } else if whitespace(text[from]) {
        scan_from(table, text, from + 1)
    } else {
        Err(text[from])
    }
}

/// The tokens of the line `text`, or the first character of it that belongs
/// to no token and is not white space.
pub open spec fn tokens_of(table: Seq<TokenView>, text: Seq<char>) -> Result<Seq<TokenView>, char> {
    scan_from(table, text, 0)
}

/// The tokenizer: it holds the table of reserved words, which is fixed when
/// the tokenizer is made.
pub struct Tokenizer {
    reserved_tokens: Vec<Token>,
}

impl View for Tokenizer {
    type V = Seq<TokenView>;

    /// The table of reserved words.
    closed spec fn view(&self) -> Seq<TokenView> {
        token_views(self.reserved_tokens@)
    }
}

impl Tokenizer {
    /// A tokenizer for the reserved words `if`, `;`, `:` and `!`.
    pub fn new() -> (tokenizer: Tokenizer)
        ensures
            tokenizer@ == reserved_words(),
    {
        let reserved_toks = vec![
            Token { typ: TokenType::IfStart, label: String::from_str("if") },
            Token { typ: TokenType::IfEnd, label: String::from_str(";") },
            Token { typ: TokenType::IfElse, label: String::from_str(":") },
            Token { typ: TokenType::IfNegate, label: String::from_str("!") },
        ];
        let tokenizer = Tokenizer { reserved_tokens: reserved_toks };
        assert(tokenizer@ =~= reserved_words());
        tokenizer
    }

    /// Whether `c` may stand in a variable name.
    pub fn is_allowed_var_name(&self, c: char) -> (allowed: bool)
        ensures
            allowed == is_variable_char(c),
    {
        c.is_alphanumeric() || c == '_'
    }

    /// Whether `c` may stand in a token.
    pub fn is_allowed_token(&self, c: char) -> (allowed: bool)
        ensures
            allowed == is_token_char(self@, c),
    {
        if self.is_allowed_var_name(c) {
            return true;
        }
        let mut i: usize = 0;
        while i < self.reserved_tokens.len()
            invariant
                i <= self.reserved_tokens@.len(),
                forall|j: int| 0 <= j < i ==> !(#[trigger] self@[j]).label.contains(c),
            decreases self.reserved_tokens@.len() - i,
        {
            if contains_char(&self.reserved_tokens[i].label, c) {
                assert(self@[i as int].label.contains(c));
                return true;
            }
            i += 1;
        }
        false
    }

    /// The token for the run `word`: the reserved word that is spelled so, or
    /// a variable of that name.
    pub fn classify(&self, word: &String) -> (token: Token)
        ensures
            token@ == classify(self@, word@),
    {
        let mut i: usize = 0;
        while i < self.reserved_tokens.len()
            invariant
                i <= self.reserved_tokens@.len(),
                classify(self@, word@) == classify_from(self@, word@, i as int),
            decreases self.reserved_tokens@.len() - i,
        {
            if self.reserved_tokens[i].label == *word {
                return self.reserved_tokens[i].clone();
            }
            i += 1;
        }
        Token { typ: TokenType::Variable, label: word.clone() }
    }

    /// The tokens of the line `input`, in the order in which they stand in
    /// it. A character that is neither a token character nor white space
    /// makes the call fail with an error that names the first such
    /// character; no token is returned then.
    pub fn tokenize(&self, input: String) -> (res: Result<Vec<Token>, TauschError>)
        ensures
            match tokens_of(self@, input@) {
                Ok(tokens) => res matches Ok(found) && token_views(found@) == tokens,
                Err(c) => res matches Err(error) && error@ == ErrorView::Tokenizer(
                    unknown_token_message(c),
                ),
            },
            res is Err <==> exists|i: int|
                0 <= i < input@.len() && is_unknown_char(self@, #[trigger] input@[i]),
    {
        proof {
            lemma_fails_on_unknown_char(self@, input@);
        }
        let mut toks: Vec<Token> = Vec::new();
        let mut temp_string = String::new();
        let mut iter = cursor_over(input.as_str());
        let ghost text = input@;
        let ghost table = self@;
        let ghost mut pos: int = 0;
        assert(text.skip(0) =~= text);
        assert(token_views(toks@) =~= Seq::<TokenView>::empty());
        loop
            invariant
                table == self@,
                text == input@,
                0 <= pos <= text.len(),
                remaining(iter) == text.skip(pos),
                tokens_of(table, text) == prepend(
                    token_views(toks@),
                    scan_from(table, text, pos),
                ),
            ensures
                tokens_of(table, text) == Ok::<Seq<TokenView>, char>(token_views(toks@)),
            decreases text.len() - pos,
        {
            let next = cursor_next(&mut iter);
            if next.is_none() {
                assert(token_views(toks@) + Seq::<TokenView>::empty() =~= token_views(toks@));
                break;
            }
            let c = next.unwrap();
            assert(c == text[pos]);
            assert(text.skip(pos).drop_first() =~= text.skip(pos + 1));
            if self.is_allowed_token(c) {
                temp_string.clear();
                temp_string.push(c);
                let ghost mut end: int = pos + 1;
                assert(temp_string@ =~= text.subrange(pos, end));
                loop
                    invariant_except_break
                        peeked(iter) == 0,
                    invariant
                        table == self@,
                        0 <= pos < end <= text.len(),
                        remaining(iter) == text.skip(end),
                        temp_string@ == text.subrange(pos, end),
                        forall|i: int| pos <= i < end ==> is_token_char(table, #[trigger] text[i]),
                    ensures
                        0 <= pos < end <= text.len(),
                        remaining(iter) == text.skip(end),
                        temp_string@ == text.subrange(pos, end),
                        forall|i: int| pos <= i < end ==> is_token_char(table, #[trigger] text[i]),
                        end == text.len() || !is_token_char(table, text[end]),
                    decreases text.len() - end,
                {
                    let ahead = cursor_peek(&mut iter);
                    match ahead {
                        Some(pek) => {
                            assert(pek == text[end]);
                            if self.is_allowed_token(pek) {
                                temp_string.push(pek);
                                let _ = cursor_next(&mut iter);
                                proof {
                                    assert(text.skip(end).drop_first() =~= text.skip(end + 1));
                                    assert(temp_string@ =~= text.subrange(pos, end + 1));
                                    end = end + 1;
                                }
                            } else {
                                break;
                            }
                        },
                        None => {
                            break;
                        },
                    }
                }
                let tok = self.classify(&temp_string);
                proof {
                    lemma_run_len(table, text, pos + 1, end);
                    let rest = scan_from(table, text, end);
                    assert(scan_from(table, text, pos) == prepend(seq![tok@], rest));
                    assert(token_views(toks@.push(tok)) =~= token_views(toks@) + seq![tok@]);
                    match rest {
                        Ok(more) => {
                            assert(token_views(toks@) + (seq![tok@] + more) =~= (token_views(toks@)
                                + seq![tok@]) + more);
                        },
                        Err(_) => {},
                    }
                    pos = end;
                }
                toks.push(tok);
            } else if c.is_whitespace() {
                temp_string.clear();
                proof {
                    pos = pos + 1;
                }
            } else {
                return Err(TauschError::unknown_token(c));
            }
        }
        Ok(toks)
    }
}

} // verus!
