//! The character cursor the tokenizer scans with: a `MultiPeek` over the
//! characters of a string slice.

use iter_tools::dependency::itertools::MultiPeek;
use iter_tools::Itertools;
use std::str::Chars;
use vstd::prelude::*;

verus! {

/// `itertools::MultiPeek`, an iterator adaptor that can look ahead any number
/// of items. Its fields are private, so a value of it is opaque here.
#[verifier::external_type_specification]
#[verifier::external_body]
#[verifier::reject_recursive_types(I)]
pub struct ExMultiPeek<I: Iterator>(MultiPeek<I>);

/// The characters that a cursor has not yet handed out through `next`, in the
/// order in which it will hand them out.
pub uninterp spec fn remaining(cursor: MultiPeek<Chars<'_>>) -> Seq<char>;

/// How far the cursor's look-ahead stands beyond the next character: the
/// number of `peek` calls that returned a character since the last `next`.
pub uninterp spec fn peeked(cursor: MultiPeek<Chars<'_>>) -> nat;

/// `Itertools::multipeek` on `str::chars`: a fresh cursor over all the
/// characters of `text`, with nothing peeked.
#[verifier::external_body]
pub(crate) fn cursor_over<'a>(text: &'a str) -> (cursor: MultiPeek<Chars<'a>>)
    ensures
        remaining(cursor) == text@,
        peeked(cursor) == 0,
{
    text.chars().multipeek()
}

/// `MultiPeek::next`: hands out the first remaining character, if there is
/// one, and resets the look-ahead.
#[verifier::external_body]
pub(crate) fn cursor_next(cursor: &mut MultiPeek<Chars<'_>>) -> (next: Option<char>)
    ensures
        peeked(*final(cursor)) == 0,
        remaining(*old(cursor)).len() == 0 ==> next.is_none() && remaining(*final(cursor))
            == remaining(*old(cursor)),
        remaining(*old(cursor)).len() > 0 ==> next == Some(remaining(*old(cursor))[0])
            && remaining(*final(cursor)) == remaining(*old(cursor)).drop_first(),
{
    cursor.next()
}

/// `MultiPeek::peek`: returns the character at the look-ahead position
/// without handing it out, and moves the look-ahead one further; at the end
/// of the characters it returns `None` and the look-ahead stays.
#[verifier::external_body]
pub(crate) fn cursor_peek(cursor: &mut MultiPeek<Chars<'_>>) -> (ahead: Option<char>)
    ensures
        remaining(*final(cursor)) == remaining(*old(cursor)),
        peeked(*old(cursor)) < remaining(*old(cursor)).len() ==> ahead == Some(
            remaining(*old(cursor))[peeked(*old(cursor)) as int],
        ) && peeked(*final(cursor)) == peeked(*old(cursor)) + 1,
        peeked(*old(cursor)) >= remaining(*old(cursor)).len() ==> ahead.is_none() && peeked(
            *final(cursor),
        ) == peeked(*old(cursor)),
{
    cursor.peek().copied()
}

} // verus!
