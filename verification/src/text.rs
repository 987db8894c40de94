//! Character classes and string building blocks that the standard library
//! provides and that the tokenizer and the error messages rest on.

use vstd::prelude::*;

verus! {

/// Whether `c` is alphanumeric in the sense of `char::is_alphanumeric`: a
/// letter or a number according to the Unicode character database.
pub uninterp spec fn alphanumeric(c: char) -> bool;

/// Whether `c` is white space in the sense of `char::is_whitespace`: a
/// character with the Unicode property `White_Space`.
pub uninterp spec fn whitespace(c: char) -> bool;

/// `char::is_alphanumeric` decides `alphanumeric`; nothing more is claimed
/// of it than that it depends on the character alone.
pub assume_specification[ char::is_alphanumeric ](c: char) -> (r: bool)
    ensures
        r == alphanumeric(c),
;

/// `char::is_whitespace` decides `whitespace`; nothing more is claimed of it
/// than that it depends on the character alone.
pub assume_specification[ char::is_whitespace ](c: char) -> (r: bool)
    ensures
        r == whitespace(c),
;

/// `String::push` appends one character to the end of the string.
pub assume_specification[ String::push ](s: &mut String, c: char)
    ensures
        final(s)@ == old(s)@.push(c),
;

/// `String::clear` removes all the characters of the string.
pub assume_specification[ String::clear ](s: &mut String)
    ensures
        final(s)@ == Seq::<char>::empty(),
;

/// Whether `c` occurs in `text`.
pub fn contains_char(text: &String, c: char) -> (found: bool)
    ensures
        found == text@.contains(c),
{
    let chars = text.as_str();
    let len: usize = chars.unicode_len();
    let mut i: usize = 0;
    while i < len
        invariant
            chars@ == text@,
            len == chars@.len(),
            i <= len,
            forall|j: int| 0 <= j < i ==> chars@[j] != c,
        decreases len - i,
    {
        if chars.get_char(i) == c {
            assert(text@[i as int] == c);
            return true;
        }
        i += 1;
    }
    false
}

} // verus!
