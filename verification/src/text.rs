//! Text as the rest of the library needs it: what the standard library and
//! the crate `unicode_width` say of characters and strings, and the
//! comparison of strings.

use unicode_width::{UnicodeWidthChar, UnicodeWidthStr};
use vstd::prelude::*;
use vstd::utf8::*;

verus! {

/// The number of columns that `unicode_width` gives a character, or nothing
/// for a control character.
pub uninterp spec fn char_width(c: char) -> Option<usize>;

/// The number of columns that `unicode_width` gives a text.
pub uninterp spec fn text_width(text: Seq<char>) -> usize;

/// Whether `char::is_whitespace` holds of a character.
pub uninterp spec fn white_space(c: char) -> bool;

/// The words of a text: its longest runs of characters that are no white
/// space, in their order.
pub open spec fn words_of(text: Seq<char>) -> Seq<Seq<char>>
    decreases text.len(),
{
    if text.len() == 0 {
        Seq::empty()
    } else {
        let head = words_of(text.drop_last());
        if white_space(text.last()) {
            head
        } else if text.len() >= 2 && !white_space(text[text.len() - 2]) && head.len() > 0 {
            head.drop_last().push(head.last().push(text.last()))
        } else {
            head.push(seq![text.last()])
        }
    }
}

/// Whether `pattern` stands in `text` at index `at`.
pub open spec fn stands_at(text: Seq<char>, pattern: Seq<char>, at: int) -> bool {
    0 <= at && at + pattern.len() <= text.len() && text.subrange(at, at + pattern.len()) == pattern
}

/// The text without the first place where the pattern stands in it; the
/// text itself where the pattern stands nowhere.
pub open spec fn without_first(text: Seq<char>, pattern: Seq<char>) -> Seq<char> {
    if exists|at: int| stands_at(text, pattern, at) {
        let first = choose|at: int|
            stands_at(text, pattern, at) && forall|before: int|
                0 <= before < at ==> !stands_at(text, pattern, before);
        text.take(first) + text.skip(first + pattern.len())
    } else {
        text
    }
}

/// `UnicodeWidthChar::width` of the crate `unicode_width`: the width of a
/// character in columns, which depends on the character alone.
#[verifier::external_body]
pub(crate) fn width_of(c: char) -> (w: Option<usize>)
    ensures
        w == char_width(c),
{
    UnicodeWidthChar::width(c)
}

/// `UnicodeWidthStr::width` of the crate `unicode_width`: the width of a
/// text in columns, which depends on the text alone.
#[verifier::external_body]
pub(crate) fn width_of_text(text: &str) -> (w: usize)
    ensures
        w == text_width(text@),
{
    UnicodeWidthStr::width(text)
}

/// `char::is_whitespace`: whether the character has the Unicode property
/// `White_Space`, which depends on the character alone.
pub assume_specification[ char::is_whitespace ](c: char) -> (b: bool)
    ensures
        b == white_space(c),
;

/// `String::push`: appends one character to the string.
pub assume_specification[ String::push ](s: &mut String, ch: char)
    ensures
        final(s)@ == old(s)@.push(ch),
;

/// `str::split_whitespace`: the parts of the text that white space
/// separates, in their order. However much white space stands between two
/// parts, before the first or behind the last, no part is empty.
#[verifier::external_body]
pub(crate) fn split_words<'a>(text: &'a str) -> (words: Vec<&'a str>)
    ensures
        words.deep_view() == words_of(text@),
{
    text.split_whitespace().collect()
}

/// `str::replacen` with nothing to put in and a count of one: the text
/// without the first match of the pattern, or a copy of the text where
/// nothing matches.
#[verifier::external_body]
pub(crate) fn remove_first(text: &str, pattern: &str) -> (r: String)
    ensures
        r@ == without_first(text@, pattern@),
{
    text.replacen(pattern, "", 1)
}

/// `std::str::from_utf8`: the bytes as a string slice where they are valid
/// UTF-8, and nothing where they are not. The slice it gives holds the
/// bytes it was given.
#[verifier::external_body]
pub(crate) fn str_from_utf8(bytes: &[u8]) -> (r: Option<&str>)
    ensures
        r is Some <==> valid_utf8(bytes@),
        r matches Some(s) ==> encode_utf8(s@) == bytes@,
{
    std::str::from_utf8(bytes).ok()
}

/// Whether two string slices hold the same text.
pub fn str_eq(a: &str, b: &str) -> (r: bool)
    ensures
        r == (a@ == b@),
{
    let x = a.as_bytes();
    let y = b.as_bytes();
    proof {
        encode_utf8_decode_utf8(a@);
        encode_utf8_decode_utf8(b@);
    }
    if x.len() != y.len() {
        return false;
    }
    let mut i: usize = 0;
    while i < x.len()
        invariant
            i <= x.len(),
            x.len() == y.len(),
            forall|j: int| 0 <= j < i ==> x@[j] == y@[j],
            a@ == b@ ==> x@ == y@,
        decreases x.len() - i,
    {
        if x[i] != y[i] {
            return false;
        }
        i += 1;
    }
    assert(x@ =~= y@);
    true
}

} // verus!
