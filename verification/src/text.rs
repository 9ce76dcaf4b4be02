use vstd::prelude::*;

verus! {

/// The characters of `s`, in order.
pub fn chars_of(s: &str) -> (chars: Vec<char>)
    ensures
        chars@ == s@,
{
    let mut chars: Vec<char> = Vec::new();
    for c in it: s.chars()
        invariant
            it.seq() == s@,
            chars@ == s@.take(it.index() as int),
    {
        chars.push(c);
    }
    chars
}

/// Collects characters into a `String` with `Iterator::collect`. The contract claims what
/// `FromIterator<char> for String` documents: the string holds the characters, in order.
#[verifier::external_body]
pub(crate) fn text_of(chars: &Vec<char>) -> (text: String)
    ensures
        text@ == chars@,
{
    chars.iter().collect()
}

/// The characters that `char::to_uppercase` yields for `c`, in order: the upper case of `c`
/// as Unicode defines it, which may be several characters, or `c` itself where it has none.
pub uninterp spec fn char_to_uppercase(c: char) -> Seq<char>;

/// Calls `char::to_uppercase` and collects what it yields. Believed, not proved: the result
/// depends on the character alone.
#[verifier::external_body]
pub(crate) fn uppercase(c: char) -> (upper: Vec<char>)
    ensures
        upper@ == char_to_uppercase(c),
{
    c.to_uppercase().collect()
}

/// Whether `c` is white space: whether Unicode gives it the property `White_Space`. These
/// are the tab, the line feed, the vertical tab, the form feed, the carriage return and the
/// space; the next line and the no-break space; and the spaces and separators U+1680,
/// U+2000 to U+200A, U+2028, U+2029, U+202F, U+205F and U+3000.
pub open spec fn char_is_whitespace(c: char) -> bool {
    let code = c as u32;
    ||| 0x09 <= code <= 0x0D
    ||| code == 0x20
    ||| code == 0x85
    ||| code == 0xA0
    ||| code == 0x1680
    ||| 0x2000 <= code <= 0x200A
    ||| code == 0x2028
    ||| code == 0x2029
    ||| code == 0x202F
    ||| code == 0x205F
    ||| code == 0x3000
}

/// Calls `char::is_whitespace`. Believed, not proved: it tells whether the character has
/// Unicode's property `White_Space`, as std documents it, and the characters that have it
/// are those that [`char_is_whitespace`] lists.
#[verifier::external_body]
pub(crate) fn whitespace(c: char) -> (is: bool)
    ensures
        is == char_is_whitespace(c),
{
    c.is_whitespace()
}

} // verus!
