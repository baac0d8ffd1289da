//! Strings and characters.

use vstd::prelude::*;

verus! {

/// The models of a list of strings.
pub open spec fn strings(s: Seq<String>) -> Seq<Seq<char>> {
    Seq::new(s.len(), |i: int| s[i]@)
}

/// Whether a text is a given one.
pub fn same_text(a: &String, b: &str) -> (r: bool)
    ensures
        r == (a@ == b@),
{
    let b: String = b.to_owned();
    *a == b
}

/// The characters of a text.
pub fn chars_of(text: &str) -> (r: Vec<char>)
    ensures
        r@ == text@,
{
    let mut r: Vec<char> = Vec::new();
    for c in it: text.chars()
        invariant
            it.seq() == text@,
            r@ == text@.take(it.index() as int),
    {
        r.push(c);
        assert(r@ =~= text@.take(it.index() as int + 1));
    }
    assert(text@.take(text@.len() as int) =~= text@);
    r
}

/// `String::from_iter`: the text made of characters in order.
#[verifier::external_body]
pub(crate) fn string_of(chars: &Vec<char>) -> (r: String)
    ensures
        r@ == chars@,
{
    String::from_iter(chars.iter())
}

/// What `str::to_lowercase` makes of a text.
pub uninterp spec fn lowercase(s: Seq<char>) -> Seq<char>;

/// `str::to_lowercase`: the text in lower case, by Unicode's rules.
#[verifier::external_body]
pub(crate) fn to_lowercase(s: &str) -> (r: String)
    ensures
        r@ == lowercase(s@),
{
    s.to_lowercase()
}

/// Lower-case forms of a list of texts.
pub open spec fn lowercase_all(s: Seq<Seq<char>>) -> Seq<Seq<char>> {
    Seq::new(s.len(), |i: int| lowercase(s[i]))
}

/// Puts every text of a list in lower case.
pub fn lowercase_list(v: &Vec<String>) -> (r: Vec<String>)
    ensures
        strings(r@) == lowercase_all(strings(v@)),
{
    let mut r: Vec<String> = Vec::with_capacity(v.len());
    for i in 0..v.len()
        invariant
            r@.len() == i,
            forall|j: int| 0 <= j < i ==> (#[trigger] r@[j])@ == lowercase(v@[j]@),
    {
        r.push(to_lowercase(v[i].as_str()));
    }
    assert(strings(r@) =~= lowercase_all(strings(v@)));
    r
}

/// `char::from_u32`: the character with a code point, unless the number is past
/// the last one or a surrogate.
#[verifier::external_body]
pub(crate) fn char_of(v: u32) -> (r: Option<char>)
    ensures
        r == (if vstd::utf8::is_scalar(v) {
            Some(v as char)
        } else {
            None
        }),
{
    char::from_u32(v)
}

/// `char::encode_utf8`: the UTF-8 bytes of a character.
#[verifier::external_body]
pub(crate) fn utf8_of(c: char) -> (r: Vec<u8>)
    ensures
        r@ == vstd::utf8::encode_scalar(c as u32),
{
    let mut buf: [u8; 4] = [0u8; 4];
    c.encode_utf8(&mut buf).as_bytes().to_vec()
}

/// The text that bytes encode, if they are UTF-8.
pub open spec fn utf8_text(b: Seq<u8>) -> Option<Seq<char>> {
    if vstd::utf8::valid_utf8(b) {
        Some(vstd::utf8::decode_utf8(b))
    } else {
        None
    }
}

/// `str::from_utf8`: the text that bytes encode, or nothing where they are not
/// UTF-8.
#[verifier::external_body]
pub(crate) fn from_utf8(b: &[u8]) -> (r: Option<String>)
    ensures
        match utf8_text(b@) {
            Some(t) => r is Some && r->0@ == t,
            None => r is None,
        },
{
    std::str::from_utf8(b).ok().map(|s| s.to_string())
}

} // verus!
