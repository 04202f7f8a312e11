//! Character and string primitives: what the rewrite rules ask of Unicode.
//!
//! ASCII characters and the umlauts ä ö ü Ä Ö Ü are described exactly; for
//! the rest of Unicode the character tables are given names whose values this
//! library never assumes.
use vstd::prelude::*;

verus! {

/// A character below 128.
pub open spec fn is_ascii_char(c: char) -> bool {
    (c as u32) < 128
}

/// Every character of `s` is ASCII.
pub open spec fn is_ascii_text(s: Seq<char>) -> bool {
    forall|i: int| 0 <= i < s.len() ==> is_ascii_char(#[trigger] s[i])
}

pub open spec fn is_ascii_upper(c: char) -> bool {
    'A' <= c && c <= 'Z'
}

pub open spec fn is_ascii_lower(c: char) -> bool {
    'a' <= c && c <= 'z'
}

/// ASCII uppercase: only 'a'..='z' change.
pub open spec fn ascii_upper(c: char) -> char {
    if is_ascii_lower(c) {
        ((c as u32) - 32) as char
    } else {
        c
    }
}

/// ASCII lowercase: only 'A'..='Z' change.
pub open spec fn ascii_lower(c: char) -> char {
    if is_ascii_upper(c) {
        ((c as u32) + 32) as char
    } else {
        c
    }
}

/// One of the lowercase umlauts ä, ö, ü.
pub open spec fn is_umlaut_lower(c: char) -> bool {
    c == 'ä' || c == 'ö' || c == 'ü'
}

/// One of the uppercase umlauts Ä, Ö, Ü.
pub open spec fn is_umlaut_upper(c: char) -> bool {
    c == 'Ä' || c == 'Ö' || c == 'Ü'
}

/// A character whose case properties are known here exactly: ASCII, or one
/// of the six umlauts.
pub open spec fn is_plain_char(c: char) -> bool {
    is_ascii_char(c) || is_umlaut_lower(c) || is_umlaut_upper(c)
}

/// Every character of `s` is plain.
pub open spec fn is_plain_text(s: Seq<char>) -> bool {
    forall|i: int| 0 <= i < s.len() ==> is_plain_char(#[trigger] s[i])
}

/// The lowercase of a plain character.
pub open spec fn plain_lower(c: char) -> char {
    if c == 'Ä' {
        'ä'
    } else if c == 'Ö' {
        'ö'
    } else if c == 'Ü' {
        'ü'
    } else {
        ascii_lower(c)
    }
}

/// The uppercase of a plain character.
pub open spec fn plain_upper(c: char) -> char {
    if c == 'ä' {
        'Ä'
    } else if c == 'ö' {
        'Ö'
    } else if c == 'ü' {
        'Ü'
    } else {
        ascii_upper(c)
    }
}

/// The Unicode `Alphabetic` property, beyond plain characters.
pub uninterp spec fn unicode_alphabetic(c: char) -> bool;

/// The Unicode `Uppercase` property, beyond plain characters.
pub uninterp spec fn unicode_uppercase(c: char) -> bool;

/// The Unicode `Lowercase` property, beyond plain characters.
pub uninterp spec fn unicode_lowercase(c: char) -> bool;

/// Full Unicode lowercase mapping of a string that is not all plain.
pub uninterp spec fn unicode_lower(s: Seq<char>) -> Seq<char>;

/// Full Unicode uppercase mapping of a string that is not all plain.
pub uninterp spec fn unicode_upper(s: Seq<char>) -> Seq<char>;

/// What `char::is_alphabetic` returns.
pub open spec fn is_alpha(c: char) -> bool {
    if is_ascii_char(c) {
        is_ascii_upper(c) || is_ascii_lower(c)
    } else if is_umlaut_lower(c) || is_umlaut_upper(c) {
        true
    } else {
        unicode_alphabetic(c)
    }
}

/// What `char::is_uppercase` returns.
pub open spec fn is_upper(c: char) -> bool {
    if is_ascii_char(c) {
        is_ascii_upper(c)
    } else if is_umlaut_lower(c) || is_umlaut_upper(c) {
        is_umlaut_upper(c)
    } else {
        unicode_uppercase(c)
    }
}

/// What `char::is_lowercase` returns.
pub open spec fn is_lower(c: char) -> bool {
    if is_ascii_char(c) {
        is_ascii_lower(c)
    } else if is_umlaut_lower(c) || is_umlaut_upper(c) {
        is_umlaut_lower(c)
    } else {
        unicode_lowercase(c)
    }
}

/// What `str::to_lowercase` returns.
pub open spec fn lower_text(s: Seq<char>) -> Seq<char> {
    if is_plain_text(s) {
        s.map_values(|c: char| plain_lower(c))
    } else {
        unicode_lower(s)
    }
}

/// What `str::to_uppercase` returns.
pub open spec fn upper_text(s: Seq<char>) -> Seq<char> {
    if is_plain_text(s) {
        s.map_values(|c: char| plain_upper(c))
    } else {
        unicode_upper(s)
    }
}

/// Relies on `char::is_alphabetic`: within ASCII the `Alphabetic` property
/// holds of 'a'..='z' and 'A'..='Z' alone; the umlauts ä ö ü Ä Ö Ü have it;
/// beyond these the answer is a property of `c` from the Unicode tables.
#[verifier::external_body]
pub(crate) fn char_is_alphabetic(c: char) -> (r: bool)
    ensures
        is_ascii_char(c) ==> r == (is_ascii_upper(c) || is_ascii_lower(c)),
        is_umlaut_lower(c) || is_umlaut_upper(c) ==> r,
        !is_plain_char(c) ==> r == unicode_alphabetic(c),
{
    c.is_alphabetic()
}

/// Relies on `char::is_uppercase`: within ASCII the `Uppercase` property
/// holds of 'A'..='Z' alone; of the umlauts, Ä Ö Ü have it and ä ö ü do not;
/// beyond these the answer is a property of `c` from the Unicode tables.
#[verifier::external_body]
pub(crate) fn char_is_uppercase(c: char) -> (r: bool)
    ensures
        is_ascii_char(c) ==> r == is_ascii_upper(c),
        is_umlaut_lower(c) || is_umlaut_upper(c) ==> r == is_umlaut_upper(c),
        !is_plain_char(c) ==> r == unicode_uppercase(c),
{
    c.is_uppercase()
}

/// Relies on `char::is_lowercase`: within ASCII the `Lowercase` property
/// holds of 'a'..='z' alone; of the umlauts, ä ö ü have it and Ä Ö Ü do not;
/// beyond these the answer is a property of `c` from the Unicode tables.
#[verifier::external_body]
pub(crate) fn char_is_lowercase(c: char) -> (r: bool)
    ensures
        is_ascii_char(c) ==> r == is_ascii_lower(c),
        is_umlaut_lower(c) || is_umlaut_upper(c) ==> r == is_umlaut_lower(c),
        !is_plain_char(c) ==> r == unicode_lowercase(c),
{
    c.is_lowercase()
}

/// Relies on `str::to_lowercase`: a string of ASCII characters and umlauts
/// has each of 'A'..='Z', Ä, Ö, Ü lowered one for one and every other
/// character kept; otherwise the result depends on the characters of `s`
/// alone.
#[verifier::external_body]
fn str_to_lowercase(s: &str) -> (r: String)
    ensures
        is_plain_text(s@) ==> r@ == s@.map_values(|c: char| plain_lower(c)),
        !is_plain_text(s@) ==> r@ == unicode_lower(s@),
{
    s.to_lowercase()
}

/// Relies on `str::to_uppercase`: a string of ASCII characters and umlauts
/// has each of 'a'..='z', ä, ö, ü raised one for one and every other
/// character kept; otherwise the result depends on the characters of `s`
/// alone.
#[verifier::external_body]
fn str_to_uppercase(s: &str) -> (r: String)
    ensures
        is_plain_text(s@) ==> r@ == s@.map_values(|c: char| plain_upper(c)),
        !is_plain_text(s@) ==> r@ == unicode_upper(s@),
{
    s.to_uppercase()
}

/// Relies on `String`'s `FromIterator<&char>`: the characters, in order.
#[verifier::external_body]
pub(crate) fn string_of(v: &Vec<char>) -> (r: String)
    ensures
        r@ == v@,
{
    v.iter().collect()
}

/// The characters of `s`, in order.
pub fn chars_of(s: &str) -> (r: Vec<char>)
    ensures
        r@ == s@,
{
    let mut out: Vec<char> = Vec::new();
    for c in it: s.chars()
        invariant
            out@ == it.seq().take(it.index() as int),
    {
        out.push(c);
    }
    out
}

/// `str::to_lowercase` on a sequence of characters.
pub fn lower_chars(v: &Vec<char>) -> (r: Vec<char>)
    ensures
        r@ == lower_text(v@),
{
    let s = string_of(v);
    let l = str_to_lowercase(s.as_str());
    chars_of(l.as_str())
}

/// `str::to_uppercase` on a sequence of characters.
pub fn upper_chars(v: &Vec<char>) -> (r: Vec<char>)
    ensures
        r@ == upper_text(v@),
{
    let s = string_of(v);
    let u = str_to_uppercase(s.as_str());
    chars_of(u.as_str())
}

} // verus!
