//! Small trusted adapters over std string operations that vstd leaves
//! unspecified.

use vstd::prelude::*;

verus! {

/// Relies on `<str as PartialEq>::eq`: two string slices compare equal
/// exactly when their character sequences do.
#[verifier::external_body]
pub fn str_eq(a: &str, b: &str) -> (r: bool)
    ensures
        r == (a@ == b@),
{
    a == b
}

/// Relies on `String::push_str`: appends the characters of `t` to `s`.
#[verifier::external_body]
pub fn string_append(s: &mut String, t: &str)
    ensures
        final(s)@ == old(s)@ + t@,
{
    s.push_str(t)
}

/// Relies on `String::push`: appends one character to `s`.
#[verifier::external_body]
pub fn string_push(s: &mut String, c: char)
    ensures
        final(s)@ == old(s)@.push(c),
{
    s.push(c)
}

/// Relies on `String::pop`: removes and returns the last character, if any.
#[verifier::external_body]
pub fn string_pop(s: &mut String) -> (r: Option<char>)
    ensures
        old(s)@.len() == 0 ==> r is None && final(s)@ == old(s)@,
        old(s)@.len() > 0 ==> r == Some(old(s)@.last()) && final(s)@ == old(s)@.drop_last(),
{
    s.pop()
}

/// Relies on `str::chars`: the characters of a string slice, in order.
#[verifier::external_body]
pub fn chars_of(s: &str) -> (v: Vec<char>)
    ensures
        v@ == s@,
{
    s.chars().collect()
}

/// The characters Unicode calls white space, the set `char::is_whitespace`
/// recognizes.
pub open spec fn spec_is_ws_char(c: char) -> bool {
    ||| c == ' '
    ||| c == '\t'
    ||| c == '\n'
    ||| c == '\r'
    ||| c as int == 0x0B
    ||| c as int == 0x0C
    ||| c as int == 0x85
    ||| c as int == 0xA0
    ||| c as int == 0x1680
    ||| (0x2000 <= c as int && c as int <= 0x200A)
    ||| c as int == 0x2028
    ||| c as int == 0x2029
    ||| c as int == 0x202F
    ||| c as int == 0x3000
    ||| c as int == 0x205F
}

pub open spec fn split_nl_from(s: Seq<char>, cur: Seq<char>) -> Seq<Seq<char>>
    decreases s.len(),
{
    if s.len() == 0 {
        seq![cur]
    } else if s[0] == '\n' {
        seq![cur] + split_nl_from(s.skip(1), Seq::<char>::empty())
    } else {
        split_nl_from(s.skip(1), cur.push(s[0]))
    }
}

/// The parts of a string between line feeds, in order: one part more than
/// there are line feeds, counting empty parts.
pub open spec fn spec_split_nl(s: Seq<char>) -> Seq<Seq<char>> {
    split_nl_from(s, Seq::<char>::empty())
}

pub open spec fn split_ws_from(s: Seq<char>, cur: Seq<char>) -> Seq<Seq<char>>
    decreases s.len(),
{
    if s.len() == 0 {
        if cur.len() > 0 {
            seq![cur]
        } else {
            Seq::<Seq<char>>::empty()
        }
    } else if spec_is_ws_char(s[0]) {
        (if cur.len() > 0 {
            seq![cur]
        } else {
            Seq::<Seq<char>>::empty()
        }) + split_ws_from(s.skip(1), Seq::<char>::empty())
    } else {
        split_ws_from(s.skip(1), cur.push(s[0]))
    }
}

/// The maximal runs of non-whitespace characters of a string, in order.
pub open spec fn spec_split_ws(s: Seq<char>) -> Seq<Seq<char>> {
    split_ws_from(s, Seq::<char>::empty())
}

/// Relies on `str::split` with a line-feed separator: the parts between
/// line feeds, in order, one more part than there are separators.
#[verifier::external_body]
pub fn split_newlines(s: &str) -> (r: Vec<String>)
    ensures
        r@.map_values(|p: String| p@) == spec_split_nl(s@),
{
    let mut parts = Vec::new();
    for part in s.split('\n') {
        parts.push(part.to_owned());
    }
    parts
}

/// Relies on `str::split_whitespace`: the maximal runs of non-whitespace
/// characters, in order.
#[verifier::external_body]
pub fn split_whitespace_words(s: &str) -> (r: Vec<String>)
    ensures
        r@.map_values(|w: String| w@) == spec_split_ws(s@),
{
    let mut words = Vec::new();
    for word in s.split_whitespace() {
        words.push(word.to_owned());
    }
    words
}

} // verus!
