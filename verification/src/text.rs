//! Character classification and conversions between strings and
//! character vectors, shared by segmentation and lemma resolution.

use vstd::prelude::*;

verus! {

use vstd::string::StrSliceExecFns;

/// Whether a character counts as a letter, as std's `char::is_alphabetic`
/// reports it (the Unicode `Alphabetic` property, a function of the
/// character alone).
pub uninterp spec fn alphabetic(c: char) -> bool;

/// Relies on std's `char::is_alphabetic`: reports whether the character
/// has the Unicode `Alphabetic` property; the answer depends on the
/// character alone.
#[verifier::external_body]
pub(crate) fn is_alphabetic_char(c: char) -> (r: bool)
    ensures
        r == alphabetic(c),
{
    c.is_alphabetic()
}

/// A character that may stand inside a word fragment: a letter or a hyphen.
pub open spec fn word_char(c: char) -> bool {
    alphabetic(c) || c == '-'
}

/// A fragment text whose characters are all letters or hyphens; only such
/// fragments are eligible for lemma comparison.
pub open spec fn wordlike(s: Seq<char>) -> bool {
    forall|i: int| 0 <= i < s.len() ==> word_char(s[i])
}

/// A fragment that segmentation may still extend: it starts with a letter
/// and holds letters and hyphens only.
pub open spec fn open_run(s: Seq<char>) -> bool {
    s.len() > 0 && alphabetic(s[0]) && wordlike(s)
}

/// The views of a vector of strings.
pub open spec fn text_views(ss: Seq<String>) -> Seq<Seq<char>> {
    ss.map_values(|s: String| s@)
}

/// Relies on std's `FromIterator<char>` for `String` (through
/// `Iterator::collect`): the resulting string holds exactly the characters
/// of the vector, in order.
#[verifier::external_body]
pub(crate) fn chars_to_string(chars: &Vec<char>) -> (r: String)
    ensures
        r@ == chars@,
{
    chars.iter().collect()
}

/// The characters of a string slice, as a vector, in order.
pub(crate) fn str_chars(s: &str) -> (r: Vec<char>)
    ensures
        r@ == s@,
{
    let n = s.unicode_len();
    let mut r: Vec<char> = Vec::new();
    let mut i: usize = 0;
    while i < n
        invariant
            n == s@.len(),
            i <= n,
            r@ == s@.take(i as int),
        decreases n - i,
    {
        let c = s.get_char(i);
        r.push(c);
        proof {
            assert(s@.take(i + 1 as int) =~= s@.take(i as int).push(s@[i as int]));
        }
        i = i + 1;
    }
    proof {
        assert(s@.take(n as int) =~= s@);
    }
    r
}

/// Whether every character of the fragment is a letter or a hyphen.
pub(crate) fn all_word_chars(chars: &Vec<char>) -> (r: bool)
    ensures
        r == wordlike(chars@),
{
    let mut i: usize = 0;
    while i < chars.len()
        invariant
            i <= chars@.len(),
            forall|j: int| 0 <= j < i ==> word_char(chars@[j]),
        decreases chars@.len() - i,
    {
        let c = chars[i];
        if !(is_alphabetic_char(c) || c == '-') {
            proof {
                assert(!word_char(chars@[i as int]));
            }
            return false;
        }
        i = i + 1;
    }
    true
}

} // verus!
