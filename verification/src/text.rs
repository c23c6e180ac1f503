//! Character and string facts the validators rely on.

use vstd::prelude::*;
use vstd::utf8::*;

verus! {

/// Whether `c` has the Unicode `Uppercase` property (what `char::is_uppercase` answers).
pub uninterp spec fn char_is_uppercase(c: char) -> bool;

/// Whether `c` has the Unicode `Lowercase` property (what `char::is_lowercase` answers).
pub uninterp spec fn char_is_lowercase(c: char) -> bool;

/// Whether `c` is alphabetic or numeric in Unicode's sense (what `char::is_alphanumeric` answers).
pub uninterp spec fn char_is_alphanumeric(c: char) -> bool;

/// Whether `c` has the Unicode `White_Space` property (what `char::is_whitespace` answers).
pub uninterp spec fn char_is_whitespace(c: char) -> bool;

/// The Unicode lowercase mapping of a string (what `str::to_lowercase` returns).
pub uninterp spec fn unicode_lowercase(s: Seq<char>) -> Seq<char>;

pub open spec fn is_ascii_char(c: char) -> bool {
    (c as u32) < 128
}

pub open spec fn is_ascii_upper(c: char) -> bool {
    'A' <= c && c <= 'Z'
}

pub open spec fn is_ascii_lower(c: char) -> bool {
    'a' <= c && c <= 'z'
}

/// A decimal digit, `'0'..='9'` (what `char::is_digit(10)` answers).
pub open spec fn is_decimal_digit(c: char) -> bool {
    '0' <= c && c <= '9'
}

/// Some character of `s` is uppercase.
pub open spec fn has_uppercase(s: Seq<char>) -> bool {
    exists|i: int| 0 <= i < s.len() && char_is_uppercase(#[trigger] s[i])
}

/// Some character of `s` is lowercase.
pub open spec fn has_lowercase(s: Seq<char>) -> bool {
    exists|i: int| 0 <= i < s.len() && char_is_lowercase(#[trigger] s[i])
}

/// Some character of `s` is a decimal digit.
pub open spec fn has_decimal_digit(s: Seq<char>) -> bool {
    exists|i: int| 0 <= i < s.len() && is_decimal_digit(#[trigger] s[i])
}

/// Some character of `s` is neither alphabetic nor numeric.
pub open spec fn has_non_alphanumeric(s: Seq<char>) -> bool {
    exists|i: int| 0 <= i < s.len() && !char_is_alphanumeric(#[trigger] s[i])
}

/// Some character of `s` is white space.
pub open spec fn has_whitespace(s: Seq<char>) -> bool {
    exists|i: int| 0 <= i < s.len() && char_is_whitespace(#[trigger] s[i])
}

/// Every character of `s` is white space; this is when `s.trim()` is empty.
pub open spec fn is_blank(s: Seq<char>) -> bool {
    forall|i: int| 0 <= i < s.len() ==> char_is_whitespace(#[trigger] s[i])
}

/// The byte length of the UTF-8 encoding of `s` (what `str::len` answers).
pub open spec fn byte_len(s: Seq<char>) -> nat {
    encode_utf8(s).len()
}

/// `char::is_uppercase`. The contract names the Unicode answer and states the
/// ASCII part of it, where the `Uppercase` property holds exactly for `'A'..='Z'`.
#[verifier::external_body]
pub(crate) fn is_uppercase(c: char) -> (r: bool)
    ensures
        r == char_is_uppercase(c),
        is_ascii_char(c) ==> (r <==> is_ascii_upper(c)),
{
    c.is_uppercase()
}

/// `char::is_lowercase`. The contract names the Unicode answer and states the
/// ASCII part of it, where the `Lowercase` property holds exactly for `'a'..='z'`.
#[verifier::external_body]
pub(crate) fn is_lowercase(c: char) -> (r: bool)
    ensures
        r == char_is_lowercase(c),
        is_ascii_char(c) ==> (r <==> is_ascii_lower(c)),
{
    c.is_lowercase()
}

/// `char::is_alphanumeric`. The contract names the Unicode answer and states the
/// ASCII part of it: letters and decimal digits.
#[verifier::external_body]
pub(crate) fn is_alphanumeric(c: char) -> (r: bool)
    ensures
        r == char_is_alphanumeric(c),
        is_ascii_char(c) ==> (r <==> (is_ascii_upper(c) || is_ascii_lower(c) || is_decimal_digit(c))),
{
    c.is_alphanumeric()
}

/// `char::is_whitespace`. The contract names the Unicode answer and states the
/// ASCII part of it: space and U+0009 to U+000D.
#[verifier::external_body]
pub(crate) fn is_whitespace(c: char) -> (r: bool)
    ensures
        r == char_is_whitespace(c),
        is_ascii_char(c) ==> (r <==> (c == ' ' || ('\u{9}' <= c && c <= '\u{d}'))),
{
    c.is_whitespace()
}

/// `t` is `s` without its leading and trailing white space.
pub open spec fn is_trim_of(t: Seq<char>, s: Seq<char>) -> bool {
    exists|i: int, j: int| {
        &&& 0 <= i <= j <= s.len()
        &&& t == s.subrange(i, j)
        &&& forall|k: int| 0 <= k < i ==> char_is_whitespace(#[trigger] s[k])
        &&& forall|k: int| j <= k < s.len() ==> char_is_whitespace(#[trigger] s[k])
        &&& i < j ==> !char_is_whitespace(s[i]) && !char_is_whitespace(s[j - 1])
    }
}

/// `str::trim`: the string without leading and trailing characters that have
/// the `White_Space` property.
#[verifier::external_body]
pub(crate) fn trim(s: &str) -> (r: &str)
    ensures
        is_trim_of(r@, s@),
{
    s.trim()
}

/// Whether `s.trim()` is empty, which is when every character is white space.
pub fn trims_to_empty(s: &str) -> (r: bool)
    ensures
        r == is_blank(s@),
{
    let t = trim(s);
    let r = t.is_empty();
    proof {
        let (i, j) = choose|i: int, j: int| {
            &&& 0 <= i <= j <= s@.len()
            &&& t@ == s@.subrange(i, j)
            &&& forall|k: int| 0 <= k < i ==> char_is_whitespace(#[trigger] s@[k])
            &&& forall|k: int| j <= k < s@.len() ==> char_is_whitespace(#[trigger] s@[k])
            &&& i < j ==> !char_is_whitespace(s@[i]) && !char_is_whitespace(s@[j - 1])
        };
        if r {
            assert forall|k: int| 0 <= k < s@.len() implies char_is_whitespace(#[trigger] s@[k]) by {
                if k < i {
                } else {
                    assert(j <= k);
                }
            }
        } else {
            assert(!char_is_whitespace(s@[i]));
        }
    }
    r
}

/// `str::to_lowercase`. The contract names the Unicode mapping and states that on
/// ASCII text it lowers `'A'..='Z'` and keeps every other character.
#[verifier::external_body]
pub(crate) fn to_lowercase(s: &str) -> (r: String)
    ensures
        r@ == unicode_lowercase(s@),
        (forall|i: int| 0 <= i < s@.len() ==> is_ascii_char(#[trigger] s@[i])) ==> (
            r@.len() == s@.len() && forall|i: int| 0 <= i < s@.len() ==> #[trigger] r@[i] == (
                if is_ascii_upper(s@[i]) { ((s@[i] as u32) + 32) as char } else { s@[i] }
            )
        ),
{
    s.to_lowercase()
}

/// `String::from_utf8`: succeeds exactly on valid UTF-8, and then holds the decoded characters.
#[verifier::external_body]
pub(crate) fn string_from_utf8(bytes: Vec<u8>) -> (r: Option<String>)
    ensures
        r is Some <==> valid_utf8(bytes@),
        r matches Some(s) ==> s@ == decode_utf8(bytes@),
{
    String::from_utf8(bytes).ok()
}

/// The characters of `s`, in order.
pub fn chars_of(s: &str) -> (v: Vec<char>)
    ensures
        v@ == s@,
{
    let mut v: Vec<char> = Vec::new();
    for c in it: s.chars()
        invariant
            v@ == it.seq().take(it.index() as int),
    {
        v.push(c);
    }
    v
}

/// Whether some character of `chars` is uppercase.
pub fn find_uppercase(chars: &Vec<char>) -> (r: bool)
    ensures
        r == has_uppercase(chars@),
{
    let mut i: usize = 0;
    while i < chars.len()
        invariant
            i <= chars.len(),
            forall|j: int| 0 <= j < i ==> !char_is_uppercase(#[trigger] chars@[j]),
        decreases chars.len() - i,
    {
        if is_uppercase(chars[i]) {
            return true;
        }
        i += 1;
    }
    false
}

/// Whether some character of `chars` is lowercase.
pub fn find_lowercase(chars: &Vec<char>) -> (r: bool)
    ensures
        r == has_lowercase(chars@),
{
    let mut i: usize = 0;
    while i < chars.len()
        invariant
            i <= chars.len(),
            forall|j: int| 0 <= j < i ==> !char_is_lowercase(#[trigger] chars@[j]),
        decreases chars.len() - i,
    {
        if is_lowercase(chars[i]) {
            return true;
        }
        i += 1;
    }
    false
}

/// Whether some character of `chars` is a decimal digit.
pub fn find_decimal_digit(chars: &Vec<char>) -> (r: bool)
    ensures
        r == has_decimal_digit(chars@),
{
    let mut i: usize = 0;
    while i < chars.len()
        invariant
            i <= chars.len(),
            forall|j: int| 0 <= j < i ==> !is_decimal_digit(#[trigger] chars@[j]),
        decreases chars.len() - i,
    {
        let c = chars[i];
        if '0' <= c && c <= '9' {
            return true;
        }
        i += 1;
    }
    false
}

/// Whether some character of `chars` is neither alphabetic nor numeric.
pub fn find_non_alphanumeric(chars: &Vec<char>) -> (r: bool)
    ensures
        r == has_non_alphanumeric(chars@),
{
    let mut i: usize = 0;
    while i < chars.len()
        invariant
            i <= chars.len(),
            forall|j: int| 0 <= j < i ==> char_is_alphanumeric(#[trigger] chars@[j]),
        decreases chars.len() - i,
    {
        if !is_alphanumeric(chars[i]) {
            return true;
        }
        i += 1;
    }
    false
}

/// Whether some character of `chars` is white space.
pub fn find_whitespace(chars: &Vec<char>) -> (r: bool)
    ensures
        r == has_whitespace(chars@),
{
    let mut i: usize = 0;
    while i < chars.len()
        invariant
            i <= chars.len(),
            forall|j: int| 0 <= j < i ==> !char_is_whitespace(#[trigger] chars@[j]),
        decreases chars.len() - i,
    {
        if is_whitespace(chars[i]) {
            return true;
        }
        i += 1;
    }
    false
}

/// Whether some character of `s` is uppercase.
pub fn any_uppercase(s: &str) -> (r: bool)
    ensures
        r == has_uppercase(s@),
{
    let chars = chars_of(s);
    find_uppercase(&chars)
}

/// `c` occurs in `s`.
pub open spec fn has_char(s: Seq<char>, c: char) -> bool {
    exists|i: int| 0 <= i < s.len() && s[i] == c
}

/// `p` is the position of the first `c` in `s`.
pub open spec fn is_first_position(s: Seq<char>, c: char, p: int) -> bool {
    &&& 0 <= p < s.len()
    &&& s[p] == c
    &&& forall|j: int| 0 <= j < p ==> s[j] != c
}

/// The position of the first `c` in `chars`, if there is one.
pub fn find_char(chars: &Vec<char>, c: char) -> (r: Option<usize>)
    ensures
        r is None <==> !has_char(chars@, c),
        r matches Some(p) ==> is_first_position(chars@, c, p as int),
{
    let mut i: usize = 0;
    while i < chars.len()
        invariant
            i <= chars.len(),
            forall|j: int| 0 <= j < i ==> chars@[j] != c,
        decreases chars.len() - i,
    {
        if chars[i] == c {
            return Some(i);
        }
        i += 1;
    }
    None
}

/// Whether the characters of `chars` from position `from` on are exactly `other`.
pub fn suffix_equals(chars: &Vec<char>, from: usize, other: &Vec<char>) -> (r: bool)
    requires
        from <= chars@.len(),
    ensures
        r == (chars@.skip(from as int) == other@),
{
    let n = chars.len();
    if n - from != other.len() {
        return false;
    }
    let mut i: usize = 0;
    while i < other.len()
        invariant
            n == chars@.len(),
            from <= chars@.len(),
            chars@.len() - from == other@.len(),
            i <= other@.len(),
            forall|j: int| 0 <= j < i ==> chars@[from + j] == other@[j],
        decreases other.len() - i,
    {
        if chars[from + i] != other[i] {
            assert(chars@.skip(from as int)[i as int] != other@[i as int]);
            return false;
        }
        i += 1;
    }
    assert(chars@.skip(from as int) =~= other@);
    true
}

/// The UTF-8 length of a concatenation is the sum of the lengths.
pub proof fn lemma_byte_len_concat(a: Seq<char>, b: Seq<char>)
    ensures
        byte_len(a + b) == byte_len(a) + byte_len(b),
    decreases a.len(),
{
    if a.len() == 0 {
        assert(a + b =~= b);
    } else {
        assert((a + b).drop_first() =~= a.drop_first() + b);
        lemma_byte_len_concat(a.drop_first(), b);
    }
}

/// `@` takes one byte in UTF-8.
pub proof fn lemma_byte_len_at_sign()
    ensures
        byte_len(seq!['@']) == 1,
{
    assert(seq!['@'].drop_first() =~= Seq::<char>::empty());
    let c: u32 = '@' as u32;
    assert(c == 64);
    assert(has_width_1_encoding(c));
    assert(encode_scalar(c).len() == 1);
    reveal_with_fuel(encode_utf8, 2);
    assert(seq!['@'][0] as u32 == c);
}

/// A sequence holding `c` has a first position of `c`.
pub proof fn lemma_first_position_exists(s: Seq<char>, c: char)
    requires
        has_char(s, c),
    ensures
        exists|p: int| is_first_position(s, c, p),
    decreases s.len(),
{
    if s[0] == c {
        assert(is_first_position(s, c, 0));
    } else {
        let i = choose|i: int| 0 <= i < s.len() && s[i] == c;
        let t = s.drop_first();
        assert(t[i - 1] == c);
        lemma_first_position_exists(t, c);
        let q = choose|q: int| is_first_position(t, c, q);
        assert forall|j: int| 0 <= j < q + 1 implies s[j] != c by {
            if j > 0 { assert(s[j] == t[j - 1]); }
        }
        assert(is_first_position(s, c, q + 1));
    }
}

/// `s` is `local`, `c` and `rest` for a `local` without `c` exactly when `s`
/// holds `c` and what follows its first `c` is `rest`.
pub proof fn lemma_split_at_first(s: Seq<char>, c: char, rest: Seq<char>)
    ensures
        (exists|local: Seq<char>| !has_char(local, c) && s == local + seq![c] + rest)
            <==> (exists|p: int| is_first_position(s, c, p) && s.skip(p + 1) == rest),
{
    if exists|local: Seq<char>| !has_char(local, c) && s == local + seq![c] + rest {
        let local = choose|local: Seq<char>| !has_char(local, c) && s == local + seq![c] + rest;
        let p = local.len() as int;
        assert(s[p] == c);
        assert forall|j: int| 0 <= j < p implies s[j] != c by {
            assert(s[j] == local[j]);
        }
        assert(is_first_position(s, c, p));
        assert(s.skip(p + 1) =~= rest);
    }
    if exists|p: int| is_first_position(s, c, p) && s.skip(p + 1) == rest {
        let p = choose|p: int| is_first_position(s, c, p) && s.skip(p + 1) == rest;
        let local = s.subrange(0, p);
        assert(s =~= local + seq![c] + rest);
        assert(!has_char(local, c)) by {
            if has_char(local, c) {
                let j = choose|j: int| 0 <= j < local.len() && local[j] == c;
                assert(s[j] == c);
            }
        }
    }
}

/// The first position of `c` in `s` is unique.
pub proof fn lemma_first_position_unique(s: Seq<char>, c: char, p: int, q: int)
    requires
        is_first_position(s, c, p),
        is_first_position(s, c, q),
    ensures
        p == q,
{
    if p < q { assert(s[p] == c); } else if q < p { assert(s[q] == c); }
}

} // verus!
