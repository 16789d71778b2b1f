//! Strings as sequences of characters.

use vstd::prelude::*;

verus! {

/// The lower-case form of a string, as Unicode defines it.
pub uninterp spec fn lowercase(s: Seq<char>) -> Seq<char>;

/// The upper-case form of a string, as Unicode defines it.
pub uninterp spec fn uppercase(s: Seq<char>) -> Seq<char>;

/// Whether a character is a letter or a number, as Unicode defines them.
pub uninterp spec fn alphanumeric(c: char) -> bool;

/// Whether a character is white space: one of those to which Unicode gives
/// the property `White_Space`.
pub open spec fn is_white_space(c: char) -> bool {
    ('\u{9}' <= c <= '\u{d}') || c == ' ' || c == '\u{85}' || c == '\u{a0}' || c == '\u{1680}' || (
    '\u{2000}' <= c <= '\u{200a}') || c == '\u{2028}' || c == '\u{2029}' || c == '\u{202f}' || c
        == '\u{205f}' || c == '\u{3000}'
}

/// The number of white-space characters with which a string begins.
pub open spec fn leading_white(s: Seq<char>) -> nat
    decreases s.len(),
{
    if s.len() > 0 && is_white_space(s[0]) {
        1 + leading_white(s.drop_first())
    } else {
        0
    }
}

/// The number of white-space characters with which a string ends.
pub open spec fn trailing_white(s: Seq<char>) -> nat
    decreases s.len(),
{
    if s.len() > 0 && is_white_space(s.last()) {
        1 + trailing_white(s.drop_last())
    } else {
        0
    }
}

/// A string without the white space at its ends.
pub open spec fn trimmed(s: Seq<char>) -> Seq<char> {
    let rest = s.skip(leading_white(s) as int);
    rest.take(rest.len() - trailing_white(rest))
}

/// Calls `str::trim`, which gives the string without the white space at its
/// ends, where white space is what Unicode gives the property `White_Space`.
#[verifier::external_body]
pub(crate) fn trim(s: &str) -> (r: &str)
    ensures
        r@ == trimmed(s@),
{
    s.trim()
}

/// Calls `str::to_lowercase`. The result is named `lowercase`: it depends on
/// the characters of the string alone.
#[verifier::external_body]
pub(crate) fn to_lowercase(s: &str) -> (r: String)
    ensures
        r@ == lowercase(s@),
{
    s.to_lowercase()
}

/// Calls `str::to_uppercase`. The result is named `uppercase`: it depends on
/// the characters of the string alone.
#[verifier::external_body]
pub(crate) fn to_uppercase(s: &str) -> (r: String)
    ensures
        r@ == uppercase(s@),
{
    s.to_uppercase()
}

/// Calls `char::is_alphanumeric`. The result is named `alphanumeric`: it
/// depends on the character alone.
#[verifier::external_body]
pub(crate) fn is_alphanumeric(c: char) -> (r: bool)
    ensures
        r == alphanumeric(c),
{
    c.is_alphanumeric()
}

/// The characters of a string, in order.
pub fn chars_of(s: &str) -> (v: Vec<char>)
    ensures
        v@ == s@,
{
    broadcast use vstd::string::group_string_axioms;

    let mut v: Vec<char> = Vec::new();
    for c in it: s.chars()
        invariant
            it.seq() == s@,
            v@ == it.seq().take(it.index() as int),
    {
        v.push(c);
        assert(it.seq().take(it.index() + 1) =~= it.seq().take(it.index() as int).push(c));
    }
    assert(s@.take(s@.len() as int) =~= s@);
    v
}

/// Whether two strings hold the same characters.
pub fn same_text(a: &str, b: &str) -> (r: bool)
    ensures
        r == (a@ == b@),
{
    let left = a.to_owned();
    let right = b.to_owned();
    left == right
}

/// Whether a character is one of the digits `0` to `9`.
pub open spec fn is_digit(c: char) -> bool {
    '0' <= c <= '9'
}

/// Whether a character is one of the letters `a` to `z` or `A` to `Z`.
pub open spec fn is_letter(c: char) -> bool {
    ('a' <= c <= 'z') || ('A' <= c <= 'Z')
}

/// The number that a sequence of digits writes in base ten.
pub open spec fn decimal_value(s: Seq<char>) -> nat
    decreases s.len(),
{
    if s.len() == 0 {
        0
    } else {
        (decimal_value(s.drop_last()) * 10 + (s.last() as int - '0' as int)) as nat
    }
}

/// Every character of the sequence is a digit.
pub open spec fn all_digits(s: Seq<char>) -> bool {
    forall|i: int| 0 <= i < s.len() ==> is_digit(#[trigger] s[i])
}

/// The number that a string writes: digits, at least one, that give a number
/// within 64 bits, with or without a plus sign before them.
pub open spec fn parsed_u64(s: Seq<char>) -> Option<u64> {
    let digits = if s.len() > 0 && s[0] == '+' {
        s.drop_first()
    } else {
        s
    };
    if digits.len() > 0 && all_digits(digits) && decimal_value(digits) <= u64::MAX {
        Some(decimal_value(digits) as u64)
    } else {
        None
    }
}

/// The value of a sequence of digits grows with its length: a prefix is
/// worth no more than the whole.
pub proof fn lemma_decimal_prefix(s: Seq<char>, k: int)
    requires
        all_digits(s),
        0 <= k <= s.len(),
    ensures
        decimal_value(s.take(k)) <= decimal_value(s),
    decreases s.len() - k,
{
    if k == s.len() {
        assert(s.take(k) =~= s);
    } else {
        lemma_decimal_prefix(s, k + 1);
        assert(s.take(k + 1).drop_last() =~= s.take(k));
        assert(is_digit(s[k]));
        assert(s.take(k + 1).last() == s[k]);
    }
}

/// Reads the number that the characters from `from` up to `to` write.
pub fn parse_u64(chars: &Vec<char>, from: usize, to: usize) -> (r: Option<u64>)
    requires
        from <= to <= chars@.len(),
    ensures
        r == parsed_u64(chars@.subrange(from as int, to as int)),
{
    let ghost s = chars@.subrange(from as int, to as int);
    let first: usize = if from < to && chars[from] == '+' {
        from + 1
    } else {
        from
    };
    let ghost digits = chars@.subrange(first as int, to as int);
    proof {
        if from < to && chars@[from as int] == '+' {
            assert(s[0] == '+');
            assert(s.drop_first() =~= digits);
        } else {
            assert(s =~= digits);
            if s.len() > 0 {
                assert(s[0] == chars@[from as int]);
            }
        }
    }
    if first == to {
        return None;
    }
    let mut value: u64 = 0;
    let mut i: usize = first;
    proof {
        assert(digits.take(0) =~= Seq::<char>::empty());
    }
    while i < to
        invariant
            first <= i <= to,
            first < to,
            to <= chars@.len(),
            from <= to,
            s == chars@.subrange(from as int, to as int),
            digits == chars@.subrange(first as int, to as int),
            parsed_u64(s) == if all_digits(digits) && decimal_value(digits) <= u64::MAX {
                Some(decimal_value(digits) as u64)
            } else {
                None
            },
            all_digits(digits.take(i - first)),
            value == decimal_value(digits.take(i - first)),
        decreases to - i,
    {
        let c = chars[i];
        let ghost head = digits.take(i - first);
        let ghost next = digits.take(i - first + 1);
        proof {
            assert(next.drop_last() =~= head);
            assert(next.last() == c);
            assert(digits[i - first] == c);
        }
        if !(c >= '0' && c <= '9') {
            return None;
        }
        let d: u64 = (c as u32 - '0' as u32) as u64;
        proof {
            assert forall|j: int| 0 <= j < next.len() implies is_digit(#[trigger] next[j]) by {
                if j < head.len() {
                    assert(head[j] == next[j]);
                }
            }
            if value > (u64::MAX - d) / 10 {
                // The digits read so far are already too large.
                if all_digits(digits) {
                    lemma_decimal_prefix(digits, i - first + 1);
                }
                assert(decimal_value(next) == value * 10 + d);
            }
        }
        if value > (u64::MAX - d) / 10 {
            return None;
        }
        value = value * 10 + d;
        i = i + 1;
    }
    proof {
        assert(digits.take(to - first) =~= digits);
    }
    Some(value)
}

/// The number of bytes that a string takes in UTF-8.
pub open spec fn utf8_len(s: Seq<char>) -> nat {
    vstd::utf8::encode_utf8(s).len()
}

/// Every character is a letter or a number.
pub open spec fn all_alphanumeric(s: Seq<char>) -> bool {
    forall|i: int| 0 <= i < s.len() ==> alphanumeric(#[trigger] s[i])
}

/// Every character is a letter, a number or an underscore.
pub open spec fn all_word_chars(s: Seq<char>) -> bool {
    forall|i: int| 0 <= i < s.len() ==> (alphanumeric(#[trigger] s[i]) || s[i] == '_')
}

/// Tells whether every character is a letter or a number, or an underscore
/// where `underscore` allows it.
pub fn only_word_chars(chars: &Vec<char>, underscore: bool) -> (r: bool)
    ensures
        r == if underscore {
            all_word_chars(chars@)
        } else {
            all_alphanumeric(chars@)
        },
{
    let n = chars.len();
    let mut i: usize = 0;
    while i < n
        invariant
            i <= n,
            n == chars@.len(),
            forall|j: int|
                0 <= j < i ==> (alphanumeric(#[trigger] chars@[j]) || (underscore && chars@[j]
                    == '_')),
        decreases n - i,
    {
        let c = chars[i];
        if !(is_alphanumeric(c) || (underscore && c == '_')) {
            return false;
        }
        i = i + 1;
    }
    true
}

/// The number of bytes that a string takes in UTF-8.
pub fn byte_len(s: &str) -> (n: usize)
    ensures
        n == utf8_len(s@),
{
    s.as_bytes().len()
}

/// Tells whether a character is one of the letters `a` to `z` or `A` to `Z`.
pub fn letter(c: char) -> (r: bool)
    ensures
        r == is_letter(c),
{
    (c >= 'a' && c <= 'z') || (c >= 'A' && c <= 'Z')
}

/// Tells whether the characters from `from` up to `to` are those of `word`.
pub fn range_is(chars: &Vec<char>, from: usize, to: usize, word: &str) -> (r: bool)
    requires
        from <= to <= chars@.len(),
    ensures
        r == (chars@.subrange(from as int, to as int) == word@),
{
    let w = chars_of(word);
    if to - from != w.len() {
        return false;
    }
    let mut i: usize = 0;
    while i < w.len()
        invariant
            i <= w@.len(),
            from <= to <= chars@.len(),
            to - from == w@.len(),
            w@ == word@,
            forall|j: int| 0 <= j < i ==> chars@[from + j] == w@[j],
        decreases w@.len() - i,
    {
        if chars[from + i] != w[i] {
            proof {
                assert(chars@.subrange(from as int, to as int)[i as int] != w@[i as int]);
            }
            return false;
        }
        i = i + 1;
    }
    proof {
        assert(chars@.subrange(from as int, to as int) =~= w@);
    }
    true
}

/// Tells whether the characters from `from` on are those of `word`.
pub fn rest_is(chars: &Vec<char>, from: usize, word: &str) -> (r: bool)
    requires
        from <= chars@.len(),
    ensures
        r == (chars@.skip(from as int) == word@),
{
    proof {
        assert(chars@.skip(from as int) =~= chars@.subrange(from as int, chars@.len() as int));
    }
    range_is(chars, from, chars.len(), word)
}

/// Whether the characters hold two dots in a row, a slash or a backslash.
pub open spec fn has_path_chars(s: Seq<char>) -> bool {
    ||| exists|i: int| 0 <= i < s.len() - 1 && #[trigger] s[i] == '.' && s[i + 1] == '.'
    ||| exists|i: int| 0 <= i < s.len() && (#[trigger] s[i] == '/' || s[i] == '\\')
}

/// Tells whether the characters hold two dots in a row, a slash or a
/// backslash.
pub fn contains_path_chars(chars: &Vec<char>) -> (r: bool)
    ensures
        r == has_path_chars(chars@),
{
    let n = chars.len();
    let mut i: usize = 0;
    while i < n
        invariant
            i <= n,
            n == chars@.len(),
            forall|j: int| 0 <= j < i ==> !(#[trigger] chars@[j] == '/' || chars@[j] == '\\'),
            forall|j: int| 0 <= j < i && j < n - 1 ==> !(#[trigger] chars@[j] == '.' && chars@[j + 1] == '.'),
        decreases n - i,
    {
        let c = chars[i];
        if c == '/' || c == '\\' {
            return true;
        }
        if c == '.' && i + 1 < n && chars[i + 1] == '.' {
            return true;
        }
        i = i + 1;
    }
    false
}

} // verus!
