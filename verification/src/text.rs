//! Character-level helpers shared by the converters.

use vstd::prelude::*;
use vstd::string::*;

verus! {

/// The uppercase mapping of a character, as `char::to_uppercase` yields it.
pub uninterp spec fn uppercase_of(c: char) -> Seq<char>;

/// Whether a character has the Unicode `White_Space` property, as
/// `char::is_whitespace` reports it.
pub uninterp spec fn whitespace_char(c: char) -> bool;

/// Calls `char::to_uppercase` and collects what it yields. Trusted: the
/// result is the character's uppercase mapping, which std documents to hold
/// one or more characters.
#[verifier::external_body]
fn upper_of(c: char) -> (up: Vec<char>)
    ensures
        up@ == uppercase_of(c),
        up@.len() >= 1,
{
    c.to_uppercase().collect()
}

/// Calls `char::is_whitespace`. Trusted: the result is the character's
/// `White_Space` property.
#[verifier::external_body]
fn is_whitespace(c: char) -> (white: bool)
    ensures
        white == whitespace_char(c),
{
    c.is_whitespace()
}

/// Whether a character separates words as white space does. The ASCII
/// range is spelled out: space, tab, line feed, vertical tab, form feed,
/// carriage return.
pub open spec fn space_char(c: char) -> bool {
    if (c as u32) < 128 {
        c == ' ' || 9 <= c as u32 <= 13
    } else {
        whitespace_char(c)
    }
}

/// The uppercase form of a character. The ASCII range is spelled out: a
/// small letter gives its capital, any other character itself.
pub open spec fn upper_text(c: char) -> Seq<char> {
    if 97 <= c as u32 <= 122 {
        seq![(c as u32 - 32) as char]
    } else if (c as u32) < 128 {
        seq![c]
    } else {
        uppercase_of(c)
    }
}

/// Tells whether a character separates words as white space does.
pub fn is_space(c: char) -> (space: bool)
    ensures
        space == space_char(c),
{
    if (c as u32) < 128 {
        c == ' ' || (9 <= c as u32 && c as u32 <= 13)
    } else {
        is_whitespace(c)
    }
}

/// Gives the uppercase form of a character.
pub fn upper_chars(c: char) -> (up: Vec<char>)
    ensures
        up@ == upper_text(c),
        up@.len() >= 1,
{
    if 97 <= c as u32 && c as u32 <= 122 {
        let mut up: Vec<char> = Vec::new();
        up.push((c as u8 - 32) as char);
        assert(up@ =~= upper_text(c));
        up
    } else if (c as u32) < 128 {
        let mut up: Vec<char> = Vec::new();
        up.push(c);
        assert(up@ =~= upper_text(c));
        up
    } else {
        upper_of(c)
    }
}

/// Calls `String::push`. Trusted: the character is appended to the text.
#[verifier::external_body]
pub(crate) fn push_char(s: &mut String, c: char)
    ensures
        final(s)@ == old(s)@.push(c),
{
    s.push(c)
}

/// The characters of a string slice, in order.
pub fn chars_of(s: &str) -> (chars: Vec<char>)
    ensures
        chars@ == s@,
{
    let mut chars: Vec<char> = Vec::new();
    for c in it: s.chars()
        invariant
            chars@ == it.seq().take(it.index() as int),
            it.seq() == s@,
    {
        chars.push(c);
    }
    chars
}

/// Appends `chars[from..to]` to `out`.
pub fn append_range(out: &mut String, chars: &Vec<char>, from: usize, to: usize)
    requires
        from <= to <= chars@.len(),
    ensures
        final(out)@ == old(out)@ + chars@.subrange(from as int, to as int),
{
    let mut i: usize = from;
    while i < to
        invariant
            from <= i <= to <= chars@.len(),
            out@ == old(out)@ + chars@.subrange(from as int, i as int),
        decreases to - i,
    {
        push_char(out, chars[i]);
        i = i + 1;
        assert(chars@.subrange(from as int, i as int) == chars@.subrange(from as int, i - 1).push(
            chars@[i - 1],
        ));
    }
}

/// The views of a list of texts.
pub open spec fn texts(list: Seq<String>) -> Seq<Seq<char>> {
    Seq::new(list.len(), |i: int| list[i]@)
}

/// Whether `from` stands in `s` at position `i`.
pub open spec fn occurs_at(s: Seq<char>, from: Seq<char>, i: int) -> bool {
    0 <= i && i + from.len() <= s.len() && s.subrange(i, i + from.len()) == from
}

/// The rest of `s` from position `i` on, with every occurrence of `from`
/// replaced by `to`: occurrences are taken from the left and do not overlap.
pub open spec fn replaced_from(s: Seq<char>, from: Seq<char>, to: Seq<char>, i: int) -> Seq<char>
    decreases s.len() - i,
{
    if i < 0 || i >= s.len() || from.len() == 0 {
        Seq::empty()
    } else if occurs_at(s, from, i) {
        to + replaced_from(s, from, to, i + from.len())
    } else {
        seq![s[i]] + replaced_from(s, from, to, i + 1)
    }
}

/// The text `s` with every occurrence of the non-empty text `from` replaced
/// by `to`.
pub open spec fn replaced(s: Seq<char>, from: Seq<char>, to: Seq<char>) -> Seq<char> {
    replaced_from(s, from, to, 0)
}

/// Tells whether `from` stands in `s` at position `i`.
pub fn matches_at(s: &Vec<char>, from: &Vec<char>, i: usize) -> (found: bool)
    requires
        i <= s@.len(),
    ensures
        found == occurs_at(s@, from@, i as int),
{
    if from.len() > s.len() - i {
        return false;
    }
    let mut k: usize = 0;
    while k < from.len()
        invariant
            k <= from@.len(),
            i + from@.len() <= s@.len() <= usize::MAX,
            forall|j: int| 0 <= j < k ==> s@[i + j] == from@[j],
        decreases from@.len() - k,
    {
        if s[i + k] != from[k] {
            assert(s@.subrange(i as int, i + from@.len())[k as int] != from@[k as int]);
            return false;
        }
        k = k + 1;
    }
    assert(s@.subrange(i as int, i + from@.len()) =~= from@);
    true
}

/// Replaces every occurrence of `from` in `text` by `to`.
pub fn replace_text(text: &str, from: &str, to: &str) -> (out: String)
    requires
        from@.len() > 0,
    ensures
        out@ == replaced(text@, from@, to@),
{
    let s = chars_of(text);
    let f = chars_of(from);
    let mut out = String::new();
    let mut i: usize = 0;
    while i < s.len()
        invariant
            i <= s@.len(),
            s@ == text@,
            f@ == from@,
            f@.len() > 0,
            replaced(text@, from@, to@) == out@ + replaced_from(s@, f@, to@, i as int),
        decreases s@.len() - i,
    {
        if matches_at(&s, &f, i) {
            out.append(to);
            i = i + f.len();
        } else {
            push_char(&mut out, s[i]);
            i = i + 1;
        }
    }
    out
}

/// Whether `s` begins with `prefix`.
pub open spec fn begins_with(s: Seq<char>, prefix: Seq<char>) -> bool {
    prefix.len() <= s.len() && s.take(prefix.len() as int) == prefix
}

/// Tells whether `s` begins with `prefix`.
pub fn has_prefix(s: &Vec<char>, prefix: &str) -> (found: bool)
    ensures
        found == begins_with(s@, prefix@),
{
    let p = chars_of(prefix);
    let found = matches_at(s, &p, 0);
    assert(s@.take(p@.len() as int) == s@.subrange(0, 0 + p@.len() as int));
    found
}

/// The first `n` of the parts, with `sep` between each two.
pub open spec fn joined_prefix(parts: Seq<Seq<char>>, sep: Seq<char>, n: int) -> Seq<char>
    decreases n,
{
    if n <= 0 {
        Seq::empty()
    } else if n == 1 {
        parts[0]
    } else {
        joined_prefix(parts, sep, n - 1) + sep + parts[n - 1]
    }
}

/// The parts with `sep` between each two.
pub open spec fn joined(parts: Seq<Seq<char>>, sep: Seq<char>) -> Seq<char> {
    joined_prefix(parts, sep, parts.len() as int)
}

/// Joins the parts with `sep` between each two.
pub fn join_texts(parts: &Vec<String>, sep: &str) -> (out: String)
    ensures
        out@ == joined(texts(parts@), sep@),
{
    let mut out = String::new();
    let mut k: usize = 0;
    while k < parts.len()
        invariant
            k <= parts@.len(),
            out@ == joined_prefix(texts(parts@), sep@, k as int),
        decreases parts@.len() - k,
    {
        if k > 0 {
            out.append(sep);
        }
        out.append(parts[k].as_str());
        k = k + 1;
    }
    out
}

/// The character of a decimal digit.
pub open spec fn digit_char(d: nat) -> char {
    if d == 0 {
        '0'
    } else if d == 1 {
        '1'
    } else if d == 2 {
        '2'
    } else if d == 3 {
        '3'
    } else if d == 4 {
        '4'
    } else if d == 5 {
        '5'
    } else if d == 6 {
        '6'
    } else if d == 7 {
        '7'
    } else if d == 8 {
        '8'
    } else {
        '9'
    }
}

/// A number in decimal, without leading zeros.
pub open spec fn decimal_text(n: nat) -> Seq<char>
    decreases n,
{
    if n < 10 {
        seq![digit_char(n)]
    } else {
        decimal_text(n / 10).push(digit_char(n % 10))
    }
}

fn digit(d: u32) -> (c: char)
    requires
        d < 10,
    ensures
        c == digit_char(d as nat),
{
    if d == 0 {
        '0'
    } else if d == 1 {
        '1'
    } else if d == 2 {
        '2'
    } else if d == 3 {
        '3'
    } else if d == 4 {
        '4'
    } else if d == 5 {
        '5'
    } else if d == 6 {
        '6'
    } else if d == 7 {
        '7'
    } else if d == 8 {
        '8'
    } else {
        '9'
    }
}

/// Appends a number in decimal.
pub fn push_decimal(out: &mut String, n: u32)
    ensures
        final(out)@ == old(out)@ + decimal_text(n as nat),
    decreases n,
{
    if n >= 10 {
        push_decimal(out, n / 10);
    }
    push_char(out, digit(n % 10));
}

} // verus!
