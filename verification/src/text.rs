//! Text predicates and scanners shared by the provider parsers.
//!
//! Specifications speak of a text as its sequence of characters. The scanners
//! work on character slices, so that positions are character positions.

use vstd::prelude::*;
use vstd::slice::slice_subrange;

verus! {

/// `String::push` appends one character.
pub assume_specification[ std::string::String::push ](s: &mut std::string::String, c: char)
    ensures
        final(s)@ == old(s)@.push(c),
;

/// Length of a text in UTF-8 bytes.
pub open spec fn byte_len(s: Seq<char>) -> usize {
    vstd::utf8::encode_utf8(s).len() as usize
}

/// Characters with the Unicode `White_Space` property.
pub open spec fn whitespace(c: char) -> bool {
    let u = c as u32;
    ||| 0x09 <= u <= 0x0d
    ||| u == 0x20
    ||| u == 0x85
    ||| u == 0xa0
    ||| u == 0x1680
    ||| 0x2000 <= u <= 0x200a
    ||| u == 0x2028
    ||| u == 0x2029
    ||| u == 0x202f
    ||| u == 0x205f
    ||| u == 0x3000
}

/// Characters of the general category `Cc`.
pub open spec fn control(c: char) -> bool {
    let u = c as u32;
    u <= 0x1f || 0x7f <= u <= 0x9f
}

/// ASCII white space: tab, line feed, form feed, carriage return and space.
pub open spec fn ascii_whitespace(c: char) -> bool {
    c == '\t' || c == '\n' || c == '\x0c' || c == '\r' || c == ' '
}

pub open spec fn ascii_digit(c: char) -> bool {
    '0' <= c && c <= '9'
}

pub open spec fn ascii_alphanumeric(c: char) -> bool {
    ascii_digit(c) || ('a' <= c && c <= 'z') || ('A' <= c && c <= 'Z')
}

/// ASCII upper-case letters become lower case; every other character stays.
pub open spec fn lower_char(c: char) -> char {
    if 'A' <= c && c <= 'Z' {
        ((c as u32 + 32) as u32) as char
    } else {
        c
    }
}

/// A text with its ASCII letters in lower case.
pub open spec fn lower(s: Seq<char>) -> Seq<char> {
    Seq::new(s.len(), |i: int| lower_char(s[i]))
}

/// Equality up to the case of ASCII letters.
pub open spec fn same_ignoring_case(a: Seq<char>, b: Seq<char>) -> bool {
    lower(a) == lower(b)
}

/// A text without its leading white space.
pub open spec fn trimmed_start(s: Seq<char>) -> Seq<char>
    decreases s.len(),
{
    if s.len() > 0 && whitespace(s[0]) {
        trimmed_start(s.drop_first())
    } else {
        s
    }
}

/// A text without its trailing white space.
pub open spec fn trimmed_end(s: Seq<char>) -> Seq<char>
    decreases s.len(),
{
    if s.len() > 0 && whitespace(s.last()) {
        trimmed_end(s.drop_last())
    } else {
        s
    }
}

/// A text without its surrounding white space.
pub open spec fn trimmed(s: Seq<char>) -> Seq<char> {
    trimmed_end(trimmed_start(s))
}

/// Whether the text holds a control character.
pub open spec fn has_control(s: Seq<char>) -> bool {
    exists|i: int| 0 <= i < s.len() && control(#[trigger] s[i])
}

/// Whether the text holds a white-space character.
pub open spec fn has_whitespace(s: Seq<char>) -> bool {
    exists|i: int| 0 <= i < s.len() && whitespace(#[trigger] s[i])
}

/// Whether `needle` starts at position `at` of `s`.
pub open spec fn occurs_at(s: Seq<char>, needle: Seq<char>, at: int) -> bool {
    &&& 0 <= at
    &&& at + needle.len() <= s.len()
    &&& s.subrange(at, at + needle.len()) == needle
}

/// Whether `needle` occurs in `s`.
pub open spec fn contains(s: Seq<char>, needle: Seq<char>) -> bool {
    exists|at: int| #[trigger] occurs_at(s, needle, at)
}

/// The first position at or behind `from` where `needle` occurs.
pub open spec fn find_from(s: Seq<char>, needle: Seq<char>, from: int) -> Option<int>
    decreases s.len() - from + 1,
{
    if from < 0 || from + needle.len() > s.len() {
        None
    } else if occurs_at(s, needle, from) {
        Some(from)
    } else {
        find_from(s, needle, from + 1)
    }
}

/// The first position at or behind `from` that holds `c`.
pub open spec fn find_char(s: Seq<char>, c: char, from: int) -> Option<int>
    decreases s.len() - from,
{
    if from < 0 || from >= s.len() {
        None
    } else if s[from] == c {
        Some(from)
    } else {
        find_char(s, c, from + 1)
    }
}

/// The texts before and behind the first `c`.
pub open spec fn split_at_first(s: Seq<char>, c: char) -> Option<(Seq<char>, Seq<char>)> {
    match find_char(s, c, 0) {
        Some(at) => Some((s.take(at), s.skip(at + 1))),
        None => None,
    }
}

/// The pieces of a text between the separators `c`, in order.
pub open spec fn pieces(s: Seq<char>, c: char) -> Seq<Seq<char>>
    decreases s.len(),
{
    match find_char(s, c, 0) {
        Some(at) => if 0 <= at < s.len() {
            seq![s.take(at)] + pieces(s.skip(at + 1), c)
        } else {
            seq![s]
        },
        None => seq![s],
    }
}

/// The pieces joined with `separator` between neighbours.
pub open spec fn joined(parts: Seq<Seq<char>>, separator: Seq<char>) -> Seq<char>
    decreases parts.len(),
{
    if parts.len() == 0 {
        seq![]
    } else if parts.len() == 1 {
        parts[0]
    } else {
        joined(parts.drop_last(), separator) + separator + parts.last()
    }
}

/// The value of a text of decimal digits.
pub open spec fn digits_value(s: Seq<char>) -> nat
    decreases s.len(),
{
    if s.len() == 0 {
        0
    } else {
        digits_value(s.drop_last()) * 10 + (s.last() as u32 - '0' as u32) as nat
    }
}

/// Whether the text is made of decimal digits alone, at least one.
pub open spec fn all_digits(s: Seq<char>) -> bool {
    s.len() > 0 && forall|i: int| 0 <= i < s.len() ==> ascii_digit(#[trigger] s[i])
}

/// The text without one leading `+`.
pub open spec fn without_plus(s: Seq<char>) -> Seq<char> {
    if s.len() > 0 && s[0] == '+' {
        s.drop_first()
    } else {
        s
    }
}

/// The 64-bit number that a text denotes: digits behind an optional `+`.
pub open spec fn u64_value(s: Seq<char>) -> Option<u64> {
    let digits = without_plus(s);
    if all_digits(digits) && digits_value(digits) <= u64::MAX {
        Some(digits_value(digits) as u64)
    } else {
        None
    }
}

/// A longer text of digits never denotes less.
proof fn lemma_digits_prefix(s: Seq<char>, n: int)
    requires
        0 <= n <= s.len(),
        forall|i: int| 0 <= i < s.len() ==> ascii_digit(#[trigger] s[i]),
    ensures
        digits_value(s.take(n)) <= digits_value(s),
    decreases s.len() - n,
{
    if n < s.len() {
        lemma_digits_prefix(s, n + 1);
        assert(s.take(n + 1).drop_last() =~= s.take(n));
        assert(s.take(n + 1).last() == s[n]);
    } else {
        assert(s.take(n) =~= s);
    }
}

/// Reads a 64-bit number: digits behind an optional `+`.
pub fn parse_u64(s: &[char]) -> (r: Option<u64>)
    ensures
        r == u64_value(s@),
{
    let length: usize = s.len();
    let start: usize = if length > 0 && s[0] == '+' {
        1
    } else {
        0
    };
    let digits = slice_subrange(s, start, length);
    assert(digits@ =~= without_plus(s@));
    if digits.len() == 0 {
        return None;
    }
    let mut i: usize = 0;
    while i < digits.len()
        invariant
            digits@ == without_plus(s@),
            i <= digits@.len(),
            forall|j: int| 0 <= j < i ==> ascii_digit(#[trigger] digits@[j]),
        decreases digits@.len() - i,
    {
        if !('0' <= digits[i] && digits[i] <= '9') {
            assert(!ascii_digit(digits@[i as int]));
            return None;
        }
        i += 1;
    }
    let mut value: u64 = 0;
    let mut k: usize = 0;
    while k < digits.len()
        invariant
            digits@ == without_plus(s@),
            k <= digits@.len(),
            forall|j: int| 0 <= j < digits@.len() ==> ascii_digit(#[trigger] digits@[j]),
            value == digits_value(digits@.take(k as int)),
        decreases digits@.len() - k,
    {
        let digit: u64 = (digits[k] as u32 - '0' as u32) as u64;
        proof {
            lemma_digits_prefix(digits@, k as int + 1);
            assert(digits@.take(k as int + 1).drop_last() =~= digits@.take(k as int));
            assert(digits@.take(k as int + 1).last() == digits@[k as int]);
            assert(ascii_digit(digits@[k as int]));
            assert(digits_value(digits@.take(k as int + 1)) == value * 10 + digit);
        }
        if value > (u64::MAX - digit) / 10 {
            assert(digits@.take(digits@.len() as int) =~= digits@);
            assert(digits_value(digits@) > u64::MAX);
            return None;
        }
        value = value * 10 + digit;
        k += 1;
    }
    assert(digits@.take(digits@.len() as int) =~= digits@);
    Some(value)
}

pub proof fn lemma_find_char_bounds(s: Seq<char>, c: char, from: int)
    requires
        0 <= from,
    ensures
        match find_char(s, c, from) {
            Some(at) => from <= at < s.len() && s[at] == c && forall|i: int|
                from <= i < at ==> s[i] != c,
            None => forall|i: int| from <= i < s.len() ==> s[i] != c,
        },
    decreases s.len() - from,
{
    if from < s.len() && s[from] != c {
        lemma_find_char_bounds(s, c, from + 1);
    }
}

pub proof fn lemma_find_from_bounds(s: Seq<char>, needle: Seq<char>, from: int)
    requires
        0 <= from,
    ensures
        match find_from(s, needle, from) {
            Some(at) => from <= at && occurs_at(s, needle, at) && forall|i: int|
                from <= i < at ==> !#[trigger] occurs_at(s, needle, i),
            None => forall|i: int| from <= i ==> !#[trigger] occurs_at(s, needle, i),
        },
    decreases s.len() - from + 1,
{
    if from + needle.len() <= s.len() && !occurs_at(s, needle, from) {
        lemma_find_from_bounds(s, needle, from + 1);
    }
}

pub fn is_whitespace(c: char) -> (r: bool)
    ensures
        r == whitespace(c),
{
    let u: u32 = c as u32;
    (0x09 <= u && u <= 0x0d) || u == 0x20 || u == 0x85 || u == 0xa0 || u == 0x1680 || (0x2000 <= u
        && u <= 0x200a) || u == 0x2028 || u == 0x2029 || u == 0x202f || u == 0x205f || u == 0x3000
}

pub fn is_control(c: char) -> (r: bool)
    ensures
        r == control(c),
{
    let u: u32 = c as u32;
    u <= 0x1f || (0x7f <= u && u <= 0x9f)
}

/// The characters of a text.
pub fn chars_of(s: &str) -> (chars: Vec<char>)
    ensures
        chars@ == s@,
{
    let mut chars: Vec<char> = Vec::new();
    for c in it: s.chars()
        invariant
            it.seq() == s@,
            chars@ == s@.take(it.index() as int),
    {
        chars.push(c);
    }
    chars
}

/// The text made of the given characters.
pub fn text_of(chars: &[char]) -> (text: String)
    ensures
        text@ == chars@,
{
    let mut text = String::new();
    let mut i: usize = 0;
    while i < chars.len()
        invariant
            i <= chars@.len(),
            text@ == chars@.take(i as int),
        decreases chars@.len() - i,
    {
        text.push(chars[i]);
        i += 1;
    }
    text
}

/// Whether two character slices hold the same text.
pub fn same(a: &[char], b: &[char]) -> (r: bool)
    ensures
        r == (a@ == b@),
{
    if a.len() != b.len() {
        return false;
    }
    let mut i: usize = 0;
    while i < a.len()
        invariant
            a@.len() == b@.len(),
            i <= a@.len(),
            forall|j: int| 0 <= j < i ==> a@[j] == b@[j],
        decreases a@.len() - i,
    {
        if a[i] != b[i] {
            return false;
        }
        i += 1;
    }
    assert(a@ =~= b@);
    true
}

/// Whether the characters spell `literal`.
pub fn equals(s: &[char], literal: &str) -> (r: bool)
    ensures
        r == (s@ == literal@),
{
    let wanted = chars_of(literal);
    same(s, wanted.as_slice())
}

/// Whether two texts are equal.
pub fn same_text(a: &str, b: &str) -> (r: bool)
    ensures
        r == (a@ == b@),
{
    let left = chars_of(a);
    let right = chars_of(b);
    same(left.as_slice(), right.as_slice())
}

pub fn to_lower_char(c: char) -> (r: char)
    ensures
        r == lower_char(c),
{
    if 'A' <= c && c <= 'Z' {
        let code: u8 = c as u8;
        (code + 32) as char
    } else {
        c
    }
}

/// The characters with ASCII letters in lower case.
pub fn to_lower(s: &[char]) -> (r: Vec<char>)
    ensures
        r@ == lower(s@),
{
    let mut r: Vec<char> = Vec::new();
    let mut i: usize = 0;
    while i < s.len()
        invariant
            i <= s@.len(),
            r@ == lower(s@).take(i as int),
        decreases s@.len() - i,
    {
        r.push(to_lower_char(s[i]));
        i += 1;
    }
    assert(lower(s@).take(s@.len() as int) =~= lower(s@));
    r
}

/// Whether two texts are equal up to the case of ASCII letters.
pub fn eq_ignore_case(a: &[char], b: &[char]) -> (r: bool)
    ensures
        r == same_ignoring_case(a@, b@),
{
    let left = to_lower(a);
    let right = to_lower(b);
    same(left.as_slice(), right.as_slice())
}

/// Drops the surrounding white space.
pub fn trim(s: &[char]) -> (r: &[char])
    ensures
        r@ == trimmed(s@),
{
    let mut start: usize = 0;
    assert(s@.skip(0) =~= s@);
    while start < s.len() && is_whitespace(s[start])
        invariant
            start <= s@.len(),
            trimmed_start(s@.skip(start as int)) == trimmed_start(s@),
        decreases s@.len() - start,
    {
        assert(s@.skip(start as int).drop_first() =~= s@.skip(start as int + 1));
        start += 1;
    }
    let ghost rest = s@.skip(start as int);
    assert(trimmed_start(s@) == rest);
    let mut end: usize = s.len();
    assert(s@.subrange(start as int, end as int) =~= rest);
    while start < end && is_whitespace(s[end - 1])
        invariant
            start <= end <= s@.len(),
            trimmed_end(s@.subrange(start as int, end as int)) == trimmed_end(rest),
        decreases end,
    {
        let ghost part = s@.subrange(start as int, end as int);
        assert(part.drop_last() =~= s@.subrange(start as int, end as int - 1));
        assert(part.last() == s@[end as int - 1]);
        end -= 1;
    }
    let r = slice_subrange(s, start, end);
    r
}

/// Drops the surrounding white space of a text.
pub fn trim_text(s: &str) -> (r: String)
    ensures
        r@ == trimmed(s@),
{
    let chars = chars_of(s);
    text_of(trim(chars.as_slice()))
}

/// Whether the text holds a control character.
pub fn any_control(s: &[char]) -> (r: bool)
    ensures
        r == has_control(s@),
{
    let mut i: usize = 0;
    while i < s.len()
        invariant
            i <= s@.len(),
            forall|j: int| 0 <= j < i ==> !control(#[trigger] s@[j]),
        decreases s@.len() - i,
    {
        if is_control(s[i]) {
            return true;
        }
        i += 1;
    }
    false
}

/// Whether the text holds a white-space character.
pub fn any_whitespace(s: &[char]) -> (r: bool)
    ensures
        r == has_whitespace(s@),
{
    let mut i: usize = 0;
    while i < s.len()
        invariant
            i <= s@.len(),
            forall|j: int| 0 <= j < i ==> !whitespace(#[trigger] s@[j]),
        decreases s@.len() - i,
    {
        if is_whitespace(s[i]) {
            return true;
        }
        i += 1;
    }
    false
}

/// Whether `needle` starts at position `at`.
pub fn matches_at(s: &[char], needle: &[char], at: usize) -> (r: bool)
    requires
        at <= s@.len(),
    ensures
        r == occurs_at(s@, needle@, at as int),
{
    if s.len() - at < needle.len() {
        return false;
    }
    let part = slice_subrange(s, at, at + needle.len());
    same(part, needle)
}

/// The first position at or behind `from` where `needle` occurs.
pub fn find(s: &[char], needle: &[char], from: usize) -> (r: Option<usize>)
    requires
        from <= s@.len(),
    ensures
        match r {
            Some(at) => find_from(s@, needle@, from as int) == Some(at as int) && at
                + needle@.len() <= s@.len(),
            None => find_from(s@, needle@, from as int) is None,
        },
{
    let mut at: usize = from;
    while at < s.len() && s.len() - at >= needle.len()
        invariant
            from <= at <= s@.len(),
            find_from(s@, needle@, from as int) == find_from(s@, needle@, at as int),
        decreases s@.len() - at,
    {
        if matches_at(s, needle, at) {
            return Some(at);
        }
        at += 1;
    }
    if needle.len() == 0 && at == s.len() {
        assert(s@.subrange(at as int, at as int) =~= needle@);
        return Some(at);
    }
    None
}

/// Whether `needle` occurs in `s`.
pub fn has(s: &[char], needle: &str) -> (r: bool)
    ensures
        r == contains(s@, needle@),
{
    let pattern = chars_of(needle);
    let found = find(s, pattern.as_slice(), 0);
    proof {
        lemma_find_from_bounds(s@, needle@, 0);
        if found is Some {
            assert(occurs_at(s@, needle@, found->0 as int));
        } else {
            assert forall|at: int| !#[trigger] occurs_at(s@, needle@, at) by {
                if at < 0 {
                    assert(!occurs_at(s@, needle@, at));
                }
            }
        }
    }
    found.is_some()
}

/// The first position at or behind `from` that holds `c`.
pub fn position(s: &[char], c: char, from: usize) -> (r: Option<usize>)
    requires
        from <= s@.len(),
    ensures
        match r {
            Some(at) => find_char(s@, c, from as int) == Some(at as int) && from <= at < s@.len(),
            None => find_char(s@, c, from as int) is None,
        },
{
    let mut at: usize = from;
    while at < s.len()
        invariant
            from <= at <= s@.len(),
            find_char(s@, c, from as int) == find_char(s@, c, at as int),
        decreases s@.len() - at,
    {
        if s[at] == c {
            return Some(at);
        }
        at += 1;
    }
    None
}

/// The texts before and behind the first `c`.
pub fn split_once(s: &[char], c: char) -> (r: Option<(&[char], &[char])>)
    ensures
        match r {
            Some(halves) => split_at_first(s@, c) == Some((halves.0@, halves.1@)),
            None => split_at_first(s@, c) is None,
        },
{
    let length: usize = s.len();
    match position(s, c, 0) {
        Some(at) => {
            let before = slice_subrange(s, 0, at);
            let behind = slice_subrange(s, at + 1, length);
            assert(before@ =~= s@.take(at as int));
            assert(behind@ =~= s@.skip(at as int + 1));
            Some((before, behind))
        },
        None => None,
    }
}

/// The pieces of a text between the separators `c`, in order.
pub fn split(s: &[char], c: char) -> (r: Vec<&[char]>)
    ensures
        r@.len() == pieces(s@, c).len(),
        forall|i: int| 0 <= i < r@.len() ==> (#[trigger] r@[i])@ == pieces(s@, c)[i],
        r@.len() >= 1,
{
    let mut r: Vec<&[char]> = Vec::new();
    let mut start: usize = 0;
    assert(s@.skip(0) =~= s@);
    loop
        invariant
            start <= s@.len(),
            pieces(s@, c).len() == r@.len() + pieces(s@.skip(start as int), c).len(),
            forall|i: int| 0 <= i < r@.len() ==> (#[trigger] r@[i])@ == pieces(s@, c)[i],
            forall|i: int|
                0 <= i < pieces(s@.skip(start as int), c).len() ==> pieces(s@, c)[r@.len() + i]
                    == #[trigger] pieces(s@.skip(start as int), c)[i],
        decreases s@.len() - start,
    {
        let rest = slice_subrange(s, start, s.len());
        assert(rest@ =~= s@.skip(start as int));
        let ghost tail = pieces(rest@, c);
        match position(rest, c, 0) {
            Some(at) => {
                let piece = slice_subrange(rest, 0, at);
                assert(piece@ =~= rest@.take(at as int));
                assert(rest@.skip(at as int + 1) =~= s@.skip(start as int + at as int + 1));
                proof {
                    let further = pieces(s@.skip(start as int + at as int + 1), c);
                    assert(tail =~= seq![rest@.take(at as int)] + further);
                    assert(tail[0] == piece@);
                    assert forall|i: int| 0 <= i < further.len() implies pieces(s@, c)[r@.len() + 1
                        + i] == #[trigger] further[i] by {
                        assert(tail[i + 1] == further[i]);
                        assert(pieces(s@, c)[r@.len() + (i + 1)] == tail[i + 1]);
                    }
                }
                r.push(piece);
                start = start + at + 1;
            },
            None => {
                assert(tail =~= seq![rest@]);
                assert(tail[0] == rest@);
                r.push(rest);
                return r;
            },
        }
    }
}

/// The text without the characters equal to `c`.
pub open spec fn without(s: Seq<char>, c: char) -> Seq<char>
    decreases s.len(),
{
    if s.len() == 0 {
        seq![]
    } else if s.last() == c {
        without(s.drop_last(), c)
    } else {
        without(s.drop_last(), c).push(s.last())
    }
}

/// The text without the characters equal to `c`.
pub fn remove_char(s: &[char], c: char) -> (r: Vec<char>)
    ensures
        r@ == without(s@, c),
{
    let mut r: Vec<char> = Vec::new();
    let mut i: usize = 0;
    while i < s.len()
        invariant
            i <= s@.len(),
            r@ == without(s@.take(i as int), c),
        decreases s@.len() - i,
    {
        assert(s@.take(i as int + 1).drop_last() =~= s@.take(i as int));
        assert(s@.take(i as int + 1).last() == s@[i as int]);
        if s[i] != c {
            r.push(s[i]);
        }
        i += 1;
    }
    assert(s@.take(i as int) =~= s@);
    r
}

/// The first `n` digits of `digits` with a comma before every group of three
/// digits that ends the text.
pub open spec fn grouped_prefix(digits: Seq<char>, n: int) -> Seq<char>
    decreases n,
{
    if n <= 0 {
        seq![]
    } else if n > 1 && (digits.len() - (n - 1)) % 3 == 0 {
        grouped_prefix(digits, n - 1).push(',').push(digits[n - 1])
    } else {
        grouped_prefix(digits, n - 1).push(digits[n - 1])
    }
}

/// Digits in groups of three, separated by commas.
pub open spec fn grouped(digits: Seq<char>) -> Seq<char> {
    grouped_prefix(digits, digits.len() as int)
}

/// Puts digits into groups of three, separated by commas.
pub fn group_digits(digits: &[char]) -> (r: String)
    ensures
        r@ == grouped(digits@),
{
    let mut r = String::new();
    let mut i: usize = 0;
    while i < digits.len()
        invariant
            i <= digits@.len(),
            r@ == grouped_prefix(digits@, i as int),
        decreases digits@.len() - i,
    {
        if i > 0 && (digits.len() - i) % 3 == 0 {
            r.push(',');
        }
        r.push(digits[i]);
        i += 1;
    }
    r
}

/// Grouping only adds commas: taking them out gives the digits back.
pub proof fn law_grouping_keeps_digits(digits: Seq<char>)
    requires
        !digits.contains(','),
    ensures
        without(grouped(digits), ',') == digits,
{
    lemma_grouped_prefix(digits, digits.len() as int);
    assert(digits.take(digits.len() as int) =~= digits);
}

proof fn lemma_grouped_prefix(digits: Seq<char>, n: int)
    requires
        !digits.contains(','),
        0 <= n <= digits.len(),
    ensures
        without(grouped_prefix(digits, n), ',') == digits.take(n),
    decreases n,
{
    reveal_with_fuel(without, 3);
    if n > 0 {
        lemma_grouped_prefix(digits, n - 1);
        let before = grouped_prefix(digits, n - 1);
        assert(digits[n - 1] != ',') by {
            assert(digits.contains(digits[n - 1]));
        }
        assert(before.push(',').drop_last() =~= before);
        assert(before.push(',').push(digits[n - 1]).drop_last() =~= before.push(','));
        assert(before.push(digits[n - 1]).drop_last() =~= before);
        assert(digits.take(n) =~= digits.take(n - 1).push(digits[n - 1]));
    } else {
        assert(digits.take(0) =~= seq![]);
    }
}

/// `std::str::from_utf8` gives the text of valid UTF-8 and rejects other bytes.
#[verifier::external_body]
pub(crate) fn utf8_text(bytes: &[u8]) -> (r: Option<String>)
    ensures
        r is Some <==> vstd::utf8::valid_utf8(bytes@),
        r is Some ==> r->0@ == vstd::utf8::decode_utf8(bytes@),
{
    std::str::from_utf8(bytes).ok().map(|s| s.to_owned())
}

/// Joins the parts with `separator` between neighbours.
pub fn join(parts: &Vec<String>, separator: &str) -> (r: String)
    ensures
        r@ == joined(parts.deep_view(), separator@),
{
    let mut r = String::new();
    let mut i: usize = 0;
    while i < parts.len()
        invariant
            i <= parts@.len(),
            r@ == joined(parts.deep_view().take(i as int), separator@),
        decreases parts@.len() - i,
    {
        let ghost before = parts.deep_view().take(i as int);
        let ghost after = parts.deep_view().take(i as int + 1);
        assert(after.drop_last() =~= before);
        assert(after.last() == parts@[i as int]@);
        if i > 0 {
            r.append(separator);
        }
        r.append(parts[i].as_str());
        assert(r@ =~= joined(after, separator@));
        i += 1;
    }
    assert(parts.deep_view().take(parts@.len() as int) =~= parts.deep_view());
    r
}

/// The text with every occurrence of `from`, read from the left and without
/// overlap, replaced by `to`.
pub open spec fn replaced(s: Seq<char>, from: Seq<char>, to: Seq<char>) -> Seq<char>
    decreases s.len(),
{
    if from.len() == 0 {
        s
    } else {
        match find_from(s, from, 0) {
            Some(at) => if 0 <= at && at + from.len() <= s.len() {
                s.take(at) + to + replaced(s.skip(at + from.len()), from, to)
            } else {
                s
            },
            None => s,
        }
    }
}

/// Appends characters to a list.
pub fn push_all(list: &mut Vec<char>, more: &[char])
    ensures
        final(list)@ == old(list)@ + more@,
{
    let mut i: usize = 0;
    assert(old(list)@ + more@.take(0) =~= old(list)@);
    while i < more.len()
        invariant
            i <= more@.len(),
            list@ == old(list)@ + more@.take(i as int),
        decreases more@.len() - i,
    {
        list.push(more[i]);
        assert(more@.take(i as int + 1) =~= more@.take(i as int).push(more@[i as int]));
        i += 1;
        assert(list@ =~= old(list)@ + more@.take(i as int));
    }
    assert(more@.take(i as int) =~= more@);
}

/// Replaces every occurrence of `from` by `to`.
pub fn replace(s: &[char], from: &str, to: &str) -> (r: Vec<char>)
    requires
        from@.len() > 0,
    ensures
        r@ == replaced(s@, from@, to@),
{
    let pattern = chars_of(from);
    let substitute = chars_of(to);
    let length: usize = s.len();
    let mut r: Vec<char> = Vec::new();
    let mut start: usize = 0;
    assert(s@.skip(0) =~= s@);
    assert(r@ + replaced(s@, from@, to@) =~= replaced(s@, from@, to@));
    loop
        invariant
            from@.len() > 0,
            pattern@ == from@,
            substitute@ == to@,
            length == s@.len(),
            start <= length,
            replaced(s@, from@, to@) == r@ + replaced(s@.skip(start as int), from@, to@),
        decreases length - start,
    {
        let rest = slice_subrange(s, start, length);
        assert(rest@ =~= s@.skip(start as int));
        let ghost before = r@;
        match find(rest, pattern.as_slice(), 0) {
            None => {
                push_all(&mut r, rest);
                return r;
            },
            Some(at) => {
                let piece = slice_subrange(rest, 0, at);
                assert(piece@ =~= rest@.take(at as int));
                push_all(&mut r, piece);
                push_all(&mut r, substitute.as_slice());
                assert(rest@.skip(at + from@.len()) =~= s@.skip(start + at + from@.len()));
                assert(r@ + replaced(s@.skip(start + at + from@.len()), from@, to@) =~= before
                    + replaced(rest@, from@, to@));
                start = start + at + pattern.len();
            },
        }
    }
}

/// Characters that separate words.
pub open spec fn blank(c: char, ascii: bool) -> bool {
    if ascii {
        ascii_whitespace(c)
    } else {
        whitespace(c)
    }
}

/// The end of a run of blanks, or of other characters, that starts at `at`.
pub open spec fn run_end(s: Seq<char>, at: int, blanks: bool, ascii: bool) -> int
    decreases s.len() - at,
{
    if 0 <= at < s.len() && blank(s[at], ascii) == blanks {
        run_end(s, at + 1, blanks, ascii)
    } else {
        at
    }
}

pub proof fn lemma_run_end(s: Seq<char>, at: int, blanks: bool, ascii: bool)
    requires
        0 <= at <= s.len(),
    ensures
        at <= run_end(s, at, blanks, ascii) <= s.len(),
        at < s.len() && blank(s[at], ascii) == blanks ==> at < run_end(s, at, blanks, ascii),
        run_end(s, at, blanks, ascii) < s.len() ==> blank(
            s[run_end(s, at, blanks, ascii)],
            ascii,
        ) != blanks,
    decreases s.len() - at,
{
    if at < s.len() && blank(s[at], ascii) == blanks {
        lemma_run_end(s, at + 1, blanks, ascii);
    }
}

/// The words of a text from position `at` on: the longest runs without blanks.
pub open spec fn words_from(s: Seq<char>, at: int, ascii: bool) -> Seq<Seq<char>>
    decreases s.len() - at,
{
    let start = run_end(s, at, true, ascii);
    let end = run_end(s, start, false, ascii);
    if 0 <= at <= start < end <= s.len() {
        seq![s.subrange(start, end)] + words_from(s, end, ascii)
    } else {
        seq![]
    }
}

fn skip_run(s: &[char], at: usize, blanks: bool, ascii: bool) -> (r: usize)
    requires
        at <= s@.len(),
    ensures
        r == run_end(s@, at as int, blanks, ascii),
        at <= r <= s@.len(),
{
    let mut i: usize = at;
    while i < s.len()
        invariant
            at <= i <= s@.len(),
            run_end(s@, at as int, blanks, ascii) == run_end(s@, i as int, blanks, ascii),
        decreases s@.len() - i,
    {
        let c = s[i];
        let is_blank = if ascii {
            c == '\t' || c == '\n' || c == '\x0c' || c == '\r' || c == ' '
        } else {
            is_whitespace(c)
        };
        if is_blank != blanks {
            return i;
        }
        i += 1;
    }
    i
}

/// The words of a text: the longest runs without blanks.
pub fn words(s: &[char], ascii: bool) -> (r: Vec<&[char]>)
    ensures
        r@.len() == words_from(s@, 0, ascii).len(),
        forall|i: int| 0 <= i < r@.len() ==> (#[trigger] r@[i])@ == words_from(s@, 0, ascii)[i],
{
    let ghost all = words_from(s@, 0, ascii);
    let mut r: Vec<&[char]> = Vec::new();
    let mut at: usize = 0;
    loop
        invariant
            all == words_from(s@, 0, ascii),
            at <= s@.len(),
            all.len() == r@.len() + words_from(s@, at as int, ascii).len(),
            forall|i: int| 0 <= i < r@.len() ==> (#[trigger] r@[i])@ == all[i],
            forall|i: int|
                0 <= i < words_from(s@, at as int, ascii).len() ==> all[r@.len() + i]
                    == #[trigger] words_from(s@, at as int, ascii)[i],
        decreases s@.len() - at,
    {
        let ghost tail = words_from(s@, at as int, ascii);
        let start: usize = skip_run(s, at, true, ascii);
        let end: usize = skip_run(s, start, false, ascii);
        proof {
            lemma_run_end(s@, at as int, true, ascii);
            lemma_run_end(s@, start as int, false, ascii);
        }
        if start == end {
            return r;
        }
        let word = slice_subrange(s, start, end);
        proof {
            let further = words_from(s@, end as int, ascii);
            assert(tail =~= seq![word@] + further);
            assert(tail[0] == word@);
            assert forall|i: int| 0 <= i < further.len() implies all[r@.len() + 1 + i]
                == #[trigger] further[i] by {
                assert(tail[i + 1] == further[i]);
                assert(all[r@.len() + (i + 1)] == tail[i + 1]);
            }
        }
        r.push(word);
        at = end;
    }
}

/// The text without its leading characters `c`.
pub open spec fn without_leading(s: Seq<char>, c: char) -> Seq<char>
    decreases s.len(),
{
    if s.len() > 0 && s[0] == c {
        without_leading(s.drop_first(), c)
    } else {
        s
    }
}

/// The text without its trailing characters `c`.
pub open spec fn without_trailing(s: Seq<char>, c: char) -> Seq<char>
    decreases s.len(),
{
    if s.len() > 0 && s.last() == c {
        without_trailing(s.drop_last(), c)
    } else {
        s
    }
}

/// Drops the leading characters `c`.
pub fn strip_leading(s: &[char], c: char) -> (r: &[char])
    ensures
        r@ == without_leading(s@, c),
{
    let length: usize = s.len();
    let mut start: usize = 0;
    assert(s@.skip(0) =~= s@);
    while start < length && s[start] == c
        invariant
            length == s@.len(),
            start <= length,
            without_leading(s@.skip(start as int), c) == without_leading(s@, c),
        decreases length - start,
    {
        assert(s@.skip(start as int).drop_first() =~= s@.skip(start as int + 1));
        start += 1;
    }
    let r = slice_subrange(s, start, length);
    assert(r@ =~= s@.skip(start as int));
    r
}

/// Drops the trailing characters `c`.
pub fn strip_trailing(s: &[char], c: char) -> (r: &[char])
    ensures
        r@ == without_trailing(s@, c),
{
    let mut end: usize = s.len();
    assert(s@.take(end as int) =~= s@);
    while end > 0 && s[end - 1] == c
        invariant
            end <= s@.len(),
            without_trailing(s@.take(end as int), c) == without_trailing(s@, c),
        decreases end,
    {
        assert(s@.take(end as int).drop_last() =~= s@.take(end as int - 1));
        end -= 1;
    }
    let r = slice_subrange(s, 0, end);
    assert(r@ =~= s@.take(end as int));
    r
}

/// The signed 64-bit number that a text denotes: digits behind an optional sign.
pub open spec fn i64_value(s: Seq<char>) -> Option<i64> {
    if s.len() > 0 && s[0] == '-' {
        let digits = s.drop_first();
        if all_digits(digits) && digits_value(digits) <= 0x8000_0000_0000_0000 {
            Some((-(digits_value(digits) as int)) as i64)
        } else {
            None
        }
    } else {
        let digits = without_plus(s);
        if all_digits(digits) && digits_value(digits) <= i64::MAX {
            Some(digits_value(digits) as i64)
        } else {
            None
        }
    }
}

/// Reads a signed 64-bit number: digits behind an optional sign.
pub fn parse_i64(s: &[char]) -> (r: Option<i64>)
    ensures
        r == i64_value(s@),
{
    let length: usize = s.len();
    if length > 0 && s[0] == '-' {
        let digits = slice_subrange(s, 1, length);
        assert(digits@ =~= s@.drop_first());
        if digits.len() > 0 && digits[0] == '+' {
            assert(!ascii_digit(digits@[0]));
            return None;
        }
        match parse_u64(digits) {
            None => None,
            Some(value) => {
                if value > 0x8000_0000_0000_0000 {
                    None
                } else {
                    Some((-(value as i128)) as i64)
                }
            },
        }
    } else {
        match parse_u64(s) {
            None => None,
            Some(value) => {
                if value > i64::MAX as u64 {
                    None
                } else {
                    Some(value as i64)
                }
            },
        }
    }
}

/// The decimal digit of a number below ten.
pub open spec fn digit_char(d: int) -> char {
    ((48 + d) as u32) as char
}

/// The decimal digits of a number.
pub open spec fn digits(n: nat) -> Seq<char>
    decreases n,
{
    if n < 10 {
        seq![digit_char(n as int)]
    } else {
        digits(n / 10).push(digit_char((n % 10) as int))
    }
}

/// The decimal text of a signed number.
pub open spec fn signed_digits(n: int) -> Seq<char> {
    if n < 0 {
        "-"@ + digits((-n) as nat)
    } else {
        digits(n as nat)
    }
}

/// The digits of a number, filled with zeros in front up to a width.
pub open spec fn padded(n: nat, width: nat) -> Seq<char>
    decreases width,
{
    if width <= 1 {
        digits(n)
    } else if n < 10 {
        padded(0, (width - 1) as nat).push(digit_char(n as int))
    } else {
        padded(n / 10, (width - 1) as nat).push(digit_char((n % 10) as int))
    }
}

/// Appends the decimal digits of a number.
pub fn push_number(out: &mut String, n: u64)
    ensures
        final(out)@ == old(out)@ + digits(n as nat),
    decreases n,
{
    if n >= 10 {
        push_number(out, n / 10);
    }
    let code: u8 = (n % 10) as u8;
    out.push((48 + code) as char);
    assert(out@ =~= old(out)@ + digits(n as nat));
}

/// Appends the decimal text of a signed number.
pub fn push_signed(out: &mut String, n: i64)
    ensures
        final(out)@ == old(out)@ + signed_digits(n as int),
{
    if n < 0 {
        out.append("-");
        let size: u64 = (-(n as i128)) as u64;
        push_number(out, size);
        assert(out@ =~= old(out)@ + signed_digits(n as int));
    } else {
        push_number(out, n as u64);
    }
}

/// Appends the digits of a number, filled with zeros in front up to a width.
pub fn push_padded(out: &mut String, n: u64, width: u32)
    ensures
        final(out)@ == old(out)@ + padded(n as nat, width as nat),
    decreases width,
{
    if width <= 1 {
        push_number(out, n);
    } else {
        if n < 10 {
            push_padded(out, 0, width - 1);
        } else {
            push_padded(out, n / 10, width - 1);
        }
        let code: u8 = (n % 10) as u8;
        out.push((48 + code) as char);
        assert(out@ =~= old(out)@ + padded(n as nat, width as nat));
    }
}

/// The text of a number with the digits before its point in groups.
pub open spec fn grouped_number(raw: Seq<char>) -> Seq<char> {
    let sign = if raw.len() > 0 && raw[0] == '-' {
        "-"@
    } else {
        ""@
    };
    let unsigned = if raw.len() > 0 && raw[0] == '-' {
        raw.drop_first()
    } else {
        raw
    };
    match split_at_first(unsigned, '.') {
        Some((integer, fraction)) => sign + grouped(integer) + "."@ + fraction,
        None => sign + grouped(unsigned),
    }
}

/// Groups the digits before the point of a number.
pub fn group_number(raw: &str) -> (r: String)
    ensures
        r@ == grouped_number(raw@),
{
    let chars = chars_of(raw);
    let length: usize = chars.len();
    let negative = length > 0 && chars[0] == '-';
    let mut r = if negative {
        "-".to_owned()
    } else {
        "".to_owned()
    };
    let start: usize = if negative {
        1
    } else {
        0
    };
    let unsigned = slice_subrange(chars.as_slice(), start, length);
    proof {
        if negative {
            assert(unsigned@ =~= raw@.drop_first());
        } else {
            assert(unsigned@ =~= raw@);
        }
    }
    match split_once(unsigned, '.') {
        Some((integer, fraction)) => {
            let whole = group_digits(integer);
            let rest = text_of(fraction);
            r.append(whole.as_str());
            r.append(".");
            r.append(rest.as_str());
        },
        None => {
            let whole = group_digits(unsigned);
            r.append(whole.as_str());
        },
    }
    r
}

/// Whether `a` comes before `b` in the order of their characters.
pub open spec fn precedes(a: Seq<char>, b: Seq<char>) -> bool
    decreases a.len(),
{
    if b.len() == 0 {
        false
    } else if a.len() == 0 {
        true
    } else if a[0] != b[0] {
        a[0] < b[0]
    } else {
        precedes(a.drop_first(), b.drop_first())
    }
}

/// Of two different texts, one comes before the other.
pub proof fn lemma_precedes_total(a: Seq<char>, b: Seq<char>)
    ensures
        precedes(a, b) || precedes(b, a) || a == b,
    decreases a.len(),
{
    if a.len() > 0 && b.len() > 0 && a[0] == b[0] {
        lemma_precedes_total(a.drop_first(), b.drop_first());
        if a.drop_first() == b.drop_first() {
            assert(a =~= seq![a[0]] + a.drop_first());
            assert(b =~= seq![b[0]] + b.drop_first());
        }
    } else if a.len() == 0 && b.len() == 0 {
        assert(a =~= b);
    }
}

/// Whether `a` comes before `b` in the order of their characters.
pub fn is_before(a: &[char], b: &[char]) -> (r: bool)
    ensures
        r == precedes(a@, b@),
{
    let mut i: usize = 0;
    assert(a@.skip(0) =~= a@);
    assert(b@.skip(0) =~= b@);
    while i < a.len() && i < b.len()
        invariant
            i <= a@.len(),
            i <= b@.len(),
            precedes(a@, b@) == precedes(a@.skip(i as int), b@.skip(i as int)),
        decreases a@.len() - i,
    {
        if a[i] != b[i] {
            return a[i] < b[i];
        }
        assert(a@.skip(i as int).drop_first() =~= a@.skip(i as int + 1));
        assert(b@.skip(i as int).drop_first() =~= b@.skip(i as int + 1));
        i += 1;
    }
    i < b.len()
}

/// Whether one of the texts is `wanted`.
pub open spec fn includes(list: Seq<Seq<char>>, wanted: Seq<char>) -> bool {
    exists|i: int| 0 <= i < list.len() && #[trigger] list[i] == wanted
}

/// Whether one of the texts is `wanted`.
pub fn any_same(list: &Vec<String>, wanted: &str) -> (r: bool)
    ensures
        r == includes(list.deep_view(), wanted@),
{
    let ghost all = list.deep_view();
    let mut i: usize = 0;
    while i < list.len()
        invariant
            all == list.deep_view(),
            i <= list@.len(),
            forall|j: int| 0 <= j < i ==> #[trigger] all[j] != wanted@,
        decreases list@.len() - i,
    {
        assert(all[i as int] == list@[i as int]@);
        if same_text(list[i].as_str(), wanted) {
            return true;
        }
        i += 1;
    }
    false
}

/// No text comes before another that comes before it.
pub proof fn lemma_precedes_asymmetric(a: Seq<char>, b: Seq<char>)
    requires
        precedes(a, b),
    ensures
        !precedes(b, a),
    decreases a.len(),
{
    if a.len() > 0 && b.len() > 0 && a[0] == b[0] {
        lemma_precedes_asymmetric(a.drop_first(), b.drop_first());
    }
}

/// A line without the carriage return at its end.
pub open spec fn without_return(s: Seq<char>) -> Seq<char> {
    if s.len() > 0 && s.last() == '\r' {
        s.drop_last()
    } else {
        s
    }
}

/// The lines of a text from position `at` on. A line ends at a line feed or at a
/// carriage return with a line feed; the last line may have no end.
pub open spec fn lines_from(s: Seq<char>, at: int) -> Seq<Seq<char>>
    decreases s.len() - at,
{
    if at < 0 || at >= s.len() {
        seq![]
    } else {
        match find_char(s, '\n', at) {
            Some(end) => if at <= end < s.len() {
                seq![without_return(s.subrange(at, end))] + lines_from(s, end + 1)
            } else {
                seq![]
            },
            None => seq![s.subrange(at, s.len() as int)],
        }
    }
}

/// The lines of a text.
pub fn lines(s: &[char]) -> (r: Vec<&[char]>)
    ensures
        r@.len() == lines_from(s@, 0).len(),
        forall|i: int| 0 <= i < r@.len() ==> (#[trigger] r@[i])@ == lines_from(s@, 0)[i],
{
    let mut r: Vec<&[char]> = Vec::new();
    let ghost all = lines_from(s@, 0);
    let mut at: usize = 0;
    let ghost mut done: Seq<Seq<char>> = seq![];
    assert(all =~= done + lines_from(s@, 0));
    while at < s.len()
        invariant
            at <= s@.len(),
            all == lines_from(s@, 0),
            all == done + lines_from(s@, at as int),
            r@.len() == done.len(),
            forall|i: int| 0 <= i < r@.len() ==> (#[trigger] r@[i])@ == done[i],
        decreases s@.len() - at,
    {
        proof {
            lemma_find_char_bounds(s@, '\n', at as int);
        }
        let next: usize = match position(s, '\n', at) {
            Some(end) => {
                let whole = slice_subrange(s, at, end);
                let n: usize = whole.len();
                let line = if n > 0 && whole[n - 1] == '\r' {
                    slice_subrange(whole, 0, n - 1)
                } else {
                    whole
                };
                assert(line@ =~= without_return(s@.subrange(at as int, end as int)));
                r.push(line);
                proof {
                    let tail = lines_from(s@, end + 1);
                    assert(done + (seq![line@] + tail) =~= done.push(line@) + tail);
                    done = done.push(line@);
                }
                end + 1
            },
            None => {
                let line = slice_subrange(s, at, s.len());
                r.push(line);
                proof {
                    done = done.push(line@);
                    assert(done =~= done + lines_from(s@, s@.len() as int));
                }
                s.len()
            },
        };
        at = next;
    }
    assert(all =~= done);
    r
}

/// The upper case of a character.
pub uninterp spec fn upper_of(c: char) -> Seq<char>;

/// `char::to_uppercase`, which may give several characters. The result is named
/// `upper_of`.
#[verifier::external_body]
pub(crate) fn upper(c: char) -> (r: String)
    ensures
        r@ == upper_of(c),
{
    c.to_uppercase().collect()
}

/// A text with its first character in upper case.
pub open spec fn capitalized(s: Seq<char>) -> Seq<char> {
    if s.len() == 0 {
        s
    } else {
        upper_of(s[0]) + s.drop_first()
    }
}

/// A text with its first character in upper case.
pub fn capitalize(s: &[char]) -> (r: String)
    ensures
        r@ == capitalized(s@),
{
    let n: usize = s.len();
    if n == 0 {
        return text_of(s);
    }
    let mut r = upper(s[0]);
    let rest_chars = slice_subrange(s, 1, n);
    assert(rest_chars@ =~= s@.drop_first());
    let rest = text_of(rest_chars);
    r.append(rest.as_str());
    r
}

/// The lower case of a character.
pub uninterp spec fn lower_of(c: char) -> Seq<char>;

/// `char::to_lowercase`, which may give several characters. The result is named
/// `lower_of`.
#[verifier::external_body]
pub(crate) fn lowered(c: char) -> (r: String)
    ensures
        r@ == lower_of(c),
{
    c.to_lowercase().collect()
}

/// The lower case of the first `n` characters of a text.
pub open spec fn lower_prefix(s: Seq<char>, n: int) -> Seq<char>
    decreases n,
{
    if n <= 0 {
        seq![]
    } else {
        lower_prefix(s, n - 1) + lower_of(s[n - 1])
    }
}

/// A word with its first character in upper case and the others in lower case.
pub open spec fn titled(word: Seq<char>) -> Seq<char> {
    if word.len() == 0 {
        seq![]
    } else {
        upper_of(word[0]) + lower_prefix(word.drop_first(), word.len() - 1)
    }
}

/// A word with its first character in upper case and the others in lower case.
pub fn title_word(word: &[char]) -> (r: String)
    ensures
        r@ == titled(word@),
{
    if word.len() == 0 {
        let r = String::new();
        assert(r@ =~= seq![]);
        return r;
    }
    let mut r = upper(word[0]);
    let ghost first = r@;
    let ghost rest = word@.drop_first();
    let mut i: usize = 1;
    assert(r@ =~= first + lower_prefix(rest, 0));
    while i < word.len()
        invariant
            1 <= i <= word@.len(),
            rest == word@.drop_first(),
            first == upper_of(word@[0]),
            r@ == first + lower_prefix(rest, i - 1),
        decreases word@.len() - i,
    {
        let shown = lowered(word[i]);
        assert(rest[i - 1] == word@[i as int]);
        r.append(shown.as_str());
        i += 1;
        assert(r@ =~= first + lower_prefix(rest, i - 1));
    }
    r
}

/// The first `n` words of a text, each titled.
pub open spec fn titled_words(words: Seq<Seq<char>>, n: int) -> Seq<Seq<char>>
    decreases n,
{
    if n <= 0 {
        seq![]
    } else {
        titled_words(words, n - 1).push(titled(words[n - 1]))
    }
}

/// A text with its words titled and one space between them.
pub open spec fn title(s: Seq<char>) -> Seq<char> {
    let all = words_from(s, 0, false);
    joined(titled_words(all, all.len() as int), " "@)
}

/// A text with its words titled and one space between them.
pub fn title_case(s: &str) -> (r: String)
    ensures
        r@ == title(s@),
{
    let chars = chars_of(s);
    let list = words(chars.as_slice(), false);
    let ghost all = words_from(s@, 0, false);
    let mut shown: Vec<String> = Vec::new();
    let mut i: usize = 0;
    assert(shown.deep_view() =~= seq![]);
    while i < list.len()
        invariant
            i <= list@.len(),
            list@.len() == all.len(),
            forall|j: int| 0 <= j < list@.len() ==> (#[trigger] list@[j])@ == all[j],
            shown.deep_view() == titled_words(all, i as int),
        decreases list@.len() - i,
    {
        assert(list@[i as int]@ == all[i as int]);
        let ghost before = shown.deep_view();
        let word = title_word(list[i]);
        shown.push(word);
        assert(shown.deep_view() =~= before.push(word@));
        i += 1;
    }
    join(&shown, " ")
}

/// A text in upper case.
pub uninterp spec fn upper_text_of(s: Seq<char>) -> Seq<char>;

/// `str::to_uppercase`. The result is named `upper_text_of`.
#[verifier::external_body]
pub(crate) fn upper_text(s: &str) -> (r: String)
    ensures
        r@ == upper_text_of(s@),
{
    s.to_uppercase()
}

/// The text of UTF-16 code units; `None` where they are not valid.
pub uninterp spec fn utf16_text_of(units: Seq<u16>) -> Option<Seq<char>>;

/// `String::from_utf16`. The result is named `utf16_text_of`.
#[verifier::external_body]
pub(crate) fn utf16_text(units: &[u16]) -> (r: Option<String>)
    ensures
        r.deep_view() == utf16_text_of(units@),
{
    String::from_utf16(units).ok()
}

/// The decimal digits of a number denote it, and are as many as needed.
pub proof fn law_digits_read_back(n: nat)
    ensures
        all_digits(digits(n)),
        digits_value(digits(n)) == n,
        n > 0 ==> digits(n)[0] != '0',
        n <= u64::MAX ==> u64_value(digits(n)) == Some(n as u64),
    decreases n,
{
    if n >= 10 {
        law_digits_read_back(n / 10);
        assert(digits(n).drop_last() =~= digits(n / 10));
        assert(digits(n)[0] == digits(n / 10)[0]);
    } else {
        assert(digits(n).drop_last() =~= seq![]);
        assert(digits_value(seq![]) == 0);
    }
    assert(without_plus(digits(n)) == digits(n));
}

/// The text of a signed number denotes it.
pub proof fn law_signed_digits_read_back(n: i64)
    ensures
        i64_value(signed_digits(n as int)) == Some(n),
{
    reveal_strlit("-");
    if n < 0 {
        law_digits_read_back((-(n as int)) as nat);
        assert(signed_digits(n as int).drop_first() =~= digits((-(n as int)) as nat));
    } else {
        law_digits_read_back(n as nat);
        assert(ascii_digit(digits(n as nat)[0]));
    }
}

/// A padded number denotes what it denotes without padding, in at least as many
/// digits as asked for.
pub proof fn law_padding_keeps_the_number(n: nat, width: nat)
    ensures
        all_digits(padded(n, width)),
        digits_value(padded(n, width)) == n,
        padded(n, width).len() >= width,
    decreases width,
{
    if width <= 1 {
        law_digits_read_back(n);
    } else if n < 10 {
        law_padding_keeps_the_number(0, (width - 1) as nat);
        assert(padded(n, width).drop_last() =~= padded(0, (width - 1) as nat));
    } else {
        law_padding_keeps_the_number(n / 10, (width - 1) as nat);
        assert(padded(n, width).drop_last() =~= padded(n / 10, (width - 1) as nat));
    }
}

/// Whether all characters of a text are white space.
pub open spec fn all_white(s: Seq<char>) -> bool {
    forall|i: int| 0 <= i < s.len() ==> whitespace(#[trigger] s[i])
}

proof fn lemma_trimmed_start(s: Seq<char>)
    ensures
        ({
            let kept = trimmed_start(s);
            let cut = s.len() - kept.len();
            &&& 0 <= cut
            &&& kept == s.skip(cut)
            &&& all_white(s.take(cut))
            &&& kept.len() > 0 ==> !whitespace(kept[0])
        }),
    decreases s.len(),
{
    if s.len() > 0 && whitespace(s[0]) {
        let rest = s.drop_first();
        lemma_trimmed_start(rest);
        let kept = trimmed_start(s);
        let cut = s.len() - kept.len();
        assert(s.skip(cut) =~= rest.skip(cut - 1));
        assert forall|i: int| 0 <= i < cut implies whitespace(#[trigger] s.take(cut)[i]) by {
            if i > 0 {
                assert(rest.take(cut - 1)[i - 1] == s[i]);
            }
        }
    } else {
        assert(s.skip(0) =~= s);
    }
}

proof fn lemma_trimmed_end(s: Seq<char>)
    ensures
        ({
            let kept = trimmed_end(s);
            &&& kept.len() <= s.len()
            &&& kept == s.take(kept.len() as int)
            &&& all_white(s.skip(kept.len() as int))
            &&& kept.len() > 0 ==> !whitespace(kept.last())
        }),
    decreases s.len(),
{
    if s.len() > 0 && whitespace(s.last()) {
        let rest = s.drop_last();
        lemma_trimmed_end(rest);
        let n = trimmed_end(s).len() as int;
        assert(s.take(n) =~= rest.take(n));
        assert forall|i: int| 0 <= i < s.len() - n implies whitespace(#[trigger] s.skip(n)[i]) by {
            if i < rest.len() - n {
                assert(rest.skip(n)[i] == s[n + i]);
            }
        }
    } else {
        assert(s.take(s.len() as int) =~= s);
    }
}

/// Trimming cuts off the white space around a text and nothing else: what is left
/// neither starts nor ends with white space.
pub proof fn law_trimming_cuts_white_space(s: Seq<char>)
    ensures
        ({
            let kept = trimmed(s);
            &&& kept.len() > 0 ==> !whitespace(kept[0]) && !whitespace(kept.last())
            &&& exists|from: int|
                0 <= from <= from + kept.len() <= s.len() && kept == #[trigger] s.subrange(
                    from,
                    from + kept.len(),
                ) && all_white(s.take(from)) && all_white(s.skip(from + kept.len()))
        }),
{
    let right = trimmed_start(s);
    lemma_trimmed_start(s);
    lemma_trimmed_end(right);
    let kept = trimmed(s);
    let from = s.len() - right.len();
    let to = from + kept.len();
    assert(kept =~= s.subrange(from, to));
    assert forall|i: int| 0 <= i < s.len() - to implies whitespace(#[trigger] s.skip(to)[i]) by {
        assert(right.skip(kept.len() as int)[i] == s[to + i]);
    }
    if kept.len() > 0 {
        assert(kept[0] == right[0]);
    }
}

/// The order of texts is strict and total.
pub proof fn law_texts_are_ordered(a: Seq<char>, b: Seq<char>)
    ensures
        !precedes(a, a),
        precedes(a, b) ==> !precedes(b, a),
        a != b ==> precedes(a, b) || precedes(b, a),
    decreases a.len(),
{
    if a.len() > 0 {
        let other = if b.len() > 0 {
            b.drop_first()
        } else {
            b
        };
        law_texts_are_ordered(a.drop_first(), other);
        if b.len() > 0 && a[0] == b[0] && a.drop_first() == b.drop_first() {
            assert(a =~= seq![a[0]] + a.drop_first());
            assert(b =~= seq![b[0]] + b.drop_first());
        }
    } else if b.len() == 0 {
        assert(a =~= b);
    }
}

/// The order of texts is by their first difference, and a text precedes what
/// continues it.
pub proof fn law_order_is_by_first_difference(common: Seq<char>, a: Seq<char>, b: Seq<char>)
    ensures
        precedes(common + a, common + b) <==> precedes(a, b),
        a.len() > 0 && b.len() > 0 && a[0] < b[0] ==> precedes(common + a, common + b),
        b.len() > 0 ==> precedes(common, common + b),
    decreases common.len(),
{
    if common.len() == 0 {
        assert(common + a =~= a);
        assert(common + b =~= b);
        assert(common =~= seq![]);
    } else {
        let rest = common.drop_first();
        law_order_is_by_first_difference(rest, a, b);
        assert((common + a).drop_first() =~= rest + a);
        assert((common + b).drop_first() =~= rest + b);
    }
}

/// The order of texts is transitive.
pub proof fn law_order_is_transitive(a: Seq<char>, b: Seq<char>, c: Seq<char>)
    requires
        precedes(a, b),
        precedes(b, c),
    ensures
        precedes(a, c),
    decreases a.len(),
{
    if a.len() > 0 && b.len() > 0 && c.len() > 0 && a[0] == b[0] && b[0] == c[0] {
        law_order_is_transitive(a.drop_first(), b.drop_first(), c.drop_first());
    }
}

/// A search finds the first place from its start on, and misses none.
pub proof fn law_search_finds_the_first(s: Seq<char>, needle: Seq<char>, from: int)
    requires
        0 <= from,
    ensures
        match find_from(s, needle, from) {
            Some(at) => from <= at && occurs_at(s, needle, at) && forall|i: int|
                from <= i < at ==> !(#[trigger] occurs_at(s, needle, i)),
            None => forall|i: int| from <= i ==> !(#[trigger] occurs_at(s, needle, i)),
        },
    decreases s.len() - from + 1,
{
    if from + needle.len() <= s.len() && !occurs_at(s, needle, from) {
        law_search_finds_the_first(s, needle, from + 1);
    }
}

/// A text is split at the first separator: the parts make the text again, and the
/// first holds no separator.
pub proof fn law_splits_are_at_the_first(s: Seq<char>, c: char)
    ensures
        match split_at_first(s, c) {
            Some((before, behind)) => s == before + seq![c] + behind && !before.contains(c),
            None => !s.contains(c),
        },
{
    lemma_first_char(s, c, 0);
    if let Some(at) = find_char(s, c, 0) {
        assert(s =~= s.take(at) + seq![c] + s.skip(at + 1));
    }
}

proof fn lemma_first_char(s: Seq<char>, c: char, from: int)
    requires
        0 <= from,
    ensures
        match find_char(s, c, from) {
            Some(at) => from <= at < s.len() && s[at] == c && forall|i: int|
                from <= i < at ==> (#[trigger] s[i]) != c,
            None => forall|i: int| from <= i < s.len() ==> (#[trigger] s[i]) != c,
        },
    decreases s.len() - from,
{
    if from < s.len() && s[from] != c {
        lemma_first_char(s, c, from + 1);
    }
}

/// The words of a text hold no white space and are not empty.
pub proof fn law_words_hold_no_blanks(s: Seq<char>, at: int, ascii: bool)
    requires
        0 <= at,
    ensures
        forall|k: int|
            0 <= k < words_from(s, at, ascii).len() ==> (#[trigger] words_from(s, at, ascii)[k]).len()
                > 0 && solid(words_from(s, at, ascii)[k], ascii),
    decreases s.len() - at,
{
    let start = run_end(s, at, true, ascii);
    let end = run_end(s, start, false, ascii);
    if 0 <= at <= start < end <= s.len() {
        law_words_hold_no_blanks(s, end, ascii);
        lemma_run_is_even(s, start, false, ascii);
        let rest = words_from(s, end, ascii);
        let all = words_from(s, at, ascii);
        let first = s.subrange(start, end);
        assert(all =~= seq![first] + rest);
        assert(solid(first, ascii));
        assert forall|k: int| 0 <= k < all.len() implies (#[trigger] all[k]).len() > 0 && solid(
            all[k],
            ascii,
        ) by {
            if k > 0 {
                assert(all[k] == rest[k - 1]);
            }
        }
    }
}

/// Whether a text holds no white space.
pub open spec fn solid(s: Seq<char>, ascii: bool) -> bool {
    forall|i: int| 0 <= i < s.len() ==> !blank(#[trigger] s[i], ascii)
}

proof fn lemma_run_is_even(s: Seq<char>, at: int, blanks: bool, ascii: bool)
    requires
        0 <= at,
    ensures
        at <= run_end(s, at, blanks, ascii),
        forall|i: int|
            at <= i < run_end(s, at, blanks, ascii) ==> blank(#[trigger] s[i], ascii) == blanks,
    decreases s.len() - at,
{
    if at < s.len() && blank(s[at], ascii) == blanks {
        lemma_run_is_even(s, at + 1, blanks, ascii);
    }
}

/// Lowering moves the upper-case letters of ASCII by 32 places and leaves every other
/// character.
pub proof fn law_lowering_moves_letters(c: char)
    ensures
        0x41 <= c as u32 <= 0x5a ==> lower_char(c) as u32 == c as u32 + 32,
        !(0x41 <= c as u32 <= 0x5a) ==> lower_char(c) == c,
        lower_char(lower_char(c)) == lower_char(c),
{
}

/// The pieces of a text hold no separator, and there is one more of them than there
/// are separators: a text without one is its own piece, and the first piece ends
/// where the first separator stands.
pub proof fn law_pieces_end_at_separators(first: Seq<char>, rest: Seq<char>, c: char)
    requires
        !first.contains(c),
    ensures
        pieces(first, c) == seq![first],
        pieces(first + seq![c] + rest, c) == seq![first] + pieces(rest, c),
{
    lemma_absent(first, c, 0);
    let s = first + seq![c] + rest;
    lemma_at_first(s, c, 0, first.len() as int);
    assert(s.take(first.len() as int) =~= first);
    assert(s.skip(first.len() as int + 1) =~= rest);
}

proof fn lemma_absent(s: Seq<char>, c: char, from: int)
    requires
        !s.contains(c),
        0 <= from,
    ensures
        find_char(s, c, from) is None,
    decreases s.len() - from,
{
    if from < s.len() {
        assert(s.contains(s[from]));
        lemma_absent(s, c, from + 1);
    }
}

proof fn lemma_at_first(s: Seq<char>, c: char, from: int, at: int)
    requires
        0 <= from <= at < s.len(),
        s[at] == c,
        forall|i: int| 0 <= i < at ==> s[i] != c,
    ensures
        find_char(s, c, from) == Some(at),
    decreases at - from,
{
    if from < at {
        lemma_at_first(s, c, from + 1, at);
    }
}

} // verus!
