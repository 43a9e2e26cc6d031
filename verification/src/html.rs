//! Bounded scanning of HTML pages for the elements that hold known labels.
//!
//! A page is its sequence of characters beside the same characters in lower
//! case; positions are character positions.

use vstd::prelude::*;
use vstd::slice::slice_subrange;

use crate::error;
use crate::error::{ClassifiedError, ErrorKind};
use crate::text;

verus! {

pub const MAX_ELEMENT_TEXT_BYTES: usize = 4 * 1024;

pub const MAX_HTML_ELEMENTS: usize = 4_096;

/// Where an element and its content start and end.
#[derive(Clone, Copy)]
pub struct Element {
    pub open_start: usize,
    pub inner_start: usize,
    pub inner_end: usize,
    pub close_end: usize,
}

/// The first element of a kind at or behind `from` that ends before `end`.
pub open spec fn element_at(low: Seq<char>, tag: Seq<char>, from: int, end: int) -> Option<
    (int, int, int, int),
>
    decreases end - from,
{
    let opening = "<"@ + tag;
    let closing = "</"@ + tag + ">"@;
    if !(0 <= from < end <= low.len()) {
        None
    } else {
        match text::find_from(low.take(end), opening, from) {
            None => None,
            Some(at) => {
                let name_end = at + opening.len();
                if !(from <= at < name_end <= end) || name_end >= low.len() {
                    None
                } else if low[name_end] != '>' && !text::ascii_whitespace(low[name_end]) {
                    element_at(low, tag, name_end, end)
                } else {
                    match text::find_char(low.take(end), '>', name_end) {
                        None => None,
                        Some(bracket) => match text::find_from(
                            low.take(end),
                            closing,
                            bracket + 1,
                        ) {
                            None => None,
                            Some(inner_end) => Some(
                                (at, bracket + 1, inner_end, inner_end + closing.len()),
                            ),
                        },
                    }
                }
            },
        }
    }
}

/// Positions of an element that was found between `from` and `end`.
pub open spec fn element_within(e: (int, int, int, int), from: int, end: int) -> bool {
    from <= e.0 < e.1 <= e.2 < e.3 <= end
}

pub proof fn lemma_element_within(low: Seq<char>, tag: Seq<char>, from: int, end: int)
    ensures
        element_at(low, tag, from, end) is Some ==> element_within(
            element_at(low, tag, from, end)->0,
            from,
            end,
        ),
    decreases end - from,
{
    reveal_strlit("<");
    reveal_strlit("</");
    reveal_strlit(">");
    let opening = "<"@ + tag;
    let closing = "</"@ + tag + ">"@;
    if 0 <= from < end <= low.len() {
        text::lemma_find_from_bounds(low.take(end), opening, from);
        match text::find_from(low.take(end), opening, from) {
            None => {},
            Some(at) => {
                let name_end = at + opening.len();
                if from <= at < name_end <= end && name_end < low.len() {
                    if low[name_end] != '>' && !text::ascii_whitespace(low[name_end]) {
                        lemma_element_within(low, tag, name_end, end);
                    } else {
                        text::lemma_find_char_bounds(low.take(end), '>', name_end);
                        match text::find_char(low.take(end), '>', name_end) {
                            None => {},
                            Some(bracket) => {
                                text::lemma_find_from_bounds(low.take(end), closing, bracket + 1);
                            },
                        }
                    }
                }
            },
        }
    }
}

/// The positions of an element.
pub open spec fn positions(e: Element) -> (int, int, int, int) {
    (e.open_start as int, e.inner_start as int, e.inner_end as int, e.close_end as int)
}

/// The positions of an optional element.
pub open spec fn optional_positions(e: Option<Element>) -> Option<(int, int, int, int)> {
    match e {
        Some(element) => Some(positions(element)),
        None => None,
    }
}

fn tag_text(start: &str, tag: &str, end: &str) -> (r: Vec<char>)
    ensures
        r@ == start@ + tag@ + end@,
{
    let mut r = text::chars_of(start);
    let middle = text::chars_of(tag);
    let last = text::chars_of(end);
    text::push_all(&mut r, middle.as_slice());
    text::push_all(&mut r, last.as_slice());
    r
}

/// The first element of a kind at or behind `from` that ends before `end`.
pub fn next_element(low: &[char], tag: &str, from: usize, end: usize) -> (r: Option<Element>)
    requires
        end <= low@.len(),
    ensures
        optional_positions(r) == element_at(low@, tag@, from as int, end as int),
        r is Some ==> element_within(positions(r->0), from as int, end as int),
{
    proof {
        lemma_element_within(low@, tag@, from as int, end as int);
        reveal_strlit("");
        reveal_strlit("<");
        reveal_strlit("</");
        reveal_strlit(">");
    }
    let opening = tag_text("<", tag, "");
    let closing = tag_text("</", tag, ">");
    assert(opening@ =~= "<"@ + tag@);
    let length: usize = low.len();
    let page = slice_subrange(low, 0, end);
    assert(page@ =~= low@.take(end as int));
    let mut cursor: usize = from;
    while cursor < end
        invariant
            opening@ == "<"@ + tag@,
            opening@.len() > 0,
            closing@ == "</"@ + tag@ + ">"@,
            length == low@.len(),
            end <= length,
            page@ == low@.take(end as int),
            element_at(low@, tag@, from as int, end as int) == element_at(
                low@,
                tag@,
                cursor as int,
                end as int,
            ),
            element_at(low@, tag@, from as int, end as int) is Some ==> element_within(
                element_at(low@, tag@, from as int, end as int)->0,
                from as int,
                end as int,
            ),
        decreases end - cursor,
    {
        proof {
            text::lemma_find_from_bounds(page@, opening@, cursor as int);
        }
        let open_start: usize = match text::find(page, opening.as_slice(), cursor) {
            Some(at) => at,
            None => return None,
        };
        let name_end: usize = open_start + opening.len();
        if name_end >= length {
            return None;
        }
        let c = low[name_end];
        if c != '>' && !(c == '\t' || c == '\n' || c == '\x0c' || c == '\r' || c == ' ') {
            cursor = name_end;
            continue;
        }
        proof {
            text::lemma_find_char_bounds(page@, '>', name_end as int);
        }
        let bracket: usize = match text::position(page, '>', name_end) {
            Some(at) => at,
            None => return None,
        };
        return match text::find(page, closing.as_slice(), bracket + 1) {
            Some(inner_end) => Some(
                Element {
                    open_start,
                    inner_start: bracket + 1,
                    inner_end,
                    close_end: inner_end + closing.len(),
                },
            ),
            None => None,
        };
    }
    None
}

/// Visible characters of the first `n` characters of a fragment, whether they
/// end inside a tag, and whether a blank is due; `None` where the text grows
/// too long.
pub open spec fn stripped(s: Seq<char>, n: int) -> Option<(Seq<char>, bool, bool)>
    decreases n,
{
    if n <= 0 {
        Some((seq![], false, false))
    } else {
        match stripped(s, n - 1) {
            None => None,
            Some((shown, in_tag, due)) => {
                let c = s[n - 1];
                if c == '<' {
                    Some((shown, true, shown.len() > 0))
                } else if in_tag {
                    Some((shown, c != '>', due))
                } else if text::whitespace(c) {
                    Some((shown, false, shown.len() > 0))
                } else {
                    let spaced = if due && !(shown.len() > 0 && shown.last() == ' ') {
                        shown.push(' ')
                    } else {
                        shown
                    };
                    let grown = spaced.push(c);
                    if text::byte_len(grown) > MAX_ELEMENT_TEXT_BYTES {
                        None
                    } else {
                        Some((grown, false, false))
                    }
                }
            },
        }
    }
}

proof fn lemma_stripped_failure(s: Seq<char>, n: int, m: int)
    requires
        0 <= n <= m,
        stripped(s, n) is None,
    ensures
        stripped(s, m) is None,
    decreases m - n,
{
    if n < m {
        lemma_stripped_failure(s, n, m - 1);
    }
}

/// A text with its common entities decoded, one kind after the other.
pub open spec fn decoded(s: Seq<char>) -> Seq<char> {
    let a = text::replaced(s, "&nbsp;"@, " "@);
    let b = text::replaced(a, "&amp;"@, "&"@);
    let c = text::replaced(b, "&quot;"@, "\""@);
    let d = text::replaced(c, "&#39;"@, "'"@);
    let e = text::replaced(d, "&lt;"@, "<"@);
    text::replaced(e, "&gt;"@, ">"@)
}

/// The visible text of a fragment: tags removed, blanks joined, entities
/// decoded; `None` where it grows too long.
pub open spec fn shown_text(s: Seq<char>) -> Option<Seq<char>> {
    match stripped(s, s.len() as int) {
        Some((shown, _, _)) => Some(text::trimmed(decoded(shown))),
        None => None,
    }
}

/// The visible text of a fragment.
pub fn visible_text(fragment: &[char]) -> (r: Result<Vec<char>, ClassifiedError>)
    ensures
        match r {
            Ok(shown) => shown_text(fragment@) == Some(shown@),
            Err(e) => shown_text(fragment@) is None && e == error::plain(ErrorKind::Parse),
        },
{
    let mut shown = String::new();
    let mut last: Option<char> = None;
    let mut in_tag = false;
    let mut due = false;
    let mut i: usize = 0;
    while i < fragment.len()
        invariant
            i <= fragment@.len(),
            stripped(fragment@, i as int) == Some((shown@, in_tag, due)),
            match last {
                Some(c) => shown@.len() > 0 && shown@.last() == c,
                None => shown@.len() == 0,
            },
        decreases fragment@.len() - i,
    {
        let c = fragment[i];
        if c == '<' {
            in_tag = true;
            due = last.is_some();
        } else if in_tag {
            in_tag = c != '>';
        } else if text::is_whitespace(c) {
            due = last.is_some();
        } else {
            let ends_blank = match last {
                Some(l) => l == ' ',
                None => false,
            };
            if due && !ends_blank {
                shown.push(' ');
            }
            due = false;
            shown.push(c);
            last = Some(c);
            if shown.as_str().len() > MAX_ELEMENT_TEXT_BYTES {
                proof {
                    lemma_stripped_failure(fragment@, i as int + 1, fragment@.len() as int);
                }
                return Err(ClassifiedError::new(ErrorKind::Parse));
            }
        }
        i += 1;
    }
    proof {
        reveal_strlit("&nbsp;");
        reveal_strlit("&amp;");
        reveal_strlit("&quot;");
        reveal_strlit("&#39;");
        reveal_strlit("&lt;");
        reveal_strlit("&gt;");
    }
    let raw = text::chars_of(shown.as_str());
    let a = text::replace(raw.as_slice(), "&nbsp;", " ");
    let b = text::replace(a.as_slice(), "&amp;", "&");
    let c = text::replace(b.as_slice(), "&quot;", "\"");
    let d = text::replace(c.as_slice(), "&#39;", "'");
    let e = text::replace(d.as_slice(), "&lt;", "<");
    let f = text::replace(e.as_slice(), "&gt;", ">");
    let plain = text::trim(f.as_slice());
    let mut r: Vec<char> = Vec::new();
    text::push_all(&mut r, plain);
    Ok(r)
}

/// What a bounded search over elements came to.
pub enum Found<T> {
    /// A result.
    Hit(T),
    /// No element is left.
    Nothing,
    /// Too many elements, or an unreadable one.
    Failed,
}

/// The first element of a kind between `from` and `end` whose visible text is
/// `expected`, without regard to case, after `inspected` elements.
pub open spec fn labelled_element(
    s: Seq<char>,
    tag: Seq<char>,
    expected: Seq<char>,
    from: int,
    end: int,
    inspected: nat,
) -> Found<(int, int, int, int)>
    decreases end - from,
{
    match element_at(text::lower(s), tag, from, end) {
        None => Found::Nothing,
        Some(e) => if !element_within(e, from, end) || inspected + 1 > MAX_HTML_ELEMENTS {
            Found::Failed
        } else {
            match shown_text(s.subrange(e.1, e.2)) {
                None => Found::Failed,
                Some(shown) => if text::same_ignoring_case(shown, expected) {
                    Found::Hit(e)
                } else {
                    labelled_element(s, tag, expected, e.3, end, inspected + 1)
                },
            }
        },
    }
}

/// The first element of a kind between `from` and `end` whose visible text is
/// `expected`.
pub fn find_exact_element(
    s: &[char],
    low: &[char],
    tag: &str,
    expected: &str,
    from: usize,
    end: usize,
) -> (r: Result<Option<Element>, ClassifiedError>)
    requires
        low@ == text::lower(s@),
        end <= s@.len(),
    ensures
        match (r, labelled_element(s@, tag@, expected@, from as int, end as int, 0)) {
            (Ok(Some(e)), Found::Hit(hit)) => positions(e) == hit && element_within(
                hit,
                from as int,
                end as int,
            ),
            (Ok(None), Found::Nothing) => true,
            (Err(e), Found::Failed) => e == error::plain(ErrorKind::Parse),
            _ => false,
        },
{
    let wanted = text::chars_of(expected);
    let mut cursor: usize = from;
    let mut inspected: usize = 0;
    loop
        invariant
            wanted@ == expected@,
            low@ == text::lower(s@),
            low@.len() == s@.len(),
            end <= s@.len(),
            from <= cursor,
            inspected <= MAX_HTML_ELEMENTS,
            labelled_element(s@, tag@, expected@, from as int, end as int, 0) == labelled_element(
                s@,
                tag@,
                expected@,
                cursor as int,
                end as int,
                inspected as nat,
            ),
        decreases end - cursor,
    {
        let element = match next_element(low, tag, cursor, end) {
            Some(element) => element,
            None => return Ok(None),
        };
        if inspected >= MAX_HTML_ELEMENTS {
            return Err(ClassifiedError::new(ErrorKind::Parse));
        }
        inspected += 1;
        let shown = match visible_text(
            slice_subrange(s, element.inner_start, element.inner_end),
        ) {
            Ok(shown) => shown,
            Err(e) => return Err(e),
        };
        if text::eq_ignore_case(shown.as_slice(), wanted.as_slice()) {
            return Ok(Some(element));
        }
        cursor = element.close_end;
    }
}

/// Whether an opening tag carries an attribute, in either kind of quotes.
pub open spec fn carries(opening: Seq<char>, name: Seq<char>, value: Seq<char>) -> bool {
    text::contains(opening, name + "=\""@ + value + "\""@) || text::contains(
        opening,
        name + "='"@ + value + "'"@,
    )
}

/// Whether an opening tag carries an attribute, in either kind of quotes.
pub fn has_attribute(opening: &[char], name: &str, value: &str) -> (r: bool)
    ensures
        r == carries(opening@, name@, value@),
{
    let mut double = name.to_owned();
    double.append("=\"");
    double.append(value);
    double.append("\"");
    let mut single = name.to_owned();
    single.append("='");
    single.append(value);
    single.append("'");
    text::has(opening, double.as_str()) || text::has(opening, single.as_str())
}

/// The first element of a kind at or behind `from` that carries an attribute,
/// after `inspected` elements.
pub open spec fn attributed_element(
    low: Seq<char>,
    tag: Seq<char>,
    name: Seq<char>,
    value: Seq<char>,
    from: int,
    inspected: nat,
) -> Found<(int, int, int, int)>
    decreases low.len() - from,
{
    match element_at(low, tag, from, low.len() as int) {
        None => Found::Nothing,
        Some(e) => if !element_within(e, from, low.len() as int) || inspected + 1
            > MAX_HTML_ELEMENTS {
            Found::Failed
        } else if carries(low.subrange(e.0, e.1), name, value) {
            Found::Hit(e)
        } else {
            attributed_element(low, tag, name, value, e.3, inspected + 1)
        },
    }
}

/// The first element of a kind that carries an attribute; name and value are
/// given in lower case.
pub fn find_attribute_element(low: &[char], tag: &str, name: &str, value: &str) -> (r: Result<
    Option<Element>,
    ClassifiedError,
>)
    ensures
        match (r, attributed_element(low@, tag@, name@, value@, 0, 0)) {
            (Ok(Some(e)), Found::Hit(hit)) => positions(e) == hit && element_within(
                hit,
                0,
                low@.len() as int,
            ),
            (Ok(None), Found::Nothing) => true,
            (Err(e), Found::Failed) => e == error::plain(ErrorKind::Parse),
            _ => false,
        },
{
    let end: usize = low.len();
    let mut cursor: usize = 0;
    let mut inspected: usize = 0;
    loop
        invariant
            end == low@.len(),
            inspected <= MAX_HTML_ELEMENTS,
            attributed_element(low@, tag@, name@, value@, 0, 0) == attributed_element(
                low@,
                tag@,
                name@,
                value@,
                cursor as int,
                inspected as nat,
            ),
        decreases end - cursor,
    {
        let element = match next_element(low, tag, cursor, end) {
            Some(element) => element,
            None => return Ok(None),
        };
        if inspected >= MAX_HTML_ELEMENTS {
            return Err(ClassifiedError::new(ErrorKind::Parse));
        }
        inspected += 1;
        if has_attribute(
            slice_subrange(low, element.open_start, element.inner_start),
            name,
            value,
        ) {
            return Ok(Some(element));
        }
        cursor = element.close_end;
    }
}

/// The position `bytes` UTF-8 bytes behind `from`, or the end of the page where
/// it comes first; `None` where that lies inside a character. The characters
/// from `from` to `at` are within the distance.
pub open spec fn reach(s: Seq<char>, from: int, at: int, bytes: usize) -> Option<int>
    decreases s.len() - at,
{
    let size = text::byte_len(s.subrange(from, at));
    if size > bytes {
        None
    } else if size == bytes || at >= s.len() {
        Some(at)
    } else {
        reach(s, from, at + 1, bytes)
    }
}

/// The position `bytes` UTF-8 bytes behind `from`, or the end of the page.
pub fn limit_behind(s: &[char], from: usize, bytes: usize) -> (r: Option<usize>)
    requires
        from <= s@.len(),
    ensures
        match r {
            Some(end) => reach(s@, from as int, from as int, bytes) == Some(end as int) && from
                <= end <= s@.len(),
            None => reach(s@, from as int, from as int, bytes) is None,
        },
{
    let mut span = String::new();
    let mut at: usize = from;
    assert(s@.subrange(from as int, from as int) =~= seq![]);
    loop
        invariant
            from <= at <= s@.len(),
            span@ == s@.subrange(from as int, at as int),
            reach(s@, from as int, from as int, bytes) == reach(
                s@,
                from as int,
                at as int,
                bytes,
            ),
        decreases s@.len() - at,
    {
        let size: usize = span.as_str().len();
        if size > bytes {
            return None;
        }
        if size == bytes || at >= s.len() {
            return Some(at);
        }
        span.push(s[at]);
        assert(s@.subrange(from as int, at as int + 1) =~= s@.subrange(
            from as int,
            at as int,
        ).push(s@[at as int]));
        at += 1;
    }
}

} // verus!
