//! Qwen Cloud token-plan usage: status classification and normalization of
//! current and legacy responses.

use vstd::prelude::*;

use crate::decimal;
use crate::decimal::{Decimal, Overflow};
use crate::error;
use crate::error::{ClassifiedError, ErrorKind};
use crate::instant;
use crate::instant::Timestamp;
use crate::json;
use crate::json::{Json, Tree};
use crate::providers::qwencloud;
use crate::providers::qwencloud_keys;
use crate::registry::ProviderId;
use crate::text;
use crate::usage;
use crate::usage::{ProviderSource, RateWindow, SampleView, UsageSample, WindowView};

verus! {

pub const MAX_TOKEN_BYTES: usize = 8 * 1024;

pub const MAX_PLAN_BYTES: usize = 256;

/// The decimal that a number or a text denotes; a text may hold commas.
pub open spec fn decimal_of(t: Tree) -> Option<Decimal> {
    match t {
        Tree::Number(n) => decimal::decimal_parsed(n),
        Tree::Text(s) => decimal::decimal_parsed(text::without(text::trimmed(s), ',')),
        _ => None,
    }
}

/// The whole number that a value denotes, its fraction cut off.
pub open spec fn i64_of(t: Tree) -> Option<i64> {
    match t {
        Tree::Bool(b) => Some(
            if b {
                1i64
            } else {
                0i64
            },
        ),
        _ => match decimal_of(t) {
            Some(value) => if i64::MIN <= value.truncated() <= i64::MAX {
                Some(value.truncated() as i64)
            } else {
                None
            },
            None => None,
        },
    }
}

/// The trimmed text of a value, where it is not empty and bounded.
pub open spec fn string_of(t: Tree) -> Option<Seq<char>> {
    match t {
        Tree::Text(s) => if text::trimmed(s).len() > 0 && text::byte_len(text::trimmed(s))
            <= MAX_TOKEN_BYTES {
            Some(text::trimmed(s))
        } else {
            None
        },
        _ => None,
    }
}

/// The truth value that a value denotes.
pub open spec fn bool_of(t: Tree) -> Option<bool> {
    match t {
        Tree::Bool(b) => Some(b),
        Tree::Number(n) => match decimal::decimal_parsed(n) {
            Some(value) => Some(value.magnitude != 0),
            None => None,
        },
        Tree::Text(s) => {
            let word = text::lower(text::trimmed(s));
            if word == "true"@ || word == "1"@ || word == "yes"@ || word == "active"@ || word
                == "valid"@ || word == "normal"@ {
                Some(true)
            } else if word == "false"@ || word == "0"@ || word == "no"@ || word == "inactive"@
                || word == "invalid"@ || word == "expired"@ {
                Some(false)
            } else {
                None
            }
        },
        _ => None,
    }
}

/// The instant that a positive number of seconds, or of milliseconds from a
/// million million on, denotes. The outer `None` marks an overflow.
pub open spec fn epoch_time(number: Decimal) -> Option<Option<Timestamp>> {
    let seconds = if number.less(decimal::whole(1_000_000_000_000)) {
        Some(number)
    } else {
        decimal::decimal_quotient(number, decimal::whole(1_000))
    };
    match seconds {
        None => None,
        Some(seconds) => match decimal::decimal_product(seconds, decimal::whole(1_000_000_000)) {
            None => None,
            Some(nanos) => Some(instant::calendar_nanos(nanos.truncated())),
        },
    }
}

/// A whole number below a million million counts seconds since the epoch.
pub proof fn law_small_numbers_are_seconds(n: u64)
    requires
        decimal::computes(),
        0 < n < 1_000_000_000_000,
    ensures
        epoch_time(decimal::whole(n)) == Some(instant::calendar_nanos(n * 1_000_000_000)),
{
    lemma_whole_seconds(n);
    assert(decimal::pow10(0) == 1);
    assert(n as int * decimal::pow10(0) == n && 1_000_000_000_000 * decimal::pow10(0)
        == 1_000_000_000_000) by (nonlinear_arith)
        requires
            decimal::pow10(0) == 1,
    ;
}

/// A whole number from a million million on counts milliseconds since the epoch.
pub proof fn law_large_numbers_are_milliseconds(seconds: u64)
    requires
        decimal::computes(),
        1_000_000_000 <= seconds < 1_000_000_000_000,
    ensures
        epoch_time(decimal::whole((seconds * 1000) as u64)) == Some(
            instant::calendar_nanos(seconds * 1_000_000_000),
        ),
{
    let millis = (seconds * 1000) as u64;
    lemma_whole_seconds(seconds);
    assert(decimal::pow10(0) == 1);
    assert(millis as int * decimal::pow10(0) == millis && 1_000_000_000_000 * decimal::pow10(0)
        == 1_000_000_000_000) by (nonlinear_arith)
        requires
            decimal::pow10(0) == 1,
    ;
    assert(decimal::whole(1_000).magnitude == 1000);
    assert(millis as u128 % 1000 == 0 && millis as u128 / 1000 == seconds);
    assert(decimal::decimal_quotient(decimal::whole(millis), decimal::whole(1_000)) == Some(
        decimal::whole(seconds),
    ));
}

proof fn lemma_whole_seconds(n: u64)
    requires
        decimal::computes(),
        0 < n < 1_000_000_000_000,
    ensures
        decimal::decimal_product(decimal::whole(n), decimal::whole(1_000_000_000)) is Some,
        decimal::decimal_product(
            decimal::whole(n),
            decimal::whole(1_000_000_000),
        )->0.truncated() == n * 1_000_000_000,
{
    let a = decimal::whole(n).magnitude;
    let b = decimal::whole(1_000_000_000).magnitude;
    assert(a * b == n * 1_000_000_000) by (nonlinear_arith)
        requires
            a == n,
            b == 1_000_000_000,
    ;
    assert(decimal::pow10(0) == 1);
}

/// The instant that a date text denotes.
pub open spec fn text_time(s: Seq<char>) -> Option<Timestamp> {
    match instant::rfc3339(s) {
        Some(at) => instant::in_calendar_only(at),
        None => match instant::date_time(s, "[year]-[month]-[day] [hour]:[minute]:[second]"@) {
            Some(at) => Some(at),
            None => match instant::date_time(s, "[year]-[month]-[day] [hour]:[minute]"@) {
                Some(at) => Some(at),
                None => instant::date_midnight(s, "[year]-[month]-[day]"@),
            },
        },
    }
}

/// The instant that a value denotes. The outer `None` marks an overflow.
pub open spec fn time_of(t: Tree) -> Option<Option<Timestamp>> {
    match decimal_of(t) {
        Some(number) => if number.positive() {
            epoch_time(number)
        } else {
            Some(text_time_of(t))
        },
        None => Some(text_time_of(t)),
    }
}

/// The instant that a text value denotes.
pub open spec fn text_time_of(t: Tree) -> Option<Timestamp> {
    match t {
        Tree::Text(s) => text_time(text::trimmed(s)),
        _ => None,
    }
}

/// The decimal that a value denotes.
pub fn scalar_decimal(value: &Json) -> (r: Option<Decimal>)
    ensures
        r == decimal_of(value.tree()),
        r is Some ==> r->0.wf(),
{
    match value {
        Json::Number(n) => decimal::parse(n.as_str()),
        Json::Text(s) => {
            let chars = text::chars_of(s.as_str());
            let plain = text::remove_char(text::trim(chars.as_slice()), ',');
            let digits = text::text_of(plain.as_slice());
            decimal::parse(digits.as_str())
        },
        _ => None,
    }
}

/// The whole number that a value denotes.
pub fn scalar_i64(value: &Json) -> (r: Option<i64>)
    ensures
        r == i64_of(value.tree()),
{
    match value {
        Json::Bool(b) => Some(
            if *b {
                1i64
            } else {
                0i64
            },
        ),
        _ => match scalar_decimal(value) {
            Some(number) => number.to_i64(),
            None => None,
        },
    }
}

/// The bounded, trimmed text of a value.
pub fn scalar_string(value: &Json) -> (r: Option<String>)
    ensures
        r.deep_view() == string_of(value.tree()),
{
    match value {
        Json::Text(s) => {
            let plain = text::trim_text(s.as_str());
            if !plain.as_str().is_empty() && plain.as_str().len() <= MAX_TOKEN_BYTES {
                Some(plain)
            } else {
                None
            }
        },
        _ => None,
    }
}

/// The truth value that a value denotes.
pub fn scalar_bool(value: &Json) -> (r: Option<bool>)
    ensures
        r == bool_of(value.tree()),
{
    match value {
        Json::Bool(b) => Some(*b),
        Json::Number(n) => match decimal::parse(n.as_str()) {
            Some(number) => Some(!number.is_zero()),
            None => None,
        },
        Json::Text(s) => {
            let chars = text::chars_of(s.as_str());
            let word = text::to_lower(text::trim(chars.as_slice()));
            let w = word.as_slice();
            if text::equals(w, "true") || text::equals(w, "1") || text::equals(w, "yes")
                || text::equals(w, "active") || text::equals(w, "valid") || text::equals(
                w,
                "normal",
            ) {
                Some(true)
            } else if text::equals(w, "false") || text::equals(w, "0") || text::equals(w, "no")
                || text::equals(w, "inactive") || text::equals(w, "invalid") || text::equals(
                w,
                "expired",
            ) {
                Some(false)
            } else {
                None
            }
        },
        _ => None,
    }
}

/// The instant that a value denotes; fails where a number overflows.
pub fn scalar_timestamp(value: &Json) -> (r: Result<Option<Timestamp>, Overflow>)
    ensures
        match r {
            Ok(at) => time_of(value.tree()) == Some(at),
            Err(_) => time_of(value.tree()) is None,
        },
{
    if let Some(number) = scalar_decimal(value) {
        if number.is_positive() {
            let seconds = if decimal::is_less(number, Decimal::of(1_000_000_000_000)) {
                number
            } else {
                match number.over(Decimal::of(1_000)) {
                    Some(seconds) => seconds,
                    None => return Err(Overflow),
                }
            };
            return match seconds.times(Decimal::of(1_000_000_000)) {
                Some(nanos) => Ok(Timestamp::from_nanos(nanos.trunc())),
                None => Err(Overflow),
            };
        }
    }
    match value {
        Json::Text(s) => {
            let plain = text::trim_text(s.as_str());
            if let Some(at) = instant::parse_rfc3339(plain.as_str()) {
                return Ok(at.within_calendar());
            }
            if let Some(at) = instant::parse_date_time(
                plain.as_str(),
                "[year]-[month]-[day] [hour]:[minute]:[second]",
            ) {
                return Ok(Some(at));
            }
            if let Some(at) = instant::parse_date_time(
                plain.as_str(),
                "[year]-[month]-[day] [hour]:[minute]",
            ) {
                return Ok(Some(at));
            }
            Ok(instant::parse_date(plain.as_str(), "[year]-[month]-[day]"))
        },
        _ => Ok(None),
    }
}

/// The first text found under one of the keys, tried in order at or behind
/// `from`.
pub open spec fn text_under(t: Tree, wanted: Seq<Seq<char>>, from: int) -> Option<Seq<char>>
    decreases wanted.len() - from,
{
    if from < 0 || from >= wanted.len() {
        None
    } else {
        match json::first_of(
            json::values_for_key(t, wanted[from]),
            |v: Tree| string_of(v),
            0,
        ) {
            Some(found) => Some(found),
            None => text_under(t, wanted, from + 1),
        }
    }
}

/// The first whole number found under one of the keys, tried in order at or
/// behind `from`.
pub open spec fn number_under(t: Tree, wanted: Seq<Seq<char>>, from: int) -> Option<i64>
    decreases wanted.len() - from,
{
    if from < 0 || from >= wanted.len() {
        None
    } else {
        match json::first_of(json::values_for_key(t, wanted[from]), |v: Tree| i64_of(v), 0) {
            Some(found) => Some(found),
            None => number_under(t, wanted, from + 1),
        }
    }
}

/// The first instant among the values at or behind `from`.
pub open spec fn first_time(values: Seq<Tree>, from: int) -> Option<Option<Timestamp>>
    decreases values.len() - from,
{
    if from < 0 || from >= values.len() {
        Some(None)
    } else {
        match time_of(values[from]) {
            None => None,
            Some(Some(at)) => Some(Some(at)),
            Some(None) => first_time(values, from + 1),
        }
    }
}

/// The first instant found under one of the keys, tried in order at or behind
/// `from`.
pub open spec fn time_under(t: Tree, wanted: Seq<Seq<char>>, from: int) -> Option<Option<Timestamp>>
    decreases wanted.len() - from,
{
    if from < 0 || from >= wanted.len() {
        Some(None)
    } else {
        match first_time(json::values_for_key(t, wanted[from]), 0) {
            None => None,
            Some(Some(at)) => Some(Some(at)),
            Some(None) => time_under(t, wanted, from + 1),
        }
    }
}

/// The first text under a key.
pub fn find_first_string_for_key(root: &Json, key: &str) -> (r: Option<String>)
    ensures
        r.deep_view() == json::first_of(
            json::values_for_key(root.tree(), key@),
            |v: Tree| string_of(v),
            0,
        ),
{
    let values = json::find_values(root, key);
    let ghost all = json::values_for_key(root.tree(), key@);
    let ghost f = |v: Tree| string_of(v);
    let mut i: usize = 0;
    while i < values.len()
        invariant
            all == json::trees(values@),
            all == json::values_for_key(root.tree(), key@),
            f == (|v: Tree| string_of(v)),
            i <= values@.len(),
            json::first_of(all, f, 0) == json::first_of(all, f, i as int),
        decreases values@.len() - i,
    {
        assert(all[i as int] == values@[i as int].tree());
        if let Some(found) = scalar_string(values[i]) {
            return Some(found);
        }
        i += 1;
    }
    None
}

/// The first text under one of the keys, tried in order.
pub fn find_first_string(root: &Json, wanted: &Vec<&str>) -> (r: Option<String>)
    ensures
        r.deep_view() == text_under(root.tree(), wanted.deep_view(), 0),
{
    let ghost all = wanted.deep_view();
    let mut i: usize = 0;
    while i < wanted.len()
        invariant
            all == wanted.deep_view(),
            i <= wanted@.len(),
            text_under(root.tree(), all, 0) == text_under(root.tree(), all, i as int),
        decreases wanted@.len() - i,
    {
        assert(all[i as int] == wanted@[i as int]@);
        let found = find_first_string_for_key(root, wanted[i]);
        if found.is_some() {
            return found;
        }
        i += 1;
    }
    None
}

/// The first whole number under one of the keys, tried in order.
pub fn find_first_i64(root: &Json, wanted: &Vec<&str>) -> (r: Option<i64>)
    ensures
        r == number_under(root.tree(), wanted.deep_view(), 0),
{
    let ghost all = wanted.deep_view();
    let mut i: usize = 0;
    while i < wanted.len()
        invariant
            all == wanted.deep_view(),
            i <= wanted@.len(),
            number_under(root.tree(), all, 0) == number_under(root.tree(), all, i as int),
        decreases wanted@.len() - i,
    {
        assert(all[i as int] == wanted@[i as int]@);
        let values = json::find_values(root, wanted[i]);
        let ghost candidates = json::values_for_key(root.tree(), all[i as int]);
        let ghost f = |v: Tree| i64_of(v);
        let mut k: usize = 0;
        while k < values.len()
            invariant
                candidates == json::trees(values@),
                f == (|v: Tree| i64_of(v)),
                k <= values@.len(),
                all == wanted.deep_view(),
                i < wanted@.len(),
                candidates == json::values_for_key(root.tree(), all[i as int]),
                number_under(root.tree(), all, 0) == number_under(root.tree(), all, i as int),
                json::first_of(candidates, f, 0) == json::first_of(candidates, f, k as int),
            decreases values@.len() - k,
        {
            assert(candidates[k as int] == values@[k as int].tree());
            if let Some(found) = scalar_i64(values[k]) {
                return Some(found);
            }
            k += 1;
        }
        i += 1;
    }
    None
}

/// The first instant under one of the keys, tried in order.
pub fn find_first_timestamp(root: &Json, wanted: &Vec<&str>) -> (r: Result<
    Option<Timestamp>,
    Overflow,
>)
    ensures
        match r {
            Ok(at) => time_under(root.tree(), wanted.deep_view(), 0) == Some(at),
            Err(_) => time_under(root.tree(), wanted.deep_view(), 0) is None,
        },
{
    let ghost all = wanted.deep_view();
    let mut i: usize = 0;
    while i < wanted.len()
        invariant
            all == wanted.deep_view(),
            i <= wanted@.len(),
            time_under(root.tree(), all, 0) == time_under(root.tree(), all, i as int),
        decreases wanted@.len() - i,
    {
        assert(all[i as int] == wanted@[i as int]@);
        let values = json::find_values(root, wanted[i]);
        let ghost candidates = json::values_for_key(root.tree(), all[i as int]);
        let mut k: usize = 0;
        while k < values.len()
            invariant
                candidates == json::trees(values@),
                k <= values@.len(),
                all == wanted.deep_view(),
                i < wanted@.len(),
                candidates == json::values_for_key(root.tree(), all[i as int]),
                time_under(root.tree(), all, 0) == time_under(root.tree(), all, i as int),
                first_time(candidates, 0) == first_time(candidates, k as int),
            decreases values@.len() - k,
        {
            assert(candidates[k as int] == values@[k as int].tree());
            match scalar_timestamp(values[k]) {
                Err(overflow) => return Err(overflow),
                Ok(Some(at)) => return Ok(Some(at)),
                Ok(None) => {},
            }
            k += 1;
        }
        i += 1;
    }
    Ok(None)
}

/// The texts that mark an expired session in a combined, lower-case message.
pub open spec fn session_signal(combined: Seq<char>) -> bool {
    ||| text::contains(combined, "needlogin"@)
    ||| text::contains(combined, "login"@)
    ||| text::contains(combined, "postonlyortokenerror"@)
    ||| text::contains(combined, "tokenerror"@)
    ||| text::contains(combined, "request has expired"@)
    ||| text::contains(combined, "refresh page"@)
    ||| text::contains(combined, "请求已经过期"@)
    ||| text::contains(combined, "notauthorised"@)
    ||| text::contains(combined, "notauthorized"@)
    ||| text::contains(combined, "not authorised"@)
    ||| text::contains(combined, "not authorized"@)
    ||| text::contains(combined, "unauthorised"@)
    ||| text::contains(combined, "unauthorized"@)
    ||| text::contains(combined, "access denied"@)
    ||| text::contains(combined, "forbidden"@)
}

/// Code and message in lower case, with a blank between them where both exist.
pub open spec fn combined_signals(code: Option<Seq<char>>, message: Option<Seq<char>>) -> Seq<
    char,
> {
    match (code, message) {
        (Some(c), Some(m)) => text::lower(c) + " "@ + text::lower(m),
        (Some(c), None) => text::lower(c),
        (None, Some(m)) => text::lower(m),
        (None, None) => seq![],
    }
}

/// Whether code and message tell of an expired session. A workspace that the
/// account may not use tells of none.
pub open spec fn signals_expiry(code: Option<Seq<char>>, message: Option<Seq<char>>) -> bool {
    let combined = combined_signals(code, message);
    !text::contains(combined, "workspace.notauthorised"@) && !text::contains(
        combined,
        "workspace.notauthorized"@,
    ) && session_signal(combined)
}

/// Classifies code and message of a response.
pub fn classify_text_signals(code: &Option<String>, message: &Option<String>) -> (r: Result<
    (),
    ClassifiedError,
>)
    ensures
        match r {
            Ok(_) => !signals_expiry(code.deep_view(), message.deep_view()),
            Err(e) => signals_expiry(code.deep_view(), message.deep_view()) && e == error::plain(
                ErrorKind::AuthenticationExpired,
            ),
        },
{
    let mut combined: Vec<char> = Vec::new();
    if let Some(c) = code {
        let chars = text::chars_of(c.as_str());
        combined = text::to_lower(chars.as_slice());
    }
    if let Some(m) = message {
        let chars = text::chars_of(m.as_str());
        let mut lower = text::to_lower(chars.as_slice());
        if code.is_some() {
            let ghost before = combined@;
            combined.push(' ');
            proof {
                reveal_strlit(" ");
                assert(combined@ =~= before + " "@);
            }
        }
        combined.append(&mut lower);
    }
    assert(combined@ =~= combined_signals(code.deep_view(), message.deep_view()));
    let s = combined.as_slice();
    if text::has(s, "workspace.notauthorised") || text::has(s, "workspace.notauthorized") {
        return Ok(());
    }
    if text::has(s, "needlogin") || text::has(s, "login") || text::has(s, "postonlyortokenerror")
        || text::has(s, "tokenerror") || text::has(s, "request has expired") || text::has(
        s,
        "refresh page",
    ) || text::has(s, "请求已经过期") || text::has(s, "notauthorised") || text::has(
        s,
        "notauthorized",
    ) || text::has(s, "not authorised") || text::has(s, "not authorized") || text::has(
        s,
        "unauthorised",
    ) || text::has(s, "unauthorized") || text::has(s, "access denied") || text::has(s, "forbidden")
    {
        return Err(ClassifiedError::new(ErrorKind::AuthenticationExpired));
    }
    Ok(())
}

/// The object itself where it reports failure under `success` or `Success`.
pub open spec fn failing_frame(t: Tree) -> Option<Tree> {
    if field_is_false(t, "success"@) || field_is_false(t, "Success"@) {
        Some(t)
    } else {
        None
    }
}

/// Whether a field denotes false.
pub open spec fn field_is_false(t: Tree, key: Seq<char>) -> bool {
    match json::field(t, key) {
        Some(v) => bool_of(v) == Some(false),
        None => false,
    }
}

fn field_false(value: &Json, key: &str) -> (r: bool)
    ensures
        r == field_is_false(value.tree(), key@),
{
    match value.get(key) {
        Some(v) => match scalar_bool(v) {
            Some(b) => !b,
            None => false,
        },
        None => false,
    }
}

/// The first object of a document, in walk order, that reports failure.
pub fn find_failing_success_frame(root: &Json) -> (r: Option<&Json>)
    ensures
        match r {
            Some(frame) => json::first_hit(json::walk(root.tree(), 0), |t: Tree| failing_frame(t))
                == Some(frame.tree()),
            None => json::first_hit(json::walk(root.tree(), 0), |t: Tree| failing_frame(t)) is None,
        },
{
    let nodes = json::visits(root);
    let ghost walked = json::walk(root.tree(), 0);
    let ghost f = |t: Tree| failing_frame(t);
    let mut i: usize = 0;
    while i < nodes.len()
        invariant
            walked == json::walk(root.tree(), 0),
            f == (|t: Tree| failing_frame(t)),
            json::visit_nodes(nodes@) == walked,
            nodes@.len() == walked.len(),
            i <= nodes@.len(),
            forall|j: int| 0 <= j < i ==> f((#[trigger] walked[j]).0) is None,
        decreases nodes@.len() - i,
    {
        assert(walked[i as int] == nodes@[i as int].node());
        if field_false(nodes[i].value, "success") || field_false(nodes[i].value, "Success") {
            proof {
                json::lemma_first_hit_skip(walked, f, i as int);
                assert(walked.skip(i as int)[0] == walked[i as int]);
            }
            return Some(nodes[i].value);
        }
        i += 1;
    }
    proof {
        json::lemma_first_hit_skip(walked, f, walked.len() as int);
    }
    None
}

/// The class of a failure frame. Code and message are taken from the frame, and
/// where it has none from the fallback document.
pub open spec fn frame_class(frame: Tree, fallback: Option<Tree>) -> ErrorKind {
    let status = number_under(frame, seq!["statusCode"@, "status_code"@, "code"@], 0);
    let own_code = text_under(frame, seq!["errorCode"@, "Code"@, "code"@, "status"@], 0);
    let code = match (own_code, fallback) {
        (None, Some(root)) => text_under(
            root,
            seq!["errorCode"@, "Code"@, "code"@, "status"@, "statusCode"@],
            0,
        ),
        _ => own_code,
    };
    let own_message = text_under(
        frame,
        seq!["errorMsg"@, "Message"@, "message"@, "msg"@, "statusMessage"@],
        0,
    );
    let message = match (own_message, fallback) {
        (None, Some(root)) => text_under(
            root,
            seq![
                "errorMsg"@,
                "Message"@,
                "message"@,
                "msg"@,
                "statusMessage"@,
                "Code"@,
                "code"@,
            ],
            0,
        ),
        _ => own_message,
    };
    if status == Some(401i64) || status == Some(403i64) || signals_expiry(code, message) {
        ErrorKind::AuthenticationExpired
    } else {
        ErrorKind::Api
    }
}

/// Classifies a failure frame.
pub fn classify_error_frame(frame: &Json, fallback: Option<&Json>) -> (r: ClassifiedError)
    ensures
        r == error::plain(
            frame_class(
                frame.tree(),
                match fallback {
                    Some(root) => Some(root.tree()),
                    None => None,
                },
            ),
        ),
{
    let status_keys = vec!["statusCode", "status_code", "code"];
    assert(status_keys.deep_view() =~= seq!["statusCode"@, "status_code"@, "code"@]);
    let status = find_first_i64(frame, &status_keys);
    if let Some(number) = status {
        if number == 401 || number == 403 {
            return ClassifiedError::new(ErrorKind::AuthenticationExpired);
        }
    }
    let code_keys = vec!["errorCode", "Code", "code", "status"];
    assert(code_keys.deep_view() =~= seq!["errorCode"@, "Code"@, "code"@, "status"@]);
    let mut code = find_first_string(frame, &code_keys);
    if code.is_none() {
        if let Some(root) = fallback {
            let keys = vec!["errorCode", "Code", "code", "status", "statusCode"];
            assert(keys.deep_view() =~= seq![
                "errorCode"@,
                "Code"@,
                "code"@,
                "status"@,
                "statusCode"@,
            ]);
            code = find_first_string(root, &keys);
        }
    }
    let message_keys = vec!["errorMsg", "Message", "message", "msg", "statusMessage"];
    assert(message_keys.deep_view() =~= seq![
        "errorMsg"@,
        "Message"@,
        "message"@,
        "msg"@,
        "statusMessage"@,
    ]);
    let mut message = find_first_string(frame, &message_keys);
    if message.is_none() {
        if let Some(root) = fallback {
            let keys = vec![
                "errorMsg",
                "Message",
                "message",
                "msg",
                "statusMessage",
                "Code",
                "code",
            ];
            assert(keys.deep_view() =~= seq![
                "errorMsg"@,
                "Message"@,
                "message"@,
                "msg"@,
                "statusMessage"@,
                "Code"@,
                "code"@,
            ]);
            message = find_first_string(root, &keys);
        }
    }
    match classify_text_signals(&code, &message) {
        Err(expired) => expired,
        Ok(_) => ClassifiedError::new(ErrorKind::Api),
    }
}

/// The failure that a response document reports; `None` where it reports none.
pub open spec fn reported_failure(root: Tree) -> Option<ErrorKind> {
    if !(root is Object) {
        Some(ErrorKind::Parse)
    } else if field_is_false(root, "successResponse"@) {
        Some(frame_class(root, None))
    } else {
        match json::first_hit(json::walk(root, 0), |t: Tree| failing_frame(t)) {
            Some(frame) => Some(frame_class(frame, Some(root))),
            None => {
                let status = number_under(
                    root,
                    seq!["statusCode"@, "status_code"@, "code"@],
                    0,
                );
                if status is Some && status->0 != 0 && status->0 != 200 {
                    Some(
                        if status->0 == 401 || status->0 == 403 {
                            ErrorKind::AuthenticationExpired
                        } else {
                            ErrorKind::Api
                        },
                    )
                } else if signals_expiry(
                    text_under(root, seq!["errorCode"@, "code"@, "status"@, "statusCode"@], 0),
                    text_under(root, seq!["errorMsg"@, "message"@, "msg"@, "statusMessage"@], 0),
                ) {
                    Some(ErrorKind::AuthenticationExpired)
                } else {
                    None
                }
            },
        }
    }
}

/// Fails with the failure that a response document reports.
pub fn validate_payload_status(root: &Json) -> (r: Result<(), ClassifiedError>)
    ensures
        match r {
            Ok(_) => reported_failure(root.tree()) is None,
            Err(e) => reported_failure(root.tree()) is Some && e == error::plain(
                reported_failure(root.tree())->0,
            ),
        },
{
    if !root.is_object() {
        return Err(ClassifiedError::new(ErrorKind::Parse));
    }
    if field_false(root, "successResponse") {
        return Err(classify_error_frame(root, None));
    }
    if let Some(frame) = find_failing_success_frame(root) {
        return Err(classify_error_frame(frame, Some(root)));
    }
    let status_keys = vec!["statusCode", "status_code", "code"];
    assert(status_keys.deep_view() =~= seq!["statusCode"@, "status_code"@, "code"@]);
    if let Some(status) = find_first_i64(root, &status_keys) {
        if status != 0 && status != 200 {
            return Err(
                ClassifiedError::new(
                    if status == 401 || status == 403 {
                        ErrorKind::AuthenticationExpired
                    } else {
                        ErrorKind::Api
                    },
                ),
            );
        }
    }
    let code_keys = vec!["errorCode", "code", "status", "statusCode"];
    assert(code_keys.deep_view() =~= seq!["errorCode"@, "code"@, "status"@, "statusCode"@]);
    let code = find_first_string(root, &code_keys);
    let message_keys = vec!["errorMsg", "message", "msg", "statusMessage"];
    assert(message_keys.deep_view() =~= seq!["errorMsg"@, "message"@, "msg"@, "statusMessage"@]);
    let message = find_first_string(root, &message_keys);
    classify_text_signals(&code, &message)
}

/// Whether a body is a login page.
pub open spec fn login_html(body: Seq<u8>) -> bool {
    vstd::utf8::valid_utf8(body) && {
        let page = text::lower(vstd::utf8::decode_utf8(body));
        text::contains(page, "<html"@) && (text::contains(page, "login"@) || text::contains(
            page,
            "sign in"@,
        ) || text::contains(page, "signin"@))
    }
}

/// Whether a body is a login page.
pub fn looks_like_login_html(body: &[u8]) -> (r: bool)
    ensures
        r == login_html(body@),
{
    match text::utf8_text(body) {
        None => false,
        Some(page) => {
            let chars = text::chars_of(page.as_str());
            let lower = text::to_lower(chars.as_slice());
            let s = lower.as_slice();
            text::has(s, "<html") && (text::has(s, "login") || text::has(s, "sign in")
                || text::has(s, "signin"))
        },
    }
}

/// A usage reading before its percentages are limited.
pub struct ParsedUsage {
    pub plan_name: Option<String>,
    pub primary: Option<RateWindow>,
    pub secondary: Option<RateWindow>,
}

/// Mathematical value of a [`ParsedUsage`].
pub struct ParsedView {
    pub plan_name: Option<Seq<char>>,
    pub primary: Option<WindowView>,
    pub secondary: Option<WindowView>,
}

impl ParsedUsage {
    pub open spec fn value(self) -> ParsedView {
        ParsedView {
            plan_name: self.plan_name.deep_view(),
            primary: usage::window_value(self.primary),
            secondary: usage::window_value(self.secondary),
        }
    }

    /// Every percentage is a representable decimal.
    pub open spec fn wf(self) -> bool {
        &&& self.primary is Some ==> (self.primary->0.used is Some ==> self.primary->0.used->0.wf())
        &&& self.secondary is Some ==> (self.secondary->0.used is Some
            ==> self.secondary->0.used->0.wf())
    }
}

/// The text of a decimal with at most two fractional digits and its integer
/// digits in groups.
pub open spec fn decimal_label(value: Decimal) -> Seq<char> {
    text::grouped_number(
        decimal::decimal_text(decimal::decimal_normalized(decimal::decimal_rounded(value, 2))),
    )
}

/// The text of a decimal with at most two fractional digits and its integer
/// digits in groups.
pub fn format_decimal(value: Decimal) -> (r: String)
    requires
        value.wf(),
    ensures
        r@ == decimal_label(value),
{
    let rounded = decimal::normalize(decimal::round(value, 2));
    let raw = decimal::to_text(rounded);
    text::group_number(raw.as_str())
}

/// Percentage points of a ratio: the ratio limited to one, times a hundred.
pub open spec fn points(ratio: Decimal) -> Option<Decimal> {
    decimal::decimal_product(decimal::clamped(ratio, decimal::whole(1)), decimal::whole(100))
}

/// Whether a number is a hundred times a ratio: exactly between zero and one, zero
/// below, and a hundred above.
pub open spec fn points_shown(ratio: Decimal, value: Decimal) -> bool {
    &&& ratio.below_zero() ==> value == decimal::whole(0)
    &&& !ratio.below_zero() && decimal::whole(1).less(ratio) ==> value == decimal::whole(100)
    &&& !ratio.below_zero() && !decimal::whole(1).less(ratio) && 100 * ratio.magnitude
        < decimal::MAGNITUDE_LIMIT ==> value.magnitude == 100 * ratio.magnitude && !value.negative
        && (ratio.magnitude > 0 ==> value.scale == ratio.scale)
}

proof fn lemma_points(ratio: Decimal)
    requires
        ratio.wf(),
    ensures
        forall|value: Decimal|
            decimal::product_right(
                decimal::clamped(ratio, decimal::whole(1)),
                decimal::whole(100),
                Some(value),
            ) ==> #[trigger] points_shown(ratio, value),
{
    let hundred = decimal::whole(100).magnitude;
    let share = decimal::clamped(ratio, decimal::whole(1));
    assert(share.magnitude * hundred == 100 * share.magnitude) by (nonlinear_arith)
        requires
            hundred == 100,
    ;
}

/// A ratio shows as a hundred times itself, from zero to a hundred.
pub proof fn law_points_are_hundredfold(ratio: Decimal)
    requires
        decimal::computes(),
        ratio.wf(),
    ensures
        points(ratio) is Some ==> points_shown(ratio, points(ratio)->0),
{
    lemma_points(ratio);
}

/// The used amount that a label tells is the stated percentage of the total, up to
/// the last digit.
pub proof fn law_labels_tell_the_share(percent: Decimal, total: Decimal)
    requires
        decimal::computes(),
        percent.wf(),
        total.wf(),
        percent.magnitude > 0,
        total.magnitude > 0,
        percent.magnitude * total.magnitude < decimal::MAGNITUDE_LIMIT,
        percent.scale + total.scale <= decimal::MAX_SCALE,
    ensures
        share_label(percent, total) matches Some(label) ==> exists|used: Decimal|
            label == #[trigger] credits_label(used, total) && decimal::near(
                used,
                total.mantissa() * percent.mantissa(),
                100 * decimal::pow10((percent.scale + total.scale) as nat),
            ),
{
    if share_label(percent, total) is Some {
        let scaled = decimal::decimal_product(total, percent)->0;
        let used = decimal::decimal_quotient(scaled, decimal::whole(100))->0;
        assert(total.magnitude * percent.magnitude == percent.magnitude * total.magnitude)
            by (nonlinear_arith);
        assert(scaled.mantissa() == total.mantissa() * percent.mantissa()) by (nonlinear_arith)
            requires
                scaled.magnitude == total.magnitude * percent.magnitude,
                scaled.negative == (total.negative != percent.negative),
                scaled.mantissa() == (if scaled.negative {
                    -(scaled.magnitude as int)
                } else {
                    scaled.magnitude as int
                }),
                total.mantissa() == (if total.negative {
                    -(total.magnitude as int)
                } else {
                    total.magnitude as int
                }),
                percent.mantissa() == (if percent.negative {
                    -(percent.magnitude as int)
                } else {
                    percent.magnitude as int
                }),
        ;
        assert(decimal::pow10(0) == 1);
        assert(scaled.mantissa() * decimal::pow10(0) == scaled.mantissa()) by (nonlinear_arith)
            requires
                decimal::pow10(0) == 1,
        ;
        assert(share_label(percent, total)->0 == credits_label(used, total));
    }
}

/// Percentage points of a ratio.
pub fn percentage_points(ratio: Decimal) -> (r: Result<Decimal, Overflow>)
    requires
        ratio.wf(),
    ensures
        match r {
            Ok(value) => points(ratio) == Some(value) && value.wf() && points_shown(ratio, value),
            Err(_) => points(ratio) is None,
        },
{
    proof {
        lemma_points(ratio);
    }
    match ratio.clamp_to(Decimal::of(1)).times(Decimal::of(100)) {
        Some(value) => Ok(value),
        None => Err(Overflow),
    }
}

/// Used and total amount of a window whose used share is `percent`.
pub open spec fn share_label(percent: Decimal, total: Decimal) -> Option<Seq<char>> {
    match decimal::decimal_product(total, percent) {
        None => None,
        Some(scaled) => match decimal::decimal_quotient(scaled, decimal::whole(100)) {
            None => None,
            Some(used) => Some(credits_label(used, total)),
        },
    }
}

/// The label of used and total credits.
pub open spec fn credits_label(used: Decimal, total: Decimal) -> Seq<char> {
    decimal_label(used) + " / "@ + decimal_label(total) + " credits used"@
}

fn credits_text(used: Decimal, total: Decimal) -> (r: String)
    requires
        used.wf(),
        total.wf(),
    ensures
        r@ == credits_label(used, total),
{
    let mut r = format_decimal(used);
    let whole = format_decimal(total);
    r.append(" / ");
    r.append(whole.as_str());
    r.append(" credits used");
    r
}

/// Used and total amount of a window whose used share is `percent`.
pub fn quota_description(percent: Decimal, total: Decimal) -> (r: Result<String, Overflow>)
    requires
        percent.wf(),
        total.wf(),
    ensures
        match r {
            Ok(label) => share_label(percent, total) == Some(label@),
            Err(_) => share_label(percent, total) is None,
        },
{
    match total.times(percent) {
        None => Err(Overflow),
        Some(scaled) => match scaled.over(Decimal::of(100)) {
            None => Err(Overflow),
            Some(used) => Ok(credits_text(used, total)),
        },
    }
}

/// The first text among the fields `wanted` of an object, tried in order.
pub open spec fn own_text(t: Tree, wanted: Seq<Seq<char>>, from: int) -> Option<Seq<char>>
    decreases wanted.len() - from,
{
    if from < 0 || from >= wanted.len() {
        None
    } else {
        match json::field(t, wanted[from]) {
            Some(v) => match string_of(v) {
                Some(found) => Some(found),
                None => own_text(t, wanted, from + 1),
            },
            None => own_text(t, wanted, from + 1),
        }
    }
}

/// The first decimal among the fields `wanted` of an object, tried in order.
pub open spec fn own_decimal(t: Tree, wanted: Seq<Seq<char>>, from: int) -> Option<Decimal>
    decreases wanted.len() - from,
{
    if from < 0 || from >= wanted.len() {
        None
    } else {
        match json::field(t, wanted[from]) {
            Some(v) => match decimal_of(v) {
                Some(found) => Some(found),
                None => own_decimal(t, wanted, from + 1),
            },
            None => own_decimal(t, wanted, from + 1),
        }
    }
}

/// The first instant among the fields `wanted` of an object, tried in order.
pub open spec fn own_time(t: Tree, wanted: Seq<Seq<char>>, from: int) -> Option<Option<Timestamp>>
    decreases wanted.len() - from,
{
    if from < 0 || from >= wanted.len() {
        Some(None)
    } else {
        match json::field(t, wanted[from]) {
            Some(v) => match time_of(v) {
                None => None,
                Some(Some(found)) => Some(Some(found)),
                Some(None) => own_time(t, wanted, from + 1),
            },
            None => own_time(t, wanted, from + 1),
        }
    }
}

/// The first text among the fields of an object, tried in order.
pub fn any_string(object: &Json, wanted: &Vec<&str>) -> (r: Option<String>)
    ensures
        r.deep_view() == own_text(object.tree(), wanted.deep_view(), 0),
{
    let ghost all = wanted.deep_view();
    let mut i: usize = 0;
    while i < wanted.len()
        invariant
            all == wanted.deep_view(),
            i <= wanted@.len(),
            own_text(object.tree(), all, 0) == own_text(object.tree(), all, i as int),
        decreases wanted@.len() - i,
    {
        assert(all[i as int] == wanted@[i as int]@);
        if let Some(v) = object.get(wanted[i]) {
            let found = scalar_string(v);
            if found.is_some() {
                return found;
            }
        }
        i += 1;
    }
    None
}

/// The first decimal among the fields of an object, tried in order.
pub fn any_decimal(object: &Json, wanted: &Vec<&str>) -> (r: Option<Decimal>)
    ensures
        r == own_decimal(object.tree(), wanted.deep_view(), 0),
        r is Some ==> r->0.wf(),
{
    let ghost all = wanted.deep_view();
    let mut i: usize = 0;
    while i < wanted.len()
        invariant
            all == wanted.deep_view(),
            i <= wanted@.len(),
            own_decimal(object.tree(), all, 0) == own_decimal(object.tree(), all, i as int),
        decreases wanted@.len() - i,
    {
        assert(all[i as int] == wanted@[i as int]@);
        if let Some(v) = object.get(wanted[i]) {
            let found = scalar_decimal(v);
            if found.is_some() {
                return found;
            }
        }
        i += 1;
    }
    None
}

/// The first instant among the fields of an object, tried in order.
pub fn any_timestamp(object: &Json, wanted: &Vec<&str>) -> (r: Result<Option<Timestamp>, Overflow>)
    ensures
        match r {
            Ok(at) => own_time(object.tree(), wanted.deep_view(), 0) == Some(at),
            Err(_) => own_time(object.tree(), wanted.deep_view(), 0) is None,
        },
{
    let ghost all = wanted.deep_view();
    let mut i: usize = 0;
    while i < wanted.len()
        invariant
            all == wanted.deep_view(),
            i <= wanted@.len(),
            own_time(object.tree(), all, 0) == own_time(object.tree(), all, i as int),
        decreases wanted@.len() - i,
    {
        assert(all[i as int] == wanted@[i as int]@);
        if let Some(v) = object.get(wanted[i]) {
            match scalar_timestamp(v) {
                Err(overflow) => return Err(overflow),
                Ok(Some(at)) => return Ok(Some(at)),
                Ok(None) => {},
            }
        }
        i += 1;
    }
    Ok(None)
}

pub open spec fn plan_fields() -> Seq<Seq<char>> {
    seq!["specCode"@, "spec_code"@, "planName"@, "plan_name"@]
}

/// The plan's code, in lower case.
pub open spec fn plan_code_of(root: Tree) -> Option<Seq<char>> {
    match json::first_holder(root, plan_fields()) {
        None => None,
        Some(object) => match own_text(object, plan_fields(), 0) {
            Some(code) => Some(text::lower(code)),
            None => None,
        },
    }
}

/// The plan's code, in lower case.
pub fn plan_code(root: &Json) -> (r: Option<String>)
    ensures
        r.deep_view() == plan_code_of(root.tree()),
{
    let fields = vec!["specCode", "spec_code", "planName", "plan_name"];
    assert(fields.deep_view() =~= plan_fields());
    match json::find_object_containing_any(root, &fields) {
        None => None,
        Some(object) => match any_string(object, &fields) {
            Some(code) => {
                let chars = text::chars_of(code.as_str());
                let lower = text::to_lower(chars.as_slice());
                Some(text::text_of(lower.as_slice()))
            },
            None => None,
        },
    }
}

/// The display name of a plan code.
pub open spec fn plan_label(code: Seq<char>) -> Seq<char> {
    if code == "lite"@ {
        "Lite"@
    } else if code == "standard"@ {
        "Standard"@
    } else if code == "pro"@ {
        "Pro"@
    } else if code == "max"@ {
        "Max"@
    } else {
        code
    }
}

/// The display name of a plan code.
pub fn display_plan_name(code: &str) -> (r: String)
    ensures
        r@ == plan_label(code@),
{
    if text::same_text(code, "lite") {
        "Lite".to_owned()
    } else if text::same_text(code, "standard") {
        "Standard".to_owned()
    } else if text::same_text(code, "pro") {
        "Pro".to_owned()
    } else if text::same_text(code, "max") {
        "Max".to_owned()
    } else {
        code.to_owned()
    }
}

/// The five-hour and weekly totals of a plan; `None` where neither is known.
pub open spec fn plan_totals(root: Tree, code: Seq<char>) -> Option<
    (Option<Decimal>, Option<Decimal>),
> {
    let values = json::values_for_key(root, code);
    if values.len() == 0 || !(values[0] is Object) {
        None
    } else {
        let quota = values[0];
        let five_hour_field = match json::field(quota, "five_hour"@) {
            Some(v) => Some(v),
            None => json::field(quota, "fiveHour"@),
        };
        let five_hour = match five_hour_field {
            Some(v) => decimal_of(v),
            None => None,
        };
        let weekly = match json::field(quota, "weekly"@) {
            Some(v) => decimal_of(v),
            None => None,
        };
        if five_hour is Some || weekly is Some {
            Some((five_hour, weekly))
        } else {
            None
        }
    }
}

fn field_decimal(object: &Json, key: &str) -> (r: Option<Decimal>)
    ensures
        r == field_decimal_of(object.tree(), key@),
        r is Some ==> r->0.wf(),
{
    match object.get(key) {
        Some(v) => scalar_decimal(v),
        None => None,
    }
}

/// The decimal of a field.
pub open spec fn field_decimal_of(t: Tree, key: Seq<char>) -> Option<Decimal> {
    match json::field(t, key) {
        Some(v) => decimal_of(v),
        None => None,
    }
}

/// Both totals are representable where they are known.
pub open spec fn totals_wf(totals: Option<(Option<Decimal>, Option<Decimal>)>) -> bool {
    match totals {
        Some((five_hour, weekly)) => (five_hour is Some ==> five_hour->0.wf()) && (weekly is Some
            ==> weekly->0.wf()),
        None => true,
    }
}

/// The five-hour and weekly totals of a plan.
pub fn quota_totals(root: &Json, code: &str) -> (r: Option<(Option<Decimal>, Option<Decimal>)>)
    ensures
        r == plan_totals(root.tree(), code@),
        totals_wf(r),
{
    let values = json::find_values(root, code);
    assert(json::trees(values@) == json::values_for_key(root.tree(), code@));
    if values.len() == 0 {
        return None;
    }
    let quota = values[0];
    assert(json::trees(values@)[0] == quota.tree());
    if !quota.is_object() {
        return None;
    }
    let five_hour = if quota.get("five_hour").is_some() {
        field_decimal(quota, "five_hour")
    } else {
        field_decimal(quota, "fiveHour")
    };
    let weekly = field_decimal(quota, "weekly");
    if five_hour.is_some() || weekly.is_some() {
        Some((five_hour, weekly))
    } else {
        None
    }
}

/// One current window: its share, its reset time and its description. The outer
/// `None` marks an overflow, the inner a window without a share.
pub open spec fn current_window(
    object: Tree,
    share_key: Seq<char>,
    reset_key: Seq<char>,
    minutes: i64,
    total: Option<Decimal>,
) -> Option<Option<WindowView>> {
    match field_decimal_of(object, share_key) {
        None => Some(None),
        Some(ratio) => match points(ratio) {
            None => None,
            Some(percent) => {
                let resets_at = match json::field(object, reset_key) {
                    Some(v) => time_of(v),
                    None => Some(None),
                };
                let description = if total is Some && total->0.positive() {
                    match share_label(percent, total->0) {
                        Some(label) => Some(Some(label)),
                        None => None,
                    }
                } else {
                    Some(None)
                };
                if resets_at is None || description is None {
                    None
                } else {
                    Some(
                        Some(
                            WindowView {
                                used: Some(percent),
                                minutes: Some(minutes),
                                resets_at: resets_at->0,
                                description: description->0,
                            },
                        ),
                    )
                }
            },
        },
    }
}

fn parse_current_window(
    object: &Json,
    share_key: &str,
    reset_key: &str,
    minutes: i64,
    total: Option<Decimal>,
) -> (r: Result<Option<RateWindow>, Overflow>)
    requires
        total is Some ==> total->0.wf(),
    ensures
        match r {
            Ok(window) => current_window(object.tree(), share_key@, reset_key@, minutes, total)
                == Some(usage::window_value(window)) && (window is Some ==> window->0.used is Some
                && window->0.used->0.wf()),
            Err(_) => current_window(object.tree(), share_key@, reset_key@, minutes, total) is None,
        },
{
    let ratio = match field_decimal(object, share_key) {
        Some(ratio) => ratio,
        None => return Ok(None),
    };
    let percent = match percentage_points(ratio) {
        Ok(percent) => percent,
        Err(overflow) => return Err(overflow),
    };
    let resets_at = match object.get(reset_key) {
        Some(v) => match scalar_timestamp(v) {
            Ok(at) => at,
            Err(overflow) => return Err(overflow),
        },
        None => None,
    };
    let mut description: Option<String> = None;
    if let Some(amount) = total {
        if amount.is_positive() {
            match quota_description(percent, amount) {
                Ok(label) => {
                    description = Some(label);
                },
                Err(overflow) => return Err(overflow),
            }
        }
    }
    Ok(
        Some(
            RateWindow {
                used: Some(percent),
                minutes: Some(minutes),
                resets_at,
                description,
            },
        ),
    )
}

pub open spec fn share_fields() -> Seq<Seq<char>> {
    seq!["per5HourPercentage"@, "per1WeekPercentage"@]
}

/// The usage of a current response. The outer `None` marks an overflow, the
/// inner a response without current usage.
pub open spec fn current_usage(
    root: Tree,
    subscription: Option<Tree>,
    quota: Option<Tree>,
) -> Option<Option<ParsedView>> {
    match json::first_holder(root, share_fields()) {
        None => Some(None),
        Some(object) => {
            let code = match subscription {
                Some(s) => plan_code_of(s),
                None => None,
            };
            let totals = match (quota, code) {
                (Some(q), Some(c)) => plan_totals(q, c),
                _ => None,
            };
            let five_hour_total = match totals {
                Some(pair) => pair.0,
                None => None,
            };
            let weekly_total = match totals {
                Some(pair) => pair.1,
                None => None,
            };
            let primary = current_window(
                object,
                "per5HourPercentage"@,
                "per5HourResetTime"@,
                300,
                five_hour_total,
            );
            let secondary = current_window(
                object,
                "per1WeekPercentage"@,
                "per1WeekResetTime"@,
                10080,
                weekly_total,
            );
            if primary is None || secondary is None {
                None
            } else if primary->0 is None && secondary->0 is None {
                Some(None)
            } else {
                Some(
                    Some(
                        ParsedView {
                            plan_name: match code {
                                Some(c) => Some(plan_label(c)),
                                None => None,
                            },
                            primary: primary->0,
                            secondary: secondary->0,
                        },
                    ),
                )
            }
        },
    }
}

/// The tree of an optional document.
pub open spec fn optional_tree(document: Option<&Json>) -> Option<Tree> {
    match document {
        Some(d) => Some(d.tree()),
        None => None,
    }
}

/// The usage of a current response.
pub fn parse_current(
    root: &Json,
    subscription: Option<&Json>,
    quota: Option<&Json>,
) -> (r: Result<Option<ParsedUsage>, Overflow>)
    ensures
        match r {
            Ok(Some(parsed)) => current_usage(
                root.tree(),
                optional_tree(subscription),
                optional_tree(quota),
            ) == Some(Some(parsed.value())) && parsed.wf(),
            Ok(None) => current_usage(
                root.tree(),
                optional_tree(subscription),
                optional_tree(quota),
            ) == Some(None::<ParsedView>),
            Err(_) => current_usage(
                root.tree(),
                optional_tree(subscription),
                optional_tree(quota),
            ) is None,
        },
{
    let fields = vec!["per5HourPercentage", "per1WeekPercentage"];
    assert(fields.deep_view() =~= share_fields());
    let object = match json::find_object_containing_any(root, &fields) {
        Some(object) => object,
        None => return Ok(None),
    };
    let code = match subscription {
        Some(document) => plan_code(document),
        None => None,
    };
    let mut five_hour_total: Option<Decimal> = None;
    let mut weekly_total: Option<Decimal> = None;
    if let Some(document) = quota {
        if let Some(c) = &code {
            if let Some(pair) = quota_totals(document, c.as_str()) {
                five_hour_total = pair.0;
                weekly_total = pair.1;
            }
        }
    }
    let primary = match parse_current_window(
        object,
        "per5HourPercentage",
        "per5HourResetTime",
        300,
        five_hour_total,
    ) {
        Ok(window) => window,
        Err(overflow) => return Err(overflow),
    };
    let secondary = match parse_current_window(
        object,
        "per1WeekPercentage",
        "per1WeekResetTime",
        10080,
        weekly_total,
    ) {
        Ok(window) => window,
        Err(overflow) => return Err(overflow),
    };
    if primary.is_none() && secondary.is_none() {
        return Ok(None);
    }
    let plan_name = match &code {
        Some(c) => Some(display_plan_name(c.as_str())),
        None => None,
    };
    Ok(Some(ParsedUsage { plan_name, primary, secondary }))
}

/// The first of the fields `wanted` that is an object, tried in order.
pub open spec fn object_field(t: Tree, wanted: Seq<Seq<char>>, from: int) -> Option<Tree>
    decreases wanted.len() - from,
{
    if from < 0 || from >= wanted.len() {
        None
    } else {
        match json::field(t, wanted[from]) {
            Some(v) => if v is Object {
                Some(v)
            } else {
                object_field(t, wanted, from + 1)
            },
            None => object_field(t, wanted, from + 1),
        }
    }
}

/// The first object of a document, in walk order, under one of the keys.
pub open spec fn object_under(root: Tree, wanted: Seq<Seq<char>>) -> Option<Tree> {
    json::first_hit(json::walk(root, 0), |t: Tree| object_field(t, wanted, 0))
}

fn get_object<'a>(value: &'a Json, wanted: &Vec<&str>) -> (r: Option<&'a Json>)
    ensures
        optional_tree(r) == object_field(value.tree(), wanted.deep_view(), 0),
{
    let ghost all = wanted.deep_view();
    let mut i: usize = 0;
    while i < wanted.len()
        invariant
            all == wanted.deep_view(),
            i <= wanted@.len(),
            object_field(value.tree(), all, 0) == object_field(value.tree(), all, i as int),
        decreases wanted@.len() - i,
    {
        assert(all[i as int] == wanted@[i as int]@);
        if let Some(v) = value.get(wanted[i]) {
            if v.is_object() {
                return Some(v);
            }
        }
        i += 1;
    }
    None
}

/// The first object of a document, in walk order, under one of the keys.
pub fn find_first_object_value<'a>(root: &'a Json, wanted: &Vec<&str>) -> (r: Option<&'a Json>)
    ensures
        optional_tree(r) == object_under(root.tree(), wanted.deep_view()),
{
    let nodes = json::visits(root);
    let ghost walked = json::walk(root.tree(), 0);
    let ghost names = wanted.deep_view();
    let ghost f = |t: Tree| object_field(t, names, 0);
    let mut i: usize = 0;
    while i < nodes.len()
        invariant
            walked == json::walk(root.tree(), 0),
            names == wanted.deep_view(),
            f == (|t: Tree| object_field(t, names, 0)),
            json::visit_nodes(nodes@) == walked,
            nodes@.len() == walked.len(),
            i <= nodes@.len(),
            forall|j: int| 0 <= j < i ==> f((#[trigger] walked[j]).0) is None,
        decreases nodes@.len() - i,
    {
        assert(walked[i as int] == nodes@[i as int].node());
        let found = get_object(nodes[i].value, wanted);
        if found.is_some() {
            proof {
                json::lemma_first_hit_skip(walked, f, i as int);
                assert(walked.skip(i as int)[0] == walked[i as int]);
            }
            return found;
        }
        i += 1;
    }
    proof {
        json::lemma_first_hit_skip(walked, f, walked.len() as int);
    }
    None
}

pub open spec fn data_fields() -> Seq<Seq<char>> {
    seq!["Data"@, "data"@, "successResponse"@, "success_response"@]
}

/// The object that summarizes a legacy quota.
pub open spec fn legacy_summary(root: Tree) -> Option<Tree> {
    match object_under(root, data_fields()) {
        Some(data) => if json::has_any_key(data, qwencloud_keys::summary_names()) {
            match json::first_holder(data, qwencloud_keys::quota_names()) {
                Some(holder) => Some(holder),
                None => Some(data),
            }
        } else {
            json::first_holder(root, qwencloud_keys::summary_names())
        },
        None => json::first_holder(root, qwencloud_keys::summary_names()),
    }
}

/// The object that summarizes a legacy quota.
pub fn find_legacy_summary(root: &Json) -> (r: Option<&Json>)
    ensures
        optional_tree(r) == legacy_summary(root.tree()),
{
    let fields = vec!["Data", "data", "successResponse", "success_response"];
    assert(fields.deep_view() =~= data_fields());
    let summary_keys = qwencloud_keys::summary_keys();
    if let Some(data) = find_first_object_value(root, &fields) {
        if json::contains_any_key(data, &summary_keys) {
            let quota_keys = qwencloud_keys::quota_keys();
            return match json::find_object_containing_any(data, &quota_keys) {
                Some(holder) => Some(holder),
                None => Some(data),
            };
        }
    }
    json::find_object_containing_any(root, &summary_keys)
}

/// The used amount of a legacy summary: its own, or total less remaining. The
/// outer `None` marks an overflow.
pub open spec fn legacy_used(
    own: Option<Decimal>,
    total: Option<Decimal>,
    remaining: Option<Decimal>,
) -> Option<Option<Decimal>> {
    match (own, total, remaining) {
        (Some(used), _, _) => Some(Some(used)),
        (None, Some(t), Some(left)) => match decimal::decimal_difference(t, left) {
            Some(used) => Some(Some(decimal::at_least_zero(used))),
            None => None,
        },
        _ => Some(None),
    }
}

/// The window of a legacy summary. The outer `None` marks an overflow.
pub open spec fn legacy_window(
    used: Option<Decimal>,
    total: Option<Decimal>,
    resets_at: Option<Timestamp>,
) -> Option<Option<WindowView>> {
    match (used, total) {
        (Some(u), Some(t)) => if !t.positive() {
            Some(None)
        } else {
            let share = decimal::smaller(decimal::at_least_zero(u), t);
            match decimal::decimal_product(share, decimal::whole(100)) {
                None => None,
                Some(scaled) => match decimal::decimal_quotient(scaled, t) {
                    None => None,
                    Some(percent) => Some(
                        Some(
                            WindowView {
                                used: Some(percent),
                                minutes: Some(43200i64),
                                resets_at,
                                description: Some(credits_label(share, t)),
                            },
                        ),
                    ),
                },
            }
        },
        _ => Some(None),
    }
}

/// The plan name of a legacy response.
pub open spec fn legacy_plan(
    root: Tree,
    summary: Tree,
    total: Option<Decimal>,
    count: Option<Decimal>,
) -> Option<Seq<char>> {
    match own_text(summary, qwencloud_keys::plan_names(), 0) {
        Some(name) => Some(name),
        None => match text_under(root, qwencloud_keys::plan_names(), 0) {
            Some(name) => Some(name),
            None => if total is Some || (count is Some && count->0.positive()) {
                Some("TOKEN PLAN"@)
            } else {
                None
            },
        },
    }
}

/// The usage of a legacy response. The outer `None` marks an overflow, the
/// inner a response without legacy usage.
pub open spec fn legacy_usage(root: Tree) -> Option<Option<ParsedView>> {
    match legacy_summary(root) {
        None => Some(None),
        Some(summary) => {
            let total = own_decimal(summary, qwencloud_keys::total_names(), 0);
            let remaining = own_decimal(summary, qwencloud_keys::remaining_names(), 0);
            let used = legacy_used(
                own_decimal(summary, qwencloud_keys::used_names(), 0),
                total,
                remaining,
            );
            let own_reset = own_time(summary, qwencloud_keys::reset_names(), 0);
            let reset = if own_reset == Some(None::<Timestamp>) {
                time_under(root, qwencloud_keys::reset_names(), 0)
            } else {
                own_reset
            };
            let count = own_decimal(summary, qwencloud_keys::count_names(), 0);
            let plan_name = legacy_plan(root, summary, total, count);
            if used is None || reset is None {
                None
            } else if plan_name is None && total is None && used->0 is None && remaining is None
                && count is None {
                Some(None)
            } else {
                match legacy_window(used->0, total, reset->0) {
                    None => None,
                    Some(primary) => Some(
                        Some(ParsedView { plan_name, primary, secondary: None }),
                    ),
                }
            }
        },
    }
}

/// Whether a percentage is the one of a used amount of a total: that of the amount
/// where it lies between zero and the total, zero below, and a hundred above.
pub open spec fn legacy_share_shown(used: Decimal, total: Decimal, percent: Decimal) -> bool {
    &&& used.below_zero() ==> percent == decimal::whole(0)
    &&& !used.below_zero() && !total.less(used) && 100 * used.magnitude < decimal::MAGNITUDE_LIMIT
        ==> decimal::is_percentage(used, total, percent)
    &&& !used.below_zero() && total.less(used) && 100 * total.magnitude < decimal::MAGNITUDE_LIMIT
        ==> percent == decimal::whole(100)
}

proof fn lemma_legacy_share(used: Decimal, total: Decimal, scaled: Decimal, percent: Decimal)
    requires
        used.wf(),
        total.wf(),
        total.positive(),
        decimal::product_right(
            decimal::smaller(decimal::at_least_zero(used), total),
            decimal::whole(100),
            Some(scaled),
        ),
        decimal::quotient_right(scaled, total, Some(percent)),
    ensures
        legacy_share_shown(used, total, percent),
{
    let share = decimal::smaller(decimal::at_least_zero(used), total);
    decimal::lemma_pow10_positive(total.scale as nat);
    decimal::lemma_pow10_positive(0);
    if used.below_zero() {
        let top = total.mantissa() * decimal::pow10(0);
        assert(top > 0) by (nonlinear_arith)
            requires
                top == total.mantissa() * decimal::pow10(0),
                total.mantissa() > 0,
                decimal::pow10(0) > 0,
        ;
        assert(0 * decimal::pow10(total.scale as nat) == 0) by (nonlinear_arith);
        assert(share == decimal::whole(0));
    } else if 100 * share.magnitude < decimal::MAGNITUDE_LIMIT {
        decimal::lemma_percentage(share, total, scaled, percent);
        if share == total {
            assert((100 * total.magnitude) % (total.magnitude as int) == 0) by (nonlinear_arith)
                requires
                    total.magnitude > 0,
            ;
            assert(percent.magnitude == 100) by (nonlinear_arith)
                requires
                    percent.magnitude * total.magnitude == 100 * total.magnitude,
                    total.magnitude > 0,
            ;
        }
    }
}

/// The percentage of a legacy summary is that of the used amount of the total.
pub proof fn law_legacy_percentages_are_shares(
    used: Decimal,
    total: Decimal,
    resets_at: Option<Timestamp>,
)
    requires
        decimal::computes(),
        used.wf(),
        total.wf(),
        total.positive(),
    ensures
        legacy_window(Some(used), Some(total), resets_at) matches Some(window) ==> {
            &&& window is Some
            &&& window->0.used is Some
            &&& legacy_share_shown(used, total, window->0.used->0)
        },
{
    if legacy_window(Some(used), Some(total), resets_at) is Some {
        let share = decimal::smaller(decimal::at_least_zero(used), total);
        let scaled = decimal::decimal_product(share, decimal::whole(100))->0;
        lemma_legacy_share(used, total, scaled, decimal::decimal_quotient(scaled, total)->0);
    }
}

/// Without a used amount of its own, a legacy summary has used what does not remain:
/// with what remains, that makes the total again. Where more remains than the total,
/// nothing is used.
pub proof fn law_legacy_use_and_rest_make_the_total(total: Decimal, remaining: Decimal)
    requires
        decimal::computes(),
        total.wf(),
        remaining.wf(),
        total.scale == remaining.scale,
        total.positive(),
        remaining.positive(),
    ensures
        legacy_used(None, Some(total), Some(remaining)) matches Some(Some(used)) && (
        if remaining.magnitude <= total.magnitude {
            !used.below_zero() && used.magnitude + remaining.magnitude == total.magnitude
                && used.scale == total.scale
        } else {
            used == decimal::whole(0)
        }),
{
    assert(total.mantissa() * decimal::pow10(0) == total.mantissa()) by (nonlinear_arith)
        requires
            decimal::pow10(0) == 1,
    ;
    assert(remaining.mantissa() * decimal::pow10(0) == remaining.mantissa()) by (nonlinear_arith)
        requires
            decimal::pow10(0) == 1,
    ;
}

fn legacy_window_of(
    used: Option<Decimal>,
    total: Option<Decimal>,
    resets_at: Option<Timestamp>,
) -> (r: Result<Option<RateWindow>, Overflow>)
    requires
        used is Some ==> used->0.wf(),
        total is Some ==> total->0.wf(),
    ensures
        match r {
            Ok(window) => legacy_window(used, total, resets_at) == Some(
                usage::window_value(window),
            ) && (window is Some ==> window->0.used is Some && window->0.used->0.wf()
                && legacy_share_shown(used->0, total->0, window->0.used->0)),
            Err(_) => legacy_window(used, total, resets_at) is None,
        },
{
    match (used, total) {
        (Some(u), Some(t)) => {
            if !t.is_positive() {
                return Ok(None);
            }
            let share = u.floor_zero().min_with(t);
            match share.times(Decimal::of(100)) {
                None => Err(Overflow),
                Some(scaled) => match scaled.over(t) {
                    None => Err(Overflow),
                    Some(percent) => {
                        proof {
                            lemma_legacy_share(u, t, scaled, percent);
                        }
                        Ok(
                            Some(
                                RateWindow {
                                    used: Some(percent),
                                    minutes: Some(43200),
                                    resets_at,
                                    description: Some(credits_text(share, t)),
                                },
                            ),
                        )
                    },
                },
            }
        },
        _ => Ok(None),
    }
}

/// The usage of a legacy response.
pub fn parse_legacy(root: &Json) -> (r: Result<Option<ParsedUsage>, Overflow>)
    ensures
        match r {
            Ok(Some(parsed)) => legacy_usage(root.tree()) == Some(Some(parsed.value()))
                && parsed.wf(),
            Ok(None) => legacy_usage(root.tree()) == Some(None::<ParsedView>),
            Err(_) => legacy_usage(root.tree()) is None,
        },
{
    let summary = match find_legacy_summary(root) {
        Some(summary) => summary,
        None => return Ok(None),
    };
    let total = any_decimal(summary, &qwencloud_keys::total_keys());
    let remaining = any_decimal(summary, &qwencloud_keys::remaining_keys());
    let own_used = any_decimal(summary, &qwencloud_keys::used_keys());
    let used = match (own_used, total, remaining) {
        (Some(value), _, _) => Some(value),
        (None, Some(t), Some(left)) => match t.minus(left) {
            Some(value) => Some(value.floor_zero()),
            None => return Err(Overflow),
        },
        _ => None,
    };
    let reset_keys = qwencloud_keys::reset_keys();
    let reset = match any_timestamp(summary, &reset_keys) {
        Err(overflow) => return Err(overflow),
        Ok(Some(at)) => Some(at),
        Ok(None) => match find_first_timestamp(root, &reset_keys) {
            Err(overflow) => return Err(overflow),
            Ok(at) => at,
        },
    };
    let count = any_decimal(summary, &qwencloud_keys::count_keys());
    let plan_keys = qwencloud_keys::plan_keys();
    let counted = match count {
        Some(value) => value.is_positive(),
        None => false,
    };
    let plan_name = match any_string(summary, &plan_keys) {
        Some(name) => Some(name),
        None => match find_first_string(root, &plan_keys) {
            Some(name) => Some(name),
            None => if total.is_some() || counted {
                Some("TOKEN PLAN".to_owned())
            } else {
                None
            },
        },
    };
    if plan_name.is_none() && total.is_none() && used.is_none() && remaining.is_none()
        && count.is_none() {
        return Ok(None);
    }
    match legacy_window_of(used, total, reset) {
        Err(overflow) => Err(overflow),
        Ok(primary) => Ok(Some(ParsedUsage { plan_name, primary, secondary: None })),
    }
}

/// A window with its percentage limited to the range from zero to a hundred.
pub open spec fn limited(window: Option<WindowView>) -> Option<WindowView> {
    match window {
        Some(w) => Some(
            WindowView {
                used: match w.used {
                    Some(percent) => Some(decimal::clamped(percent, decimal::whole(100))),
                    None => None,
                },
                ..w
            },
        ),
        None => None,
    }
}

fn normalize_window(window: Option<RateWindow>) -> (r: Option<RateWindow>)
    requires
        window is Some ==> (window->0.used is Some ==> window->0.used->0.wf()),
    ensures
        usage::window_value(r) == limited(usage::window_value(window)),
{
    match window {
        None => None,
        Some(w) => {
            let used = match w.used {
                Some(percent) => Some(percent.clamp_to(Decimal::of(100))),
                None => None,
            };
            Some(
                RateWindow {
                    used,
                    minutes: w.minutes,
                    resets_at: w.resets_at,
                    description: w.description,
                },
            )
        },
    }
}

/// The plan name that a sample shows: trimmed, not empty and bounded.
pub open spec fn shown_plan(name: Option<Seq<char>>) -> Option<Seq<char>> {
    match name {
        Some(s) => if text::trimmed(s).len() > 0 && text::byte_len(text::trimmed(s))
            <= MAX_PLAN_BYTES {
            Some(text::trimmed(s))
        } else {
            None
        },
        None => None,
    }
}

/// The sample of a usage reading.
pub open spec fn sample_of(fetched_at: Timestamp, parsed: ParsedView) -> SampleView {
    SampleView {
        primary: limited(parsed.primary),
        secondary: limited(parsed.secondary),
        login_method: shown_plan(parsed.plan_name),
        ..usage::empty_sample(ProviderId::QwenCloud, fetched_at, "qwencloud"@, "web"@)
    }
}

/// Limits the percentages and the plan name of a usage reading.
pub fn normalize_usage(fetched_at: Timestamp, parsed: ParsedUsage) -> (r: UsageSample)
    requires
        parsed.wf(),
    ensures
        r.value() == sample_of(fetched_at, parsed.value()),
{
    let mut r = UsageSample::empty(ProviderId::QwenCloud, fetched_at, "qwencloud", "web");
    r.primary = normalize_window(parsed.primary);
    r.secondary = normalize_window(parsed.secondary);
    r.login_method = match parsed.plan_name {
        Some(name) => {
            let plain = text::trim_text(name.as_str());
            if !plain.as_str().is_empty() && plain.as_str().len() <= MAX_PLAN_BYTES {
                Some(plain)
            } else {
                None
            }
        },
        None => None,
    };
    r
}

/// Every percentage that a sample shows lies between zero and a hundred.
pub proof fn law_shown_percentages_limited(fetched_at: Timestamp, parsed: ParsedView)
    ensures
        ({
            let sample = sample_of(fetched_at, parsed);
            &&& sample.primary is Some && sample.primary->0.used is Some
                ==> !sample.primary->0.used->0.below_zero() && !decimal::whole(100).less(
                sample.primary->0.used->0,
            )
            &&& sample.secondary is Some && sample.secondary->0.used is Some
                ==> !sample.secondary->0.used->0.below_zero() && !decimal::whole(100).less(
                sample.secondary->0.used->0,
            )
        }),
{
    if parsed.primary is Some && parsed.primary->0.used is Some {
        decimal::law_clamped_in_range(parsed.primary->0.used->0, decimal::whole(100));
    }
    if parsed.secondary is Some && parsed.secondary->0.used is Some {
        decimal::law_clamped_in_range(parsed.secondary->0.used->0, decimal::whole(100));
    }
}

/// The document of an optional response; unreadable ones are ignored.
pub open spec fn optional_document(body: Option<Seq<u8>>) -> Option<Tree> {
    match body {
        Some(bytes) => qwencloud::bounded_document(bytes),
        None => None,
    }
}

/// The sample or the failure of the responses.
pub open spec fn outcome(
    provider: ProviderId,
    fetched_at: Timestamp,
    body: Seq<u8>,
    subscription: Option<Seq<u8>>,
    quota: Option<Seq<u8>>,
    source: ProviderSource,
) -> Result<SampleView, ErrorKind> {
    if provider != ProviderId::QwenCloud || !(source == ProviderSource::ManualCookie || source
        == ProviderSource::BrowserSession) {
        Err(ErrorKind::Api)
    } else if login_html(body) {
        Err(ErrorKind::AuthenticationExpired)
    } else {
        match qwencloud::bounded_document(body) {
            None => Err(ErrorKind::Parse),
            Some(root) => match reported_failure(root) {
                Some(kind) => Err(kind),
                None => document_outcome(
                    fetched_at,
                    root,
                    optional_document(subscription),
                    optional_document(quota),
                ),
            },
        }
    }
}

/// The sample or the failure of documents that report no failure. A number that is
/// too large to compute with cannot be read.
pub open spec fn document_outcome(
    fetched_at: Timestamp,
    root: Tree,
    subscription: Option<Tree>,
    quota: Option<Tree>,
) -> Result<SampleView, ErrorKind> {
    match current_usage(root, subscription, quota) {
        None => Err(ErrorKind::Parse),
        Some(Some(parsed)) => Ok(sample_of(fetched_at, parsed)),
        Some(None) => match legacy_usage(root) {
            Some(Some(parsed)) => Ok(sample_of(fetched_at, parsed)),
            _ => Err(ErrorKind::Parse),
        },
    }
}

/// Whether an outcome is this result.
pub open spec fn is_outcome(
    r: Result<UsageSample, ClassifiedError>,
    expected: Result<SampleView, ErrorKind>,
) -> bool {
    match (r, expected) {
        (Ok(sample), Ok(view)) => sample.value() == view,
        (Err(e), Err(kind)) => e == error::plain(kind),
        _ => false,
    }
}

/// Normalizes documents that report no failure.
pub fn normalize_documents(
    fetched_at: Timestamp,
    root: &Json,
    subscription: Option<&Json>,
    quota: Option<&Json>,
) -> (r: Result<UsageSample, ClassifiedError>)
    ensures
        is_outcome(
            r,
            document_outcome(
                fetched_at,
                root.tree(),
                optional_tree(subscription),
                optional_tree(quota),
            ),
        ),
{
    match parse_current(root, subscription, quota) {
        Err(_) => Err(ClassifiedError::new(ErrorKind::Parse)),
        Ok(Some(parsed)) => Ok(normalize_usage(fetched_at, parsed)),
        Ok(None) => match parse_legacy(root) {
            Ok(Some(parsed)) => Ok(normalize_usage(fetched_at, parsed)),
            _ => Err(ClassifiedError::new(ErrorKind::Parse)),
        },
    }
}

fn read_optional(body: Option<&[u8]>) -> (r: Option<Json>)
    ensures
        match r {
            Some(document) => optional_document(json::optional_bytes(body)) == Some(document.tree()),
            None => optional_document(json::optional_bytes(body)) is None,
        },
{
    match body {
        Some(bytes) => match qwencloud::parse_bounded_json(bytes) {
            Ok(document) => Some(document),
            Err(_) => None,
        },
        None => None,
    }
}

/// Parses the required usage response and optional subscription and quota
/// metadata. Unreadable optional responses are ignored. A number that is too large
/// to compute with is a parse failure.
pub fn parse_usage_responses(
    provider: ProviderId,
    fetched_at: Timestamp,
    body: &[u8],
    subscription_body: Option<&[u8]>,
    quota_config_body: Option<&[u8]>,
    source: ProviderSource,
) -> (r: Result<UsageSample, ClassifiedError>)
    ensures
        is_outcome(
            r,
            outcome(
                provider,
                fetched_at,
                body@,
                json::optional_bytes(subscription_body),
                json::optional_bytes(quota_config_body),
                source,
            ),
        ),
{
    if provider != ProviderId::QwenCloud || !(source == ProviderSource::ManualCookie || source
        == ProviderSource::BrowserSession) {
        return Err(ClassifiedError::new(ErrorKind::Api));
    }
    if looks_like_login_html(body) {
        return Err(ClassifiedError::new(ErrorKind::AuthenticationExpired));
    }
    let root = match qwencloud::parse_bounded_json(body) {
        Ok(root) => root,
        Err(e) => return Err(e),
    };
    if let Err(e) = validate_payload_status(&root) {
        return Err(e);
    }
    let subscription = read_optional(subscription_body);
    let quota = read_optional(quota_config_body);
    normalize_documents(fetched_at, &root, subscription.as_ref(), quota.as_ref())
}

/// Parses one required usage response without optional plan metadata.
pub fn parse_usage_response(
    provider: ProviderId,
    fetched_at: Timestamp,
    body: &[u8],
    source: ProviderSource,
) -> (r: Result<UsageSample, ClassifiedError>)
    ensures
        is_outcome(r, outcome(provider, fetched_at, body@, None, None, source)),
{
    parse_usage_responses(provider, fetched_at, body, None, None, source)
}

/// The current windows are of five hours and of seven days. Each shows a hundred
/// times its own share and resets at its own time.
pub proof fn law_current_windows_show_their_shares(
    root: Tree,
    subscription: Option<Tree>,
    quota: Option<Tree>,
)
    requires
        decimal::computes(),
    ensures
        ({
            let holder = json::first_holder(root, share_fields());
            current_usage(root, subscription, quota) matches Some(Some(read)) ==> holder is Some && {
                &&& read.primary matches Some(short) ==> {
                    &&& short.minutes == Some((5 * 60) as i64)
                    &&& field_decimal_of(holder->0, "per5HourPercentage"@) matches Some(ratio)
                    &&& ratio.wf() ==> short.used is Some && points_shown(ratio, short.used->0)
                    &&& json::field(holder->0, "per5HourResetTime"@) matches Some(v) ==> time_of(v)
                        == Some(short.resets_at)
                }
                &&& read.secondary matches Some(long) ==> {
                    &&& long.minutes == Some((7 * 24 * 60) as i64)
                    &&& field_decimal_of(holder->0, "per1WeekPercentage"@) matches Some(ratio)
                    &&& ratio.wf() ==> long.used is Some && points_shown(ratio, long.used->0)
                    &&& json::field(holder->0, "per1WeekResetTime"@) matches Some(v) ==> time_of(v)
                        == Some(long.resets_at)
                }
            }
        }),
{
    if let Some(holder) = json::first_holder(root, share_fields()) {
        if let Some(ratio) = field_decimal_of(holder, "per5HourPercentage"@) {
            if ratio.wf() {
                law_points_are_hundredfold(ratio);
            }
        }
        if let Some(ratio) = field_decimal_of(holder, "per1WeekPercentage"@) {
            if ratio.wf() {
                law_points_are_hundredfold(ratio);
            }
        }
    }
}

/// The totals of a plan are those of five hours and of a week, each under its own
/// name.
pub proof fn law_plan_totals_keep_apart(root: Tree, code: Seq<char>)
    ensures
        plan_totals(root, code) matches Some((five_hour, weekly)) ==> {
            let quota = json::values_for_key(root, code)[0];
            &&& weekly == field_decimal_of(quota, "weekly"@)
            &&& json::field(quota, "five_hour"@) is Some ==> five_hour == field_decimal_of(
                quota,
                "five_hour"@,
            )
            &&& json::field(quota, "five_hour"@) is None ==> five_hour == field_decimal_of(
                quota,
                "fiveHour"@,
            )
        },
{
}

/// Each current window tells its share of its own total.
pub proof fn law_current_windows_tell_their_totals(
    root: Tree,
    subscription: Tree,
    quota: Tree,
)
    ensures
        current_usage(root, Some(subscription), Some(quota)) matches Some(Some(read)) ==> (
        plan_code_of(subscription) matches Some(code) ==> (plan_totals(quota, code) matches Some(
            (five_hour, weekly),
        ) ==> {
            &&& read.primary is Some && five_hour is Some && five_hour->0.positive()
                ==> read.primary->0.description == share_label(
                read.primary->0.used->0,
                five_hour->0,
            )
            &&& read.secondary is Some && weekly is Some && weekly->0.positive()
                ==> read.secondary->0.description == share_label(
                read.secondary->0.used->0,
                weekly->0,
            )
        })),
{
}

/// A sample shows the windows that were read in their places, and current usage goes
/// before legacy usage.
pub proof fn law_windows_keep_their_places(
    fetched_at: Timestamp,
    root: Tree,
    subscription: Option<Tree>,
    quota: Option<Tree>,
)
    ensures
        document_outcome(fetched_at, root, subscription, quota) matches Ok(sample) ==> exists|
            read: ParsedView,
        |
            (current_usage(root, subscription, quota) == Some(Some(read)) || (current_usage(
                root,
                subscription,
                quota,
            ) == Some(None::<ParsedView>) && legacy_usage(root) == Some(Some(read)))) && #[trigger]
                shows(sample, read),
        current_usage(root, subscription, quota) matches Some(Some(_)) ==> document_outcome(
            fetched_at,
            root,
            subscription,
            quota,
        ) is Ok,
{
    if document_outcome(fetched_at, root, subscription, quota) is Ok {
        let sample = document_outcome(fetched_at, root, subscription, quota)->Ok_0;
        let read = if current_usage(root, subscription, quota)->0 is Some {
            current_usage(root, subscription, quota)->0->0
        } else {
            legacy_usage(root)->0->0
        };
        assert(shows(sample, read));
    }
}

/// Whether a sample shows what was read.
pub open spec fn shows(sample: SampleView, read: ParsedView) -> bool {
    &&& sample.primary is Some <==> read.primary is Some
    &&& sample.secondary is Some <==> read.secondary is Some
    &&& read.primary matches Some(w) ==> sample.primary->0.minutes == w.minutes
        && sample.primary->0.resets_at == w.resets_at && sample.primary->0.description
        == w.description && (w.used is Some && !w.used->0.below_zero() && !decimal::whole(100).less(
        w.used->0,
    ) ==> sample.primary->0.used == w.used)
    &&& read.secondary matches Some(w) ==> sample.secondary->0.minutes == w.minutes
        && sample.secondary->0.resets_at == w.resets_at && sample.secondary->0.description
        == w.description && (w.used is Some && !w.used->0.below_zero() && !decimal::whole(100).less(
        w.used->0,
    ) ==> sample.secondary->0.used == w.used)
}

/// A legacy summary is read from its own total, use, rest and reset time.
pub proof fn law_legacy_summaries_are_read_from_their_fields(root: Tree)
    ensures
        legacy_usage(root) matches Some(Some(read)) ==> (legacy_summary(root) matches Some(summary)
            && read.secondary is None && (read.primary is Some ==> own_decimal(
            summary,
            qwencloud_keys::total_names(),
            0,
        ) is Some && read.primary->0.minutes == Some((30 * 24 * 60) as i64))),
{
}

/// A failure frame with the status 401 or 403 tells of an expired login.
pub proof fn law_denied_frames_expire_the_login(frame: Tree, fallback: Option<Tree>)
    ensures
        ({
            let status = number_under(frame, seq!["statusCode"@, "status_code"@, "code"@], 0);
            status == Some(401i64) || status == Some(403i64) ==> frame_class(frame, fallback)
                == ErrorKind::AuthenticationExpired
        }),
        frame_class(frame, fallback) == ErrorKind::AuthenticationExpired || frame_class(
            frame,
            fallback,
        ) == ErrorKind::Api,
{
}

} // verus!
