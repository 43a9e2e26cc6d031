//! Synthetic quotas.
//!
//! Numbers are kept as the texts that denote them: which texts denote a finite
//! number is known to the caller, who hands the library the list of those that
//! do.

use vstd::prelude::*;
use vstd::slice::slice_subrange;

use crate::decimal;
use crate::error;
use crate::error::{ClassifiedError, ErrorKind};
use crate::instant;
use crate::instant::Timestamp;
use crate::json;
use crate::json::{Json, Tree};
use crate::providers::synthetic_keys as keys;
use crate::registry::ProviderId;
use crate::retry;
use crate::retry::RetryPolicy;
use crate::settings;
use crate::settings::{ApiKeyCredential, Environment};
use crate::text;
use crate::transport;
use crate::transport::TransportConfig;
use crate::usage;
use crate::usage::{
    CostProvenance, CostSummary, CostView, RateWindow, SampleView, UsageSample, WindowView,
};

verus! {

pub const MAX_RESPONSE_BYTES: usize = 5 * 1024 * 1024;

pub const MAX_TRAVERSAL_DEPTH: usize = 128;

/// The adapter of one account.
pub struct SyntheticProvider {
    pub base_url: String,
}

impl SyntheticProvider {
    /// Selects the key of an environment.
    pub fn resolve_credential(environment: &Environment) -> (r: Result<
        ApiKeyCredential,
        ClassifiedError,
    >)
        ensures
            settings::is_selected_key(r, *environment, seq!["SYNTHETIC_API_KEY"@]),
    {
        let names = vec!["SYNTHETIC_API_KEY"];
        assert(names.deep_view() =~= seq!["SYNTHETIC_API_KEY"@]);
        ApiKeyCredential::resolve(environment, &names)
    }

    /// Wraps the client of an account.
    pub fn from_client(provider: ProviderId, base_url: String) -> (r: Result<
        SyntheticProvider,
        ClassifiedError,
    >)
        ensures
            match r {
                Ok(adapter) => provider == ProviderId::Synthetic && adapter.base_url == base_url,
                Err(e) => provider != ProviderId::Synthetic && e == error::plain(ErrorKind::Api),
            },
    {
        if provider != ProviderId::Synthetic {
            return Err(ClassifiedError::new(ErrorKind::Api));
        }
        Ok(SyntheticProvider { base_url })
    }
}

/// The failure classes of statuses that differ from the usual ones.
pub fn synthetic_status(status: u16) -> (r: Option<ErrorKind>)
    ensures
        r == (if status == 401 || status == 403 {
            Some(ErrorKind::AuthenticationExpired)
        } else {
            None
        }),
{
    if status == 401 || status == 403 {
        Some(ErrorKind::AuthenticationExpired)
    } else {
        None
    }
}

/// The value of a digit in a base of at most sixteen.
pub open spec fn base_digit(c: char, base: int) -> Option<int> {
    let value = if '0' <= c && c <= '9' {
        c as u32 - '0' as u32
    } else if 'a' <= c && c <= 'f' {
        c as u32 - 'a' as u32 + 10
    } else if 'A' <= c && c <= 'F' {
        c as u32 - 'A' as u32 + 10
    } else {
        16
    };
    if value < base {
        Some(value)
    } else {
        None
    }
}

/// The value of the first `n` digits in a base; `None` where one is no digit or
/// the value leaves 128 bits.
pub open spec fn base_value(s: Seq<char>, base: int, n: int) -> Option<int>
    decreases n,
{
    if n <= 0 {
        Some(0)
    } else {
        match (base_value(s, base, n - 1), base_digit(s[n - 1], base)) {
            (Some(before), Some(digit)) => if before * base + digit <= u128::MAX {
                Some(before * base + digit)
            } else {
                None
            },
            _ => None,
        }
    }
}

proof fn lemma_base_failure(s: Seq<char>, base: int, n: int, m: int)
    requires
        0 <= n <= m,
        base_value(s, base, n) is None,
    ensures
        base_value(s, base, m) is None,
    decreases m - n,
{
    if n < m {
        lemma_base_failure(s, base, n, m - 1);
    }
}

/// The number that digits in a base denote; a plus sign may lead.
pub open spec fn based_number(s: Seq<char>, base: int) -> Option<int> {
    let body = text::without_plus(s);
    if s.len() == 0 || body.len() == 0 {
        None
    } else {
        base_value(body, base, body.len() as int)
    }
}

fn read_based(s: &[char], base: u128) -> (r: Option<u128>)
    requires
        2 <= base <= 16,
    ensures
        match r {
            Some(n) => based_number(s@, base as int) == Some(n as int),
            None => based_number(s@, base as int) is None,
        },
{
    let n: usize = s.len();
    if n == 0 {
        return None;
    }
    let body = if s[0] == '+' {
        slice_subrange(s, 1, n)
    } else {
        s
    };
    assert(body@ =~= text::without_plus(s@));
    if body.len() == 0 {
        return None;
    }
    let mut value: u128 = 0;
    let mut i: usize = 0;
    while i < body.len()
        invariant
            2 <= base <= 16,
            based_number(s@, base as int) == base_value(
                body@,
                base as int,
                body@.len() as int,
            ),
            i <= body@.len(),
            base_value(body@, base as int, i as int) == Some(value as int),
        decreases body@.len() - i,
    {
        proof {
            if base_value(body@, base as int, i as int + 1) is None {
                lemma_base_failure(body@, base as int, i as int + 1, body@.len() as int);
            }
        }
        let c = body[i];
        let digit: u128 = if '0' <= c && c <= '9' {
            c as u128 - '0' as u128
        } else if 'a' <= c && c <= 'f' {
            c as u128 - 'a' as u128 + 10
        } else if 'A' <= c && c <= 'F' {
            c as u128 - 'A' as u128 + 10
        } else {
            16
        };
        if digit >= base {
            return None;
        }
        value =
        match value.checked_mul(base) {
            Some(product) => match product.checked_add(digit) {
                Some(sum) => sum,
                None => return None,
            },
            None => return None,
        };
        i += 1;
    }
    Some(value)
}

/// Appends the decimal digits of a number.
fn push_wide(out: &mut String, n: u128)
    ensures
        final(out)@ == old(out)@ + text::digits(n as nat),
    decreases n,
{
    if n >= 10 {
        push_wide(out, n / 10);
    }
    let code: u8 = (n % 10) as u8;
    out.push((48 + code) as char);
    assert(out@ =~= old(out)@ + text::digits(n as nat));
}

/// The base that a prefix tells, with the digits behind it.
pub open spec fn based(s: Seq<char>) -> Option<(int, Seq<char>)> {
    if s.len() < 2 || s[0] != '0' {
        None
    } else if s[1] == 'x' || s[1] == 'X' {
        Some((16, s.skip(2)))
    } else if s[1] == 'b' || s[1] == 'B' {
        Some((2, s.skip(2)))
    } else if s[1] == 'o' || s[1] == 'O' {
        Some((8, s.skip(2)))
    } else {
        None
    }
}

/// The decimal text of what may be a number: digits with a base prefix are read
/// and written in decimal, any other text stays.
pub open spec fn decimal_candidate(s: Seq<char>) -> Option<Seq<char>> {
    match based(s) {
        Some((base, digits)) => match based_number(digits, base) {
            Some(n) => Some(text::digits(n as nat)),
            None => None,
        },
        None => Some(s),
    }
}

/// The decimal text of what may be a number.
pub fn js_number_text(s: &[char]) -> (r: Option<String>)
    ensures
        r.deep_view() == decimal_candidate(s@),
{
    let n: usize = s.len();
    let base: u128 = if n < 2 || s[0] != '0' {
        0
    } else if s[1] == 'x' || s[1] == 'X' {
        16
    } else if s[1] == 'b' || s[1] == 'B' {
        2
    } else if s[1] == 'o' || s[1] == 'O' {
        8
    } else {
        0
    };
    if base == 0 {
        return Some(text::text_of(s));
    }
    let digits = slice_subrange(s, 2, n);
    assert(digits@ =~= s@.skip(2));
    match read_based(digits, base) {
        Some(number) => {
            let mut out = String::new();
            push_wide(&mut out, number);
            assert(out@ =~= text::digits(number as nat));
            Some(out)
        },
        None => None,
    }
}

/// The text of what may be an amount of money: without dollar signs and commas.
pub open spec fn money_text(s: Seq<char>) -> Seq<char> {
    text::trimmed(text::without(text::without(text::trimmed(s), '$'), ','))
}

fn strip_money(s: &str) -> (r: Vec<char>)
    ensures
        r@ == money_text(s@),
{
    let chars = text::chars_of(s);
    let without_sign = text::remove_char(text::trim(chars.as_slice()), '$');
    let plain = text::remove_char(without_sign.as_slice(), ',');
    let shown = text::text_of(text::trim(plain.as_slice()));
    text::chars_of(shown.as_str())
}

/// The texts that may denote the number and the amount of money of a text.
pub open spec fn candidates_of(t: Tree) -> Seq<Seq<char>> {
    match t {
        Tree::Text(s) => option_seq(decimal_candidate(text::trimmed(s))) + option_seq(
            decimal_candidate(money_text(s)),
        ),
        _ => seq![],
    }
}

/// No or one text as a list.
pub open spec fn option_seq(s: Option<Seq<char>>) -> Seq<Seq<char>> {
    match s {
        Some(x) => seq![x],
        None => seq![],
    }
}

/// The texts that may denote numbers among the first `n` values of a walk.
pub open spec fn candidates_in(nodes: Seq<(Tree, nat)>, n: int) -> Seq<Seq<char>>
    decreases n,
{
    if n <= 0 {
        seq![]
    } else {
        candidates_in(nodes, n - 1) + candidates_of(nodes[n - 1].0)
    }
}

/// All texts of a document that may denote a number. The caller finds out which
/// of them do.
pub fn number_texts(root: &Json) -> (r: Vec<String>)
    ensures
        r.deep_view() == candidates_in(
            json::walk(root.tree(), 0),
            json::walk(root.tree(), 0).len() as int,
        ),
{
    let visits = json::visits(root);
    let ghost nodes = json::walk(root.tree(), 0);
    let mut out: Vec<String> = Vec::new();
    assert(out.deep_view() =~= seq![]);
    let mut i: usize = 0;
    while i < visits.len()
        invariant
            json::visit_nodes(visits@) == nodes,
            i <= visits@.len(),
            out.deep_view() == candidates_in(nodes, i as int),
        decreases visits@.len() - i,
    {
        assert(nodes[i as int] == visits@[i as int].node());
        let ghost before = out.deep_view();
        if let Json::Text(s) = visits[i].value {
            let chars = text::chars_of(s.as_str());
            let plain = js_number_text(text::trim(chars.as_slice()));
            let money = js_number_text(strip_money(s.as_str()).as_slice());
            let ghost first = option_seq(plain.deep_view());
            let ghost second = option_seq(money.deep_view());
            if let Some(candidate) = plain {
                out.push(candidate);
            }
            assert(out.deep_view() =~= before + first);
            let ghost middle = out.deep_view();
            if let Some(candidate) = money {
                out.push(candidate);
            }
            assert(out.deep_view() =~= middle + second);
            assert(out.deep_view() =~= before + (first + second));
        } else {
            assert(out.deep_view() =~= before + candidates_of(nodes[i as int].0));
        }
        i += 1;
    }
    assert(visits@.len() == nodes.len());
    out
}

/// A candidate, where it is known to denote a number.
pub open spec fn confirmed(candidate: Option<Seq<char>>, readable: Seq<Seq<char>>) -> Option<
    Seq<char>,
> {
    match candidate {
        Some(s) => if text::includes(readable, s) {
            Some(s)
        } else {
            None
        },
        None => None,
    }
}

fn confirm(candidate: Option<String>, readable: &Vec<String>) -> (r: Option<String>)
    ensures
        r.deep_view() == confirmed(candidate.deep_view(), readable.deep_view()),
{
    match candidate {
        Some(s) => if text::any_same(readable, s.as_str()) {
            Some(s)
        } else {
            None
        },
        None => None,
    }
}

/// The text of the number that a value holds.
pub open spec fn number_of(t: Tree, readable: Seq<Seq<char>>) -> Option<Seq<char>> {
    match t {
        Tree::Number(n) => Some(n),
        Tree::Text(s) => if text::trimmed(s).len() > 0 {
            confirmed(decimal_candidate(text::trimmed(s)), readable)
        } else {
            None
        },
        _ => None,
    }
}

/// The text of the number that a value holds.
pub fn number_value(value: &Json, readable: &Vec<String>) -> (r: Option<String>)
    ensures
        r.deep_view() == number_of(value.tree(), readable.deep_view()),
{
    match value {
        Json::Number(n) => Some(n.clone()),
        Json::Text(s) => {
            let chars = text::chars_of(s.as_str());
            let plain = text::trim(chars.as_slice());
            if plain.len() > 0 {
                confirm(js_number_text(plain), readable)
            } else {
                None
            }
        },
        _ => None,
    }
}

/// The text of the amount of money that a value holds; a text of signs only is
/// zero.
pub open spec fn currency_of(t: Tree, readable: Seq<Seq<char>>) -> Option<Seq<char>> {
    match t {
        Tree::Text(s) => if money_text(s).len() == 0 {
            Some("0"@)
        } else {
            confirmed(decimal_candidate(money_text(s)), readable)
        },
        _ => number_of(t, readable),
    }
}

/// The text of the amount of money that a value holds.
pub fn currency_value(value: &Json, readable: &Vec<String>) -> (r: Option<String>)
    ensures
        r.deep_view() == currency_of(value.tree(), readable.deep_view()),
{
    match value {
        Json::Text(s) => {
            let plain = strip_money(s.as_str());
            if plain.len() == 0 {
                Some("0".to_owned())
            } else {
                confirm(js_number_text(plain.as_slice()), readable)
            }
        },
        _ => number_value(value, readable),
    }
}

/// The number of the first field at or behind `from` that holds one.
pub open spec fn number_field(
    t: Tree,
    names: Seq<Seq<char>>,
    readable: Seq<Seq<char>>,
    from: int,
) -> Option<Seq<char>>
    decreases names.len() - from,
{
    if from < 0 || from >= names.len() {
        None
    } else {
        let found = match json::field(t, names[from]) {
            Some(value) => number_of(value, readable),
            None => None,
        };
        match found {
            Some(n) => Some(n),
            None => number_field(t, names, readable, from + 1),
        }
    }
}

/// The number of the first field that holds one.
pub fn first_number(value: &Json, names: &Vec<&str>, readable: &Vec<String>) -> (r: Option<String>)
    ensures
        r.deep_view() == number_field(value.tree(), names.deep_view(), readable.deep_view(), 0),
{
    let ghost all = names.deep_view();
    let mut i: usize = 0;
    while i < names.len()
        invariant
            all == names.deep_view(),
            i <= names@.len(),
            number_field(value.tree(), all, readable.deep_view(), 0) == number_field(
                value.tree(),
                all,
                readable.deep_view(),
                i as int,
            ),
        decreases names@.len() - i,
    {
        assert(all[i as int] == names@[i as int]@);
        if let Some(held) = value.get(names[i]) {
            let found = number_value(held, readable);
            if found.is_some() {
                return found;
            }
        }
        i += 1;
    }
    None
}

/// The amount of money of the first field at or behind `from` that holds one.
pub open spec fn currency_field(
    t: Tree,
    names: Seq<Seq<char>>,
    readable: Seq<Seq<char>>,
    from: int,
) -> Option<Seq<char>>
    decreases names.len() - from,
{
    if from < 0 || from >= names.len() {
        None
    } else {
        let found = match json::field(t, names[from]) {
            Some(value) => currency_of(value, readable),
            None => None,
        };
        match found {
            Some(n) => Some(n),
            None => currency_field(t, names, readable, from + 1),
        }
    }
}

/// The amount of money of the first field that holds one.
pub fn first_currency(value: &Json, names: &Vec<&str>, readable: &Vec<String>) -> (r: Option<String>)
    ensures
        r.deep_view() == currency_field(value.tree(), names.deep_view(), readable.deep_view(), 0),
{
    let ghost all = names.deep_view();
    let mut i: usize = 0;
    while i < names.len()
        invariant
            all == names.deep_view(),
            i <= names@.len(),
            currency_field(value.tree(), all, readable.deep_view(), 0) == currency_field(
                value.tree(),
                all,
                readable.deep_view(),
                i as int,
            ),
        decreases names@.len() - i,
    {
        assert(all[i as int] == names@[i as int]@);
        if let Some(held) = value.get(names[i]) {
            let found = currency_value(held, readable);
            if found.is_some() {
                return found;
            }
        }
        i += 1;
    }
    None
}

/// The text of the first field at or behind `from` that holds one, trimmed.
pub open spec fn text_field(t: Tree, names: Seq<Seq<char>>, from: int) -> Option<Seq<char>>
    decreases names.len() - from,
{
    if from < 0 || from >= names.len() {
        None
    } else {
        match json::field(t, names[from]) {
            Some(Tree::Text(s)) => if text::trimmed(s).len() > 0 {
                Some(text::trimmed(s))
            } else {
                text_field(t, names, from + 1)
            },
            _ => text_field(t, names, from + 1),
        }
    }
}

/// The text of the first field that holds one, trimmed.
pub fn first_string(value: &Json, names: &Vec<&str>) -> (r: Option<String>)
    ensures
        r.deep_view() == text_field(value.tree(), names.deep_view(), 0),
{
    let ghost all = names.deep_view();
    let mut i: usize = 0;
    while i < names.len()
        invariant
            all == names.deep_view(),
            i <= names@.len(),
            text_field(value.tree(), all, 0) == text_field(value.tree(), all, i as int),
        decreases names@.len() - i,
    {
        assert(all[i as int] == names@[i as int]@);
        if let Some(Json::Text(s)) = value.get(names[i]) {
            let shown = text::trim_text(s.as_str());
            if !shown.as_str().is_empty() {
                return Some(shown);
            }
        }
        i += 1;
    }
    None
}

/// Whether an object is a quota: one of its fields holds a count or a
/// percentage.
pub open spec fn quota(t: Tree, readable: Seq<Seq<char>>) -> bool {
    number_field(t, keys::limit_keys(), readable, 0) is Some || number_field(
        t,
        keys::used_keys(),
        readable,
        0,
    ) is Some || number_field(t, keys::remaining_keys(), readable, 0) is Some || number_field(
        t,
        keys::percent_used_keys(),
        readable,
        0,
    ) is Some || number_field(t, keys::percent_remaining_keys(), readable, 0) is Some
}

/// Whether an object is a quota.
pub fn is_quota(value: &Json, readable: &Vec<String>) -> (r: bool)
    ensures
        r == quota(value.tree(), readable.deep_view()),
{
    first_number(value, &keys::limit_keys_list(), readable).is_some() || first_number(
        value,
        &keys::used_keys_list(),
        readable,
    ).is_some() || first_number(value, &keys::remaining_keys_list(), readable).is_some()
        || first_number(value, &keys::percent_used_keys_list(), readable).is_some()
        || first_number(value, &keys::percent_remaining_keys_list(), readable).is_some()
}

/// The positions of a list in order.
pub open spec fn list_order(n: nat) -> Seq<usize> {
    Seq::new(n, |i: int| i as usize)
}

/// The quotas in a value: in the order of a list, and in ascending order of an
/// object's keys; `None` where it is nested too deeply. A quota is not searched for
/// further ones.
pub open spec fn quotas_in(t: Tree, depth: nat, readable: Seq<Seq<char>>) -> Option<Seq<Tree>>
    decreases t, 1nat,
{
    if depth > MAX_TRAVERSAL_DEPTH {
        None
    } else {
        match t {
            Tree::Array(items) => quotas_in_all(
                items,
                list_order(items.len()),
                depth + 1,
                readable,
                items.len(),
            ),
            Tree::Object(names, values) => if quota(t, readable) {
                Some(seq![t])
            } else {
                quotas_in_all(
                    values,
                    json::key_order(names, names.len() as int),
                    depth + 1,
                    readable,
                    values.len(),
                )
            },
            _ => Some(seq![]),
        }
    }
}

/// The quotas in the values at the first `n` positions of an order.
pub open spec fn quotas_in_all(
    values: Seq<Tree>,
    order: Seq<usize>,
    depth: nat,
    readable: Seq<Seq<char>>,
    n: nat,
) -> Option<Seq<Tree>>
    decreases values, n,
{
    if n == 0 || n > order.len() || order[n - 1] >= values.len() {
        Some(seq![])
    } else {
        match (
            quotas_in_all(values, order, depth, readable, (n - 1) as nat),
            quotas_in(values[order[n - 1] as int], depth, readable),
        ) {
            (Some(before), Some(more)) => Some(before + more),
            _ => None,
        }
    }
}

proof fn lemma_quotas_failure(
    values: Seq<Tree>,
    order: Seq<usize>,
    depth: nat,
    readable: Seq<Seq<char>>,
    n: nat,
    m: nat,
)
    requires
        n <= m <= order.len(),
        forall|i: int| 0 <= i < order.len() ==> (#[trigger] order[i]) < values.len(),
        quotas_in_all(values, order, depth, readable, n) is None,
    ensures
        quotas_in_all(values, order, depth, readable, m) is None,
    decreases m - n,
{
    if n < m {
        assert(order[m - 1] < values.len());
        lemma_quotas_failure(values, order, depth, readable, n, (m - 1) as nat);
    }
}

fn append_refs<'a>(out: &mut Vec<&'a Json>, more: &Vec<&'a Json>)
    ensures
        json::trees(final(out)@) == json::trees(old(out)@) + json::trees(more@),
{
    let ghost before = json::trees(out@);
    let mut i: usize = 0;
    assert(json::trees(out@) =~= before + json::trees(more@).take(0));
    while i < more.len()
        invariant
            i <= more@.len(),
            json::trees(out@) == before + json::trees(more@).take(i as int),
        decreases more@.len() - i,
    {
        let ghost now = json::trees(out@);
        out.push(more[i]);
        assert(json::trees(out@) =~= now.push(more@[i as int].tree()));
        assert(json::trees(more@).take(i as int + 1) =~= json::trees(more@).take(i as int).push(
            json::trees(more@)[i as int],
        ));
        i += 1;
    }
    assert(json::trees(more@).take(more@.len() as int) =~= json::trees(more@));
}

/// The quotas in a value.
pub fn collect_quotas<'a>(value: &'a Json, depth: usize, readable: &Vec<String>) -> (r: Result<
    Vec<&'a Json>,
    ClassifiedError,
>)
    requires
        depth <= MAX_TRAVERSAL_DEPTH + 1,
    ensures
        match r {
            Ok(found) => quotas_in(value.tree(), depth as nat, readable.deep_view()) == Some(
                json::trees(found@),
            ),
            Err(e) => quotas_in(value.tree(), depth as nat, readable.deep_view()) is None && e
                == error::plain(ErrorKind::Parse),
        },
    decreases value.tree(),
{
    if depth > MAX_TRAVERSAL_DEPTH {
        return Err(ClassifiedError::new(ErrorKind::Parse));
    }
    let ghost whole = value.tree();
    let ghost all = json::children(whole);
    let ghost known = readable.deep_view();
    let ghost below = (depth + 1) as nat;
    let mut found: Vec<&'a Json> = Vec::new();
    assert(json::trees(found@) =~= seq![]);
    match value {
        Json::Array(items) => {
            let ghost order = list_order(all.len());
            let mut i: usize = 0;
            while i < items.len()
                invariant
                    whole == value.tree(),
                    *value == Json::Array(*items),
                    all == json::children(whole),
                    all.len() == items@.len(),
                    forall|j: int|
                        0 <= j < items@.len() ==> (#[trigger] items@[j]).tree() == all[j],
                    depth <= MAX_TRAVERSAL_DEPTH,
                    below == depth + 1,
                    known == readable.deep_view(),
                    order.len() == all.len(),
                    forall|j: int| 0 <= j < order.len() ==> (#[trigger] order[j]) < all.len(),
                    quotas_in(whole, depth as nat, known) == quotas_in_all(
                        all,
                        order,
                        below,
                        known,
                        all.len(),
                    ),
                    order == list_order(all.len()),
                    i <= items@.len(),
                    quotas_in_all(all, order, below, known, i as nat) == Some(json::trees(found@)),
                decreases items@.len() - i,
            {
                assert(order[i as int] == i);
                assert(items@[i as int].tree() == all[i as int]);
                assert(decreases_to!(whole => all));
                assert(decreases_to!(all => all[i as int]));
                match collect_quotas(&items[i], depth + 1, readable) {
                    Ok(more) => append_refs(&mut found, &more),
                    Err(e) => {
                        proof {
                            lemma_quotas_failure(
                                all,
                                order,
                                below,
                                known,
                                (i + 1) as nat,
                                all.len(),
                            );
                        }
                        return Err(e);
                    },
                }
                i += 1;
            }
            Ok(found)
        },
        Json::Object(fields) => {
            if is_quota(value, readable) {
                found.push(value);
                assert(json::trees(found@) =~= seq![whole]);
                return Ok(found);
            }
            let ghost names = json::keys(whole);
            let places = json::order_keys(fields);
            let ghost order = places@;
            let count: usize = fields.len();
            proof {
                assert(names.len() == count);
                assert(names =~= Seq::new(fields@.len(), |k: int| fields@[k].0@));
                json::lemma_key_order(names, names.len() as int);
            }
            let mut i: usize = 0;
            while i < places.len()
                invariant
                    whole == value.tree(),
                    *value == Json::Object(*fields),
                    all == json::children(whole),
                    all.len() == fields@.len(),
                    forall|j: int|
                        0 <= j < fields@.len() ==> (#[trigger] fields@[j]).1.tree() == all[j],
                    depth <= MAX_TRAVERSAL_DEPTH,
                    below == depth + 1,
                    known == readable.deep_view(),
                    order.len() == all.len(),
                    forall|j: int| 0 <= j < order.len() ==> (#[trigger] order[j]) < all.len(),
                    quotas_in(whole, depth as nat, known) == quotas_in_all(
                        all,
                        order,
                        below,
                        known,
                        all.len(),
                    ),
                    order == places@,
                    i <= fields@.len(),
                    quotas_in_all(all, order, below, known, i as nat) == Some(json::trees(found@)),
                decreases places@.len() - i,
            {
                let place: usize = places[i];
                assert(order[i as int] == place);
                assert(fields@[place as int].1.tree() == all[place as int]);
                assert(decreases_to!(whole => all));
                assert(decreases_to!(all => all[place as int]));
                match collect_quotas(&fields[place].1, depth + 1, readable) {
                    Ok(more) => append_refs(&mut found, &more),
                    Err(e) => {
                        proof {
                            lemma_quotas_failure(
                                all,
                                order,
                                below,
                                known,
                                (i + 1) as nat,
                                all.len(),
                            );
                        }
                        return Err(e);
                    },
                }
                i += 1;
            }
            Ok(found)
        },
        _ => Ok(found),
    }
}

/// A named quota of an object.
pub open spec fn named_quota(t: Tree, key: Seq<char>, readable: Seq<Seq<char>>) -> Option<Tree> {
    match json::field(t, key) {
        Some(value) => if value is Object && quota(value, readable) {
            Some(value)
        } else {
            None
        },
        None => None,
    }
}

/// A named quota of an object.
pub fn quota_property<'a>(value: &'a Json, key: &str, readable: &Vec<String>) -> (r: Option<
    &'a Json,
>)
    ensures
        match r {
            Some(found) => named_quota(value.tree(), key@, readable.deep_view()) == Some(
                found.tree(),
            ),
            None => named_quota(value.tree(), key@, readable.deep_view()) is None,
        },
{
    match value.get(key) {
        Some(held) => if held.is_object() && is_quota(held, readable) {
            Some(held)
        } else {
            None
        },
        None => None,
    }
}

/// A named quota one level deeper.
pub open spec fn nested_quota(
    t: Tree,
    parent: Seq<char>,
    child: Seq<char>,
    readable: Seq<Seq<char>>,
) -> Option<Tree> {
    match json::field(t, parent) {
        Some(value) => if value is Object {
            named_quota(value, child, readable)
        } else {
            None
        },
        None => None,
    }
}

/// A named quota one level deeper.
pub fn nested_quota_property<'a>(
    value: &'a Json,
    parent: &str,
    child: &str,
    readable: &Vec<String>,
) -> (r: Option<&'a Json>)
    ensures
        match r {
            Some(found) => nested_quota(value.tree(), parent@, child@, readable.deep_view())
                == Some(found.tree()),
            None => nested_quota(value.tree(), parent@, child@, readable.deep_view()) is None,
        },
{
    match value.get(parent) {
        Some(held) => if held.is_object() {
            quota_property(held, child, readable)
        } else {
            None
        },
        None => None,
    }
}

/// The data object of an answer.
pub open spec fn data_of(root: Tree) -> Option<Tree> {
    match json::field(root, "data"@) {
        Some(value) => if value is Object {
            Some(value)
        } else {
            None
        },
        None => None,
    }
}

/// The first of two values.
pub open spec fn first_tree(a: Option<Tree>, b: Option<Tree>) -> Option<Tree> {
    match a {
        Some(t) => Some(t),
        None => b,
    }
}

/// The three known quotas of an answer: rolling, weekly, and of searches.
pub open spec fn known_quotas(root: Tree, readable: Seq<Seq<char>>) -> Seq<Option<Tree>> {
    let data = data_of(root);
    seq![
        first_tree(
            named_quota(root, "rollingFiveHourLimit"@, readable),
            match data {
                Some(d) => named_quota(d, "rollingFiveHourLimit"@, readable),
                None => None,
            },
        ),
        first_tree(
            named_quota(root, "weeklyTokenLimit"@, readable),
            match data {
                Some(d) => named_quota(d, "weeklyTokenLimit"@, readable),
                None => None,
            },
        ),
        first_tree(
            nested_quota(root, "search"@, "hourly"@, readable),
            match data {
                Some(d) => nested_quota(d, "search"@, "hourly"@, readable),
                None => None,
            },
        ),
    ]
}

/// The quotas of the first field at or behind `from` that holds any; `None`
/// where a field is nested too deeply.
pub open spec fn contained_quotas(
    t: Tree,
    names: Seq<Seq<char>>,
    readable: Seq<Seq<char>>,
    from: int,
) -> Option<Seq<Tree>>
    decreases names.len() - from,
{
    if from < 0 || from >= names.len() {
        Some(seq![])
    } else {
        match json::field(t, names[from]) {
            Some(value) => match quotas_in(value, 0, readable) {
                None => None,
                Some(found) => if found.len() > 0 {
                    Some(found)
                } else {
                    contained_quotas(t, names, readable, from + 1)
                },
            },
            None => contained_quotas(t, names, readable, from + 1),
        }
    }
}

fn find_contained<'a>(value: &'a Json, names: &Vec<&str>, readable: &Vec<String>) -> (r: Result<
    Vec<&'a Json>,
    ClassifiedError,
>)
    ensures
        match r {
            Ok(found) => contained_quotas(
                value.tree(),
                names.deep_view(),
                readable.deep_view(),
                0,
            ) == Some(json::trees(found@)),
            Err(e) => contained_quotas(
                value.tree(),
                names.deep_view(),
                readable.deep_view(),
                0,
            ) is None && e == error::plain(ErrorKind::Parse),
        },
{
    let ghost all = names.deep_view();
    let mut i: usize = 0;
    while i < names.len()
        invariant
            all == names.deep_view(),
            i <= names@.len(),
            contained_quotas(value.tree(), all, readable.deep_view(), 0) == contained_quotas(
                value.tree(),
                all,
                readable.deep_view(),
                i as int,
            ),
        decreases names@.len() - i,
    {
        assert(all[i as int] == names@[i as int]@);
        if let Some(held) = value.get(names[i]) {
            match collect_quotas(held, 0, readable) {
                Ok(found) => {
                    if found.len() > 0 {
                        return Ok(found);
                    }
                    assert(json::trees(found@).len() == 0);
                },
                Err(e) => return Err(e),
            }
        }
        i += 1;
    }
    let none: Vec<&'a Json> = Vec::new();
    assert(json::trees(none@) =~= seq![]);
    Ok(none)
}

/// The quotas of an answer without known ones: from its own containers, then its
/// data, then the containers of its data.
pub open spec fn generic_quotas(root: Tree, readable: Seq<Seq<char>>) -> Option<Seq<Tree>> {
    match contained_quotas(root, keys::container_keys(), readable, 0) {
        None => None,
        Some(own) => if own.len() > 0 {
            Some(own)
        } else {
            match contained_quotas(root, seq!["data"@], readable, 0) {
                None => None,
                Some(inner) => if inner.len() > 0 {
                    Some(inner)
                } else {
                    match data_of(root) {
                        Some(data) => contained_quotas(data, keys::container_keys(), readable, 0),
                        None => Some(seq![]),
                    }
                },
            }
        },
    }
}

/// The quotas of an answer that is an object; `None` for a gap among the known
/// ones.
pub open spec fn selected_quotas(root: Tree, readable: Seq<Seq<char>>) -> Option<
    Seq<Option<Tree>>,
> {
    let known = known_quotas(root, readable);
    if known[0] is Some || known[1] is Some || known[2] is Some {
        Some(known)
    } else {
        match generic_quotas(root, readable) {
            Some(found) => Some(Seq::new(found.len(), |i: int| Some(found[i]))),
            None => None,
        }
    }
}

/// The values of optional documents.
pub open spec fn optional_trees(list: Seq<Option<&Json>>) -> Seq<Option<Tree>> {
    Seq::new(
        list.len(),
        |i: int|
            match list[i] {
                Some(value) => Some(value.tree()),
                None => None,
            },
    )
}

fn read_data(root: &Json) -> (r: Option<&Json>)
    ensures
        match r {
            Some(data) => data_of(root.tree()) == Some(data.tree()),
            None => data_of(root.tree()) is None,
        },
{
    match root.get("data") {
        Some(value) => if value.is_object() {
            Some(value)
        } else {
            None
        },
        None => None,
    }
}

/// Whether an answer has one of the known quotas.
pub open spec fn has_known(root: Tree, readable: Seq<Seq<char>>) -> bool {
    let known = known_quotas(root, readable);
    known[0] is Some || known[1] is Some || known[2] is Some
}

fn find_known<'a>(root: &'a Json, readable: &Vec<String>) -> (r: Vec<Option<&'a Json>>)
    ensures
        r@.len() == 3,
        optional_trees(r@) == known_quotas(root.tree(), readable.deep_view()),
{
    let ghost known = known_quotas(root.tree(), readable.deep_view());
    let data = read_data(root);
    let rolling = match quota_property(root, "rollingFiveHourLimit", readable) {
        Some(found) => Some(found),
        None => match data {
            Some(inner) => quota_property(inner, "rollingFiveHourLimit", readable),
            None => None,
        },
    };
    let weekly = match quota_property(root, "weeklyTokenLimit", readable) {
        Some(found) => Some(found),
        None => match data {
            Some(inner) => quota_property(inner, "weeklyTokenLimit", readable),
            None => None,
        },
    };
    let hourly = match nested_quota_property(root, "search", "hourly", readable) {
        Some(found) => Some(found),
        None => match data {
            Some(inner) => nested_quota_property(inner, "search", "hourly", readable),
            None => None,
        },
    };
    let found: Vec<Option<&'a Json>> = vec![rolling, weekly, hourly];
    assert(optional_trees(found@) =~= known);
    found
}

/// Whether an answer has one of the known quotas.
pub fn has_known_quotas(root: &Json, readable: &Vec<String>) -> (r: bool)
    ensures
        r == has_known(root.tree(), readable.deep_view()),
{
    let known = find_known(root, readable);
    assert(optional_trees(known@)[0] is Some <==> known@[0] is Some);
    assert(optional_trees(known@)[1] is Some <==> known@[1] is Some);
    assert(optional_trees(known@)[2] is Some <==> known@[2] is Some);
    known[0].is_some() || known[1].is_some() || known[2].is_some()
}

/// The quotas of an answer that is an object.
pub fn select_quotas<'a>(root: &'a Json, readable: &Vec<String>) -> (r: Result<
    Vec<Option<&'a Json>>,
    ClassifiedError,
>)
    ensures
        match r {
            Ok(found) => selected_quotas(root.tree(), readable.deep_view()) == Some(
                optional_trees(found@),
            ),
            Err(e) => selected_quotas(root.tree(), readable.deep_view()) is None && e
                == error::plain(ErrorKind::Parse),
        },
{
    let known = find_known(root, readable);
    assert(optional_trees(known@)[0] is Some <==> known@[0] is Some);
    assert(optional_trees(known@)[1] is Some <==> known@[1] is Some);
    assert(optional_trees(known@)[2] is Some <==> known@[2] is Some);
    if known[0].is_some() || known[1].is_some() || known[2].is_some() {
        return Ok(known);
    }
    let data = read_data(root);
    let mut quotas = match find_contained(root, &keys::container_keys_list(), readable) {
        Ok(found) => found,
        Err(e) => return Err(e),
    };
    if quotas.len() == 0 {
        assert(json::trees(quotas@).len() == 0);
        let names = vec!["data"];
        assert(names.deep_view() =~= seq!["data"@]);
        quotas =
        match find_contained(root, &names, readable) {
            Ok(found) => found,
            Err(e) => return Err(e),
        };
        if quotas.len() == 0 {
            assert(json::trees(quotas@).len() == 0);
            if let Some(inner) = data {
                quotas =
                match find_contained(inner, &keys::container_keys_list(), readable) {
                    Ok(found) => found,
                    Err(e) => return Err(e),
                };
            } else {
                assert(json::trees(quotas@) =~= seq![]);
            }
        } else {
            assert(json::trees(quotas@).len() > 0);
        }
    } else {
        assert(json::trees(quotas@).len() > 0);
    }
    assert(generic_quotas(root.tree(), readable.deep_view()) == Some(json::trees(quotas@)));
    let ghost found_trees = json::trees(quotas@);
    let mut out: Vec<Option<&'a Json>> = Vec::new();
    let mut i: usize = 0;
    while i < quotas.len()
        invariant
            found_trees == json::trees(quotas@),
            i <= quotas@.len(),
            out@.len() == i,
            forall|j: int| 0 <= j < i ==> #[trigger] out@[j] == Some(quotas@[j]),
        decreases quotas@.len() - i,
    {
        out.push(Some(quotas[i]));
        i += 1;
    }
    assert(optional_trees(out@) =~= Seq::new(found_trees.len(), |i: int| Some(found_trees[i])));
    Ok(out)
}

/// The unit of a window.
#[derive(Debug, Clone, Copy, PartialEq, Eq, Structural)]
pub enum WindowUnit {
    Seconds,
    Minutes,
    Hours,
    Days,
}

/// The length of a window: the text of a number, and its unit.
pub struct WindowLength {
    pub number: String,
    pub unit: WindowUnit,
}

/// The value of an optional window length.
pub open spec fn length_value(length: Option<WindowLength>) -> Option<(Seq<char>, WindowUnit)> {
    match length {
        Some(l) => Some((l.number@, l.unit)),
        None => None,
    }
}

/// A text without white space.
pub open spec fn without_blanks(s: Seq<char>) -> Seq<char>
    decreases s.len(),
{
    if s.len() == 0 {
        seq![]
    } else {
        let rest = without_blanks(s.drop_last());
        if text::whitespace(s.last()) {
            rest
        } else {
            rest.push(s.last())
        }
    }
}

fn remove_blanks(s: &[char]) -> (r: Vec<char>)
    ensures
        r@ == without_blanks(s@),
{
    let mut out: Vec<char> = Vec::new();
    let mut i: usize = 0;
    assert(s@.take(0) =~= seq![]);
    while i < s.len()
        invariant
            i <= s@.len(),
            out@ == without_blanks(s@.take(i as int)),
        decreases s@.len() - i,
    {
        assert(s@.take(i as int + 1).drop_last() =~= s@.take(i as int));
        if !text::is_whitespace(s[i]) {
            out.push(s[i]);
        }
        i += 1;
    }
    assert(s@.take(s@.len() as int) =~= s@);
    out
}

/// Position behind the digits and points at or behind `from`.
pub open spec fn number_end(s: Seq<char>, from: int) -> int
    decreases s.len() - from,
{
    if from < 0 || from >= s.len() || !(text::ascii_digit(s[from]) || s[from] == '.') {
        from
    } else {
        number_end(s, from + 1)
    }
}

/// How many of the first `n` characters are `c`.
pub open spec fn occurrences(s: Seq<char>, c: char, n: int) -> int
    decreases n,
{
    if n <= 0 {
        0
    } else {
        occurrences(s, c, n - 1) + (if s[n - 1] == c {
            1int
        } else {
            0
        })
    }
}

/// Whether digits with perhaps a point among them, not at the end, are a number.
pub open spec fn decimal_digits(s: Seq<char>) -> bool {
    s.len() > 0 && s.last() != '.' && occurrences(s, '.', s.len() as int) <= 1
}

/// The unit that a word names.
pub open spec fn unit_of(word: Seq<char>) -> Option<WindowUnit> {
    if word == "m"@ || word == "min"@ || word == "mins"@ || word == "minute"@ || word
        == "minutes"@ {
        Some(WindowUnit::Minutes)
    } else if word == "h"@ || word == "hr"@ || word == "hrs"@ || word == "hour"@ || word
        == "hours"@ {
        Some(WindowUnit::Hours)
    } else if word == "d"@ || word == "day"@ || word == "days"@ {
        Some(WindowUnit::Days)
    } else {
        None
    }
}

fn read_unit(word: &[char]) -> (r: Option<WindowUnit>)
    ensures
        r == unit_of(word@),
{
    if text::equals(word, "m") || text::equals(word, "min") || text::equals(word, "mins")
        || text::equals(word, "minute") || text::equals(word, "minutes") {
        Some(WindowUnit::Minutes)
    } else if text::equals(word, "h") || text::equals(word, "hr") || text::equals(word, "hrs")
        || text::equals(word, "hour") || text::equals(word, "hours") {
        Some(WindowUnit::Hours)
    } else if text::equals(word, "d") || text::equals(word, "day") || text::equals(word, "days") {
        Some(WindowUnit::Days)
    } else {
        None
    }
}

/// The window that a description such as `5 hours` denotes.
pub open spec fn described_window(raw: Seq<char>) -> Option<(Seq<char>, WindowUnit)> {
    let compact = text::lower(without_blanks(raw));
    let at = number_end(compact, 0);
    match unit_of(compact.skip(at)) {
        Some(unit) => if decimal_digits(compact.take(at)) {
            Some((compact.take(at), unit))
        } else {
            None
        },
        None => None,
    }
}

/// The window that a description denotes.
pub fn window_minutes_text(raw: &str) -> (r: Option<WindowLength>)
    ensures
        length_value(r) == described_window(raw@),
{
    let chars = text::chars_of(raw);
    let compact = text::to_lower(remove_blanks(chars.as_slice()).as_slice());
    let n: usize = compact.len();
    let mut at: usize = 0;
    while at < n && (('0' <= compact[at] && compact[at] <= '9') || compact[at] == '.')
        invariant
            n == compact@.len(),
            at <= n,
            number_end(compact@, 0) == number_end(compact@, at as int),
        decreases n - at,
    {
        at += 1;
    }
    let number = slice_subrange(compact.as_slice(), 0, at);
    let word = slice_subrange(compact.as_slice(), at, n);
    assert(number@ =~= compact@.take(at as int));
    assert(word@ =~= compact@.skip(at as int));
    let unit = match read_unit(word) {
        Some(unit) => unit,
        None => return None,
    };
    if at == 0 || number[at - 1] == '.' {
        return None;
    }
    let mut points: usize = 0;
    let mut i: usize = 0;
    while i < at
        invariant
            i <= at,
            at == number@.len(),
            points <= i,
            points == occurrences(number@, '.', i as int),
        decreases at - i,
    {
        if number[i] == '.' {
            points += 1;
        }
        i += 1;
    }
    if points > 1 {
        return None;
    }
    Some(WindowLength { number: text::text_of(number), unit })
}

/// The length of a quota's window: from a field of minutes, hours, days or
/// seconds, or else from a description.
pub open spec fn window_of(t: Tree, readable: Seq<Seq<char>>) -> Option<(Seq<char>, WindowUnit)> {
    match number_field(t, keys::window_minute_keys(), readable, 0) {
        Some(n) => Some((n, WindowUnit::Minutes)),
        None => match number_field(t, keys::window_hour_keys(), readable, 0) {
            Some(n) => Some((n, WindowUnit::Hours)),
            None => match number_field(t, keys::window_day_keys(), readable, 0) {
                Some(n) => Some((n, WindowUnit::Days)),
                None => match number_field(t, keys::window_second_keys(), readable, 0) {
                    Some(n) => Some((n, WindowUnit::Seconds)),
                    None => match text_field(t, keys::window_text_keys(), 0) {
                        Some(s) => described_window(s),
                        None => None,
                    },
                },
            },
        },
    }
}

/// The length of a quota's window.
pub fn window_minutes(value: &Json, readable: &Vec<String>) -> (r: Option<WindowLength>)
    ensures
        length_value(r) == window_of(value.tree(), readable.deep_view()),
{
    if let Some(number) = first_number(value, &keys::window_minute_keys_list(), readable) {
        return Some(WindowLength { number, unit: WindowUnit::Minutes });
    }
    if let Some(number) = first_number(value, &keys::window_hour_keys_list(), readable) {
        return Some(WindowLength { number, unit: WindowUnit::Hours });
    }
    if let Some(number) = first_number(value, &keys::window_day_keys_list(), readable) {
        return Some(WindowLength { number, unit: WindowUnit::Days });
    }
    if let Some(number) = first_number(value, &keys::window_second_keys_list(), readable) {
        return Some(WindowLength { number, unit: WindowUnit::Seconds });
    }
    match first_string(value, &keys::window_text_keys_list()) {
        Some(described) => window_minutes_text(described.as_str()),
        None => None,
    }
}

/// A noun with its count, as a description of a window.
pub open spec fn counted(count: int, noun: Seq<char>) -> Seq<char> {
    text::signed_digits(count) + " "@ + noun + (if count == 1 {
        seq![]
    } else {
        "s"@
    }) + " window"@
}

/// The description of a window: in days or hours where it is whole ones.
pub open spec fn window_text(minutes: int) -> Option<Seq<char>> {
    if minutes <= 0 {
        None
    } else if minutes % 1440 == 0 {
        Some(counted(minutes / 1440, "day"@))
    } else if minutes % 60 == 0 {
        Some(counted(minutes / 60, "hour"@))
    } else {
        Some(counted(minutes, "minute"@))
    }
}

fn count_text(count: i64, noun: &str) -> (r: String)
    ensures
        r@ == counted(count as int, noun@),
{
    let mut out = String::new();
    text::push_signed(&mut out, count);
    out.append(" ");
    out.append(noun);
    if count != 1 {
        out.append("s");
    }
    out.append(" window");
    assert(out@ =~= counted(count as int, noun@));
    out
}

/// The description of a window.
pub fn window_description(minutes: i64) -> (r: Option<String>)
    ensures
        r.deep_view() == window_text(minutes as int),
{
    if minutes <= 0 {
        None
    } else if minutes % 1440 == 0 {
        Some(count_text(minutes / 1440, "day"))
    } else if minutes % 60 == 0 {
        Some(count_text(minutes / 60, "hour"))
    } else {
        Some(count_text(minutes, "minute"))
    }
}

/// An instant without its fraction of a millisecond.
pub open spec fn whole_millis(at: Timestamp) -> Timestamp {
    Timestamp { nanos: ((at.nanos as int / 1_000_000) * 1_000_000) as i128 }
}

/// The instant that an ISO date or date and time denotes.
pub open spec fn iso_instant(s: Seq<char>) -> Option<Timestamp> {
    match instant::instant_of_text(s) {
        Some(at) => Some(whole_millis(at)),
        None => if s.len() != 10 || s[4] != '-' || s[7] != '-' {
            None
        } else {
            match (
                text::i64_value(s.subrange(0, 4)),
                text::u64_value(s.subrange(5, 7)),
                text::u64_value(s.subrange(8, 10)),
            ) {
                (Some(year), Some(month), Some(day)) => if -9999 <= year <= 9999 && month <= 255
                    && day <= 255 {
                    match instant::midnight_of(year as i32, month as u8, day as u8) {
                        Some(second) => Some(
                            Timestamp { nanos: (second * 1_000_000_000) as i128 },
                        ),
                        None => None,
                    }
                } else {
                    None
                },
                _ => None,
            }
        },
    }
}

/// The instant that an ISO date or date and time denotes.
pub fn js_iso_date(source: &str) -> (r: Option<Timestamp>)
    ensures
        r == iso_instant(source@),
{
    if let Some(at) = Timestamp::parse(source) {
        let quotient: i128 = at.nanos / 1_000_000;
        let millis: i128 = if at.nanos % 1_000_000 < 0 {
            quotient - 1
        } else {
            quotient
        };
        assert(millis == at.nanos as int / 1_000_000);
        return Some(Timestamp { nanos: millis * 1_000_000 });
    }
    let chars = text::chars_of(source);
    if chars.len() != 10 || chars[4] != '-' || chars[7] != '-' {
        return None;
    }
    let year = text::parse_i64(slice_subrange(chars.as_slice(), 0, 4));
    let month = text::parse_u64(slice_subrange(chars.as_slice(), 5, 7));
    let day = text::parse_u64(slice_subrange(chars.as_slice(), 8, 10));
    match (year, month, day) {
        (Some(year), Some(month), Some(day)) => {
            if !(-9999 <= year && year <= 9999 && month <= 255 && day <= 255) {
                return None;
            }
            match instant::midnight(year as i32, month as u8, day as u8) {
                Some(second) => Some(Timestamp { nanos: second as i128 * 1_000_000_000 }),
                None => None,
            }
        },
        _ => None,
    }
}

/// What may tell a reset: the text of a number, and the instant that a text
/// denotes. A number counts before the instant where it is large enough for
/// seconds or milliseconds.
pub struct ResetCandidate {
    pub number: Option<String>,
    pub iso: Option<Timestamp>,
}

/// The values of a list of candidates.
pub open spec fn reset_values(list: Seq<ResetCandidate>) -> Seq<
    (Option<Seq<char>>, Option<Timestamp>),
> {
    Seq::new(list.len(), |i: int| (list[i].number.deep_view(), list[i].iso))
}

/// What a value may tell of a reset.
pub open spec fn reset_candidate(t: Tree, readable: Seq<Seq<char>>) -> (
    Option<Seq<char>>,
    Option<Timestamp>,
) {
    (
        number_of(t, readable),
        match t {
            Tree::Text(s) => iso_instant(text::trimmed(s)),
            _ => None,
        },
    )
}

/// What the first `n` fields may tell of a reset, without those that are null.
pub open spec fn resets_of(
    t: Tree,
    names: Seq<Seq<char>>,
    readable: Seq<Seq<char>>,
    n: int,
) -> Seq<(Option<Seq<char>>, Option<Timestamp>)>
    decreases n,
{
    if n <= 0 {
        seq![]
    } else {
        let before = resets_of(t, names, readable, n - 1);
        match json::field(t, names[n - 1]) {
            Some(value) => if value is Null {
                before
            } else {
                before.push(reset_candidate(value, readable))
            },
            None => before,
        }
    }
}

/// What the fields of a quota may tell of its reset, in order.
pub fn reset_candidates(value: &Json, readable: &Vec<String>) -> (r: Vec<ResetCandidate>)
    ensures
        reset_values(r@) == resets_of(
            value.tree(),
            keys::reset_keys(),
            readable.deep_view(),
            keys::reset_keys().len() as int,
        ),
{
    let names = keys::reset_keys_list();
    let ghost all = keys::reset_keys();
    let mut out: Vec<ResetCandidate> = Vec::new();
    assert(reset_values(out@) =~= seq![]);
    let mut i: usize = 0;
    while i < names.len()
        invariant
            names.deep_view() == all,
            i <= names@.len(),
            reset_values(out@) == resets_of(value.tree(), all, readable.deep_view(), i as int),
        decreases names@.len() - i,
    {
        assert(all[i as int] == names@[i as int]@);
        let ghost before = reset_values(out@);
        if let Some(held) = value.get(names[i]) {
            match held {
                Json::Null => {},
                _ => {
                    let iso = match held {
                        Json::Text(s) => {
                            let plain = text::trim_text(s.as_str());
                            js_iso_date(plain.as_str())
                        },
                        _ => None,
                    };
                    let candidate = ResetCandidate { number: number_value(held, readable), iso };
                    out.push(candidate);
                    assert(reset_values(out@) =~= before.push(
                        reset_candidate(held.tree(), readable.deep_view()),
                    ));
                },
            }
        }
        i += 1;
    }
    assert(names@.len() == all.len());
    out
}

/// The texts of the amounts of a quota's credits.
pub struct CostReading {
    pub limit: String,
    pub remaining: Option<String>,
    pub used: Option<String>,
    pub next_regen: Option<String>,
}

/// The texts of the numbers of a quota.
pub struct QuotaReading {
    pub percent_used: Option<String>,
    pub percent_remaining: Option<String>,
    pub limit: Option<String>,
    pub used: Option<String>,
    pub remaining: Option<String>,
    pub window: Option<WindowLength>,
    pub resets: Vec<ResetCandidate>,
    pub next_regen: Option<String>,
    pub cost: Option<CostReading>,
}

/// Mathematical value of a [`QuotaReading`].
pub struct ReadingView {
    pub percent_used: Option<Seq<char>>,
    pub percent_remaining: Option<Seq<char>>,
    pub limit: Option<Seq<char>>,
    pub used: Option<Seq<char>>,
    pub remaining: Option<Seq<char>>,
    pub window: Option<(Seq<char>, WindowUnit)>,
    pub resets: Seq<(Option<Seq<char>>, Option<Timestamp>)>,
    pub next_regen: Option<Seq<char>>,
    pub cost: Option<(Seq<char>, Option<Seq<char>>, Option<Seq<char>>, Option<Seq<char>>)>,
}

/// The value of an optional cost.
pub open spec fn cost_value(cost: Option<CostReading>) -> Option<
    (Seq<char>, Option<Seq<char>>, Option<Seq<char>>, Option<Seq<char>>),
> {
    match cost {
        Some(c) => Some(
            (c.limit@, c.remaining.deep_view(), c.used.deep_view(), c.next_regen.deep_view()),
        ),
        None => None,
    }
}

impl QuotaReading {
    pub open spec fn value(self) -> ReadingView {
        ReadingView {
            percent_used: self.percent_used.deep_view(),
            percent_remaining: self.percent_remaining.deep_view(),
            limit: self.limit.deep_view(),
            used: self.used.deep_view(),
            remaining: self.remaining.deep_view(),
            window: length_value(self.window),
            resets: reset_values(self.resets@),
            next_regen: self.next_regen.deep_view(),
            cost: cost_value(self.cost),
        }
    }
}

/// The texts of the amounts of a quota's credits, where it tells them in all.
pub open spec fn cost_of(t: Tree, readable: Seq<Seq<char>>) -> Option<
    (Seq<char>, Option<Seq<char>>, Option<Seq<char>>, Option<Seq<char>>),
> {
    match currency_field(t, keys::max_credit_keys(), readable, 0) {
        Some(limit) => Some(
            (
                limit,
                currency_field(t, keys::remaining_credit_keys(), readable, 0),
                currency_field(t, keys::used_credit_keys(), readable, 0),
                currency_field(t, keys::regen_credit_keys(), readable, 0),
            ),
        ),
        None => None,
    }
}

/// The texts of the numbers of a quota.
pub open spec fn reading_of(t: Tree, readable: Seq<Seq<char>>) -> ReadingView {
    ReadingView {
        percent_used: number_field(t, keys::percent_used_keys(), readable, 0),
        percent_remaining: number_field(t, keys::percent_remaining_keys(), readable, 0),
        limit: number_field(t, keys::limit_keys(), readable, 0),
        used: number_field(t, keys::used_keys(), readable, 0),
        remaining: number_field(t, keys::remaining_keys(), readable, 0),
        window: window_of(t, readable),
        resets: resets_of(t, keys::reset_keys(), readable, keys::reset_keys().len() as int),
        next_regen: number_field(t, keys::tick_keys(), readable, 0),
        cost: cost_of(t, readable),
    }
}

/// The texts of the numbers of a quota.
pub fn parse_quota(value: &Json, readable: &Vec<String>) -> (r: QuotaReading)
    ensures
        r.value() == reading_of(value.tree(), readable.deep_view()),
{
    let cost = match first_currency(value, &keys::max_credit_keys_list(), readable) {
        Some(limit) => Some(
            CostReading {
                limit,
                remaining: first_currency(value, &keys::remaining_credit_keys_list(), readable),
                used: first_currency(value, &keys::used_credit_keys_list(), readable),
                next_regen: first_currency(value, &keys::regen_credit_keys_list(), readable),
            },
        ),
        None => None,
    };
    QuotaReading {
        percent_used: first_number(value, &keys::percent_used_keys_list(), readable),
        percent_remaining: first_number(value, &keys::percent_remaining_keys_list(), readable),
        limit: first_number(value, &keys::limit_keys_list(), readable),
        used: first_number(value, &keys::used_keys_list(), readable),
        remaining: first_number(value, &keys::remaining_keys_list(), readable),
        window: window_minutes(value, readable),
        resets: reset_candidates(value, readable),
        next_regen: first_number(value, &keys::tick_keys_list(), readable),
        cost,
    }
}

/// The readings of an answer and the name of its plan.
pub struct SyntheticUsage {
    pub quotas: Vec<Option<QuotaReading>>,
    /// Whether the quotas are the known ones, each at its own place.
    pub fixed: bool,
    pub plan: Option<String>,
}

/// The values of optional readings.
pub open spec fn reading_values(list: Seq<Option<QuotaReading>>) -> Seq<Option<ReadingView>> {
    Seq::new(
        list.len(),
        |i: int|
            match list[i] {
                Some(reading) => Some(reading.value()),
                None => None,
            },
    )
}

/// The object that an answer is read as: a list stands for its quotas.
pub open spec fn root_of(payload: Tree) -> Option<Tree> {
    match payload {
        Tree::Object(..) => Some(payload),
        Tree::Array(..) => Some(Tree::Object(seq!["quotas"@], seq![payload])),
        _ => None,
    }
}

/// The name of the plan.
pub open spec fn plan_of(root: Tree) -> Option<Seq<char>> {
    match text_field(root, keys::plan_keys(), 0) {
        Some(name) => Some(name),
        None => match data_of(root) {
            Some(data) => text_field(data, keys::plan_keys(), 0),
            None => None,
        },
    }
}

/// The readings of an answer and the name of its plan; `None` where it is no
/// list and no object, or nested too deeply.
pub open spec fn usage_of(payload: Tree, readable: Seq<Seq<char>>) -> Option<
    (Seq<Option<ReadingView>>, Option<Seq<char>>),
> {
    match root_of(payload) {
        Some(root) => match selected_quotas(root, readable) {
            Some(quotas) => Some(
                (
                    Seq::new(
                        quotas.len(),
                        |i: int|
                            match quotas[i] {
                                Some(t) => Some(reading_of(t, readable)),
                                None => None,
                            },
                    ),
                    plan_of(root),
                ),
            ),
            None => None,
        },
        None => None,
    }
}

fn read_object(root: &Json, readable: &Vec<String>) -> (r: Result<SyntheticUsage, ClassifiedError>)
    requires
        root.tree() is Object,
    ensures
        match r {
            Ok(read) => usage_of(root.tree(), readable.deep_view()) == Some(
                (reading_values(read.quotas@), read.plan.deep_view()),
            ) && read.fixed == has_known(root.tree(), readable.deep_view()),
            Err(e) => usage_of(root.tree(), readable.deep_view()) is None && e == error::plain(
                ErrorKind::Parse,
            ),
        },
{
    let found = match select_quotas(root, readable) {
        Ok(found) => found,
        Err(e) => return Err(e),
    };
    let ghost chosen = optional_trees(found@);
    let mut quotas: Vec<Option<QuotaReading>> = Vec::new();
    let mut i: usize = 0;
    while i < found.len()
        invariant
            chosen == optional_trees(found@),
            i <= found@.len(),
            quotas@.len() == i,
            forall|j: int|
                0 <= j < i ==> reading_values(quotas@)[j] == (match #[trigger] chosen[j] {
                    Some(t) => Some(reading_of(t, readable.deep_view())),
                    None => None,
                }),
        decreases found@.len() - i,
    {
        let ghost before = reading_values(quotas@);
        let reading = match found[i] {
            Some(value) => Some(parse_quota(value, readable)),
            None => None,
        };
        quotas.push(reading);
        assert(forall|j: int| 0 <= j < i ==> reading_values(quotas@)[j] == before[j]);
        i += 1;
    }
    assert(reading_values(quotas@) =~= Seq::new(
        chosen.len(),
        |i: int|
            match chosen[i] {
                Some(t) => Some(reading_of(t, readable.deep_view())),
                None => None,
            },
    ));
    let plan = match first_string(root, &keys::plan_keys_list()) {
        Some(name) => Some(name),
        None => match read_data(root) {
            Some(data) => first_string(data, &keys::plan_keys_list()),
            None => None,
        },
    };
    let fixed = has_known_quotas(root, readable);
    Ok(SyntheticUsage { quotas, fixed, plan })
}

/// The readings of an answer and the name of its plan.
pub fn normalize(payload: Json, readable: &Vec<String>) -> (r: Result<
    SyntheticUsage,
    ClassifiedError,
>)
    ensures
        match r {
            Ok(read) => usage_of(payload.tree(), readable.deep_view()) == Some(
                (reading_values(read.quotas@), read.plan.deep_view()),
            ) && root_of(payload.tree()) is Some && read.fixed == has_known(
                root_of(payload.tree())->0,
                readable.deep_view(),
            ),
            Err(e) => usage_of(payload.tree(), readable.deep_view()) is None && e == error::plain(
                ErrorKind::Parse,
            ),
        },
{
    let ghost whole = payload.tree();
    match payload {
        Json::Object(_) => read_object(&payload, readable),
        Json::Array(_) => {
            let root = Json::Object(vec![("quotas".to_owned(), payload)]);
            assert(json::keys(root.tree()) =~= seq!["quotas"@]);
            assert(json::children(root.tree()) =~= seq![whole]);
            read_object(&root, readable)
        },
        _ => Err(ClassifiedError::new(ErrorKind::Parse)),
    }
}

/// How the used percentage of a quota is found.
#[derive(Debug, Clone, Copy, PartialEq, Eq, Structural)]
pub enum PercentRule {
    /// It is stated.
    Stated,
    /// It is what the stated remaining percentage leaves.
    Remaining,
    /// It is the used part of the limit. A missing limit is the sum of the used
    /// and the remaining amount, and a missing used amount is their difference.
    Counted { limit_missing: bool, used_missing: bool },
    /// It is not known.
    Unknown,
}

/// How the used percentage of a quota is found.
pub open spec fn rule_of(reading: ReadingView) -> PercentRule {
    let limit_known = reading.limit is Some || (reading.used is Some && reading.remaining is Some);
    let used_known = reading.used is Some || (limit_known && reading.remaining is Some);
    if reading.percent_used is Some {
        PercentRule::Stated
    } else if reading.percent_remaining is Some {
        PercentRule::Remaining
    } else if limit_known && used_known {
        PercentRule::Counted {
            limit_missing: reading.limit is None,
            used_missing: reading.used is None,
        }
    } else {
        PercentRule::Unknown
    }
}

/// How the used percentage of a quota is found.
pub fn percent_rule(reading: &QuotaReading) -> (r: PercentRule)
    ensures
        r == rule_of(reading.value()),
{
    if reading.percent_used.is_some() {
        return PercentRule::Stated;
    }
    if reading.percent_remaining.is_some() {
        return PercentRule::Remaining;
    }
    let limit_known = reading.limit.is_some() || (reading.used.is_some()
        && reading.remaining.is_some());
    let used_known = reading.used.is_some() || (limit_known && reading.remaining.is_some());
    if limit_known && used_known {
        PercentRule::Counted {
            limit_missing: reading.limit.is_none(),
            used_missing: reading.used.is_none(),
        }
    } else {
        PercentRule::Unknown
    }
}

/// The positions of the quotas whose percentage is known, among the first `n`.
pub open spec fn known_positions(known: Seq<bool>, n: int) -> Seq<usize>
    decreases n,
{
    if n <= 0 {
        seq![]
    } else if known[n - 1] {
        known_positions(known, n - 1).push((n - 1) as usize)
    } else {
        known_positions(known, n - 1)
    }
}

/// The quotas of the three windows: those with a known percentage, at their own
/// places or behind each other.
pub open spec fn window_positions(known: Seq<bool>, fixed: bool) -> Seq<Option<usize>> {
    let found = known_positions(known, known.len() as int);
    Seq::new(
        3,
        |i: int|
            if fixed {
                if i < known.len() && known[i] {
                    Some(i as usize)
                } else {
                    None
                }
            } else if i < found.len() {
                Some(found[i])
            } else {
                None
            },
    )
}

/// The quotas of the three windows. `known` tells of which quotas the percentage
/// is known.
pub fn arrange_windows(known: &Vec<bool>, fixed: bool) -> (r: Result<
    Vec<Option<usize>>,
    ClassifiedError,
>)
    ensures
        match r {
            Ok(places) => known_positions(known@, known@.len() as int).len() > 0 && places@
                == window_positions(known@, fixed),
            Err(e) => known_positions(known@, known@.len() as int).len() == 0 && e == error::plain(
                ErrorKind::Parse,
            ),
        },
{
    let mut found: Vec<usize> = Vec::new();
    let mut i: usize = 0;
    while i < known.len()
        invariant
            i <= known@.len(),
            found@ == known_positions(known@, i as int),
        decreases known@.len() - i,
    {
        if known[i] {
            found.push(i);
        }
        i += 1;
    }
    if found.len() == 0 {
        return Err(ClassifiedError::new(ErrorKind::Parse));
    }
    let mut places: Vec<Option<usize>> = Vec::new();
    let mut k: usize = 0;
    while k < 3
        invariant
            k <= 3,
            found@ == known_positions(known@, known@.len() as int),
            places@ == window_positions(known@, fixed).take(k as int),
        decreases 3 - k,
    {
        let place = if fixed {
            if k < known.len() && known[k] {
                Some(k)
            } else {
                None
            }
        } else if k < found.len() {
            Some(found[k])
        } else {
            None
        };
        places.push(place);
        k += 1;
        assert(places@ =~= window_positions(known@, fixed).take(k as int));
    }
    assert(places@ =~= window_positions(known@, fixed));
    Ok(places)
}

/// The known quotas, where an answer has any, are always told as three, in a
/// fixed order.
pub proof fn law_known_quotas_keep_places(root: Tree, readable: Seq<Seq<char>>)
    ensures
        ({
            let known = known_quotas(root, readable);
            (known[0] is Some || known[1] is Some || known[2] is Some) ==> selected_quotas(
                root,
                readable,
            ) == Some(known) && known.len() == 3
        }),
{
}

/// A window of a known length: described by its length where its reset is not
/// known. Its percentage is left open.
pub open spec fn shown_window(minutes: Option<i64>, resets_at: Option<Timestamp>) -> WindowView {
    WindowView {
        used: None,
        minutes,
        resets_at,
        description: if resets_at is None && minutes is Some {
            window_text(minutes->0 as int)
        } else {
            None
        },
    }
}

/// A window of a known length.
pub fn rate_window(minutes: Option<i64>, resets_at: Option<Timestamp>) -> (r: RateWindow)
    ensures
        r.value() == shown_window(minutes, resets_at),
{
    let description = match (minutes, resets_at) {
        (Some(length), None) => window_description(length),
        _ => None,
    };
    RateWindow { used: None, minutes, resets_at, description }
}

/// Measured money of a quota: what is used of which limit, when it resets and by
/// how much it grows, with each number as its shortest text.
pub struct WeeklyCost {
    pub used: String,
    pub limit: String,
    pub resets_at: Option<Timestamp>,
    pub next_regen: Option<String>,
}

/// The weekly money of an account, in dollars and as the vendor meters it; `None`
/// where a number has no decimal.
pub open spec fn weekly_cost_of(cost: WeeklyCost, fetched_at: Timestamp) -> Option<CostView> {
    let next_regen = match cost.next_regen {
        Some(text) => decimal::number_decimal(text@),
        None => None,
    };
    if decimal::number_decimal(cost.used@) is Some && decimal::number_decimal(cost.limit@) is Some
        && (cost.next_regen is Some ==> next_regen is Some) {
        Some(
            CostView {
                amount: decimal::number_decimal(cost.used@)->0,
                limit: decimal::number_decimal(cost.limit@)->0,
                currency: "USD"@,
                period: "Weekly"@,
                resets_at: cost.resets_at,
                next_regen,
                updated_at: fetched_at,
                provenance: CostProvenance::VendorMetered,
            },
        )
    } else {
        None
    }
}

fn cost_summary(cost: &WeeklyCost, fetched_at: Timestamp) -> (r: Option<CostSummary>)
    ensures
        match r {
            Some(summary) => weekly_cost_of(*cost, fetched_at) == Some(summary.value()),
            None => weekly_cost_of(*cost, fetched_at) is None,
        },
{
    let next_regen = match &cost.next_regen {
        Some(text) => match decimal::from_number(text.as_str()) {
            Some(value) => Some(value),
            None => return None,
        },
        None => None,
    };
    match (decimal::from_number(cost.used.as_str()), decimal::from_number(cost.limit.as_str())) {
        (Some(amount), Some(limit)) => Some(
            CostSummary {
                amount,
                limit,
                currency: "USD".to_owned(),
                period: "Weekly".to_owned(),
                resets_at: cost.resets_at,
                next_regen,
                updated_at: fetched_at,
                provenance: CostProvenance::VendorMetered,
            },
        ),
        _ => None,
    }
}

/// The first known money among quotas, at or behind `from`.
pub open spec fn first_cost(costs: Seq<Option<WeeklyCost>>, from: int) -> Option<WeeklyCost>
    decreases costs.len() - from,
{
    if from < 0 || from >= costs.len() {
        None
    } else if costs[from] is Some {
        costs[from]
    } else {
        first_cost(costs, from + 1)
    }
}

fn pick_cost(costs: &Vec<Option<WeeklyCost>>) -> (r: Option<&WeeklyCost>)
    ensures
        match r {
            Some(cost) => first_cost(costs@, 0) == Some(*cost),
            None => first_cost(costs@, 0) is None,
        },
{
    let mut i: usize = 0;
    while i < costs.len()
        invariant
            i <= costs@.len(),
            first_cost(costs@, 0) == first_cost(costs@, i as int),
        decreases costs@.len() - i,
    {
        if let Some(cost) = &costs[i] {
            return Some(cost);
        }
        i += 1;
    }
    None
}

/// The reading of an account, for the windows at their places and the money of
/// each quota, of which the first counts.
pub fn usage_sample(
    fetched_at: Timestamp,
    primary: Option<RateWindow>,
    secondary: Option<RateWindow>,
    tertiary: Option<RateWindow>,
    plan: Option<String>,
    costs: &Vec<Option<WeeklyCost>>,
) -> (r: Result<UsageSample, ClassifiedError>)
    ensures
        ({
            let cost = match first_cost(costs@, 0) {
                Some(cost) => weekly_cost_of(cost, fetched_at),
                None => None,
            };
            match r {
                Ok(sample) => (first_cost(costs@, 0) is Some ==> cost is Some) && sample.value()
                    == (SampleView {
                    primary: usage::window_value(primary),
                    secondary: usage::window_value(secondary),
                    tertiary: usage::window_value(tertiary),
                    login_method: plan.deep_view(),
                    cost,
                    ..usage::empty_sample(ProviderId::Synthetic, fetched_at, "synthetic"@, "api"@)
                }),
                Err(e) => first_cost(costs@, 0) is Some && cost is None && e == error::plain(
                    ErrorKind::Parse,
                ),
            }
        }),
{
    let mut sample = UsageSample::empty(ProviderId::Synthetic, fetched_at, "synthetic", "api");
    sample.primary = primary;
    sample.secondary = secondary;
    sample.tertiary = tertiary;
    sample.login_method = plan;
    if let Some(cost) = pick_cost(costs) {
        match cost_summary(cost, fetched_at) {
            Some(summary) => {
                sample.cost = Some(summary);
            },
            None => return Err(ClassifiedError::new(ErrorKind::Parse)),
        }
    }
    Ok(sample)
}

/// Ceilings of this adapter's transport.
pub fn transport_config() -> (r: Result<TransportConfig, ClassifiedError>)
    ensures
        r == Ok::<TransportConfig, ClassifiedError>(
            transport::ceilings(5, 15, MAX_RESPONSE_BYTES, 3, retry::no_retry()),
        ),
        r->Ok_0.valid(),
{
    transport::bounded(5, 15, MAX_RESPONSE_BYTES, 3, RetryPolicy::none())
}

/// A stated percentage goes before what remains in percent, and both before counts;
/// two of limit, used and remaining are enough to count.
pub proof fn law_stated_percentages_go_first(reading: ReadingView)
    ensures
        reading.percent_used is Some <==> rule_of(reading) == PercentRule::Stated,
        reading.percent_used is None && reading.percent_remaining is Some <==> rule_of(reading)
            == PercentRule::Remaining,
        reading.percent_used is None && reading.percent_remaining is None ==> {
            &&& reading.limit is Some && reading.used is Some ==> rule_of(reading)
                == PercentRule::Counted { limit_missing: false, used_missing: false }
            &&& reading.limit is Some && reading.used is None && reading.remaining is Some
                ==> rule_of(reading) == PercentRule::Counted {
                limit_missing: false,
                used_missing: true,
            }
            &&& reading.limit is None && reading.used is Some && reading.remaining is Some
                ==> rule_of(reading) == PercentRule::Counted {
                limit_missing: true,
                used_missing: false,
            }
            &&& reading.limit is None && (reading.used is None || reading.remaining is None)
                ==> rule_of(reading) == PercentRule::Unknown
            &&& reading.used is None && reading.remaining is None ==> rule_of(reading)
                == PercentRule::Unknown
        },
{
}

/// A length is told in days where it is of whole days, in hours where it is of whole
/// hours, and in minutes otherwise.
pub proof fn law_lengths_are_told_in_whole_units(n: int)
    requires
        n > 0,
    ensures
        window_text(1440 * n) == Some(counted(n, "day"@)),
        n % 24 != 0 ==> window_text(60 * n) == Some(counted(n, "hour"@)),
        n % 60 != 0 ==> window_text(n) == Some(counted(n, "minute"@)),
        window_text(0) is None,
        window_text(-n) is None,
{
    lemma_whole_days(n);
    lemma_whole_hours(n);
    if (60 * n) % 1440 == 0 {
        lemma_hours_of_days(n);
    }
    if n % 1440 == 0 {
        lemma_minutes_of_days(n);
    }
}

proof fn lemma_whole_days(n: int)
    ensures
        (1440 * n) % 1440 == 0,
        (1440 * n) / 1440 == n,
{
}

proof fn lemma_whole_hours(n: int)
    ensures
        (60 * n) % 60 == 0,
        (60 * n) / 60 == n,
{
}

proof fn lemma_hours_of_days(n: int)
    requires
        (60 * n) % 1440 == 0,
    ensures
        n % 24 == 0,
{
    let days = (60 * n) / 1440;
    assert(60 * n == 1440 * days);
    assert(n == 24 * days);
}

proof fn lemma_minutes_of_days(n: int)
    requires
        n % 1440 == 0,
    ensures
        n % 60 == 0,
{
    let days = n / 1440;
    assert(n == 1440 * days);
    assert(n == 60 * (24 * days));
}

/// Windows with fixed places keep them; others are the known ones, in their order.
pub proof fn law_windows_are_placed(known: Seq<bool>, i: int)
    requires
        0 <= i < 3,
        known.len() <= usize::MAX,
    ensures
        window_positions(known, true)[i] matches Some(at) ==> at == i && known[i],
        i < known.len() && known[i] ==> window_positions(known, true)[i] == Some(i as usize),
        window_positions(known, false)[i] matches Some(at) ==> at < known.len() && known[at as int],
        i + 1 < 3 && window_positions(known, false)[i + 1] is Some ==> window_positions(
            known,
            false,
        )[i] is Some && window_positions(known, false)[i]->0 < window_positions(
            known,
            false,
        )[i + 1]->0,
{
    lemma_known_positions(known, known.len() as int);
}

proof fn lemma_known_positions(known: Seq<bool>, n: int)
    requires
        0 <= n <= known.len() <= usize::MAX,
    ensures
        forall|k: int|
            0 <= k < known_positions(known, n).len() ==> (#[trigger] known_positions(known, n)[k])
                < n && known[known_positions(known, n)[k] as int],
        forall|k: int, l: int|
            0 <= k < l < known_positions(known, n).len() ==> (#[trigger] known_positions(known, n)[k])
                < (#[trigger] known_positions(known, n)[l]),
    decreases n,
{
    if n > 0 {
        lemma_known_positions(known, n - 1);
        let before = known_positions(known, n - 1);
        let all = known_positions(known, n);
        assert forall|k: int| 0 <= k < all.len() implies (#[trigger] all[k]) < n
            && known[all[k] as int] by {
            if k < before.len() {
                assert(all[k] == before[k]);
            }
        }
        assert forall|k: int, l: int| 0 <= k < l < all.len() implies (#[trigger] all[k]) < (
        #[trigger] all[l]) by {
            assert(all[k] == before[k]);
            if l < before.len() {
                assert(all[l] == before[l]);
            }
        }
    }
}

/// A prefix tells its base: `0x` sixteen, `0o` eight and `0b` two, in either case.
/// Digits count up from zero and letters from ten, in either case, below the base.
pub proof fn law_digits_count_to_their_base(rest: Seq<char>, k: u32, base: int)
    requires
        2 <= base <= 16,
    ensures
        based(seq!['0', 'x'] + rest) == Some((16int, rest)),
        based(seq!['0', 'X'] + rest) == Some((16int, rest)),
        based(seq!['0', 'o'] + rest) == Some((8int, rest)),
        based(seq!['0', 'O'] + rest) == Some((8int, rest)),
        based(seq!['0', 'b'] + rest) == Some((2int, rest)),
        based(seq!['0', 'B'] + rest) == Some((2int, rest)),
        k < 10 ==> base_digit((0x30 + k) as u32 as char, base) == (if k < base {
            Some(k as int)
        } else {
            None
        }),
        10 <= k < 16 ==> base_digit((0x61 + k - 10) as u32 as char, base) == (if k < base {
            Some(k as int)
        } else {
            None
        }),
        10 <= k < 16 ==> base_digit((0x41 + k - 10) as u32 as char, base) == (if k < base {
            Some(k as int)
        } else {
            None
        }),
{
    assert((seq!['0', 'x'] + rest).skip(2) =~= rest);
    assert((seq!['0', 'X'] + rest).skip(2) =~= rest);
    assert((seq!['0', 'o'] + rest).skip(2) =~= rest);
    assert((seq!['0', 'O'] + rest).skip(2) =~= rest);
    assert((seq!['0', 'b'] + rest).skip(2) =~= rest);
    assert((seq!['0', 'B'] + rest).skip(2) =~= rest);
}

/// What was spent in a week and what may be spent are kept apart, and so are the next
/// renewal and the reset.
pub proof fn law_weekly_costs_keep_apart(cost: WeeklyCost, fetched_at: Timestamp)
    ensures
        weekly_cost_of(cost, fetched_at) matches Some(told) ==> {
            &&& decimal::number_decimal(cost.used@) == Some(told.amount)
            &&& decimal::number_decimal(cost.limit@) == Some(told.limit)
            &&& cost.next_regen is Some <==> told.next_regen is Some
            &&& cost.next_regen is Some ==> decimal::number_decimal(cost.next_regen->0@)
                == told.next_regen
            &&& told.resets_at == cost.resets_at
            &&& told.updated_at == fetched_at
        },
{
}

} // verus!
