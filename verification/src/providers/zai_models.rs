//! z.ai model usage, account balance and request URLs.

use vstd::prelude::*;

use crate::error;
use crate::error::{ClassifiedError, ErrorKind};
use crate::instant;
use crate::instant::Timestamp;
use crate::json;
use crate::json::{Json, Tree};
use crate::providers::synthetic;
use crate::providers::zai;
use crate::providers::zai::ZaiUsageScope;
use crate::providers::zai_usage;
use crate::text;
use crate::urls;
use crate::usage;
use crate::usage::{DetailRow, DetailSensitivity, RowView};

verus! {

pub const MAX_MODEL_POINTS: usize = 120;

pub const MAX_MODEL_ROWS: usize = 20;

/// A value as a script would print it.
pub open spec fn js_text(t: Tree) -> Seq<char>
    decreases t,
{
    match t {
        Tree::Null => "null"@,
        Tree::Bool(b) => if b {
            "true"@
        } else {
            "false"@
        },
        Tree::Number(n) => n,
        Tree::Text(s) => s,
        Tree::Array(items) => js_list(items, items.len()),
        Tree::Object(_, _) => "[object Object]"@,
    }
}

/// The first `n` values of a list, as a script would print them.
pub open spec fn js_list(items: Seq<Tree>, n: nat) -> Seq<char>
    decreases items, n,
{
    if n == 0 || n > items.len() {
        ""@
    } else if n == 1 {
        js_text(items[0])
    } else {
        js_list(items, (n - 1) as nat) + ","@ + js_text(items[n - 1])
    }
}

/// A value as a script would print it.
pub fn js_string(value: &Json) -> (r: String)
    ensures
        r@ == js_text(value.tree()),
    decreases value.tree(),
{
    let ghost whole = value.tree();
    match value {
        Json::Null => "null".to_owned(),
        Json::Bool(b) => if *b {
            "true".to_owned()
        } else {
            "false".to_owned()
        },
        Json::Number(n) => n.clone(),
        Json::Text(s) => s.clone(),
        Json::Array(items) => {
            let ghost all = json::children(whole);
            let mut r = String::new();
            let mut i: usize = 0;
            proof {
                reveal_strlit("");
                assert(r@ =~= js_list(all, 0));
            }
            while i < items.len()
                invariant
                    *value == Json::Array(*items),
                    whole == value.tree(),
                    all == json::children(whole),
                    all.len() == items@.len(),
                    i <= items@.len(),
                    i == 0 ==> r@.len() == 0,
                    r@ == js_list(all, i as nat),
                decreases items@.len() - i,
            {
                proof {
                    assert(all[i as int] == items@[i as int].tree());
                    assert(decreases_to!(whole => all));
                    assert(decreases_to!(all => all[i as int]));
                }
                let item = js_string(&items[i]);
                if i > 0 {
                    r.append(",");
                }
                r.append(item.as_str());
                i += 1;
                assert(r@ =~= js_list(all, i as nat));
            }
            r
        },
        Json::Object(_) => "[object Object]".to_owned(),
    }
}

/// A value as a script turns it into a primitive: an object has none, and an
/// empty entry of a list is empty.
pub open spec fn primitive_text(t: Tree) -> Option<Seq<char>>
    decreases t,
{
    match t {
        Tree::Null => Some("null"@),
        Tree::Bool(b) => Some(
            if b {
                "true"@
            } else {
                "false"@
            },
        ),
        Tree::Number(n) => Some(n),
        Tree::Text(s) => Some(s),
        Tree::Array(items) => primitive_list(items, items.len()),
        Tree::Object(_, _) => None,
    }
}

/// The first `n` values of a list as a primitive.
pub open spec fn primitive_list(items: Seq<Tree>, n: nat) -> Option<Seq<char>>
    decreases items, n,
{
    if n == 0 || n > items.len() {
        Some(""@)
    } else {
        let entry = if items[n - 1] is Null {
            Some(""@)
        } else {
            primitive_text(items[n - 1])
        };
        match (primitive_list(items, (n - 1) as nat), entry) {
            (Some(before), Some(text)) => if n == 1 {
                Some(text)
            } else {
                Some(before + ","@ + text)
            },
            _ => None,
        }
    }
}

proof fn lemma_primitive_failure(items: Seq<Tree>, n: nat, m: nat)
    requires
        n <= m <= items.len(),
        primitive_list(items, n) is None,
    ensures
        primitive_list(items, m) is None,
    decreases m - n,
{
    if n < m {
        lemma_primitive_failure(items, n, (m - 1) as nat);
    }
}

/// A value as a script turns it into a primitive.
pub fn javascript_primitive_string(value: &Json) -> (r: Option<String>)
    ensures
        r.deep_view() == primitive_text(value.tree()),
    decreases value.tree(),
{
    let ghost whole = value.tree();
    match value {
        Json::Null => Some("null".to_owned()),
        Json::Bool(b) => if *b {
            Some("true".to_owned())
        } else {
            Some("false".to_owned())
        },
        Json::Number(n) => Some(n.clone()),
        Json::Text(s) => Some(s.clone()),
        Json::Array(items) => {
            let ghost all = json::children(whole);
            let mut r = String::new();
            let mut i: usize = 0;
            proof {
                reveal_strlit("");
                assert(r@ =~= ""@);
            }
            while i < items.len()
                invariant
                    *value == Json::Array(*items),
                    whole == value.tree(),
                    all == json::children(whole),
                    all.len() == items@.len(),
                    i <= items@.len(),
                    i == 0 ==> r@.len() == 0,
                    primitive_list(all, i as nat) == Some(r@),
                decreases items@.len() - i,
            {
                proof {
                    assert(all[i as int] == items@[i as int].tree());
                    assert(decreases_to!(whole => all));
                    assert(decreases_to!(all => all[i as int]));
                }
                let item = match &items[i] {
                    Json::Null => Some("".to_owned()),
                    other => javascript_primitive_string(other),
                };
                let entry = match item {
                    Some(entry) => entry,
                    None => {
                        proof {
                            lemma_primitive_failure(all, (i + 1) as nat, all.len());
                        }
                        return None;
                    },
                };
                let ghost before = r@;
                if i > 0 {
                    r.append(",");
                }
                r.append(entry.as_str());
                proof {
                    if i == 0 {
                        assert(r@ =~= entry@);
                    } else {
                        assert(r@ =~= before + ","@ + entry@);
                    }
                }
                i += 1;
            }
            Some(r)
        },
        Json::Object(_) => None,
    }
}

/// The decimal text of what a script would read as a number, if anything.
pub open spec fn number_candidate(t: Tree) -> Option<Seq<char>> {
    match t {
        Tree::Null => None,
        Tree::Bool(b) => Some(
            if b {
                "1"@
            } else {
                "0"@
            },
        ),
        Tree::Number(n) => Some(n),
        _ => match primitive_text(t) {
            Some(s) => if text::trimmed(s).len() == 0 {
                Some("0"@)
            } else {
                synthetic::decimal_candidate(text::trimmed(s))
            },
            None => None,
        },
    }
}

/// The decimal text of what a script would read as a number, if anything.
pub fn json_number_text(value: &Json) -> (r: Option<String>)
    ensures
        r.deep_view() == number_candidate(value.tree()),
{
    match value {
        Json::Null => None,
        Json::Bool(b) => if *b {
            Some("1".to_owned())
        } else {
            Some("0".to_owned())
        },
        Json::Number(n) => Some(n.clone()),
        other => match javascript_primitive_string(other) {
            Some(s) => {
                let chars = text::chars_of(s.as_str());
                let inner = text::trim(chars.as_slice());
                if inner.len() == 0 {
                    Some("0".to_owned())
                } else {
                    synthetic::js_number_text(inner)
                }
            },
            None => None,
        },
    }
}

/// The amounts of an account's balance, as decimal texts of what may be numbers.
pub struct BalanceTexts {
    pub available: Option<String>,
    pub current: Option<String>,
    pub recharged: Option<String>,
    pub granted: Option<String>,
    pub spent: Option<String>,
}

/// The number text of a field.
pub open spec fn number_field(t: Tree, key: Seq<char>) -> Option<Seq<char>> {
    match json::field(t, key) {
        Some(value) => number_candidate(value),
        None => None,
    }
}

fn read_number_field(value: &Json, key: &str) -> (r: Option<String>)
    ensures
        r.deep_view() == number_field(value.tree(), key@),
{
    match value.get(key) {
        Some(found) => json_number_text(found),
        None => None,
    }
}

/// The data of a balance answer.
pub open spec fn balance_data(root: Tree) -> Option<Tree> {
    if json::field(root, "success"@) == Some(Tree::Bool(true)) {
        match json::field(root, "data"@) {
            Some(data) => if data is Object {
                Some(data)
            } else {
                None
            },
            None => None,
        }
    } else {
        None
    }
}

/// The amounts of a balance answer.
pub fn balance_texts(status: u16, root: &Json) -> (r: Option<BalanceTexts>)
    ensures
        match r {
            Some(texts) => status == 200 && (balance_data(root.tree()) matches Some(data) && {
                &&& texts.available.deep_view() == number_field(data, "availableBalance"@)
                &&& texts.current.deep_view() == number_field(data, "balance"@)
                &&& texts.recharged.deep_view() == number_field(data, "rechargeAmount"@)
                &&& texts.granted.deep_view() == number_field(data, "giveAmount"@)
                &&& texts.spent.deep_view() == number_field(data, "totalSpendAmount"@)
            }),
            None => status != 200 || balance_data(root.tree()) is None,
        },
{
    if status != 200 {
        return None;
    }
    let success = match root.get("success") {
        Some(Json::Bool(success)) => *success,
        _ => false,
    };
    if !success {
        return None;
    }
    match root.get("data") {
        Some(data) => {
            if !data.is_object() {
                return None;
            }
            Some(
                BalanceTexts {
                    available: read_number_field(data, "availableBalance"),
                    current: read_number_field(data, "balance"),
                    recharged: read_number_field(data, "rechargeAmount"),
                    granted: read_number_field(data, "giveAmount"),
                    spent: read_number_field(data, "totalSpendAmount"),
                },
            )
        },
        None => None,
    }
}

/// Notes behind each other.
pub open spec fn noted(before: Option<Seq<char>>, label: Seq<char>, amount: Option<Seq<char>>) -> Option<
    Seq<char>,
> {
    match (before, amount) {
        (Some(b), Some(a)) => Some(b + " · "@ + label + a),
        (None, Some(a)) => Some(label + a),
        (b, None) => b,
    }
}

fn add_note(before: Option<String>, label: &str, amount: &Option<String>) -> (r: Option<String>)
    ensures
        r.deep_view() == noted(before.deep_view(), label@, amount.deep_view()),
{
    match amount {
        Some(a) => {
            let mut r = match before {
                Some(b) => {
                    let mut joined = b;
                    joined.append(" · ");
                    joined
                },
                None => String::new(),
            };
            r.append(label);
            r.append(a.as_str());
            assert(r@ =~= noted(before.deep_view(), label@, amount.deep_view())->0);
            Some(r)
        },
        None => before,
    }
}

/// The row of an account's balance, for amounts with two decimals each.
pub open spec fn balance_row_of(
    value: Seq<char>,
    recharged: Option<Seq<char>>,
    granted: Option<Seq<char>>,
    spent: Option<Seq<char>>,
) -> RowView {
    RowView {
        label: "Account balance"@,
        value: "¥"@ + value,
        secondary: noted(
            noted(noted(None, "recharged ¥"@, recharged), "granted ¥"@, granted),
            "spent ¥"@,
            spent,
        ),
        sensitivity: DetailSensitivity::Personal,
    }
}

/// The row of an account's balance, for amounts with two decimals each.
pub fn balance_row(
    value: &str,
    recharged: &Option<String>,
    granted: &Option<String>,
    spent: &Option<String>,
) -> (r: DetailRow)
    ensures
        r.row() == balance_row_of(
            value@,
            recharged.deep_view(),
            granted.deep_view(),
            spent.deep_view(),
        ),
{
    let mut shown = "¥".to_owned();
    shown.append(value);
    let first = add_note(None, "recharged ¥", recharged);
    let second = add_note(first, "granted ¥", granted);
    let secondary = add_note(second, "spent ¥", spent);
    DetailRow { label: "Account balance".to_owned(), value: shown, secondary, sensitivity: DetailSensitivity::Personal }
}

/// The count of a value: none where it is not a positive whole number.
pub open spec fn count_of(t: Tree) -> int {
    match zai_usage::integer_of(t) {
        Some(n) => if n > 0 {
            n as int
        } else {
            0
        },
        None => 0,
    }
}

fn read_count(value: &Json) -> (r: i64)
    ensures
        r == count_of(value.tree()),
        r >= 0,
{
    match zai_usage::json_integer(value) {
        Some(n) => if n > 0 {
            n
        } else {
            0
        },
        None => 0,
    }
}

/// The counts of a model, one for each point.
pub open spec fn model_counts(model: Tree) -> Seq<Tree> {
    zai_usage::entries_of(json::field(model, "tokensUsage"@))
}

/// The count of a model at a point.
pub open spec fn count_at(model: Tree, index: int) -> int {
    if index < model_counts(model).len() {
        count_of(model_counts(model)[index])
    } else {
        0
    }
}

fn read_count_at(model: &Json, index: usize) -> (r: i64)
    ensures
        r == count_at(model.tree(), index as int),
        r >= 0,
{
    match model.get("tokensUsage") {
        Some(Json::Array(items)) => {
            let ghost all = model_counts(model.tree());
            assert(all.len() == items@.len());
            if index < items.len() {
                assert(all[index as int] == items@[index as int].tree());
                read_count(&items[index])
            } else {
                0
            }
        },
        _ => 0,
    }
}

/// The count of the first `n` models at a point.
pub open spec fn point_total(models: Seq<Tree>, index: int, n: int) -> int
    decreases n,
{
    if n <= 0 {
        0
    } else {
        point_total(models, index, n - 1) + count_at(models[n - 1], index)
    }
}

proof fn lemma_point_grows(models: Seq<Tree>, index: int, n: int, m: int)
    requires
        n <= m,
    ensures
        point_total(models, index, n) <= point_total(models, index, m),
    decreases m - n,
{
    if n < m {
        lemma_point_grows(models, index, n, m - 1);
    }
}

/// The points of the first `n` labels with anything used; `None` where a total
/// does not fit.
pub open spec fn points_of(labels: Seq<Tree>, models: Seq<Tree>, n: int) -> Option<
    Seq<(Seq<char>, i64)>,
>
    decreases n,
{
    if n <= 0 {
        Some(seq![])
    } else {
        let total = point_total(models, n - 1, models.len() as int);
        match points_of(labels, models, n - 1) {
            Some(before) => if total > i64::MAX {
                None
            } else if total > 0 {
                Some(before.push((js_text(labels[n - 1]), total as i64)))
            } else {
                Some(before)
            },
            None => None,
        }
    }
}

proof fn lemma_points_failure(labels: Seq<Tree>, models: Seq<Tree>, n: int, m: int)
    requires
        n <= m,
        points_of(labels, models, n) is None,
    ensures
        points_of(labels, models, m) is None,
    decreases m - n,
{
    if n < m {
        lemma_points_failure(labels, models, n, m - 1);
    }
}

fn total_at(models: &Vec<&Json>, index: usize) -> (r: Option<i64>)
    ensures
        ({
            let total = point_total(json::trees(models@), index as int, models@.len() as int);
            match r {
                Some(n) => n == total && n >= 0,
                None => total > i64::MAX,
            }
        }),
{
    let ghost all = json::trees(models@);
    let mut total: i64 = 0;
    let mut i: usize = 0;
    while i < models.len()
        invariant
            i <= models@.len(),
            all == json::trees(models@),
            total >= 0,
            total == point_total(all, index as int, i as int),
        decreases models@.len() - i,
    {
        let model: &Json = models[i];
        assert(all[i as int] == model.tree());
        let value: i64 = read_count_at(model, index);
        match total.checked_add(value) {
            Some(sum) => {
                total = sum;
            },
            None => {
                proof {
                    lemma_point_grows(all, index as int, i as int + 1, all.len() as int);
                }
                return None;
            },
        }
        i += 1;
    }
    Some(total)
}

fn read_points(labels: &Vec<&Json>, models: &Vec<&Json>) -> (r: Option<Vec<(String, i64)>>)
    ensures
        ({
            let points = points_of(
                json::trees(labels@),
                json::trees(models@),
                labels@.len() as int,
            );
            match r {
                Some(found) => points == Some(zai_usage::pair_values(found@)),
                None => points is None,
            }
        }),
{
    let ghost all = json::trees(labels@);
    let ghost parts = json::trees(models@);
    let mut points: Vec<(String, i64)> = Vec::new();
    let mut i: usize = 0;
    assert(zai_usage::pair_values(points@) =~= seq![]);
    while i < labels.len()
        invariant
            i <= labels@.len(),
            all == json::trees(labels@),
            parts == json::trees(models@),
            points_of(all, parts, i as int) == Some(zai_usage::pair_values(points@)),
        decreases labels@.len() - i,
    {
        let label: &Json = labels[i];
        assert(all[i as int] == label.tree());
        let ghost before = zai_usage::pair_values(points@);
        match total_at(models, i) {
            Some(total) => {
                if total > 0 {
                    let name = js_string(label);
                    points.push((name, total));
                    assert(zai_usage::pair_values(points@) =~= before.push((name@, total)));
                }
            },
            None => {
                proof {
                    lemma_points_failure(all, parts, i as int + 1, all.len() as int);
                }
                return None;
            },
        }
        i += 1;
    }
    Some(points)
}

/// The total of the first `n` counts.
pub open spec fn count_total(values: Seq<Tree>, n: int) -> int
    decreases n,
{
    if n <= 0 {
        0
    } else {
        count_total(values, n - 1) + count_of(values[n - 1])
    }
}

proof fn lemma_count_grows(values: Seq<Tree>, n: int, m: int)
    requires
        n <= m,
    ensures
        count_total(values, n) <= count_total(values, m),
    decreases m - n,
{
    if n < m {
        lemma_count_grows(values, n, m - 1);
    }
}

/// The total of a model.
pub open spec fn model_total(model: Tree) -> int {
    count_total(model_counts(model), model_counts(model).len() as int)
}

fn read_model_total(model: &Json) -> (r: Option<i64>)
    ensures
        match r {
            Some(n) => n == model_total(model.tree()) && n >= 0,
            None => model_total(model.tree()) > i64::MAX,
        },
{
    let values = zai_usage::entries(model.get("tokensUsage"));
    let ghost all = json::trees(values@);
    assert(all =~= model_counts(model.tree()));
    let mut total: i64 = 0;
    let mut i: usize = 0;
    while i < values.len()
        invariant
            i <= values@.len(),
            all == json::trees(values@),
            all == model_counts(model.tree()),
            total >= 0,
            total == count_total(all, i as int),
        decreases values@.len() - i,
    {
        let value: &Json = values[i];
        assert(all[i as int] == value.tree());
        match total.checked_add(read_count(value)) {
            Some(sum) => {
                total = sum;
            },
            None => {
                proof {
                    lemma_count_grows(all, i as int + 1, all.len() as int);
                }
                return None;
            },
        }
        i += 1;
    }
    Some(total)
}

/// The name of a model.
pub open spec fn model_name(model: Tree) -> Seq<char> {
    match json::field(model, "modelName"@) {
        Some(Tree::Text(s)) => s,
        _ => "Unknown"@,
    }
}

/// The totals of the first `n` models with anything used; `None` where a total
/// does not fit.
pub open spec fn totals_of(models: Seq<Tree>, n: int) -> Option<Seq<(Seq<char>, i64)>>
    decreases n,
{
    if n <= 0 {
        Some(seq![])
    } else {
        let total = model_total(models[n - 1]);
        match totals_of(models, n - 1) {
            Some(before) => if total > i64::MAX {
                None
            } else if total > 0 {
                Some(before.push((model_name(models[n - 1]), total as i64)))
            } else {
                Some(before)
            },
            None => None,
        }
    }
}

proof fn lemma_totals_failure(models: Seq<Tree>, n: int, m: int)
    requires
        n <= m,
        totals_of(models, n) is None,
    ensures
        totals_of(models, m) is None,
    decreases m - n,
{
    if n < m {
        lemma_totals_failure(models, n, m - 1);
    }
}

fn read_totals(models: &Vec<&Json>) -> (r: Option<Vec<(String, i64)>>)
    ensures
        ({
            let totals = totals_of(json::trees(models@), models@.len() as int);
            match r {
                Some(found) => totals == Some(zai_usage::pair_values(found@)),
                None => totals is None,
            }
        }),
{
    let ghost all = json::trees(models@);
    let mut totals: Vec<(String, i64)> = Vec::new();
    let mut i: usize = 0;
    assert(zai_usage::pair_values(totals@) =~= seq![]);
    while i < models.len()
        invariant
            i <= models@.len(),
            all == json::trees(models@),
            totals_of(all, i as int) == Some(zai_usage::pair_values(totals@)),
        decreases models@.len() - i,
    {
        let model: &Json = models[i];
        assert(all[i as int] == model.tree());
        let ghost before = zai_usage::pair_values(totals@);
        match read_model_total(model) {
            Some(total) => {
                if total > 0 {
                    let name = match model.get("modelName") {
                        Some(Json::Text(s)) => s.clone(),
                        _ => "Unknown".to_owned(),
                    };
                    totals.push((name, total));
                    assert(zai_usage::pair_values(totals@) =~= before.push((name@, total)));
                }
            },
            None => {
                proof {
                    lemma_totals_failure(all, i as int + 1, all.len() as int);
                }
                return None;
            },
        }
        i += 1;
    }
    Some(totals)
}

/// Whether a total is shown before another: the larger first, and of equals the
/// one whose name comes first.
pub open spec fn ranks_before(a: (Seq<char>, i64), b: (Seq<char>, i64)) -> bool {
    a.1 > b.1 || (a.1 == b.1 && text::precedes(a.0, b.0))
}

/// The first position at or behind `from` that a total is shown before.
pub open spec fn rank_position(list: Seq<(Seq<char>, i64)>, x: (Seq<char>, i64), from: int) -> int
    decreases list.len() - from,
{
    if from < 0 || from >= list.len() || ranks_before(x, list[from]) {
        from
    } else {
        rank_position(list, x, from + 1)
    }
}

/// The first `n` totals in the order they are shown in.
pub open spec fn ranked(list: Seq<(Seq<char>, i64)>, n: int) -> Seq<(Seq<char>, i64)>
    decreases n,
{
    if n <= 0 {
        seq![]
    } else {
        let before = ranked(list, n - 1);
        before.insert(rank_position(before, list[n - 1], 0), list[n - 1])
    }
}

proof fn lemma_rank_position(list: Seq<(Seq<char>, i64)>, x: (Seq<char>, i64), from: int)
    requires
        0 <= from <= list.len(),
    ensures
        from <= rank_position(list, x, from) <= list.len(),
        forall|i: int|
            from <= i < rank_position(list, x, from) ==> !ranks_before(x, #[trigger] list[i]),
        rank_position(list, x, from) < list.len() ==> ranks_before(
            x,
            list[rank_position(list, x, from)],
        ),
    decreases list.len() - from,
{
    if from < list.len() && !ranks_before(x, list[from]) {
        lemma_rank_position(list, x, from + 1);
    }
}

proof fn lemma_rank_asymmetric(a: (Seq<char>, i64), b: (Seq<char>, i64))
    requires
        ranks_before(a, b),
    ensures
        !ranks_before(b, a),
{
    if a.1 == b.1 {
        text::lemma_precedes_asymmetric(a.0, b.0);
    }
}

/// Totals are shown in order: none before one that ranks before it. Each total
/// is shown once.
pub proof fn law_totals_in_order(list: Seq<(Seq<char>, i64)>, n: int)
    requires
        0 <= n <= list.len(),
    ensures
        forall|i: int|
            0 <= i && i + 1 < ranked(list, n).len() ==> !ranks_before(
                ranked(list, n)[i + 1],
                #[trigger] ranked(list, n)[i],
            ),
        ranked(list, n).to_multiset() == list.take(n).to_multiset(),
    decreases n,
{
    broadcast use vstd::seq_lib::group_to_multiset_ensures;

    if n > 0 {
        law_totals_in_order(list, n - 1);
        let before = ranked(list, n - 1);
        let x = list[n - 1];
        let at = rank_position(before, x, 0);
        lemma_rank_position(before, x, 0);
        let after = before.insert(at, x);
        assert forall|i: int| 0 <= i && i + 1 < after.len() implies !ranks_before(
            after[i + 1],
            #[trigger] after[i],
        ) by {
            if i + 1 < at {
                assert(after[i] == before[i]);
                assert(after[i + 1] == before[i + 1]);
            } else if i + 1 == at {
                assert(after[i] == before[i]);
            } else if i == at {
                assert(after[i + 1] == before[i]);
                lemma_rank_asymmetric(x, before[at]);
            } else {
                assert(after[i] == before[i - 1]);
                assert(after[i + 1] == before[i]);
                let j = i - 1;
                assert(before[j + 1] == before[i]);
                assert(!ranks_before(before[j + 1], before[j]));
            }
        }
        assert(list.take(n) =~= list.take(n - 1).push(x));
        assert(after.to_multiset() =~= before.to_multiset().insert(x));
    } else {
        assert(list.take(0) =~= seq![]);
        assert(ranked(list, n) =~= list.take(n));
    }
}

/// Totals in the order they are shown in.
pub fn rank(list: Vec<(String, i64)>) -> (r: Vec<(String, i64)>)
    ensures
        zai_usage::pair_values(r@) == ranked(zai_usage::pair_values(list@), list@.len() as int),
{
    let ghost all = zai_usage::pair_values(list@);
    let mut r: Vec<(String, i64)> = Vec::new();
    let mut i: usize = 0;
    assert(zai_usage::pair_values(r@) =~= seq![]);
    while i < list.len()
        invariant
            i <= list@.len(),
            r@.len() == i,
            all == zai_usage::pair_values(list@),
            zai_usage::pair_values(r@) == ranked(all, i as int),
        decreases list@.len() - i,
    {
        let name = text::chars_of(list[i].0.as_str());
        let total: i64 = list[i].1;
        let ghost before = zai_usage::pair_values(r@);
        let ghost x = all[i as int];
        let mut at: usize = 0;
        let mut searching = true;
        while searching && at < r.len()
            invariant
                at <= r@.len(),
                before == zai_usage::pair_values(r@),
                x == (name@, total),
                searching ==> rank_position(before, x, 0) == rank_position(before, x, at as int),
                !searching ==> rank_position(before, x, 0) == at,
            decreases r@.len() - at, (if searching {
                1int
            } else {
                0
            }),
        {
            let other = text::chars_of(r[at].0.as_str());
            assert(before[at as int] == (r@[at as int].0@, r@[at as int].1));
            if total > r[at].1 || (total == r[at].1 && text::is_before(
                name.as_slice(),
                other.as_slice(),
            )) {
                searching = false;
            } else {
                at += 1;
            }
        }
        let entry = (list[i].0.clone(), total);
        r.insert(at, entry);
        assert(zai_usage::pair_values(r@) =~= before.insert(at as int, x));
        i += 1;
    }
    r
}

/// The model usage of a span.
pub struct ModelUsage {
    pub points: Vec<(String, i64)>,
    pub rows: Vec<DetailRow>,
}

/// The labels of a model usage answer.
pub open spec fn answer_list(root: Tree, key: Seq<char>) -> Seq<Tree> {
    match json::field(root, "data"@) {
        Some(data) => zai_usage::entries_of(json::field(data, key)),
        None => seq![],
    }
}

/// The failure of a model usage answer.
pub open spec fn models_failure(root: Tree) -> Option<ErrorKind> {
    let labels = answer_list(root, "x_time"@);
    let models = answer_list(root, "modelDataList"@);
    if !zai_usage::answered(root) {
        Some(ErrorKind::Api)
    } else if labels.len() > MAX_MODEL_POINTS {
        Some(ErrorKind::Parse)
    } else {
        match points_of(labels, models, labels.len() as int) {
            None => Some(ErrorKind::Parse),
            Some(points) => if points.len() > 0 && totals_of(models, models.len() as int) is None {
                Some(ErrorKind::Parse)
            } else {
                None
            },
        }
    }
}

/// The first totals that are shown.
pub open spec fn shown_totals(totals: Seq<(Seq<char>, i64)>) -> Seq<(Seq<char>, i64)> {
    let all = ranked(totals, totals.len() as int);
    if all.len() > MAX_MODEL_ROWS {
        all.take(MAX_MODEL_ROWS as int)
    } else {
        all
    }
}

/// The points and rows of a model usage answer, where anything was used.
pub fn normalize_model_usage(root: &Json) -> (r: Result<Option<ModelUsage>, ClassifiedError>)
    ensures
        ({
            let labels = answer_list(root.tree(), "x_time"@);
            let models = answer_list(root.tree(), "modelDataList"@);
            let points = points_of(labels, models, labels.len() as int);
            match r {
                Ok(None) => models_failure(root.tree()) is None && points->0.len() == 0,
                Ok(Some(found)) => {
                    &&& models_failure(root.tree()) is None
                    &&& points->0.len() > 0
                    &&& zai_usage::pair_values(found.points@) == points->0
                    &&& usage::row_values(found.rows@) == zai_usage::detail_rows(
                        shown_totals(totals_of(models, models.len() as int)->0),
                    )
                },
                Err(e) => models_failure(root.tree()) is Some && e == error::plain(
                    models_failure(root.tree())->0,
                ),
            }
        }),
{
    if !zai_usage::is_answered(root) {
        return Err(ClassifiedError::new(ErrorKind::Api));
    }
    let (labels, models) = match root.get("data") {
        Some(data) => (
            zai_usage::entries(data.get("x_time")),
            zai_usage::entries(data.get("modelDataList")),
        ),
        None => (zai_usage::entries(None), zai_usage::entries(None)),
    };
    assert(json::trees(labels@) =~= answer_list(root.tree(), "x_time"@));
    assert(json::trees(models@) =~= answer_list(root.tree(), "modelDataList"@));
    if labels.len() > MAX_MODEL_POINTS {
        return Err(ClassifiedError::new(ErrorKind::Parse));
    }
    let points = match read_points(&labels, &models) {
        Some(points) => points,
        None => return Err(ClassifiedError::new(ErrorKind::Parse)),
    };
    if points.len() == 0 {
        return Ok(None);
    }
    let totals = match read_totals(&models) {
        Some(totals) => totals,
        None => return Err(ClassifiedError::new(ErrorKind::Parse)),
    };
    let ghost sums = zai_usage::pair_values(totals@);
    let order = rank(totals);
    let ghost shown = ranked(sums, sums.len() as int);
    assert(zai_usage::pair_values(order@) == shown);
    let count: usize = if order.len() > MAX_MODEL_ROWS {
        MAX_MODEL_ROWS
    } else {
        order.len()
    };
    let mut rows: Vec<DetailRow> = Vec::new();
    let mut k: usize = 0;
    assert(usage::row_values(rows@) =~= zai_usage::detail_rows(shown.take(0)));
    while k < count
        invariant
            k <= count <= order@.len(),
            shown == zai_usage::pair_values(order@),
            usage::row_values(rows@) == zai_usage::detail_rows(shown.take(k as int)),
        decreases count - k,
    {
        let ghost so_far = usage::row_values(rows@);
        let mut value = String::new();
        text::push_signed(&mut value, order[k].1);
        assert(value@ =~= text::signed_digits(order@[k as int].1 as int));
        let row = DetailRow { label: order[k].0.clone(), value, secondary: None, sensitivity: DetailSensitivity::Public };
        rows.push(row);
        assert(usage::row_values(rows@) =~= so_far.push(row.row()));
        k += 1;
        assert(zai_usage::detail_rows(shown.take(k as int)) =~= zai_usage::detail_rows(
            shown.take(k as int - 1),
        ).push(row.row()));
    }
    assert(shown.take(count as int) =~= shown_totals(sums));
    Ok(Some(ModelUsage { points, rows }))
}

/// The first midnight of a span of days that ends at a moment.
pub open spec fn span_start(local: Timestamp, days: i64) -> Option<Timestamp> {
    let span = if days < 1 {
        1
    } else {
        days as int
    };
    instant::calendar_nanos((instant::day_index(local) - span) * 86_400_000_000_000)
}

/// The query of a span of days, up to the end of the hour of a moment on the
/// wall clock.
pub open spec fn span_query(local: Timestamp, start: Timestamp, team: bool) -> Seq<char> {
    "startTime="@ + instant::day_text(instant::civil(start)) + "%2000%3A00%3A00"@ + "&endTime="@
        + instant::day_text(instant::civil(local)) + "%20"@ + text::padded(
        instant::civil(local).hour as nat,
        2,
    ) + "%3A59%3A59"@ + (if team {
        "&type=3"@
    } else {
        ""@
    })
}

/// The URL of a request for model usage; `None` where the span starts outside
/// the calendar.
pub open spec fn span_url(
    base: Seq<char>,
    local: Timestamp,
    days: i64,
    team: bool,
) -> Option<Seq<char>> {
    match span_start(local, days) {
        Some(start) => urls::url_with_query(base, Some(span_query(local, start, team))),
        None => None,
    }
}

/// The URL of a request for model usage. `local` is the instant at which a clock
/// in UTC reads what the wall clock reads.
pub fn model_usage_url(base: &str, local: Timestamp, days: i64, scope: &ZaiUsageScope) -> (r: Result<
    String,
    ClassifiedError,
>)
    requires
        local.in_calendar(),
    ensures
        match r {
            Ok(url) => span_url(base@, local, days, zai::team_of(*scope) is Some) == Some(url@),
            Err(e) => span_url(base@, local, days, zai::team_of(*scope) is Some) is None && e
                == error::plain(ErrorKind::Parse),
        },
{
    let span: i128 = if days < 1 {
        1
    } else {
        days as i128
    };
    let start_day: i128 = local.day() - span;
    let start = match Timestamp::from_nanos(start_day * 86_400_000_000_000) {
        Some(start) => start,
        None => return Err(ClassifiedError::new(ErrorKind::Parse)),
    };
    let first = instant::to_civil(start);
    let last = instant::to_civil(local);
    let mut query = "startTime=".to_owned();
    let first_day = instant::day_of(first);
    query.append(first_day.as_str());
    query.append("%2000%3A00%3A00");
    query.append("&endTime=");
    let last_day = instant::day_of(last);
    query.append(last_day.as_str());
    query.append("%20");
    text::push_padded(&mut query, last.hour as u64, 2);
    query.append("%3A59%3A59");
    let team = match scope {
        ZaiUsageScope::Personal => false,
        ZaiUsageScope::Team { organization: _, project: _ } => true,
    };
    if team {
        query.append("&type=3");
    }
    proof {
        reveal_strlit("");
        assert(query@ =~= span_query(local, start, team));
    }
    match urls::with_query(base, Some(query.as_str())) {
        Some(url) => Ok(url),
        None => Err(ClassifiedError::new(ErrorKind::Parse)),
    }
}

/// The pairs among the first `n` whose name is not `type`.
pub open spec fn untyped(pairs: Seq<(Seq<char>, Seq<char>)>, n: int) -> Seq<(Seq<char>, Seq<char>)>
    decreases n,
{
    if n <= 0 {
        seq![]
    } else if pairs[n - 1].0 == "type"@ {
        untyped(pairs, n - 1)
    } else {
        untyped(pairs, n - 1).push(pairs[n - 1])
    }
}

/// The URL of a request for the quota: of a team, with its own type.
pub open spec fn quota_url_of(base: urls::UrlView, team: bool) -> Option<Seq<char>> {
    if !team {
        Some(base.href)
    } else if base.host is None {
        None
    } else {
        let pairs = match base.query {
            Some(query) => urls::query_pairs_of(query),
            None => seq![],
        };
        match urls::url_with_query(base.href, None) {
            Some(href) => urls::url_with_more_pairs(
                href,
                untyped(pairs, pairs.len() as int).push(("type"@, "2"@)),
            ),
            None => None,
        }
    }
}

/// The URL of a request for the quota.
pub fn quota_request_url(base: &urls::UrlParts, scope: &ZaiUsageScope) -> (r: Result<
    String,
    ClassifiedError,
>)
    ensures
        match r {
            Ok(url) => quota_url_of(base.value(), zai::team_of(*scope) is Some) == Some(url@),
            Err(e) => quota_url_of(base.value(), zai::team_of(*scope) is Some) is None && e
                == error::plain(ErrorKind::Api),
        },
{
    match scope {
        ZaiUsageScope::Personal => return Ok(base.href.clone()),
        ZaiUsageScope::Team { organization: _, project: _ } => {},
    }
    if base.host.is_none() {
        return Err(ClassifiedError::new(ErrorKind::Api));
    }
    let pairs = match &base.query {
        Some(query) => urls::query_pairs(query.as_str()),
        None => Vec::new(),
    };
    let ghost all = pairs.deep_view();
    assert(base.value().query is None ==> all =~= seq![]);
    let mut kept: Vec<(String, String)> = Vec::new();
    let mut i: usize = 0;
    assert(kept.deep_view() =~= seq![]);
    while i < pairs.len()
        invariant
            i <= pairs@.len(),
            all == pairs.deep_view(),
            kept.deep_view() == untyped(all, i as int),
        decreases pairs@.len() - i,
    {
        assert(all[i as int] == (pairs@[i as int].0@, pairs@[i as int].1@));
        let ghost before = kept.deep_view();
        if !text::same_text(pairs[i].0.as_str(), "type") {
            kept.push((pairs[i].0.clone(), pairs[i].1.clone()));
            assert(kept.deep_view() =~= before.push(all[i as int]));
        }
        i += 1;
    }
    let ghost before = kept.deep_view();
    kept.push(("type".to_owned(), "2".to_owned()));
    assert(kept.deep_view() =~= before.push(("type"@, "2"@)));
    match urls::with_query(base.href.as_str(), None) {
        Some(href) => match urls::extend_pairs(href.as_str(), &kept) {
            Some(url) => Ok(url),
            None => Err(ClassifiedError::new(ErrorKind::Api)),
        },
        None => Err(ClassifiedError::new(ErrorKind::Api)),
    }
}

/// One more model adds its count to every point, and nothing below zero is counted.
pub proof fn law_points_add_up(models: Seq<Tree>, more: Tree, index: int)
    requires
        0 <= index,
    ensures
        point_total(models.push(more), index, models.len() + 1 as int) == point_total(
            models,
            index,
            models.len() as int,
        ) + count_at(more, index),
        count_at(more, index) >= 0,
        index >= model_counts(more).len() ==> count_at(more, index) == 0,
{
    lemma_point_prefix(models, models.push(more), index, models.len() as int);
}

proof fn lemma_point_prefix(models: Seq<Tree>, all: Seq<Tree>, index: int, n: int)
    requires
        0 <= n <= models.len() <= all.len(),
        forall|i: int| 0 <= i < models.len() ==> models[i] == all[i],
    ensures
        point_total(models, index, n) == point_total(all, index, n),
    decreases n,
{
    if n > 0 {
        lemma_point_prefix(models, all, index, n - 1);
    }
}

/// All totals are ranked, the larger before the smaller, and at most twenty are shown.
pub proof fn law_larger_totals_go_first(list: Seq<(Seq<char>, i64)>, n: int)
    requires
        0 <= n <= list.len(),
    ensures
        ranked(list, n).len() == n,
        forall|i: int, j: int|
            0 <= i < j < n ==> (#[trigger] ranked(list, n)[i]).1 >= (#[trigger] ranked(list, n)[j]).1,
        shown_totals(list).len() <= 20,
    decreases n,
{
    if n > 0 {
        law_larger_totals_go_first(list, n - 1);
        let before = ranked(list, n - 1);
        let x = list[n - 1];
        lemma_rank(before, x, 0);
        let at = rank_position(before, x, 0);
        let after = before.insert(at, x);
        assert(after =~= ranked(list, n));
        assert forall|i: int, j: int| 0 <= i < j < n implies (#[trigger] after[i]).1 >= (
        #[trigger] after[j]).1 by {
            if i < at && j < at {
                assert(after[i] == before[i] && after[j] == before[j]);
            } else if i < at && j == at {
                assert(after[i] == before[i]);
            } else if i < at {
                assert(after[i] == before[i] && after[j] == before[j - 1]);
            } else if i == at {
                assert(after[j] == before[j - 1]);
                assert(before[at].1 >= before[j - 1].1);
            } else {
                assert(after[i] == before[i - 1] && after[j] == before[j - 1]);
            }
        }
    }
}

proof fn lemma_rank(list: Seq<(Seq<char>, i64)>, x: (Seq<char>, i64), from: int)
    requires
        0 <= from <= list.len(),
    ensures
        from <= rank_position(list, x, from) <= list.len(),
        forall|i: int|
            from <= i < rank_position(list, x, from) ==> (#[trigger] list[i]).1 >= x.1,
        rank_position(list, x, from) < list.len() ==> list[rank_position(list, x, from)].1 <= x.1,
    decreases list.len() - from,
{
    if from < list.len() && !ranks_before(x, list[from]) {
        lemma_rank(list, x, from + 1);
    }
}

/// A span of days starts at a midnight that lies that many whole days, and less than
/// one more, before its end; a span has at least one day.
pub proof fn law_spans_start_days_before(local: Timestamp, days: i64)
    requires
        local.in_calendar(),
        days <= 100_000,
    ensures
        span_start(local, days) matches Some(at) ==> {
            let length = if days < 1 {
                1int
            } else {
                days as int
            };
            &&& at.nanos + length * 86_400_000_000_000 <= local.nanos
            &&& local.nanos < at.nanos + (length + 1) * 86_400_000_000_000
            &&& (at.nanos as int) % 86_400_000_000_000 == 0
        },
{
    let length = if days < 1 {
        1int
    } else {
        days as int
    };
    let day = instant::day_index(local);
    let s = local.seconds();
    assert(day * 86_400 <= s < (day + 1) * 86_400);
    assert(s * 1_000_000_000 <= local.nanos < (s + 1) * 1_000_000_000);
    let start = (day - length) * 86_400_000_000_000;
    assert(start % 86_400_000_000_000 == 0);
}

} // verus!
