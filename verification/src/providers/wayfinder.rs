//! Wayfinder local gateway: health, routing, savings and latency.

use vstd::prelude::*;
use vstd::slice::slice_subrange;

use crate::decimal;
use crate::decimal::Decimal;
use crate::error;
use crate::error::{ClassifiedError, ErrorKind};
use crate::instant::{Duration, Timestamp};
use crate::providers::sub2api;
use crate::providers::xai;
use crate::providers::zai_models;
use crate::providers::zai_usage;
use crate::registry::ProviderId;
use crate::retry;
use crate::retry::RetryPolicy;
use crate::settings::Environment;
use crate::text;
use crate::transport;
use crate::transport::{HttpRequest, Method, RequestAccept, TransportConfig};
use crate::urls;
use crate::usage;
use crate::usage::{DetailRow, DetailSensitivity, ProviderSource, RowView, SampleView, SectionView, UsageSample};

verus! {

pub const MAX_RESPONSE_BYTES: usize = 2 * 1024 * 1024;

pub const MAX_MODELS: usize = 512;

pub const MAX_MISSING_KEYS: usize = 512;

pub const MAX_ROUTES: usize = 512;

pub const MAX_SHOWN_ROUTES: usize = 5;

/// The base URL of a gateway.
pub struct WayfinderSettings {
    pub base_url: String,
}

/// The base URL that an environment selects.
pub open spec fn base_of(environment: Environment) -> Seq<char> {
    match environment.setting("WAYFINDER_GATEWAY_URL"@) {
        Some(raw) => raw,
        None => "http://127.0.0.1:8088"@,
    }
}

/// The base URL that an environment selects.
pub fn configured_base(environment: &Environment) -> (r: String)
    ensures
        r@ == base_of(*environment),
{
    match environment.get_setting("WAYFINDER_GATEWAY_URL") {
        Some(raw) => raw,
        None => "http://127.0.0.1:8088".to_owned(),
    }
}

impl WayfinderSettings {
    /// Resolves the gateway. `allowed` is the endpoint policy's verdict on the
    /// configured base URL.
    pub fn resolve(environment: &Environment, allowed: bool) -> (r: Result<
        WayfinderSettings,
        ClassifiedError,
    >)
        ensures
            match r {
                Ok(found) => allowed && found.base_url@ == base_of(*environment),
                Err(e) => !allowed && e == error::plain(ErrorKind::Api),
            },
    {
        if !allowed {
            return Err(ClassifiedError::new(ErrorKind::Api));
        }
        Ok(WayfinderSettings { base_url: configured_base(environment) })
    }
}

/// An adapter bound to a gateway.
pub struct WayfinderProvider {
    pub base_url: String,
}

/// The URL of a path below a base URL, with a query where it has one.
pub open spec fn href_of(
    base: Seq<char>,
    path: Seq<Seq<char>>,
    query: Seq<(Seq<char>, Seq<char>)>,
) -> Option<Seq<char>> {
    match urls::url_below_segments(base, path) {
        Some(href) => if query.len() == 0 {
            Some(href)
        } else {
            urls::url_with_more_pairs(href, query)
        },
        None => None,
    }
}

impl WayfinderProvider {
    /// An adapter for an endpoint. `allowed` is the endpoint policy's verdict.
    pub fn from_endpoint(provider: ProviderId, base_url: String, allowed: bool) -> (r: Result<
        WayfinderProvider,
        ClassifiedError,
    >)
        ensures
            match r {
                Ok(adapter) => provider == ProviderId::Wayfinder && allowed && adapter.base_url
                    == base_url,
                Err(e) => !(provider == ProviderId::Wayfinder && allowed) && e == error::plain(
                    ErrorKind::Api,
                ),
            },
    {
        if provider != ProviderId::Wayfinder || !allowed {
            return Err(ClassifiedError::new(ErrorKind::Api));
        }
        Ok(WayfinderProvider { base_url })
    }

    /// The request for a path. `same_scope` tells whether the caller asks for the
    /// adapter's own account.
    pub fn request(
        &self,
        same_scope: bool,
        source: ProviderSource,
        path: &Vec<&str>,
        query: &Vec<(String, String)>,
        json: bool,
    ) -> (r: Result<HttpRequest, ClassifiedError>)
        ensures
            ({
                let href = href_of(self.base_url@, path.deep_view(), query.deep_view());
                match r {
                    Ok(q) => same_scope && source == ProviderSource::ApiKey && href is Some
                        && q.bare(Method::Get, href->0, seq![]) && q.accept == (if json {
                        Some(RequestAccept::Json)
                    } else {
                        None
                    }) && q.wf(),
                    Err(e) => !(same_scope && source == ProviderSource::ApiKey && href is Some) && e
                        == error::plain(ErrorKind::Api),
                }
            }),
    {
        if !same_scope || source != ProviderSource::ApiKey {
            return Err(ClassifiedError::new(ErrorKind::Api));
        }
        let below = match urls::below_segments(self.base_url.as_str(), path) {
            Some(href) => href,
            None => return Err(ClassifiedError::new(ErrorKind::Api)),
        };
        assert(query.deep_view().len() == query@.len());
        let href = if query.len() == 0 {
            below
        } else {
            match urls::extend_pairs(below.as_str(), query) {
                Some(href) => href,
                None => return Err(ClassifiedError::new(ErrorKind::Api)),
            }
        };
        if json {
            Ok(HttpRequest::get_json(href))
        } else {
            Ok(HttpRequest::get(href))
        }
    }
}

/// What the gateway tells of itself.
pub struct GatewayState {
    pub status: String,
    pub offline: bool,
    pub missing_keys: usize,
    pub models: usize,
    pub dry_run: bool,
}

/// What the gateway tells of its savings.
pub struct Savings {
    pub priced: bool,
    pub requests: i64,
    pub saved: Decimal,
    pub saved_percent: Decimal,
    pub routes: Vec<(String, i64)>,
}

/// How many models there are.
pub open spec fn model_count(n: usize) -> Seq<char> {
    if n == 1 {
        "1 model"@
    } else {
        text::digits(n as nat) + " models"@
    }
}

/// How many models there are.
pub fn model_count_label(n: usize) -> (r: String)
    ensures
        r@ == model_count(n),
{
    if n == 1 {
        return "1 model".to_owned();
    }
    let mut r = String::new();
    text::push_number(&mut r, n as u64);
    r.append(" models");
    assert(r@ =~= model_count(n));
    r
}

/// The state of a gateway in a few words.
pub open spec fn gateway_line(state: GatewayState) -> Seq<char> {
    state.status@ + " · "@ + model_count(state.models) + (if state.offline {
        " · offline"@
    } else {
        ""@
    }) + (if state.dry_run {
        " · dry run"@
    } else {
        ""@
    })
}

/// The state of a gateway in a few words.
pub fn gateway_summary(state: &GatewayState) -> (r: String)
    ensures
        r@ == gateway_line(*state),
{
    let mut r = state.status.clone();
    r.append(" · ");
    let models = model_count_label(state.models);
    r.append(models.as_str());
    if state.offline {
        r.append(" · offline");
    }
    if state.dry_run {
        r.append(" · dry run");
    }
    proof {
        reveal_strlit("");
        assert(r@ =~= gateway_line(*state));
    }
    r
}

/// The state of a gateway as a label.
pub open spec fn label_of(state: GatewayState) -> Seq<char> {
    if state.offline {
        "Offline mode"@
    } else if state.dry_run {
        "Dry run"@
    } else if state.status@ == "degraded"@ {
        if state.missing_keys == 0 {
            "Degraded"@
        } else if state.missing_keys == 1 {
            "Degraded — 1 key missing"@
        } else {
            "Degraded — "@ + text::digits(state.missing_keys as nat) + " keys missing"@
        }
    } else {
        "Local gateway"@
    }
}

/// The state of a gateway as a label.
pub fn status_label(state: &GatewayState) -> (r: String)
    ensures
        r@ == label_of(*state),
{
    if state.offline {
        return "Offline mode".to_owned();
    }
    if state.dry_run {
        return "Dry run".to_owned();
    }
    if text::same_text(state.status.as_str(), "degraded") {
        if state.missing_keys == 0 {
            return "Degraded".to_owned();
        }
        if state.missing_keys == 1 {
            return "Degraded — 1 key missing".to_owned();
        }
        let mut r = "Degraded — ".to_owned();
        text::push_number(&mut r, state.missing_keys as u64);
        r.append(" keys missing");
        return r;
    }
    "Local gateway".to_owned()
}

/// The first `n` routes, each with its requests.
pub open spec fn route_lines(routes: Seq<(Seq<char>, i64)>, n: int) -> Seq<Seq<char>>
    decreases n,
{
    if n <= 0 {
        seq![]
    } else {
        route_lines(routes, n - 1).push(
            routes[n - 1].0 + ": "@ + sub2api::grouped_count(routes[n - 1].1),
        )
    }
}

/// The busiest routes, where anything was routed.
pub open spec fn routed_line(requests: i64, routes: Seq<(Seq<char>, i64)>) -> Option<Seq<char>> {
    let n = if routes.len() < MAX_SHOWN_ROUTES {
        routes.len() as int
    } else {
        MAX_SHOWN_ROUTES as int
    };
    let line = text::joined(route_lines(routes, n), " · "@);
    if requests > 0 && line.len() > 0 {
        Some(line)
    } else {
        None
    }
}

/// The busiest routes, where anything was routed.
pub fn routed_summary(requests: i64, routes: &Vec<(String, i64)>) -> (r: Option<String>)
    ensures
        r.deep_view() == routed_line(requests, zai_usage::pair_values(routes@)),
{
    if requests <= 0 {
        return None;
    }
    let ghost all = zai_usage::pair_values(routes@);
    let n: usize = if routes.len() < MAX_SHOWN_ROUTES {
        routes.len()
    } else {
        MAX_SHOWN_ROUTES
    };
    let mut lines: Vec<String> = Vec::new();
    let mut i: usize = 0;
    assert(lines.deep_view() =~= seq![]);
    while i < n
        invariant
            i <= n <= routes@.len(),
            all == zai_usage::pair_values(routes@),
            lines.deep_view() == route_lines(all, i as int),
        decreases n - i,
    {
        assert(all[i as int] == (routes@[i as int].0@, routes@[i as int].1));
        let ghost before = lines.deep_view();
        let mut line = routes[i].0.clone();
        line.append(": ");
        let count = sub2api::format_integer(routes[i].1);
        line.append(count.as_str());
        lines.push(line);
        assert(lines.deep_view() =~= before.push(line@));
        i += 1;
    }
    let line = text::join(&lines, " · ");
    if line.as_str().is_empty() {
        None
    } else {
        Some(line)
    }
}

/// What was saved, where anything was.
pub open spec fn saved_line(savings: Savings) -> Option<Seq<char>> {
    let percent = (if savings.saved_percent.integral() {
        decimal::decimal_fixed(savings.saved_percent, 0)
    } else {
        decimal::decimal_fixed(savings.saved_percent, 1)
    }) + "% vs highest-cost route"@;
    if savings.requests <= 0 || !savings.saved.positive() {
        None
    } else if !savings.priced {
        Some(percent)
    } else {
        Some(
            (if savings.saved.less(Decimal { negative: false, magnitude: 1, scale: 2 }) {
                "<$0.01"@
            } else {
                xai::usd(savings.saved)
            }) + " · "@ + percent,
        )
    }
}

/// What was saved, where anything was.
pub fn saved_summary(savings: &Savings) -> (r: Option<String>)
    requires
        savings.saved.wf(),
        savings.saved_percent.wf(),
    ensures
        r.deep_view() == saved_line(*savings),
{
    if savings.requests <= 0 || !savings.saved.is_positive() {
        return None;
    }
    let mut percent = if savings.saved_percent.is_integral() {
        decimal::to_fixed(savings.saved_percent, 0)
    } else {
        decimal::to_fixed(savings.saved_percent, 1)
    };
    percent.append("% vs highest-cost route");
    if !savings.priced {
        return Some(percent);
    }
    let cent = Decimal { negative: false, magnitude: 1, scale: 2 };
    let mut r = if decimal::is_less(savings.saved, cent) {
        "<$0.01".to_owned()
    } else {
        xai::format_usd(savings.saved)
    };
    r.append(" · ");
    r.append(percent.as_str());
    Some(r)
}

/// A row without a note.
pub open spec fn plain_row(label: Seq<char>, value: Seq<char>) -> RowView {
    RowView { label, value, secondary: None, sensitivity: DetailSensitivity::Public }
}

/// A row that may be absent.
pub open spec fn row_if_any(label: Seq<char>, value: Option<Seq<char>>) -> Seq<RowView> {
    match value {
        Some(v) => seq![plain_row(label, v)],
        None => seq![],
    }
}

fn push_row(rows: &mut Vec<DetailRow>, label: &str, value: Option<String>)
    ensures
        usage::row_values(final(rows)@) == usage::row_values(old(rows)@) + row_if_any(
            label@,
            value.deep_view(),
        ),
{
    let ghost before = usage::row_values(rows@);
    if let Some(v) = value {
        rows.push(DetailRow { label: label.to_owned(), value: v, secondary: None, sensitivity: DetailSensitivity::Public });
    }
    assert(usage::row_values(rows@) =~= before + row_if_any(label@, value.deep_view()));
}

/// Whether what the gateway tells stays within its bounds.
pub open spec fn bounded(state: GatewayState, savings: Savings) -> bool {
    state.models <= MAX_MODELS && state.missing_keys <= MAX_MISSING_KEYS && savings.routes@.len()
        <= MAX_ROUTES
}

/// The reading of a gateway, for the text of its average decision time in
/// milliseconds.
pub open spec fn sample_of(
    state: GatewayState,
    savings: Savings,
    average: Option<Seq<char>>,
    fetched_at: Timestamp,
) -> SampleView {
    let routes = zai_usage::pair_values(savings.routes@);
    SampleView {
        sections: seq![
            SectionView {
                title: "Usage"@,
                rows: seq![plain_row("Gateway"@, gateway_line(state))] + row_if_any(
                    "Routed"@,
                    routed_line(savings.requests, zai_models::ranked(routes, routes.len() as int)),
                ) + row_if_any("Saved"@, saved_line(savings)) + row_if_any(
                    "Avg decision"@,
                    match average {
                        Some(ms) => Some(ms + " ms"@),
                        None => None,
                    },
                ),
                chart: None,
            },
        ],
        organization: Some(model_count(state.models) + " · local gateway"@),
        login_method: Some(label_of(state)),
        ..usage::empty_sample(ProviderId::Wayfinder, fetched_at, "wayfinder"@, "api"@)
    }
}

/// The reading of a gateway, for the text of its average decision time in
/// milliseconds.
pub fn normalize(
    state: &GatewayState,
    savings: Savings,
    average: Option<String>,
    fetched_at: Timestamp,
) -> (r: Result<UsageSample, ClassifiedError>)
    requires
        savings.saved.wf(),
        savings.saved_percent.wf(),
    ensures
        match r {
            Ok(sample) => bounded(*state, savings) && sample.value() == sample_of(
                *state,
                savings,
                average.deep_view(),
                fetched_at,
            ),
            Err(e) => !bounded(*state, savings) && e == error::plain(ErrorKind::Parse),
        },
{
    if state.models > MAX_MODELS || state.missing_keys > MAX_MISSING_KEYS || savings.routes.len()
        > MAX_ROUTES {
        return Err(ClassifiedError::new(ErrorKind::Parse));
    }
    let saved = saved_summary(&savings);
    let requests: i64 = savings.requests;
    let routes = zai_models::rank(savings.routes);
    let routed = routed_summary(requests, &routes);
    let mut rows: Vec<DetailRow> = Vec::new();
    rows.push(
        DetailRow {
            label: "Gateway".to_owned(),
            value: gateway_summary(state),
            secondary: None,
            sensitivity: DetailSensitivity::Public,
        },
    );
    assert(usage::row_values(rows@) =~= seq![plain_row("Gateway"@, gateway_line(*state))]);
    push_row(&mut rows, "Routed", routed);
    push_row(&mut rows, "Saved", saved);
    let timed = match average {
        Some(ms) => {
            let mut line = ms;
            line.append(" ms");
            Some(line)
        },
        None => None,
    };
    push_row(&mut rows, "Avg decision", timed);
    let mut sample = UsageSample::empty(ProviderId::Wayfinder, fetched_at, "wayfinder", "api");
    sample.sections = usage::one_section("Usage", rows, None);
    let mut organization = model_count_label(state.models);
    organization.append(" · local gateway");
    sample.organization = Some(organization);
    sample.login_method = Some(status_label(state));
    Ok(sample)
}

/// The text of a metric's value on a line: its last word, where the line is of
/// the metric.
pub open spec fn metric_of(line: Seq<char>, name: Seq<char>) -> Option<Seq<char>> {
    let rest = line.skip(name.len() as int);
    let words = text::words_from(rest, 0, true);
    if text::occurs_at(line, name, 0) && rest.len() > 0 && (rest[0] == ' ' || rest[0] == '{')
        && words.len() > 0 {
        Some(words.last())
    } else {
        None
    }
}

/// The text of a metric's value on a line.
pub fn metric_value(line: &[char], name: &str) -> (r: Option<String>)
    ensures
        r.deep_view() == metric_of(line@, name@),
{
    let prefix = text::chars_of(name);
    if !text::matches_at(line, prefix.as_slice(), 0) {
        return None;
    }
    let start: usize = prefix.len();
    let end: usize = line.len();
    let rest = slice_subrange(line, start, end);
    assert(rest@ =~= line@.skip(name@.len() as int));
    if rest.len() == 0 || (rest[0] != ' ' && rest[0] != '{') {
        return None;
    }
    let words = text::words(rest, true);
    let n: usize = words.len();
    if n == 0 {
        return None;
    }
    Some(text::text_of(words[n - 1]))
}

/// The texts of a metric's values on the first `n` lines.
pub open spec fn metrics_of(lines: Seq<Seq<char>>, name: Seq<char>, n: int) -> Seq<Seq<char>>
    decreases n,
{
    if n <= 0 {
        seq![]
    } else {
        match metric_of(lines[n - 1], name) {
            Some(value) => metrics_of(lines, name, n - 1).push(value),
            None => metrics_of(lines, name, n - 1),
        }
    }
}

/// The texts of the values that a metric has, in order.
pub open spec fn metric_texts(source: Seq<char>, name: Seq<char>) -> Seq<Seq<char>> {
    let lines = text::lines_from(source, 0);
    metrics_of(lines, name, lines.len() as int)
}

/// The texts of the values that a metric has, in order.
pub fn metric_values(source: &str, name: &str) -> (r: Vec<String>)
    ensures
        r.deep_view() == metric_texts(source@, name@),
{
    let chars = text::chars_of(source);
    let lines = text::lines(chars.as_slice());
    let ghost all = text::lines_from(source@, 0);
    let mut r: Vec<String> = Vec::new();
    let mut i: usize = 0;
    assert(r.deep_view() =~= seq![]);
    while i < lines.len()
        invariant
            i <= lines@.len(),
            lines@.len() == all.len(),
            forall|j: int| 0 <= j < lines@.len() ==> (#[trigger] lines@[j])@ == all[j],
            r.deep_view() == metrics_of(all, name@, i as int),
        decreases lines@.len() - i,
    {
        assert(lines@[i as int]@ == all[i as int]);
        let ghost before = r.deep_view();
        if let Some(value) = metric_value(lines[i], name) {
            r.push(value);
            assert(r.deep_view() =~= before.push(value@));
        }
        i += 1;
    }
    r
}

/// The values of the sum and of the count of decision times, as texts in order.
/// The last readable one of each counts.
pub fn decision_texts(source: &str) -> (r: (Vec<String>, Vec<String>))
    ensures
        r.0.deep_view() == metric_texts(
            source@,
            "wayfinder_router_decision_latency_seconds_sum"@,
        ),
        r.1.deep_view() == metric_texts(
            source@,
            "wayfinder_router_decision_latency_seconds_count"@,
        ),
{
    (
        metric_values(source, "wayfinder_router_decision_latency_seconds_sum"),
        metric_values(source, "wayfinder_router_decision_latency_seconds_count"),
    )
}

/// Ceilings of this adapter's transport.
pub fn transport_config() -> (r: Result<TransportConfig, ClassifiedError>)
    ensures
        r == Ok::<TransportConfig, ClassifiedError>(
            transport::ceilings(3, 5, MAX_RESPONSE_BYTES, 3, retry::one_retry(100, 5)),
        ),
        r->Ok_0.valid(),
{
    transport::bounded(
        3,
        5,
        MAX_RESPONSE_BYTES,
        3,
        RetryPolicy::one(Duration::from_millis(100), Duration::from_secs(5)),
    )
}

/// Savings are told only of requests that saved something; less than a cent is told
/// as such, and amounts only where the routes are priced.
pub proof fn law_savings_are_told_where_there_are_some(savings: Savings)
    ensures
        saved_line(savings) is Some <==> savings.requests > 0 && savings.saved.positive(),
        savings.priced && savings.requests > 0 && savings.saved.positive() && savings.saved.scale == 2
            && savings.saved.magnitude >= 1 ==> exists|rest: Seq<char>|
            saved_line(savings) == Some(#[trigger] (xai::usd(savings.saved) + rest)),
{
    if savings.priced && savings.requests > 0 && savings.saved.positive() && savings.saved.scale
        == 2 {
        let cent = Decimal { negative: false, magnitude: 1, scale: 2 };
        let hundred = decimal::pow10(2);
        decimal::lemma_pow10_positive(2);
        assert(!savings.saved.less(cent)) by (nonlinear_arith)
            requires
                savings.saved.less(cent) == (savings.saved.mantissa() * hundred < cent.mantissa()
                    * hundred),
                hundred > 0,
                savings.saved.mantissa() >= 1,
                cent.mantissa() == 1,
        ;
        let percent = (if savings.saved_percent.integral() {
            decimal::decimal_fixed(savings.saved_percent, 0)
        } else {
            decimal::decimal_fixed(savings.saved_percent, 1)
        }) + "% vs highest-cost route"@;
        assert(xai::usd(savings.saved) + " · "@ + percent =~= xai::usd(savings.saved) + (" · "@
            + percent));
    }
}

/// A gateway that is offline says so first, then one on a dry run, then a degraded
/// one.
pub proof fn law_labels_tell_the_worst_first(state: GatewayState)
    ensures
        state.offline ==> label_of(state) == "Offline mode"@,
        !state.offline && state.dry_run ==> label_of(state) == "Dry run"@,
        !state.offline && !state.dry_run && state.status@ != "degraded"@ ==> label_of(state)
            == "Local gateway"@,
        !state.offline && !state.dry_run && state.status@ == "degraded"@ && state.missing_keys > 1
            ==> label_of(state) == "Degraded — "@ + text::digits(state.missing_keys as nat)
            + " keys missing"@,
{
}

} // verus!
