//! Warp monthly and add-on credits.

use vstd::prelude::*;

use crate::decimal;
use crate::error;
use crate::error::{ClassifiedError, ErrorKind};
use crate::instant;
use crate::instant::Timestamp;
use crate::json;
use crate::json::{Json, Tree};
use crate::registry::ProviderId;
use crate::retry;
use crate::retry::RetryPolicy;
use crate::settings;
use crate::settings::{ApiKeyCredential, Environment};
use crate::text;
use crate::transport;
use crate::transport::TransportConfig;
use crate::usage;
use crate::usage::{RateWindow, SampleView, Share, UsageSample, WindowView};

verus! {

pub const MAX_RESPONSE_BYTES: usize = 2 * 1024 * 1024;

pub const MAX_PLATFORM_TEXT_BYTES: usize = 128;

/// The variables that may hold the key, in order.
pub open spec fn key_names() -> Seq<Seq<char>> {
    seq!["WARP_API_KEY"@, "WARP_TOKEN"@]
}

/// The adapter of one account.
pub struct WarpProvider {
    pub platform: PlatformMetadata,
}

impl WarpProvider {
    /// Selects the key of an environment.
    pub fn resolve_credential(environment: &Environment) -> (r: Result<
        ApiKeyCredential,
        ClassifiedError,
    >)
        ensures
            settings::is_selected_key(r, *environment, key_names()),
    {
        let names = vec!["WARP_API_KEY", "WARP_TOKEN"];
        assert(names.deep_view() =~= key_names());
        ApiKeyCredential::resolve(environment, &names)
    }

    /// Wraps the client of an account.
    pub fn from_client(provider: ProviderId, platform: PlatformMetadata) -> (r: Result<
        WarpProvider,
        ClassifiedError,
    >)
        ensures
            match r {
                Ok(adapter) => provider == ProviderId::Warp && adapter.platform == platform,
                Err(e) => provider != ProviderId::Warp && e == error::plain(ErrorKind::Api),
            },
    {
        if provider != ProviderId::Warp {
            return Err(ClassifiedError::new(ErrorKind::Api));
        }
        Ok(WarpProvider { platform })
    }

    /// The headers of a request besides its authentication.
    pub fn headers(&self) -> (r: Vec<(String, String)>)
        ensures
            r.deep_view() == seq![
                ("x-warp-client-id"@, "warp-app"@),
                ("x-warp-os-category"@, self.platform.category@),
                ("x-warp-os-name"@, self.platform.name@),
                ("x-warp-os-version"@, self.platform.version@),
                ("user-agent"@, "Warp/1.0"@),
            ],
    {
        vec![
            ("x-warp-client-id".to_owned(), "warp-app".to_owned()),
            ("x-warp-os-category".to_owned(), self.platform.category.clone()),
            ("x-warp-os-name".to_owned(), self.platform.name.clone()),
            ("x-warp-os-version".to_owned(), self.platform.version.clone()),
            ("user-agent".to_owned(), "Warp/1.0".to_owned()),
        ]
    }
}

/// What a request tells about the system.
pub struct PlatformMetadata {
    pub category: String,
    pub name: String,
    pub version: String,
}

/// The value of the first line `key=value` at or behind `from`.
pub open spec fn line_value(lines: Seq<Seq<char>>, key: Seq<char>, from: int) -> Option<Seq<char>>
    decreases lines.len() - from,
{
    if from < 0 || from >= lines.len() {
        None
    } else {
        match text::split_at_first(lines[from], '=') {
            Some((name, value)) => if name == key {
                Some(value)
            } else {
                line_value(lines, key, from + 1)
            },
            None => line_value(lines, key, from + 1),
        }
    }
}

/// Whether a text is short and made of visible ASCII characters and spaces.
pub open spec fn platform_text_ok(s: Seq<char>) -> bool {
    s.len() > 0 && text::byte_len(s) <= MAX_PLATFORM_TEXT_BYTES && forall|i: int|
        0 <= i < s.len() ==> ' ' <= #[trigger] s[i] && s[i] <= '~'
}

/// The usable value of a key in a release description.
pub open spec fn release_value(contents: Seq<char>, key: Seq<char>) -> Option<Seq<char>> {
    match line_value(text::pieces(contents, '\n'), key, 0) {
        Some(raw) => {
            let value = settings::unquoted(text::trimmed(raw));
            if platform_text_ok(value) {
                Some(value)
            } else {
                None
            }
        },
        None => None,
    }
}

/// The usable value of a key in a release description.
pub fn os_release_value(contents: &str, key: &str) -> (r: Option<String>)
    ensures
        r.deep_view() == release_value(contents@, key@),
{
    let chars = text::chars_of(contents);
    let lines = text::split(chars.as_slice(), '\n');
    let ghost all = text::pieces(contents@, '\n');
    let mut i: usize = 0;
    while i < lines.len()
        invariant
            all == text::pieces(contents@, '\n'),
            lines@.len() == all.len(),
            forall|j: int| 0 <= j < lines@.len() ==> (#[trigger] lines@[j])@ == all[j],
            i <= lines@.len(),
            line_value(all, key@, 0) == line_value(all, key@, i as int),
        decreases lines@.len() - i,
    {
        assert(lines@[i as int]@ == all[i as int]);
        if let Some((name, raw)) = text::split_once(lines[i], '=') {
            if text::equals(name, key) {
                let value = settings::unquote(text::trim(raw));
                let shown = text::text_of(value);
                if value.len() == 0 || shown.as_str().len() > MAX_PLATFORM_TEXT_BYTES {
                    return None;
                }
                let mut k: usize = 0;
                while k < value.len()
                    invariant
                        k <= value@.len(),
                        forall|j: int| 0 <= j < k ==> ' ' <= #[trigger] value@[j] && value@[j] <= '~',
                        release_value(contents@, key@) == (if platform_text_ok(value@) {
                            Some(value@)
                        } else {
                            None
                        }),
                    decreases value@.len() - k,
                {
                    if !(' ' <= value[k] && value[k] <= '~') {
                        return None;
                    }
                    k += 1;
                }
                return Some(shown);
            }
        }
        i += 1;
    }
    None
}

/// A text, or another where it is missing.
pub open spec fn or_else(value: Option<Seq<char>>, other: Seq<char>) -> Seq<char> {
    match value {
        Some(v) => v,
        None => other,
    }
}

impl PlatformMetadata {
    /// Describes a system of a category by its release description, where there
    /// is one.
    pub fn describe(category: &str, contents: &Option<String>) -> (r: PlatformMetadata)
        ensures
            r.category@ == category@,
            r.name@ == (match *contents {
                Some(release) => or_else(release_value(release@, "NAME"@), category@),
                None => category@,
            }),
            r.version@ == (match *contents {
                Some(release) => or_else(release_value(release@, "VERSION_ID"@), "unknown"@),
                None => "unknown"@,
            }),
    {
        let mut name = category.to_owned();
        let mut version = "unknown".to_owned();
        if let Some(release) = contents {
            if let Some(value) = os_release_value(release.as_str(), "NAME") {
                name = value;
            }
            if let Some(value) = os_release_value(release.as_str(), "VERSION_ID") {
                version = value;
            }
        }
        PlatformMetadata { category: category.to_owned(), name, version }
    }
}

/// The query for the credits.
pub open spec fn query_text() -> Seq<char> {
    "query GetRequestLimitInfo($requestContext: RequestContext!) {
  user(requestContext: $requestContext) {
    __typename
    ... on UserOutput {
      user {
        requestLimitInfo {
          isUnlimited
          nextRefreshTime
          requestLimit
          requestsUsedSinceLastRefresh
        }
        bonusGrants {
          requestCreditsGranted
          requestCreditsRemaining
          expiration
        }
        workspaces {
          bonusGrantsInfo {
            grants {
              requestCreditsGranted
              requestCreditsRemaining
              expiration
            }
          }
        }
      }
    }
  }
}"@
}

fn query() -> (r: &'static str)
    ensures
        r@ == query_text(),
{
    "query GetRequestLimitInfo($requestContext: RequestContext!) {
  user(requestContext: $requestContext) {
    __typename
    ... on UserOutput {
      user {
        requestLimitInfo {
          isUnlimited
          nextRefreshTime
          requestLimit
          requestsUsedSinceLastRefresh
        }
        bonusGrants {
          requestCreditsGranted
          requestCreditsRemaining
          expiration
        }
        workspaces {
          bonusGrantsInfo {
            grants {
              requestCreditsGranted
              requestCreditsRemaining
              expiration
            }
          }
        }
      }
    }
  }
}"
}

/// The document of a request, with the keys of each object in order.
pub open spec fn request_tree(category: Seq<char>, name: Seq<char>, version: Seq<char>) -> Tree {
    Tree::Object(
        seq!["operationName"@, "query"@, "variables"@],
        seq![
            Tree::Text("GetRequestLimitInfo"@),
            Tree::Text(query_text()),
            Tree::Object(
                seq!["requestContext"@],
                seq![
                    Tree::Object(
                        seq!["clientContext"@, "osContext"@],
                        seq![
                            Tree::Object(seq![], seq![]),
                            Tree::Object(
                                seq!["category"@, "name"@, "version"@],
                                seq![
                                    Tree::Text(category),
                                    Tree::Text(name),
                                    Tree::Text(version),
                                ],
                            ),
                        ],
                    ),
                ],
            ),
        ],
    )
}

/// The text of a request.
pub fn request_body(platform: &PlatformMetadata) -> (r: String)
    ensures
        r@ == json::rendered(
            request_tree(platform.category@, platform.name@, platform.version@),
        ),
{
    let ghost whole = request_tree(platform.category@, platform.name@, platform.version@);
    let ghost variables_tree = json::children(whole)[2];
    let ghost context_tree = json::children(variables_tree)[0];
    let ghost system_tree = json::children(context_tree)[1];
    let client = Json::Object(Vec::new());
    assert(json::keys(client.tree()) =~= seq![]);
    assert(json::children(client.tree()) =~= seq![]);
    let system = Json::Object(
        vec![
            ("category".to_owned(), json::owned_text(platform.category.as_str())),
            ("name".to_owned(), json::owned_text(platform.name.as_str())),
            ("version".to_owned(), json::owned_text(platform.version.as_str())),
        ],
    );
    assert(json::keys(system.tree()) =~= json::keys(system_tree));
    assert(json::children(system.tree()) =~= json::children(system_tree));
    let context = Json::Object(
        vec![("clientContext".to_owned(), client), ("osContext".to_owned(), system)],
    );
    assert(json::keys(context.tree()) =~= json::keys(context_tree));
    assert(json::children(context.tree()) =~= json::children(context_tree));
    let variables = Json::Object(vec![("requestContext".to_owned(), context)]);
    assert(json::keys(variables.tree()) =~= json::keys(variables_tree));
    assert(json::children(variables.tree()) =~= json::children(variables_tree));
    let request = Json::Object(
        vec![
            ("operationName".to_owned(), json::owned_text("GetRequestLimitInfo")),
            ("query".to_owned(), json::owned_text(query())),
            ("variables".to_owned(), variables),
        ],
    );
    assert(json::keys(request.tree()) =~= json::keys(whole));
    assert(json::children(request.tree()) =~= json::children(whole));
    json::render(&request)
}

/// The whole number that a value holds; zero where it holds none.
pub open spec fn int_of(value: Option<Tree>) -> i64 {
    match value {
        Some(Tree::Number(n)) => match decimal::decimal_parsed(n) {
            Some(d) => if i64::MIN <= d.truncated() <= i64::MAX {
                d.truncated() as i64
            } else {
                0
            },
            None => 0,
        },
        Some(Tree::Text(s)) => match text::i64_value(s) {
            Some(n) => n,
            None => 0,
        },
        _ => 0,
    }
}

/// The whole number that a value holds.
pub fn int_value(value: &Option<Json>) -> (r: i64)
    ensures
        r == int_of(json::optional_tree(*value)),
{
    match value {
        Some(Json::Number(n)) => match decimal::parse(n.as_str()) {
            Some(d) => match d.to_i64() {
                Some(whole) => whole,
                None => 0,
            },
            None => 0,
        },
        Some(Json::Text(s)) => {
            let chars = text::chars_of(s.as_str());
            match text::parse_i64(chars.as_slice()) {
                Some(n) => n,
                None => 0,
            }
        },
        _ => 0,
    }
}

/// Whether a value says yes.
pub open spec fn bool_of(value: Option<Tree>) -> bool {
    match value {
        Some(Tree::Bool(b)) => b,
        Some(Tree::Number(n)) => json::nonzero_from(n, 0),
        Some(Tree::Text(s)) => {
            let word = text::lower(text::trimmed(s));
            word == "true"@ || word == "1"@ || word == "yes"@
        },
        _ => false,
    }
}

/// Whether a value says yes.
pub fn bool_value(value: &Option<Json>) -> (r: bool)
    ensures
        r == bool_of(json::optional_tree(*value)),
{
    match value {
        Some(Json::Bool(b)) => *b,
        Some(Json::Number(n)) => json::is_nonzero(n.as_str()),
        Some(Json::Text(s)) => {
            let chars = text::chars_of(s.as_str());
            let word = text::to_lower(text::trim(chars.as_slice()));
            text::equals(word.as_slice(), "true") || text::equals(word.as_slice(), "1")
                || text::equals(word.as_slice(), "yes")
        },
        _ => false,
    }
}

/// The monthly limit of an answer.
pub struct RequestLimitInfo {
    pub is_unlimited: Option<Json>,
    pub next_refresh_time: Option<String>,
    pub request_limit: Option<Json>,
    pub requests_used: Option<Json>,
}

/// An add-on grant of an answer.
pub struct BonusGrant {
    pub granted: Option<Json>,
    pub remaining: Option<Json>,
    pub expiration: Option<String>,
}

/// The user of an answer; of each workspace only its grants are kept.
pub struct User {
    pub request_limit_info: Option<RequestLimitInfo>,
    pub bonus_grants: Option<Vec<BonusGrant>>,
    pub workspaces: Vec<Vec<BonusGrant>>,
}

/// An answer: whether it reports errors, and the user where both levels that
/// hold them are there.
pub struct GraphQlResponse {
    pub has_errors: bool,
    pub user: Option<User>,
}

/// The numbers of a grant.
#[derive(Debug, Clone, Copy, PartialEq, Eq, Structural)]
pub struct Grant {
    pub granted: i64,
    pub remaining: i64,
    pub expiration: Option<Timestamp>,
}

/// The instant that an optional text denotes.
pub open spec fn optional_instant(source: Option<String>) -> Option<Timestamp> {
    match source {
        Some(s) => instant::instant_of_text(s@),
        None => None,
    }
}

fn read_instant(source: &Option<String>) -> (r: Option<Timestamp>)
    ensures
        r == optional_instant(*source),
        r is Some ==> r->0.in_calendar(),
{
    match source {
        Some(s) => Timestamp::parse(s.as_str()),
        None => None,
    }
}

/// The numbers of a grant.
pub open spec fn grant_of(g: BonusGrant) -> Grant {
    Grant {
        granted: int_of(json::optional_tree(g.granted)),
        remaining: int_of(json::optional_tree(g.remaining)),
        expiration: optional_instant(g.expiration),
    }
}

/// The numbers of several grants.
pub open spec fn grants_in(list: Seq<BonusGrant>) -> Seq<Grant> {
    Seq::new(list.len(), |i: int| grant_of(list[i]))
}

/// The numbers of the grants of the first `n` workspaces.
pub open spec fn workspace_grants(list: Seq<Vec<BonusGrant>>, n: int) -> Seq<Grant>
    decreases n,
{
    if n <= 0 {
        seq![]
    } else {
        workspace_grants(list, n - 1) + grants_in(list[n - 1]@)
    }
}

/// The numbers of all grants of a user: their own before those of workspaces.
pub open spec fn user_grants(user: User) -> Seq<Grant> {
    (match user.bonus_grants {
        Some(list) => grants_in(list@),
        None => seq![],
    }) + workspace_grants(user.workspaces@, user.workspaces@.len() as int)
}

/// Whether every expiry lies in the calendar.
pub open spec fn dated(grants: Seq<Grant>) -> bool {
    forall|i: int|
        0 <= i < grants.len() ==> ((#[trigger] grants[i]).expiration matches Some(at)
            ==> at.in_calendar())
}

fn push_grants(out: &mut Vec<Grant>, list: &Vec<BonusGrant>)
    requires
        dated(old(out)@),
    ensures
        final(out)@ == old(out)@ + grants_in(list@),
        dated(final(out)@),
{
    let ghost before = out@;
    let mut i: usize = 0;
    assert(out@ =~= before + grants_in(list@).take(0));
    while i < list.len()
        invariant
            i <= list@.len(),
            out@ == before + grants_in(list@).take(i as int),
            dated(out@),
        decreases list@.len() - i,
    {
        let grant = Grant {
            granted: int_value(&list[i].granted),
            remaining: int_value(&list[i].remaining),
            expiration: read_instant(&list[i].expiration),
        };
        out.push(grant);
        assert(grants_in(list@).take(i as int + 1) =~= grants_in(list@).take(i as int).push(
            grants_in(list@)[i as int],
        ));
        i += 1;
    }
    assert(grants_in(list@).take(list@.len() as int) =~= grants_in(list@));
}

/// The numbers of all grants of a user.
pub fn collect_grants(user: &User) -> (r: Vec<Grant>)
    ensures
        r@ == user_grants(*user),
        dated(r@),
{
    let mut out: Vec<Grant> = Vec::new();
    if let Some(list) = &user.bonus_grants {
        push_grants(&mut out, list);
    }
    let ghost own = out@;
    assert(own =~= (match user.bonus_grants {
        Some(list) => grants_in(list@),
        None => seq![],
    }));
    let mut i: usize = 0;
    while i < user.workspaces.len()
        invariant
            i <= user.workspaces@.len(),
            out@ =~= own + workspace_grants(user.workspaces@, i as int),
            dated(out@),
        decreases user.workspaces@.len() - i,
    {
        push_grants(&mut out, &user.workspaces[i]);
        i += 1;
    }
    out
}

/// A sum that may leave the range of 64 bits.
pub open spec fn checked_sum(a: Option<i64>, b: i64) -> Option<i64> {
    match a {
        Some(x) => if i64::MIN <= x + b <= i64::MAX {
            Some((x + b) as i64)
        } else {
            None
        },
        None => None,
    }
}

/// The credits granted by the first `n` grants.
pub open spec fn granted_sum(grants: Seq<Grant>, n: int) -> Option<i64>
    decreases n,
{
    if n <= 0 {
        Some(0i64)
    } else {
        checked_sum(granted_sum(grants, n - 1), grants[n - 1].granted)
    }
}

/// The credits left of the first `n` grants.
pub open spec fn remaining_sum(grants: Seq<Grant>, n: int) -> Option<i64>
    decreases n,
{
    if n <= 0 {
        Some(0i64)
    } else {
        checked_sum(remaining_sum(grants, n - 1), grants[n - 1].remaining)
    }
}

/// The earliest expiry of the first `n` grants that have credits left.
pub open spec fn earliest(grants: Seq<Grant>, n: int) -> Option<Timestamp>
    decreases n,
{
    if n <= 0 {
        None
    } else {
        let before = earliest(grants, n - 1);
        let grant = grants[n - 1];
        if grant.remaining > 0 && grant.expiration is Some && (before is None
            || grant.expiration->0.nanos < before->0.nanos) {
            grant.expiration
        } else {
            before
        }
    }
}

/// The credits left of the first `n` grants that expire in the second of `at`.
pub open spec fn expiring_sum(grants: Seq<Grant>, at: Timestamp, n: int) -> Option<i64>
    decreases n,
{
    if n <= 0 {
        Some(0i64)
    } else {
        let before = expiring_sum(grants, at, n - 1);
        let grant = grants[n - 1];
        if grant.remaining > 0 && grant.expiration is Some && grant.expiration->0.seconds()
            == at.seconds() {
            checked_sum(before, grant.remaining)
        } else {
            before
        }
    }
}

/// What the grants of a user add up to.
#[derive(Debug, Clone, Copy, PartialEq, Eq, Structural)]
pub struct BonusSummary {
    pub remaining: i64,
    pub total: i64,
    pub next_expiration: Option<Timestamp>,
    pub next_expiration_remaining: i64,
}

/// What grants add up to; `None` where a sum overflows.
pub open spec fn summary_of(grants: Seq<Grant>) -> Option<BonusSummary> {
    let n = grants.len() as int;
    let next = earliest(grants, n);
    let expiring = match next {
        Some(at) => expiring_sum(grants, at, n),
        None => Some(0i64),
    };
    match (granted_sum(grants, n), remaining_sum(grants, n), expiring) {
        (Some(total), Some(remaining), Some(expiring)) => Some(
            BonusSummary {
                remaining,
                total,
                next_expiration: next,
                next_expiration_remaining: expiring,
            },
        ),
        _ => None,
    }
}

proof fn lemma_sum_failures(grants: Seq<Grant>, at: Timestamp, n: int, m: int)
    requires
        0 <= n <= m,
    ensures
        granted_sum(grants, n) is None ==> granted_sum(grants, m) is None,
        remaining_sum(grants, n) is None ==> remaining_sum(grants, m) is None,
        expiring_sum(grants, at, n) is None ==> expiring_sum(grants, at, m) is None,
    decreases m - n,
{
    if n < m {
        lemma_sum_failures(grants, at, n, m - 1);
    }
}

fn earliest_expiry(grants: &Vec<Grant>) -> (r: Option<Timestamp>)
    requires
        dated(grants@),
    ensures
        r == earliest(grants@, grants@.len() as int),
        r is Some ==> r->0.in_calendar(),
{
    let mut next: Option<Timestamp> = None;
    let mut i: usize = 0;
    while i < grants.len()
        invariant
            dated(grants@),
            i <= grants@.len(),
            next == earliest(grants@, i as int),
            next is Some ==> next->0.in_calendar(),
        decreases grants@.len() - i,
    {
        if grants[i].remaining > 0 {
            if let Some(at) = grants[i].expiration {
                let sooner = match next {
                    Some(before) => at.nanos < before.nanos,
                    None => true,
                };
                if sooner {
                    next = Some(at);
                }
            }
        }
        i += 1;
    }
    next
}

/// What grants add up to.
pub fn bonus_summary(grants: &Vec<Grant>) -> (r: Result<BonusSummary, ClassifiedError>)
    requires
        dated(grants@),
    ensures
        match r {
            Ok(summary) => summary_of(grants@) == Some(summary) && (summary.next_expiration
                is Some ==> summary.next_expiration->0.in_calendar()),
            Err(e) => summary_of(grants@) is None && e == error::plain(ErrorKind::Parse),
        },
{
    let ghost all = grants@;
    let next = earliest_expiry(grants);
    let mut total: i64 = 0;
    let mut remaining: i64 = 0;
    let mut expiring: i64 = 0;
    let mut i: usize = 0;
    while i < grants.len()
        invariant
            all == grants@,
            i <= all.len(),
            next == earliest(all, all.len() as int),
            granted_sum(all, i as int) == Some(total),
            remaining_sum(all, i as int) == Some(remaining),
            next matches Some(at) ==> expiring_sum(all, at, i as int) == Some(expiring),
            next is None ==> expiring == 0,
        decreases all.len() - i,
    {
        let grant = grants[i];
        let ghost moment = next.unwrap_or(Timestamp { nanos: 0 });
        proof {
            lemma_sum_failures(all, moment, i as int + 1, all.len() as int);
        }
        total =
        match total.checked_add(grant.granted) {
            Some(sum) => sum,
            None => return Err(ClassifiedError::new(ErrorKind::Parse)),
        };
        remaining =
        match remaining.checked_add(grant.remaining) {
            Some(sum) => sum,
            None => return Err(ClassifiedError::new(ErrorKind::Parse)),
        };
        if let (Some(at), Some(expiry)) = (next, grant.expiration) {
            if grant.remaining > 0 && expiry.unix_seconds() == at.unix_seconds() {
                expiring =
                match expiring.checked_add(grant.remaining) {
                    Some(sum) => sum,
                    None => return Err(ClassifiedError::new(ErrorKind::Parse)),
                };
            }
        }
        i += 1;
    }
    Ok(
        BonusSummary {
            remaining,
            total,
            next_expiration: next,
            next_expiration_remaining: expiring,
        },
    )
}

proof fn lemma_earliest(grants: Seq<Grant>, n: int)
    ensures
        forall|i: int|
            0 <= i < n && (#[trigger] grants[i]).remaining > 0 && grants[i].expiration is Some
                ==> earliest(grants, n) is Some && earliest(grants, n)->0.nanos
                <= grants[i].expiration->0.nanos,
    decreases n,
{
    if n > 0 {
        lemma_earliest(grants, n - 1);
    }
}

/// No grant with credits left expires before the expiry that is shown.
pub proof fn law_shown_expiry_is_first(grants: Seq<Grant>)
    ensures
        summary_of(grants) matches Some(summary) ==> forall|i: int|
            0 <= i < grants.len() && (#[trigger] grants[i]).remaining > 0 && grants[i].expiration
                is Some ==> summary.next_expiration is Some && summary.next_expiration->0.nanos
                <= grants[i].expiration->0.nanos,
{
    lemma_earliest(grants, grants.len() as int);
}

/// A usage window.
pub struct CreditWindow {
    pub share: Share,
    pub resets_at: Option<Timestamp>,
    pub description: Option<String>,
}

/// Mathematical value of a [`CreditWindow`].
pub struct CreditView {
    pub share: Share,
    pub resets_at: Option<Timestamp>,
    pub description: Option<Seq<char>>,
}

impl CreditWindow {
    pub open spec fn value(self) -> CreditView {
        CreditView {
            share: self.share,
            resets_at: self.resets_at,
            description: self.description.deep_view(),
        }
    }
}

/// The value of an optional window.
pub open spec fn credit_value(window: Option<CreditWindow>) -> Option<CreditView> {
    match window {
        Some(w) => Some(w.value()),
        None => None,
    }
}

/// An instant as shown to a reader.
pub open spec fn shown_instant(at: Timestamp) -> Seq<char> {
    match instant::rfc3339_text(at) {
        Some(s) => s,
        None => instant::moment_text(instant::civil(at)),
    }
}

/// The line on the credits that expire next.
pub open spec fn expiry_detail(bonus: BonusSummary) -> Option<Seq<char>> {
    if bonus.next_expiration is Some && bonus.next_expiration_remaining > 0 {
        Some(
            text::signed_digits(bonus.next_expiration_remaining as int)
                + " credits expires on "@ + shown_instant(bonus.next_expiration->0),
        )
    } else {
        None
    }
}

/// The window of the grants: `Some(None)` without any, `None` where the used
/// credits overflow.
pub open spec fn bonus_window_of(bonus: BonusSummary) -> Option<Option<CreditView>> {
    let detail = expiry_detail(bonus);
    if bonus.total <= 0 && bonus.remaining <= 0 && detail is None {
        Some(None)
    } else if bonus.total > 0 && !(i64::MIN <= bonus.total - bonus.remaining <= i64::MAX) {
        None
    } else {
        Some(
            Some(
                CreditView {
                    share: if bonus.total > 0 {
                        Share::Count {
                            used: (bonus.total - bonus.remaining) as i64,
                            total: bonus.total,
                        }
                    } else if bonus.remaining > 0 {
                        Share::Percent(0)
                    } else {
                        Share::Percent(100)
                    },
                    resets_at: None,
                    description: detail,
                },
            ),
        )
    }
}

/// The window of the grants.
pub fn bonus_window(bonus: &BonusSummary) -> (r: Result<Option<CreditWindow>, ClassifiedError>)
    requires
        bonus.next_expiration is Some ==> bonus.next_expiration->0.in_calendar(),
    ensures
        match r {
            Ok(window) => bonus_window_of(*bonus) == Some(credit_value(window)),
            Err(e) => bonus_window_of(*bonus) is None && e == error::plain(ErrorKind::Parse),
        },
{
    let mut description: Option<String> = None;
    if let Some(at) = bonus.next_expiration {
        if bonus.next_expiration_remaining > 0 {
            let mut line = String::new();
            text::push_signed(&mut line, bonus.next_expiration_remaining);
            line.append(" credits expires on ");
            let shown = match instant::to_rfc3339(at) {
                Some(s) => s,
                None => instant::moment_of(instant::to_civil(at)),
            };
            line.append(shown.as_str());
            assert(line@ =~= expiry_detail(*bonus)->0);
            description = Some(line);
        }
    }
    if bonus.total <= 0 && bonus.remaining <= 0 && description.is_none() {
        return Ok(None);
    }
    let share = if bonus.total > 0 {
        match bonus.total.checked_sub(bonus.remaining) {
            Some(used) => Share::Count { used, total: bonus.total },
            None => return Err(ClassifiedError::new(ErrorKind::Parse)),
        }
    } else if bonus.remaining > 0 {
        Share::Percent(0)
    } else {
        Share::Percent(100)
    };
    Ok(Some(CreditWindow { share, resets_at: None, description }))
}

/// The reading of an account.
pub struct WarpUsage {
    pub primary: CreditWindow,
    pub secondary: Option<CreditWindow>,
}

/// The monthly window.
pub open spec fn monthly_window(limit: RequestLimitInfo) -> CreditView {
    if bool_of(json::optional_tree(limit.is_unlimited)) {
        CreditView {
            share: Share::Percent(0),
            resets_at: None,
            description: Some("Unlimited"@),
        }
    } else {
        let used = int_of(json::optional_tree(limit.requests_used));
        let total = int_of(json::optional_tree(limit.request_limit));
        CreditView {
            share: Share::Count { used, total },
            resets_at: optional_instant(limit.next_refresh_time),
            description: Some(
                text::signed_digits(used as int) + "/"@ + text::signed_digits(total as int)
                    + " credits"@,
            ),
        }
    }
}

fn read_monthly(limit: &RequestLimitInfo) -> (r: CreditWindow)
    ensures
        r.value() == monthly_window(*limit),
{
    if bool_value(&limit.is_unlimited) {
        return CreditWindow {
            share: Share::Percent(0),
            resets_at: None,
            description: Some("Unlimited".to_owned()),
        };
    }
    let used: i64 = int_value(&limit.requests_used);
    let total: i64 = int_value(&limit.request_limit);
    let mut line = String::new();
    text::push_signed(&mut line, used);
    line.append("/");
    text::push_signed(&mut line, total);
    line.append(" credits");
    assert(line@ =~= text::signed_digits(used as int) + "/"@ + text::signed_digits(total as int)
        + " credits"@);
    CreditWindow {
        share: Share::Count { used, total },
        resets_at: read_instant(&limit.next_refresh_time),
        description: Some(line),
    }
}

/// The two windows of an answer, or its failure.
pub open spec fn usage_of(response: GraphQlResponse) -> Result<
    (CreditView, Option<CreditView>),
    ErrorKind,
> {
    if response.has_errors {
        Err(ErrorKind::Api)
    } else {
        match response.user {
            Some(user) => match user.request_limit_info {
                Some(limit) => match summary_of(user_grants(user)) {
                    Some(bonus) => match bonus_window_of(bonus) {
                        Some(secondary) => Ok((monthly_window(limit), secondary)),
                        None => Err(ErrorKind::Parse),
                    },
                    None => Err(ErrorKind::Parse),
                },
                None => Err(ErrorKind::Parse),
            },
            None => Err(ErrorKind::Parse),
        }
    }
}

/// The reading that an answer gives.
pub fn normalize(response: &GraphQlResponse) -> (r: Result<WarpUsage, ClassifiedError>)
    ensures
        match r {
            Ok(read) => usage_of(*response) == Ok::<_, ErrorKind>(
                (read.primary.value(), credit_value(read.secondary)),
            ),
            Err(e) => usage_of(*response) is Err && e == error::plain(
                usage_of(*response)->Err_0,
            ),
        },
{
    if response.has_errors {
        return Err(ClassifiedError::new(ErrorKind::Api));
    }
    let user = match &response.user {
        Some(user) => user,
        None => return Err(ClassifiedError::new(ErrorKind::Parse)),
    };
    let limit = match &user.request_limit_info {
        Some(limit) => limit,
        None => return Err(ClassifiedError::new(ErrorKind::Parse)),
    };
    let primary = read_monthly(limit);
    let grants = collect_grants(user);
    let bonus = match bonus_summary(&grants) {
        Ok(bonus) => bonus,
        Err(e) => return Err(e),
    };
    match bonus_window(&bonus) {
        Ok(secondary) => Ok(WarpUsage { primary, secondary }),
        Err(e) => Err(e),
    }
}

/// A window of credits without its percentage.
pub open spec fn plain_window(credit: CreditView) -> WindowView {
    WindowView {
        used: None,
        minutes: None,
        resets_at: credit.resets_at,
        description: credit.description,
    }
}

/// The reading of an account. The percentages are left open.
pub open spec fn sample_of(fetched_at: Timestamp, read: WarpUsage) -> SampleView {
    SampleView {
        primary: Some(plain_window(read.primary.value())),
        secondary: match read.secondary {
            Some(credit) => Some(plain_window(credit.value())),
            None => None,
        },
        ..usage::empty_sample(ProviderId::Warp, fetched_at, "warp"@, "api"@)
    }
}

/// The reading of an account.
pub fn usage_sample(fetched_at: Timestamp, read: WarpUsage) -> (r: UsageSample)
    ensures
        r.value() == sample_of(fetched_at, read),
{
    let mut sample = UsageSample::empty(ProviderId::Warp, fetched_at, "warp", "api");
    sample.primary = Some(
        RateWindow {
            used: None,
            minutes: None,
            resets_at: read.primary.resets_at,
            description: read.primary.description,
        },
    );
    if let Some(credit) = read.secondary {
        sample.secondary = Some(
            RateWindow {
                used: None,
                minutes: None,
                resets_at: credit.resets_at,
                description: credit.description,
            },
        );
    }
    sample
}

/// Ceilings of this adapter's transport.
pub fn transport_config() -> (r: Result<TransportConfig, ClassifiedError>)
    ensures
        r == Ok::<TransportConfig, ClassifiedError>(
            transport::ceilings(5, 15, MAX_RESPONSE_BYTES, 0, retry::no_retry()),
        ),
        r->Ok_0.valid(),
{
    transport::bounded(5, 15, MAX_RESPONSE_BYTES, 0, RetryPolicy::none())
}

/// Bonuses add up: one more grant adds its granted and its remaining credits, and
/// without grants there are none.
pub proof fn law_bonuses_add_up(grants: Seq<Grant>, more: Grant)
    ensures
        summary_of(seq![]) matches Some(none) && none.total == 0 && none.remaining == 0
            && none.next_expiration is None,
        summary_of(grants) is Some && summary_of(grants.push(more)) is Some ==> {
            let before = summary_of(grants)->0;
            let after = summary_of(grants.push(more))->0;
            &&& after.total == before.total + more.granted
            &&& after.remaining == before.remaining + more.remaining
            &&& more.remaining <= 0 || more.expiration is None ==> after.next_expiration
                == before.next_expiration && after.next_expiration_remaining
                == before.next_expiration_remaining
            &&& more.remaining > 0 && more.expiration is Some && before.next_expiration is None
                ==> after.next_expiration == more.expiration
            &&& more.remaining > 0 && more.expiration is Some && before.next_expiration is Some
                ==> after.next_expiration == (if more.expiration->0.nanos
                < before.next_expiration->0.nanos {
                more.expiration
            } else {
                before.next_expiration
            })
        },
{
    let all = grants.push(more);
    let n = grants.len() as int;
    lemma_grants_prefix(grants, all, n);
    assert(all[n] == more);
    if earliest(all, n + 1) == earliest(grants, n) && earliest(grants, n) is Some {
        lemma_expiring_prefix(grants, all, earliest(grants, n)->0, n);
    }
}

proof fn lemma_grants_prefix(grants: Seq<Grant>, all: Seq<Grant>, n: int)
    requires
        0 <= n <= grants.len() <= all.len(),
        forall|i: int| 0 <= i < grants.len() ==> grants[i] == all[i],
    ensures
        granted_sum(grants, n) == granted_sum(all, n),
        remaining_sum(grants, n) == remaining_sum(all, n),
        earliest(grants, n) == earliest(all, n),
    decreases n,
{
    if n > 0 {
        lemma_grants_prefix(grants, all, n - 1);
    }
}

proof fn lemma_expiring_prefix(grants: Seq<Grant>, all: Seq<Grant>, at: Timestamp, n: int)
    requires
        0 <= n <= grants.len() <= all.len(),
        forall|i: int| 0 <= i < grants.len() ==> grants[i] == all[i],
    ensures
        expiring_sum(grants, at, n) == expiring_sum(all, at, n),
    decreases n,
{
    if n > 0 {
        lemma_expiring_prefix(grants, all, at, n - 1);
    }
}

/// What expires next is counted with every grant that expires in the same second
/// and has credits left.
pub proof fn law_expiring_credits_add_up(grants: Seq<Grant>, more: Grant, at: Timestamp)
    ensures
        ({
            let before = expiring_sum(grants, at, grants.len() as int);
            let after = expiring_sum(grants.push(more), at, grants.len() as int + 1);
            let counts = more.remaining > 0 && more.expiration is Some
                && more.expiration->0.seconds() == at.seconds();
            before is Some && after is Some ==> after->0 == before->0 + (if counts {
                more.remaining as int
            } else {
                0
            })
        }),
{
    lemma_expiring_prefix(grants, grants.push(more), at, grants.len() as int);
    assert(grants.push(more)[grants.len() as int] == more);
}

/// The used and the remaining bonus credits make the total; without a total, what
/// remains tells whether all or nothing is used.
pub proof fn law_bonus_use_and_rest_make_the_total(bonus: BonusSummary)
    ensures
        bonus_window_of(bonus) matches Some(Some(window)) ==> {
            &&& bonus.total > 0 ==> (window.share matches Share::Count { used, total } && total
                == bonus.total && used + bonus.remaining == total)
            &&& bonus.total <= 0 && bonus.remaining > 0 ==> window.share == Share::Percent(0)
            &&& bonus.total <= 0 && bonus.remaining <= 0 ==> window.share == Share::Percent(100)
        },
        bonus.total > 0 && bonus.remaining >= 0 ==> bonus_window_of(bonus) matches Some(Some(_)),
{
}

/// A monthly window counts the used requests of the limit and resets when it
/// refreshes; without limit nothing counts.
pub proof fn law_monthly_windows_count_requests(limit: RequestLimitInfo)
    ensures
        bool_of(json::optional_tree(limit.is_unlimited)) ==> monthly_window(limit).share
            == Share::Percent(0) && monthly_window(limit).resets_at is None,
        !bool_of(json::optional_tree(limit.is_unlimited)) ==> (monthly_window(
            limit,
        ).share matches Share::Count { used, total } && used == int_of(
            json::optional_tree(limit.requests_used),
        ) && total == int_of(json::optional_tree(limit.request_limit)) && monthly_window(
            limit,
        ).resets_at == optional_instant(limit.next_refresh_time)),
{
}

/// The first window is that of the monthly requests, the second that of the bonus
/// grants; an answer with errors is refused.
pub proof fn law_windows_are_of_their_credits(response: GraphQlResponse)
    ensures
        response.has_errors ==> usage_of(response) == Err::<(CreditView, Option<CreditView>), _>(
            ErrorKind::Api,
        ),
        usage_of(response) matches Ok((first, second)) ==> {
            &&& response.user matches Some(user)
            &&& user.request_limit_info matches Some(limit)
            &&& first == monthly_window(limit)
            &&& summary_of(user_grants(user)) matches Some(bonus)
            &&& Some(second) == bonus_window_of(bonus)
        },
{
}

/// The earliest expiry is that of a grant with credits left, and no grant with credits
/// left expires before it.
pub proof fn law_earliest_expiry_goes_first(grants: Seq<Grant>, n: int)
    requires
        0 <= n <= grants.len(),
    ensures
        earliest(grants, n) matches Some(at) ==> (exists|i: int|
            0 <= i < n && (#[trigger] grants[i]).remaining > 0 && grants[i].expiration == Some(at)),
        forall|i: int|
            0 <= i < n && (#[trigger] grants[i]).remaining > 0 && grants[i].expiration is Some
                ==> earliest(grants, n) is Some && earliest(grants, n)->0.nanos
                <= grants[i].expiration->0.nanos,
    decreases n,
{
    if n > 0 {
        law_earliest_expiry_goes_first(grants, n - 1);
        assert(grants[n - 1] == grants[n - 1]);
    }
}

} // verus!
