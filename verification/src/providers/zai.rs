//! z.ai region, usage scope, credentials and endpoints.

use vstd::prelude::*;
use vstd::slice::slice_subrange;

use crate::error;
use crate::error::{ClassifiedError, ErrorKind};
use crate::instant::Duration;
use crate::registry::ProviderId;
use crate::retry;
use crate::retry::RetryPolicy;
use crate::settings;
use crate::settings::{ApiKeyCredential, Environment};
use crate::text;
use crate::transport;
use crate::transport::TransportConfig;
use crate::urls;
use crate::urls::{UrlParts, UrlView};

verus! {

pub const MAX_RESPONSE_BYTES: usize = 2 * 1024 * 1024;

pub const MAX_SCOPE_BYTES: usize = 8 * 1024;

pub const MAX_SECRET_FILE_BYTES: u64 = 16 * 1024;

/// The deployment of an account.
#[derive(Debug, Clone, Copy, PartialEq, Eq, Structural)]
pub enum ZaiRegion {
    Global,
    BigModelCn,
}

/// The origin of a deployment.
pub open spec fn region_origin(region: ZaiRegion) -> Seq<char> {
    match region {
        ZaiRegion::Global => "https://api.z.ai"@,
        ZaiRegion::BigModelCn => "https://open.bigmodel.cn"@,
    }
}

/// The host of a deployment.
pub open spec fn region_host(region: ZaiRegion) -> Seq<char> {
    match region {
        ZaiRegion::Global => "api.z.ai"@,
        ZaiRegion::BigModelCn => "open.bigmodel.cn"@,
    }
}

impl ZaiRegion {
    /// The origin of the deployment.
    pub fn origin(self) -> (r: &'static str)
        ensures
            r@ == region_origin(self),
    {
        match self {
            ZaiRegion::Global => "https://api.z.ai",
            ZaiRegion::BigModelCn => "https://open.bigmodel.cn",
        }
    }

    /// The host of the deployment.
    pub fn host(self) -> (r: &'static str)
        ensures
            r@ == region_host(self),
    {
        match self {
            ZaiRegion::Global => "api.z.ai",
            ZaiRegion::BigModelCn => "open.bigmodel.cn",
        }
    }
}

/// Whose usage is read.
pub enum ZaiUsageScope {
    Personal,
    Team { organization: String, project: String },
}

/// Mathematical value of a [`ZaiUsageScope`]: the organization and the project
/// of a team.
pub open spec fn team_of(scope: ZaiUsageScope) -> Option<(Seq<char>, Seq<char>)> {
    match scope {
        ZaiUsageScope::Personal => None,
        ZaiUsageScope::Team { organization, project } => Some((organization@, project@)),
    }
}

/// Whether a text can name an organization or a project.
pub open spec fn member_ok(s: Seq<char>) -> bool {
    text::trimmed(s).len() > 0 && text::byte_len(s) <= MAX_SCOPE_BYTES && !s.contains('\r')
        && !s.contains('\n')
}

fn holds(s: &[char], c: char) -> (r: bool)
    ensures
        r == s@.contains(c),
{
    let found = text::position(s, c, 0);
    proof {
        text::lemma_find_char_bounds(s@, c, 0);
        if found is Some {
            assert(s@[found->0 as int] == c);
        }
    }
    found.is_some()
}

fn check_member(s: &str) -> (r: bool)
    ensures
        r == member_ok(s@),
{
    let chars = text::chars_of(s);
    text::trim(chars.as_slice()).len() > 0 && s.len() <= MAX_SCOPE_BYTES && !holds(
        chars.as_slice(),
        '\r',
    ) && !holds(chars.as_slice(), '\n')
}

/// Whether a usage scope can be used.
pub open spec fn scope_ok(scope: ZaiUsageScope) -> bool {
    match scope {
        ZaiUsageScope::Personal => true,
        ZaiUsageScope::Team { organization, project } => member_ok(organization@) && member_ok(
            project@,
        ),
    }
}

/// Checks a usage scope.
pub fn validate_scope(scope: &ZaiUsageScope) -> (r: Result<(), ClassifiedError>)
    ensures
        match r {
            Ok(_) => scope_ok(*scope),
            Err(e) => !scope_ok(*scope) && e == error::plain(ErrorKind::Api),
        },
{
    if let ZaiUsageScope::Team { organization, project } = scope {
        if !check_member(organization.as_str()) || !check_member(project.as_str()) {
            return Err(ClassifiedError::new(ErrorKind::Api));
        }
    }
    Ok(())
}

/// A setting, or a default.
pub open spec fn setting_or(environment: Environment, name: Seq<char>, default: Seq<char>) -> Seq<
    char,
> {
    match environment.setting(name) {
        Some(value) => value,
        None => default,
    }
}

fn read_setting(environment: &Environment, name: &str, default: &str) -> (r: String)
    ensures
        r@ == setting_or(*environment, name@, default@),
{
    match environment.get_setting(name) {
        Some(value) => value,
        None => default.to_owned(),
    }
}

/// The region that an environment selects.
pub open spec fn region_of(environment: Environment) -> Option<ZaiRegion> {
    let name = setting_or(environment, "Z_AI_REGION"@, "global"@);
    if name == "global"@ {
        Some(ZaiRegion::Global)
    } else if name == "bigmodel-cn"@ {
        Some(ZaiRegion::BigModelCn)
    } else {
        None
    }
}

/// The region that an environment selects.
pub fn resolve_region(environment: &Environment) -> (r: Result<ZaiRegion, ClassifiedError>)
    ensures
        match r {
            Ok(region) => region_of(*environment) == Some(region),
            Err(e) => region_of(*environment) is None && e == error::plain(ErrorKind::Api),
        },
{
    let name = read_setting(environment, "Z_AI_REGION", "global");
    if text::same_text(name.as_str(), "global") {
        Ok(ZaiRegion::Global)
    } else if text::same_text(name.as_str(), "bigmodel-cn") {
        Ok(ZaiRegion::BigModelCn)
    } else {
        Err(ClassifiedError::new(ErrorKind::Api))
    }
}

/// The variables of an organization, in order.
pub open spec fn organization_names() -> Seq<Seq<char>> {
    seq!["Z_AI_ORGANIZATION"@, "Z_AI_BIGMODEL_ORGANIZATION"@]
}

/// The variables of a project, in order.
pub open spec fn project_names() -> Seq<Seq<char>> {
    seq!["Z_AI_PROJECT"@, "Z_AI_BIGMODEL_PROJECT"@]
}

/// The usage scope that an environment selects: `Some(None)` for a personal one,
/// `None` where it selects none that can be used.
pub open spec fn usage_scope_of(environment: Environment) -> Option<
    Option<(Seq<char>, Seq<char>)>,
> {
    let name = setting_or(environment, "Z_AI_USAGE_SCOPE"@, "personal"@);
    if name == "personal"@ {
        Some(None)
    } else if name == "team"@ {
        match (
            settings::first_setting(environment, organization_names(), 0),
            settings::first_setting(environment, project_names(), 0),
        ) {
            (Some(organization), Some(project)) => if member_ok(organization) && member_ok(
                project,
            ) {
                Some(Some((organization, project)))
            } else {
                None
            },
            _ => None,
        }
    } else {
        None
    }
}

/// The usage scope that an environment selects.
pub fn resolve_usage_scope(environment: &Environment) -> (r: Result<ZaiUsageScope, ClassifiedError>)
    ensures
        match r {
            Ok(scope) => usage_scope_of(*environment) == Some(team_of(scope)) && scope_ok(scope),
            Err(e) => usage_scope_of(*environment) is None && e == error::plain(ErrorKind::Api),
        },
{
    let name = read_setting(environment, "Z_AI_USAGE_SCOPE", "personal");
    if text::same_text(name.as_str(), "personal") {
        return Ok(ZaiUsageScope::Personal);
    }
    if !text::same_text(name.as_str(), "team") {
        return Err(ClassifiedError::new(ErrorKind::Api));
    }
    let organizations = vec!["Z_AI_ORGANIZATION", "Z_AI_BIGMODEL_ORGANIZATION"];
    assert(organizations.deep_view() =~= organization_names());
    let projects = vec!["Z_AI_PROJECT", "Z_AI_BIGMODEL_PROJECT"];
    assert(projects.deep_view() =~= project_names());
    let organization = match settings::first_clean_setting(environment, &organizations) {
        Some(organization) => organization,
        None => return Err(ClassifiedError::new(ErrorKind::Api)),
    };
    let project = match settings::first_clean_setting(environment, &projects) {
        Some(project) => project,
        None => return Err(ClassifiedError::new(ErrorKind::Api)),
    };
    let scope = ZaiUsageScope::Team { organization, project };
    match validate_scope(&scope) {
        Ok(_) => Ok(scope),
        Err(e) => Err(e),
    }
}

/// The variables that may hold the key, in order.
pub open spec fn key_names(region: ZaiRegion) -> Seq<Seq<char>> {
    match region {
        ZaiRegion::Global => seq!["Z_AI_API_KEY"@],
        ZaiRegion::BigModelCn => seq![
            "Z_AI_API_KEY"@,
            "BIGMODEL_API_KEY"@,
            "ZHIPU_API_KEY"@,
            "ZHIPUAI_API_KEY"@,
            "GLM_API_KEY"@,
        ],
    }
}

/// Characters that end a line.
pub open spec fn line_end(c: char) -> bool {
    c == '\n' || c == '\r' || c == '\u{b}' || c == '\u{c}' || c == '\u{85}' || c == '\u{2028}' || c
        == '\u{2029}'
}

fn is_line_end(c: char) -> (r: bool)
    ensures
        r == line_end(c),
{
    c == '\n' || c == '\r' || c == '\u{b}' || c == '\u{c}' || c == '\u{85}' || c == '\u{2028}' || c
        == '\u{2029}'
}

/// Position of the first character at or behind `from` that ends a line, or does
/// not.
pub open spec fn line_run(s: Seq<char>, from: int, ends: bool) -> int
    decreases s.len() - from,
{
    if from < 0 || from >= s.len() || line_end(s[from]) != ends {
        from
    } else {
        line_run(s, from + 1, ends)
    }
}

proof fn lemma_line_run(s: Seq<char>, from: int, ends: bool)
    requires
        0 <= from <= s.len(),
    ensures
        from <= line_run(s, from, ends) <= s.len(),
    decreases s.len() - from,
{
    if from < s.len() && line_end(s[from]) == ends {
        lemma_line_run(s, from + 1, ends);
    }
}

/// The first line of a text that is not empty; empty where there is none.
pub open spec fn first_line(s: Seq<char>) -> Seq<char> {
    let start = line_run(s, 0, true);
    s.subrange(start, line_run(s, start, false))
}

fn find_line_run(s: &[char], from: usize, ends: bool) -> (r: usize)
    requires
        from <= s@.len(),
    ensures
        r == line_run(s@, from as int, ends),
        from <= r <= s@.len(),
{
    let mut i: usize = from;
    while i < s.len() && is_line_end(s[i]) == ends
        invariant
            from <= i <= s@.len(),
            line_run(s@, from as int, ends) == line_run(s@, i as int, ends),
        decreases s@.len() - i,
    {
        i += 1;
    }
    i
}

/// The key that a key file holds.
pub open spec fn file_key(content: Seq<char>) -> Option<Seq<char>> {
    match settings::cleaned_setting(first_line(content)) {
        Some(key) => if transport::secret_ok(key) {
            Some(key)
        } else {
            None
        },
        None => None,
    }
}

fn read_file_key(content: &str) -> (r: Option<ApiKeyCredential>)
    ensures
        match r {
            Some(credential) => file_key(content@) == Some(credential.key@),
            None => file_key(content@) is None,
        },
{
    let chars = text::chars_of(content);
    let start: usize = find_line_run(chars.as_slice(), 0, true);
    let end: usize = find_line_run(chars.as_slice(), start, false);
    let line = text::text_of(slice_subrange(chars.as_slice(), start, end));
    match settings::clean_setting(line.as_str()) {
        Some(key) => match transport::SecretValue::new(key) {
            Ok(secret) => Some(ApiKeyCredential { key: secret.value }),
            Err(_) => None,
        },
        None => None,
    }
}

/// The key of the first file at or behind `from` that holds one.
pub open spec fn first_file_key(files: Seq<Option<String>>, from: int) -> Option<Seq<char>>
    decreases files.len() - from,
{
    if from < 0 || from >= files.len() {
        None
    } else {
        let key = match files[from] {
            Some(content) => file_key(content@),
            None => None,
        };
        match key {
            Some(k) => Some(k),
            None => first_file_key(files, from + 1),
        }
    }
}

/// The key of an account: from the environment, or else in the Chinese region
/// from the key files below the home directory.
pub open spec fn account_key(
    environment: Environment,
    region: ZaiRegion,
    files: Seq<Option<String>>,
) -> Option<Seq<char>> {
    match settings::selected_key(environment, key_names(region)) {
        Some(key) => Some(key),
        None => if region == ZaiRegion::BigModelCn && environment.setting("HOME"@) is Some {
            first_file_key(files, 0)
        } else {
            None
        },
    }
}

/// The paths of key files below the home directory, in order.
pub fn key_file_paths() -> (r: Vec<&'static str>)
    ensures
        r.deep_view() == seq![
            ".coding-relay/glm-api-key"@,
            ".config/bigmodel/api_key"@,
            ".config/zhipu/api_key"@,
        ],
{
    let r = vec![".coding-relay/glm-api-key", ".config/bigmodel/api_key", ".config/zhipu/api_key"];
    assert(r.deep_view() =~= seq![
        ".coding-relay/glm-api-key"@,
        ".config/bigmodel/api_key"@,
        ".config/zhipu/api_key"@,
    ]);
    r
}

/// Whether a key file of this kind and size may be read.
pub fn key_file_readable(is_file: bool, size: u64) -> (r: bool)
    ensures
        r == (is_file && size <= MAX_SECRET_FILE_BYTES),
{
    is_file && size <= MAX_SECRET_FILE_BYTES
}

/// The key of an account. `files` holds what the key files below the home
/// directory hold, in order.
pub fn resolve_credential(
    environment: &Environment,
    region: ZaiRegion,
    files: &Vec<Option<String>>,
) -> (r: Result<ApiKeyCredential, ClassifiedError>)
    ensures
        match r {
            Ok(credential) => account_key(*environment, region, files@) == Some(credential.key@),
            Err(e) => account_key(*environment, region, files@) is None && e == error::plain(
                ErrorKind::MissingCredential,
            ),
        },
{
    let names = match region {
        ZaiRegion::Global => vec!["Z_AI_API_KEY"],
        ZaiRegion::BigModelCn => vec![
            "Z_AI_API_KEY",
            "BIGMODEL_API_KEY",
            "ZHIPU_API_KEY",
            "ZHIPUAI_API_KEY",
            "GLM_API_KEY",
        ],
    };
    assert(names.deep_view() =~= key_names(region));
    if let Ok(credential) = ApiKeyCredential::resolve(environment, &names) {
        return Ok(credential);
    }
    if region == ZaiRegion::BigModelCn && environment.get_setting("HOME").is_some() {
        let mut i: usize = 0;
        while i < files.len()
            invariant
                i <= files@.len(),
                account_key(*environment, region, files@) == first_file_key(files@, i as int),
            decreases files@.len() - i,
        {
            if let Some(content) = &files[i] {
                if let Some(credential) = read_file_key(content.as_str()) {
                    return Ok(credential);
                }
            }
            i += 1;
        }
    }
    Err(ClassifiedError::new(ErrorKind::MissingCredential))
}

/// Position of the first `/`, `?` or `#` at or behind `from`.
pub open spec fn delimiter(s: Seq<char>, from: int) -> Option<int>
    decreases s.len() - from,
{
    if from < 0 || from >= s.len() {
        None
    } else if s[from] == '/' || s[from] == '?' || s[from] == '#' {
        Some(from)
    } else {
        delimiter(s, from + 1)
    }
}

fn find_delimiter(s: &[char], from: usize) -> (r: Option<usize>)
    requires
        from <= s@.len(),
    ensures
        match r {
            Some(at) => delimiter(s@, from as int) == Some(at as int) && from <= at < s@.len(),
            None => delimiter(s@, from as int) is None,
        },
{
    let mut i: usize = from;
    while i < s.len()
        invariant
            from <= i <= s@.len(),
            delimiter(s@, from as int) == delimiter(s@, i as int),
        decreases s@.len() - i,
    {
        if s[i] == '/' || s[i] == '?' || s[i] == '#' {
            return Some(i);
        }
        i += 1;
    }
    None
}

/// Whether a text can be a scheme: a letter, then letters, digits and signs.
pub open spec fn scheme_text(s: Seq<char>) -> bool {
    forall|i: int| 0 <= i < s.len() ==> scheme_char(#[trigger] s[i], i == 0)
}

/// Characters of a scheme.
pub open spec fn scheme_char(c: char, first: bool) -> bool {
    ('a' <= c && c <= 'z') || ('A' <= c && c <= 'Z') || (!first && (('0' <= c && c <= '9') || c
        == '+' || c == '-' || c == '.'))
}

fn is_scheme(s: &[char]) -> (r: bool)
    ensures
        r == scheme_text(s@),
{
    let mut i: usize = 0;
    while i < s.len()
        invariant
            i <= s@.len(),
            forall|j: int| 0 <= j < i ==> scheme_char(#[trigger] s@[j], j == 0),
        decreases s@.len() - i,
    {
        let c = s[i];
        if !(('a' <= c && c <= 'z') || ('A' <= c && c <= 'Z') || (i != 0 && (('0' <= c && c <= '9')
            || c == '+' || c == '-' || c == '.'))) {
            assert(!scheme_char(s@[i as int], i == 0));
            return false;
        }
        i += 1;
    }
    true
}

/// Whether a text has a scheme: a colon that is followed by two slashes, or that
/// stands before any delimiter, ends no port, and has a scheme before it.
pub open spec fn explicit_scheme(s: Seq<char>) -> bool {
    match text::find_char(s, ':', 0) {
        None => false,
        Some(colon) => {
            let end = match delimiter(s, colon + 1) {
                Some(at) => at,
                None => s.len() as int,
            };
            let suffix = s.subrange(colon + 1, end);
            if text::occurs_at(s, "://"@, colon) {
                true
            } else if delimiter(s, 0) is Some && colon > delimiter(s, 0)->0 {
                false
            } else if colon + 1 >= s.len() {
                true
            } else if text::all_digits(suffix) {
                false
            } else {
                scheme_text(s.take(colon))
            }
        },
    }
}

fn only_digits(s: &[char]) -> (r: bool)
    ensures
        r == text::all_digits(s@),
{
    if s.len() == 0 {
        return false;
    }
    let mut i: usize = 0;
    while i < s.len()
        invariant
            i <= s@.len(),
            s@.len() > 0,
            forall|j: int| 0 <= j < i ==> text::ascii_digit(#[trigger] s@[j]),
        decreases s@.len() - i,
    {
        if !('0' <= s[i] && s[i] <= '9') {
            assert(!text::ascii_digit(s@[i as int]));
            return false;
        }
        i += 1;
    }
    true
}

/// Whether a text has a scheme.
pub fn has_explicit_scheme(raw: &str) -> (r: bool)
    ensures
        r == explicit_scheme(raw@),
{
    let chars = text::chars_of(raw);
    let s = chars.as_slice();
    proof {
        text::lemma_find_char_bounds(raw@, ':', 0);
    }
    let colon: usize = match text::position(s, ':', 0) {
        Some(colon) => colon,
        None => return false,
    };
    let slashes = text::chars_of("://");
    if text::matches_at(s, slashes.as_slice(), colon) {
        return true;
    }
    if let Some(at) = find_delimiter(s, 0) {
        if colon > at {
            return false;
        }
    }
    let n: usize = s.len();
    if colon + 1 >= n {
        return true;
    }
    let end: usize = match find_delimiter(s, colon + 1) {
        Some(at) => at,
        None => n,
    };
    let suffix = slice_subrange(s, colon + 1, end);
    if only_digits(suffix) {
        return false;
    }
    let scheme = slice_subrange(s, 0, colon);
    assert(scheme@ =~= raw@.take(colon as int));
    is_scheme(scheme)
}

/// The URL that an endpoint setting denotes: HTTPS, with a host, without
/// credentials and fragment.
pub open spec fn https_endpoint(raw: Seq<char>) -> Option<UrlView> {
    let value = if explicit_scheme(raw) {
        raw
    } else {
        "https://"@ + raw
    };
    match urls::parsed_url(value) {
        Some(url) => if url.scheme == "https"@ && url.host is Some && url.username.len() == 0
            && !url.has_password && url.fragment is None {
            Some(url)
        } else {
            None
        },
        None => None,
    }
}

/// The URL that an endpoint setting denotes. The endpoint policy's verdict on it
/// is left to the caller.
pub fn parse_https_endpoint(raw: &str) -> (r: Result<UrlParts, ClassifiedError>)
    ensures
        match r {
            Ok(url) => https_endpoint(raw@) == Some(url.value()),
            Err(e) => https_endpoint(raw@) is None && e == error::plain(ErrorKind::Api),
        },
{
    let value = if has_explicit_scheme(raw) {
        raw.to_owned()
    } else {
        let mut value = "https://".to_owned();
        value.append(raw);
        value
    };
    match urls::parse(value.as_str()) {
        Some(url) => if text::same_text(url.scheme.as_str(), "https") && url.host.is_some()
            && url.username.as_str().is_empty() && !url.has_password && url.fragment.is_none() {
            Ok(url)
        } else {
            Err(ClassifiedError::new(ErrorKind::Api))
        },
        None => Err(ClassifiedError::new(ErrorKind::Api)),
    }
}

/// The endpoint that a variable sets: `Some(None)` where it is not set, `None`
/// where it is malformed.
pub open spec fn endpoint_setting(environment: Environment, name: Seq<char>) -> Option<
    Option<UrlView>,
> {
    match environment.setting(name) {
        None => Some(None),
        Some(raw) => match https_endpoint(raw) {
            Some(url) => Some(Some(url)),
            None => None,
        },
    }
}

/// The value of an optional URL.
pub open spec fn url_value(url: Option<UrlParts>) -> Option<UrlView> {
    match url {
        Some(u) => Some(u.value()),
        None => None,
    }
}

/// The endpoint that a variable sets.
pub fn optional_endpoint(environment: &Environment, name: &str) -> (r: Result<
    Option<UrlParts>,
    ClassifiedError,
>)
    ensures
        match r {
            Ok(url) => endpoint_setting(*environment, name@) == Some(url_value(url)),
            Err(e) => endpoint_setting(*environment, name@) is None && e == error::plain(
                ErrorKind::Api,
            ),
        },
{
    match environment.get_setting(name) {
        None => Ok(None),
        Some(raw) => match parse_https_endpoint(raw.as_str()) {
            Ok(url) => Ok(Some(url)),
            Err(e) => Err(e),
        },
    }
}

/// What a host setting becomes for a path: a bare host gets the path, one with a
/// path of its own stays.
pub open spec fn endpoint_at(base: UrlView, path: Seq<char>) -> Option<UrlView> {
    if base.path.len() == 0 || base.path == "/"@ {
        match urls::url_moved(base.href, "/"@ + path) {
            Some(href) => urls::parsed_url(href),
            None => None,
        }
    } else {
        urls::parsed_url(base.href)
    }
}

/// What a host setting becomes for a path.
pub fn endpoint_from_host(base: &UrlParts, path: &str) -> (r: Result<UrlParts, ClassifiedError>)
    ensures
        match r {
            Ok(url) => endpoint_at(base.value(), path@) == Some(url.value()),
            Err(e) => endpoint_at(base.value(), path@) is None && e == error::plain(
                ErrorKind::Api,
            ),
        },
{
    let found = if base.path.as_str().is_empty() || text::same_text(base.path.as_str(), "/") {
        let mut full = "/".to_owned();
        full.append(path);
        match urls::moved_to(base.href.as_str(), full.as_str()) {
            Some(href) => urls::parse(href.as_str()),
            None => None,
        }
    } else {
        urls::parse(base.href.as_str())
    };
    match found {
        Some(url) => Ok(url),
        None => Err(ClassifiedError::new(ErrorKind::Api)),
    }
}

/// Whether a URL may serve a region: it is not the other region's host.
pub open spec fn host_fits(url: UrlView, region: ZaiRegion) -> bool {
    match url.host {
        None => false,
        Some(host) => !((text::same_ignoring_case(host, "api.z.ai"@) || text::same_ignoring_case(
            host,
            "open.bigmodel.cn"@,
        )) && !text::same_ignoring_case(host, region_host(region))),
    }
}

/// Checks that a URL may serve a region.
pub fn validate_region_host(url: &UrlParts, region: ZaiRegion) -> (r: Result<(), ClassifiedError>)
    ensures
        match r {
            Ok(_) => host_fits(url.value(), region),
            Err(e) => !host_fits(url.value(), region) && e == error::plain(ErrorKind::Api),
        },
{
    let host = match &url.host {
        Some(host) => text::chars_of(host.as_str()),
        None => return Err(ClassifiedError::new(ErrorKind::Api)),
    };
    let global = text::chars_of("api.z.ai");
    let chinese = text::chars_of("open.bigmodel.cn");
    let own = text::chars_of(region.host());
    if (text::eq_ignore_case(host.as_slice(), global.as_slice()) || text::eq_ignore_case(
        host.as_slice(),
        chinese.as_slice(),
    )) && !text::eq_ignore_case(host.as_slice(), own.as_slice()) {
        return Err(ClassifiedError::new(ErrorKind::Api));
    }
    Ok(())
}

/// The endpoints of an account, and all endpoints that the endpoint policy has
/// to allow, used or not.
pub struct ZaiEndpoints {
    pub quota_url: UrlParts,
    pub model_usage_url: UrlParts,
    pub balance_url: Option<UrlParts>,
    pub unused_balance_url: Option<UrlParts>,
}

/// The base of the fixed endpoints: the host setting, or else the region's
/// origin.
pub open spec fn endpoint_base(environment: Environment, region: ZaiRegion) -> Option<UrlView> {
    match endpoint_setting(environment, "Z_AI_API_HOST"@) {
        None => None,
        Some(Some(host)) => if host_fits(host, region) {
            Some(host)
        } else {
            None
        },
        Some(None) => https_endpoint(region_origin(region)),
    }
}

/// An endpoint that may serve a region.
pub open spec fn fitting(url: Option<UrlView>, region: ZaiRegion) -> Option<UrlView> {
    match url {
        Some(u) => if host_fits(u, region) {
            Some(u)
        } else {
            None
        },
        None => None,
    }
}

/// The endpoint of the quota.
pub open spec fn quota_endpoint(environment: Environment, region: ZaiRegion) -> Option<UrlView> {
    match endpoint_setting(environment, "Z_AI_QUOTA_ENDPOINT"@) {
        None => None,
        Some(Some(url)) => fitting(Some(url), region),
        Some(None) => match endpoint_setting(environment, "Z_AI_QUOTA_URL"@) {
            None => None,
            Some(Some(url)) => fitting(Some(url), region),
            Some(None) => match endpoint_base(environment, region) {
                Some(base) => fitting(
                    endpoint_at(base, "api/monitor/usage/quota/limit"@),
                    region,
                ),
                None => None,
            },
        },
    }
}

/// The endpoint of the model usage.
pub open spec fn model_endpoint(environment: Environment, region: ZaiRegion) -> Option<UrlView> {
    match endpoint_setting(environment, "Z_AI_MODEL_USAGE_ENDPOINT"@) {
        None => None,
        Some(Some(url)) => fitting(Some(url), region),
        Some(None) => match endpoint_base(environment, region) {
            Some(base) => fitting(endpoint_at(base, "api/monitor/usage/model-usage"@), region),
            None => None,
        },
    }
}

/// The configured endpoint of the balance.
pub open spec fn balance_setting(environment: Environment) -> Option<Option<UrlView>> {
    match (
        endpoint_setting(environment, "Z_AI_BALANCE_ENDPOINT"@),
        endpoint_setting(environment, "Z_AI_BALANCE_URL"@),
    ) {
        (Some(Some(url)), Some(_)) => Some(Some(url)),
        (Some(None), Some(other)) => Some(other),
        _ => None,
    }
}

/// The endpoint of the balance, which only the Chinese region has.
pub open spec fn balance_endpoint(environment: Environment, region: ZaiRegion) -> Option<
    Option<UrlView>,
> {
    match (balance_setting(environment), region) {
        (None, _) => None,
        (Some(_), ZaiRegion::Global) => Some(None),
        (Some(Some(url)), ZaiRegion::BigModelCn) => Some(Some(url)),
        (Some(None), ZaiRegion::BigModelCn) => match https_endpoint(
            "https://www.bigmodel.cn/api/biz/account/query-customer-account-report"@,
        ) {
            Some(url) => Some(Some(url)),
            None => None,
        },
    }
}

/// Whether an environment's endpoints can be used.
pub open spec fn endpoints_ok(environment: Environment, region: ZaiRegion) -> bool {
    &&& endpoint_setting(environment, "Z_AI_API_HOST"@) matches Some(host) && (host is Some
        ==> host_fits(host->0, region))
    &&& quota_endpoint(environment, region) is Some
    &&& model_endpoint(environment, region) is Some
    &&& balance_endpoint(environment, region) is Some
}

fn fixed_endpoint(host: &Option<UrlParts>, region: ZaiRegion, path: &str) -> (r: Result<
    UrlParts,
    ClassifiedError,
>)
    ensures
        ({
            let base = match *host {
                Some(h) => Some(h.value()),
                None => https_endpoint(region_origin(region)),
            };
            let url = match base {
                Some(b) => endpoint_at(b, path@),
                None => None,
            };
            match r {
                Ok(found) => url == Some(found.value()),
                Err(e) => url is None && e == error::plain(ErrorKind::Api),
            }
        }),
{
    match host {
        Some(h) => endpoint_from_host(h, path),
        None => match parse_https_endpoint(region.origin()) {
            Ok(origin) => endpoint_from_host(&origin, path),
            Err(e) => Err(e),
        },
    }
}

/// The endpoints of an account.
pub fn resolve_endpoints(environment: &Environment, region: ZaiRegion) -> (r: Result<
    ZaiEndpoints,
    ClassifiedError,
>)
    ensures
        match r {
            Ok(found) => endpoints_ok(*environment, region) && quota_endpoint(*environment, region)
                == Some(found.quota_url.value()) && model_endpoint(*environment, region) == Some(
                found.model_usage_url.value(),
            ) && balance_endpoint(*environment, region) == Some(url_value(found.balance_url)) && (
            region == ZaiRegion::Global ==> balance_setting(*environment) == Some(
                url_value(found.unused_balance_url),
            )),
            Err(e) => !endpoints_ok(*environment, region) && e == error::plain(ErrorKind::Api),
        },
{
    let host = match optional_endpoint(environment, "Z_AI_API_HOST") {
        Ok(host) => host,
        Err(e) => return Err(e),
    };
    if let Some(url) = &host {
        if let Err(e) = validate_region_host(url, region) {
            return Err(e);
        }
    }
    let quota_url = match optional_endpoint(environment, "Z_AI_QUOTA_ENDPOINT") {
        Err(e) => return Err(e),
        Ok(Some(url)) => url,
        Ok(None) => match optional_endpoint(environment, "Z_AI_QUOTA_URL") {
            Err(e) => return Err(e),
            Ok(Some(url)) => url,
            Ok(None) => match fixed_endpoint(&host, region, "api/monitor/usage/quota/limit") {
                Ok(url) => url,
                Err(e) => return Err(e),
            },
        },
    };
    if let Err(e) = validate_region_host(&quota_url, region) {
        return Err(e);
    }
    let model_usage_url = match optional_endpoint(environment, "Z_AI_MODEL_USAGE_ENDPOINT") {
        Err(e) => return Err(e),
        Ok(Some(url)) => url,
        Ok(None) => match fixed_endpoint(&host, region, "api/monitor/usage/model-usage") {
            Ok(url) => url,
            Err(e) => return Err(e),
        },
    };
    if let Err(e) = validate_region_host(&model_usage_url, region) {
        return Err(e);
    }
    let first = match optional_endpoint(environment, "Z_AI_BALANCE_ENDPOINT") {
        Ok(url) => url,
        Err(e) => return Err(e),
    };
    let second = match optional_endpoint(environment, "Z_AI_BALANCE_URL") {
        Ok(url) => url,
        Err(e) => return Err(e),
    };
    let configured = match first {
        Some(url) => Some(url),
        None => second,
    };
    let (balance_url, unused_balance_url) = match region {
        ZaiRegion::Global => (None, configured),
        ZaiRegion::BigModelCn => match configured {
            Some(url) => (Some(url), None),
            None => match parse_https_endpoint(
                "https://www.bigmodel.cn/api/biz/account/query-customer-account-report",
            ) {
                Ok(url) => (Some(url), None),
                Err(e) => return Err(e),
            },
        },
    };
    Ok(ZaiEndpoints { quota_url, model_usage_url, balance_url, unused_balance_url })
}

/// The settings of an account.
pub struct ZaiSettings {
    pub credential: ApiKeyCredential,
    pub region: ZaiRegion,
    pub usage_scope: ZaiUsageScope,
    pub endpoints: ZaiEndpoints,
}

/// The failure of an environment's settings, in the order of the checks.
pub open spec fn settings_failure(environment: Environment, files: Seq<Option<String>>) -> Option<
    ErrorKind,
> {
    match region_of(environment) {
        None => Some(ErrorKind::Api),
        Some(region) => if account_key(environment, region, files) is None {
            Some(ErrorKind::MissingCredential)
        } else if usage_scope_of(environment) is None || !endpoints_ok(environment, region) {
            Some(ErrorKind::Api)
        } else {
            None
        },
    }
}

impl ZaiSettings {
    /// Resolves the settings of an environment. `files` holds what the key files
    /// below the home directory hold. The endpoint policy's verdict on the
    /// endpoints is left to the caller.
    pub fn resolve(environment: &Environment, files: &Vec<Option<String>>) -> (r: Result<
        ZaiSettings,
        ClassifiedError,
    >)
        ensures
            match r {
                Ok(found) => settings_failure(*environment, files@) is None && region_of(
                    *environment,
                ) == Some(found.region) && account_key(*environment, found.region, files@) == Some(
                    found.credential.key@,
                ) && usage_scope_of(*environment) == Some(team_of(found.usage_scope)) && scope_ok(
                    found.usage_scope,
                ) && quota_endpoint(*environment, found.region) == Some(
                    found.endpoints.quota_url.value(),
                ) && model_endpoint(*environment, found.region) == Some(
                    found.endpoints.model_usage_url.value(),
                ) && balance_endpoint(*environment, found.region) == Some(
                    url_value(found.endpoints.balance_url),
                ),
                Err(e) => settings_failure(*environment, files@) is Some && e == error::plain(
                    settings_failure(*environment, files@)->0,
                ),
            },
    {
        let region = match resolve_region(environment) {
            Ok(region) => region,
            Err(e) => return Err(e),
        };
        let credential = match resolve_credential(environment, region, files) {
            Ok(credential) => credential,
            Err(e) => return Err(e),
        };
        let usage_scope = match resolve_usage_scope(environment) {
            Ok(usage_scope) => usage_scope,
            Err(e) => return Err(e),
        };
        match resolve_endpoints(environment, region) {
            Ok(endpoints) => Ok(ZaiSettings { credential, region, usage_scope, endpoints }),
            Err(e) => Err(e),
        }
    }

    /// The deployment.
    pub fn region(&self) -> (r: ZaiRegion)
        ensures
            r == self.region,
    {
        self.region
    }

    /// Whose usage is read.
    pub fn usage_scope(&self) -> (r: &ZaiUsageScope)
        ensures
            *r == self.usage_scope,
    {
        &self.usage_scope
    }

    /// The endpoint of the quota.
    pub fn quota_url(&self) -> (r: &str)
        ensures
            r@ == self.endpoints.quota_url.href@,
    {
        self.endpoints.quota_url.href.as_str()
    }

    /// The endpoint of the model usage.
    pub fn model_usage_url(&self) -> (r: &str)
        ensures
            r@ == self.endpoints.model_usage_url.href@,
    {
        self.endpoints.model_usage_url.href.as_str()
    }

    /// The endpoint of the balance.
    pub fn balance_url(&self) -> (r: Option<&str>)
        ensures
            match r {
                Some(href) => self.endpoints.balance_url matches Some(url) && url.href@ == href@,
                None => self.endpoints.balance_url is None,
            },
    {
        match &self.endpoints.balance_url {
            Some(url) => Some(url.href.as_str()),
            None => None,
        }
    }
}

/// An endpoint of one region is never taken from the other region's host.
pub proof fn law_regions_stay_apart(environment: Environment, region: ZaiRegion)
    requires
        endpoints_ok(environment, region),
    ensures
        host_fits(quota_endpoint(environment, region)->0, region),
        host_fits(model_endpoint(environment, region)->0, region),
{
}

/// The headers of a team.
pub fn team_headers(scope: &ZaiUsageScope) -> (r: Vec<(String, String)>)
    ensures
        r.deep_view() == (match team_of(*scope) {
            None => seq![],
            Some((organization, project)) => seq![
                ("Bigmodel-Organization"@, organization),
                ("Bigmodel-Project"@, project),
            ],
        }),
{
    match scope {
        ZaiUsageScope::Personal => {
            let r: Vec<(String, String)> = Vec::new();
            assert(r.deep_view() =~= seq![]);
            r
        },
        ZaiUsageScope::Team { organization, project } => {
            let r = vec![
                ("Bigmodel-Organization".to_owned(), organization.clone()),
                ("Bigmodel-Project".to_owned(), project.clone()),
            ];
            assert(r.deep_view() =~= seq![
                ("Bigmodel-Organization"@, organization@),
                ("Bigmodel-Project"@, project@),
            ]);
            r
        },
    }
}

/// The adapter of one account. `local_offset` is how many seconds local clocks
/// run ahead.
pub struct ZaiProvider {
    pub region: ZaiRegion,
    pub usage_scope: ZaiUsageScope,
    pub local_offset: i32,
}

impl ZaiProvider {
    /// Creates the adapter over clients; `same_scope` tells whether they all
    /// belong to one account.
    pub fn from_clients(
        provider: ProviderId,
        same_scope: bool,
        region: ZaiRegion,
        usage_scope: ZaiUsageScope,
        local_offset: i32,
    ) -> (r: Result<ZaiProvider, ClassifiedError>)
        ensures
            ({
                let fine = provider == ProviderId::Zai && same_scope && scope_ok(usage_scope);
                match r {
                    Ok(adapter) => fine && adapter == (ZaiProvider {
                        region,
                        usage_scope,
                        local_offset,
                    }),
                    Err(e) => !fine && e == error::plain(ErrorKind::Api),
                }
            }),
    {
        if provider != ProviderId::Zai || !same_scope {
            return Err(ClassifiedError::new(ErrorKind::Api));
        }
        validate_scope(&usage_scope)?;
        Ok(ZaiProvider { region, usage_scope, local_offset })
    }
}

/// Whether the balance is asked for: in the Chinese region, where its endpoint is
/// known and a row is left for it.
pub fn wants_balance(region: ZaiRegion, configured: bool, rows: usize) -> (r: bool)
    ensures
        r == (region == ZaiRegion::BigModelCn && configured && rows < 24),
{
    region == ZaiRegion::BigModelCn && configured && rows < 24
}

/// Ceilings of this adapter's transport, with a deadline in seconds.
pub fn transport_config(request_seconds: u64) -> (r: Result<TransportConfig, ClassifiedError>)
    requires
        5 <= request_seconds <= 15,
    ensures
        r == Ok::<TransportConfig, ClassifiedError>(
            transport::ceilings(
                5,
                request_seconds,
                MAX_RESPONSE_BYTES,
                3,
                retry::one_retry(250, request_seconds),
            ),
        ),
        r->Ok_0.valid(),
{
    transport::bounded(
        5,
        request_seconds,
        MAX_RESPONSE_BYTES,
        3,
        RetryPolicy::one(Duration::from_millis(250), Duration::from_secs(request_seconds)),
    )
}

/// Only the Chinese region has a balance, and no region is served by the other's host.
pub proof fn law_regions_keep_apart(environment: Environment, url: UrlView)
    ensures
        balance_endpoint(environment, ZaiRegion::Global) matches Some(endpoint) ==> endpoint is None,
        balance_endpoint(environment, ZaiRegion::BigModelCn) matches Some(endpoint) ==> endpoint
            is Some,
        url.host == Some("api.z.ai"@) ==> fitting(Some(url), ZaiRegion::Global) == Some(url)
            && fitting(Some(url), ZaiRegion::BigModelCn) is None,
        url.host == Some("open.bigmodel.cn"@) ==> fitting(Some(url), ZaiRegion::BigModelCn) == Some(
            url,
        ) && fitting(Some(url), ZaiRegion::Global) is None,
{
    reveal_strlit("api.z.ai");
    reveal_strlit("open.bigmodel.cn");
    assert(text::lower("api.z.ai"@).len() == "api.z.ai"@.len());
    assert(text::lower("open.bigmodel.cn"@).len() == "open.bigmodel.cn"@.len());
    assert(!text::same_ignoring_case("api.z.ai"@, "open.bigmodel.cn"@));
    assert(!text::same_ignoring_case("open.bigmodel.cn"@, "api.z.ai"@));
}

/// A team is told by its organization and then its project, each of its own variables.
pub proof fn law_teams_are_told_by_their_settings(environment: Environment)
    ensures
        usage_scope_of(environment) matches Some(Some((organization, project))) ==> {
            &&& settings::first_setting(
                environment,
                seq!["Z_AI_ORGANIZATION"@, "Z_AI_BIGMODEL_ORGANIZATION"@],
                0,
            ) == Some(organization)
            &&& settings::first_setting(
                environment,
                seq!["Z_AI_PROJECT"@, "Z_AI_BIGMODEL_PROJECT"@],
                0,
            ) == Some(project)
            &&& environment.setting("Z_AI_USAGE_SCOPE"@) == Some("team"@)
        },
{
    reveal_strlit("team");
    reveal_strlit("personal");
    assert("team"@.len() != "personal"@.len());
}

} // verus!
