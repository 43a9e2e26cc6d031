//! Google Vertex AI: application default credentials, project selection and
//! access tokens.

use vstd::prelude::*;

use crate::error;
use crate::error::{ClassifiedError, ErrorKind};
use crate::instant::Timestamp;
use crate::paths;
use crate::providers::qwencloud_session;
use crate::registry::ProviderId;
use crate::retry;
use crate::retry::RetryPolicy;
use crate::settings;
use crate::settings::Environment;
use crate::subprocess::SubprocessError;
use crate::text;
use crate::transport;
use crate::transport::{HttpRequest, Method, RequestAccept, RequestContentType, TransportConfig};
use crate::urls;
use crate::usage;
use crate::usage::{RateWindow, SampleView, UsageSample, WindowView};

verus! {

pub const MAX_ADC_BYTES: usize = 1024 * 1024;

pub const MAX_CONFIG_BYTES: usize = 64 * 1024;

pub const MAX_PROJECT_BYTES: usize = 256;

pub const MAX_IDENTITY_BYTES: usize = 256;

pub const MAX_SECRET_BYTES: usize = 16 * 1024;

pub const MAX_RESPONSE_BYTES: usize = 4 * 1024 * 1024;

pub const ACCESS_TOKEN_EARLY_REFRESH_SECONDS: i64 = 300;

/// Credential form selected from the credentials document.
#[derive(Debug, Clone, Copy, PartialEq, Eq, Structural)]
pub enum VertexCredentialKind {
    User,
    ServiceAccount,
}

/// The secret that a text holds: trimmed, bounded, without blanks and control
/// characters.
pub open spec fn secret_text(raw: Seq<char>) -> Option<Seq<char>> {
    let value = text::trimmed(raw);
    if value.len() == 0 || text::byte_len(value) > MAX_SECRET_BYTES || text::has_whitespace(value)
        || text::has_control(value) {
        None
    } else {
        Some(value)
    }
}

/// The secret that a text holds.
pub fn parse_secret(raw: &str) -> (r: Result<String, ClassifiedError>)
    ensures
        match r {
            Ok(secret) => secret_text(raw@) == Some(secret@),
            Err(e) => secret_text(raw@) is None && e == error::plain(ErrorKind::Parse),
        },
{
    let value = text::trim_text(raw);
    let chars = text::chars_of(value.as_str());
    if chars.len() == 0 || value.as_str().len() > MAX_SECRET_BYTES || text::any_whitespace(
        chars.as_slice(),
    ) || text::any_control(chars.as_slice()) {
        return Err(ClassifiedError::new(ErrorKind::Parse));
    }
    Ok(value)
}

/// Fields of a credentials document, as the document holds them.
pub struct AdcDocument {
    pub credential_type: Option<String>,
    pub client_id: Option<String>,
    pub client_secret: Option<String>,
    pub refresh_token: Option<String>,
    pub access_token: Option<String>,
    pub token_expiry: Option<String>,
    pub id_token: Option<String>,
    pub client_email: Option<String>,
    pub private_key: Option<String>,
    pub project_id: Option<String>,
}

/// Mathematical value of an [`AdcDocument`].
pub struct AdcView {
    pub credential_type: Option<Seq<char>>,
    pub client_id: Option<Seq<char>>,
    pub client_secret: Option<Seq<char>>,
    pub refresh_token: Option<Seq<char>>,
    pub access_token: Option<Seq<char>>,
    pub token_expiry: Option<Seq<char>>,
    pub id_token: Option<Seq<char>>,
    pub client_email: Option<Seq<char>>,
    pub private_key: Option<Seq<char>>,
    pub project_id: Option<Seq<char>>,
}

impl AdcDocument {
    pub open spec fn value(self) -> AdcView {
        AdcView {
            credential_type: self.credential_type.deep_view(),
            client_id: self.client_id.deep_view(),
            client_secret: self.client_secret.deep_view(),
            refresh_token: self.refresh_token.deep_view(),
            access_token: self.access_token.deep_view(),
            token_expiry: self.token_expiry.deep_view(),
            id_token: self.id_token.deep_view(),
            client_email: self.client_email.deep_view(),
            private_key: self.private_key.deep_view(),
            project_id: self.project_id.deep_view(),
        }
    }
}

/// Whether an optional text is absent or holds a secret.
pub open spec fn optional_secret_ok(raw: Option<Seq<char>>) -> bool {
    raw is Some ==> secret_text(raw->0) is Some
}

/// The secret of an optional text.
pub open spec fn optional_secret(raw: Option<Seq<char>>) -> Option<Seq<char>> {
    match raw {
        Some(s) => secret_text(s),
        None => None,
    }
}

/// Whether the secrets of a document are well formed.
pub open spec fn secrets_ok(d: AdcView) -> bool {
    &&& optional_secret_ok(d.client_id)
    &&& optional_secret_ok(d.client_secret)
    &&& optional_secret_ok(d.refresh_token)
    &&& optional_secret_ok(d.access_token)
    &&& optional_secret_ok(d.id_token)
    &&& d.private_key is Some ==> text::trimmed(d.private_key->0).len() > 0 && text::byte_len(
        d.private_key->0,
    ) <= MAX_ADC_BYTES
}

/// A document with its secrets trimmed.
pub open spec fn trimmed_secrets(d: AdcView) -> AdcView {
    AdcView {
        client_id: optional_secret(d.client_id),
        client_secret: optional_secret(d.client_secret),
        refresh_token: optional_secret(d.refresh_token),
        access_token: optional_secret(d.access_token),
        id_token: optional_secret(d.id_token),
        ..d
    }
}

fn read_secret(raw: Option<String>) -> (r: Result<Option<String>, ClassifiedError>)
    ensures
        match r {
            Ok(secret) => optional_secret_ok(raw.deep_view()) && secret.deep_view()
                == optional_secret(raw.deep_view()),
            Err(e) => !optional_secret_ok(raw.deep_view()) && e == error::plain(ErrorKind::Parse),
        },
{
    match raw {
        Some(s) => match parse_secret(s.as_str()) {
            Ok(secret) => Ok(Some(secret)),
            Err(e) => Err(e),
        },
        None => Ok(None),
    }
}

/// Checks and trims the secrets of a document.
pub fn check_document(document: AdcDocument) -> (r: Result<AdcDocument, ClassifiedError>)
    ensures
        match r {
            Ok(checked) => secrets_ok(document.value()) && checked.value() == trimmed_secrets(
                document.value(),
            ),
            Err(e) => !secrets_ok(document.value()) && e == error::plain(ErrorKind::Parse),
        },
{
    let client_id = match read_secret(document.client_id) {
        Ok(secret) => secret,
        Err(e) => return Err(e),
    };
    let client_secret = match read_secret(document.client_secret) {
        Ok(secret) => secret,
        Err(e) => return Err(e),
    };
    let refresh_token = match read_secret(document.refresh_token) {
        Ok(secret) => secret,
        Err(e) => return Err(e),
    };
    let access_token = match read_secret(document.access_token) {
        Ok(secret) => secret,
        Err(e) => return Err(e),
    };
    let id_token = match read_secret(document.id_token) {
        Ok(secret) => secret,
        Err(e) => return Err(e),
    };
    if let Some(key) = &document.private_key {
        let plain = text::trim_text(key.as_str());
        if plain.as_str().is_empty() || key.as_str().len() > MAX_ADC_BYTES {
            return Err(ClassifiedError::new(ErrorKind::Parse));
        }
    }
    Ok(
        AdcDocument {
            credential_type: document.credential_type,
            client_id,
            client_secret,
            refresh_token,
            access_token,
            token_expiry: document.token_expiry,
            id_token,
            client_email: document.client_email,
            private_key: document.private_key,
            project_id: document.project_id,
        },
    )
}

/// Credentials as far as the document gives them.
pub enum AdcCredentials {
    User {
        client_id: String,
        client_secret: String,
        refresh_token: String,
        access_token: Option<String>,
        expires_at: Option<Timestamp>,
        id_token: Option<String>,
    },
    ServiceAccount { email: String, project_id: Option<String> },
}

/// Mathematical value of [`AdcCredentials`].
pub enum CredentialsView {
    User {
        client_id: Seq<char>,
        client_secret: Seq<char>,
        refresh_token: Seq<char>,
        access_token: Option<Seq<char>>,
        expires_at: Option<Timestamp>,
        id_token: Option<Seq<char>>,
    },
    ServiceAccount { email: Seq<char>, project_id: Option<Seq<char>> },
}

impl AdcCredentials {
    pub open spec fn value(self) -> CredentialsView {
        match self {
            AdcCredentials::User {
                client_id,
                client_secret,
                refresh_token,
                access_token,
                expires_at,
                id_token,
            } => CredentialsView::User {
                client_id: client_id@,
                client_secret: client_secret@,
                refresh_token: refresh_token@,
                access_token: access_token.deep_view(),
                expires_at,
                id_token: id_token.deep_view(),
            },
            AdcCredentials::ServiceAccount { email, project_id } => CredentialsView::ServiceAccount {
                email: email@,
                project_id: project_id.deep_view(),
            },
        }
    }

    /// The credential form.
    pub fn kind(&self) -> (r: VertexCredentialKind)
        ensures
            r == (if *self is User {
                VertexCredentialKind::User
            } else {
                VertexCredentialKind::ServiceAccount
            }),
    {
        match self {
            AdcCredentials::User { .. } => VertexCredentialKind::User,
            AdcCredentials::ServiceAccount { .. } => VertexCredentialKind::ServiceAccount,
        }
    }
}

/// Characters of a project identifier.
pub open spec fn project_char(c: char) -> bool {
    text::ascii_alphanumeric(c) || c == '-' || c == '_' || c == '.' || c == ':'
}

/// Whether a text is a project identifier.
pub open spec fn project_ok(s: Seq<char>) -> bool {
    s.len() > 0 && text::byte_len(s) <= MAX_PROJECT_BYTES && forall|i: int|
        0 <= i < s.len() ==> project_char(#[trigger] s[i])
}

/// Checks a project identifier.
pub fn validate_project(project: &str) -> (r: Result<(), ClassifiedError>)
    ensures
        match r {
            Ok(_) => project_ok(project@),
            Err(e) => !project_ok(project@) && e == error::plain(ErrorKind::Api),
        },
{
    let chars = text::chars_of(project);
    if chars.len() == 0 || project.len() > MAX_PROJECT_BYTES {
        return Err(ClassifiedError::new(ErrorKind::Api));
    }
    let mut i: usize = 0;
    while i < chars.len()
        invariant
            chars@ == project@,
            i <= chars@.len(),
            forall|j: int| 0 <= j < i ==> project_char(#[trigger] chars@[j]),
        decreases chars@.len() - i,
    {
        let c = chars[i];
        if !(('0' <= c && c <= '9') || ('a' <= c && c <= 'z') || ('A' <= c && c <= 'Z') || c == '-'
            || c == '_' || c == '.' || c == ':') {
            assert(!project_char(project@[i as int]));
            return Err(ClassifiedError::new(ErrorKind::Api));
        }
        i += 1;
    }
    Ok(())
}

/// The identity that a text holds: trimmed, bounded, without control characters.
pub open spec fn identity_text(raw: Seq<char>) -> Option<Seq<char>> {
    let value = text::trimmed(raw);
    if value.len() == 0 || text::byte_len(value) > MAX_IDENTITY_BYTES || text::has_control(value) {
        None
    } else {
        Some(value)
    }
}

/// The identity that a text holds.
pub fn clean_identity(raw: &str) -> (r: Result<String, ClassifiedError>)
    ensures
        match r {
            Ok(identity) => identity_text(raw@) == Some(identity@),
            Err(e) => identity_text(raw@) is None && e == error::plain(ErrorKind::Parse),
        },
{
    let value = text::trim_text(raw);
    let chars = text::chars_of(value.as_str());
    if chars.len() == 0 || value.as_str().len() > MAX_IDENTITY_BYTES || text::any_control(
        chars.as_slice(),
    ) {
        return Err(ClassifiedError::new(ErrorKind::Parse));
    }
    Ok(value)
}

/// The project of a service-account document.
pub open spec fn document_project(d: AdcView) -> Option<Seq<char>> {
    match d.project_id {
        Some(raw) => settings::cleaned_setting(raw),
        None => None,
    }
}

/// The credentials of a checked document, or their failure. A document with a
/// service address or a private key is a service account.
pub open spec fn document_credentials(d: AdcView) -> Result<CredentialsView, ErrorKind> {
    if d.client_email is Some || d.private_key is Some {
        if d.credential_type is Some && d.credential_type->0 != "service_account"@
            && d.credential_type->0 != "external_account"@ {
            Err(ErrorKind::Parse)
        } else if d.client_email is None || identity_text(d.client_email->0) is None
            || d.private_key is None {
            Err(ErrorKind::Parse)
        } else if document_project(d) is Some && !project_ok(document_project(d)->0) {
            Err(ErrorKind::Api)
        } else {
            Ok(
                CredentialsView::ServiceAccount {
                    email: identity_text(d.client_email->0)->0,
                    project_id: document_project(d),
                },
            )
        }
    } else if d.client_id is None || d.client_secret is None || d.refresh_token is None {
        Err(ErrorKind::MissingCredential)
    } else {
        Ok(
            CredentialsView::User {
                client_id: d.client_id->0,
                client_secret: d.client_secret->0,
                refresh_token: d.refresh_token->0,
                access_token: d.access_token,
                expires_at: match d.token_expiry {
                    Some(expiry) => crate::instant::instant_of_text(expiry),
                    None => None,
                },
                id_token: d.id_token,
            },
        )
    }
}

/// The credentials of a checked document.
pub fn parse_adc(document: AdcDocument) -> (r: Result<AdcCredentials, ClassifiedError>)
    ensures
        match r {
            Ok(credentials) => document_credentials(document.value()) == Ok::<_, ErrorKind>(
                credentials.value(),
            ),
            Err(e) => document_credentials(document.value()) is Err && e == error::plain(
                document_credentials(document.value())->Err_0,
            ),
        },
{
    if document.client_email.is_some() || document.private_key.is_some() {
        if let Some(kind) = &document.credential_type {
            if !text::same_text(kind.as_str(), "service_account") && !text::same_text(
                kind.as_str(),
                "external_account",
            ) {
                return Err(ClassifiedError::new(ErrorKind::Parse));
            }
        }
        let email = match &document.client_email {
            Some(raw) => match clean_identity(raw.as_str()) {
                Ok(email) => email,
                Err(e) => return Err(e),
            },
            None => return Err(ClassifiedError::new(ErrorKind::Parse)),
        };
        if document.private_key.is_none() {
            return Err(ClassifiedError::new(ErrorKind::Parse));
        }
        let project_id = match &document.project_id {
            Some(raw) => settings::clean_setting(raw.as_str()),
            None => None,
        };
        if let Some(project) = &project_id {
            if let Err(e) = validate_project(project.as_str()) {
                return Err(e);
            }
        }
        return Ok(AdcCredentials::ServiceAccount { email, project_id });
    }
    let expires_at = match &document.token_expiry {
        Some(expiry) => Timestamp::parse(expiry.as_str()),
        None => None,
    };
    match (document.client_id, document.client_secret, document.refresh_token) {
        (Some(client_id), Some(client_secret), Some(refresh_token)) => Ok(
            AdcCredentials::User {
                client_id,
                client_secret,
                refresh_token,
                access_token: document.access_token,
                expires_at,
                id_token: document.id_token,
            },
        ),
        _ => Err(ClassifiedError::new(ErrorKind::MissingCredential)),
    }
}

/// The places that hold the account's configuration.
pub struct VertexPaths {
    pub home: String,
    pub config_dir: String,
    pub adc_path: String,
}

/// The configuration directory that an environment selects.
pub open spec fn config_directory(environment: Environment) -> Seq<char> {
    match environment.setting("CLOUDSDK_CONFIG"@) {
        Some(directory) => directory,
        None => paths::path_below(environment.setting("HOME"@)->0, ".config/gcloud"@),
    }
}

/// The credentials document that an environment selects.
pub open spec fn document_path(environment: Environment) -> Seq<char> {
    match environment.setting("GOOGLE_APPLICATION_CREDENTIALS"@) {
        Some(path) => path,
        None => paths::path_below(
            config_directory(environment),
            "application_default_credentials.json"@,
        ),
    }
}

/// Whether the paths that an environment selects can be used.
pub open spec fn places_ok(environment: Environment) -> bool {
    &&& environment.setting("HOME"@) is Some
    &&& paths::absolute_path(environment.setting("HOME"@)->0)
    &&& environment.setting("CLOUDSDK_CONFIG"@) is Some ==> paths::absolute_path(
        environment.setting("CLOUDSDK_CONFIG"@)->0,
    )
    &&& environment.setting("GOOGLE_APPLICATION_CREDENTIALS"@) is Some ==> paths::absolute_path(
        environment.setting("GOOGLE_APPLICATION_CREDENTIALS"@)->0,
    )
    &&& paths::bounded_path(document_path(environment))
}

/// A required directory of the environment.
pub fn required_absolute_directory(environment: &Environment, name: &str) -> (r: Result<
    String,
    ClassifiedError,
>)
    ensures
        match r {
            Ok(path) => environment.setting(name@) == Some(path@) && paths::absolute_path(path@),
            Err(e) => !(environment.setting(name@) is Some && paths::absolute_path(
                environment.setting(name@)->0,
            )) && e == error::plain(ErrorKind::Api),
        },
{
    match environment.get_setting(name) {
        Some(path) => paths::validated_absolute_path(path.as_str()),
        None => Err(ClassifiedError::new(ErrorKind::Api)),
    }
}

/// An optional directory of the environment.
pub fn optional_absolute_directory(environment: &Environment, name: &str) -> (r: Result<
    Option<String>,
    ClassifiedError,
>)
    ensures
        match r {
            Ok(path) => environment.setting(name@) == path.deep_view() && (path is Some
                ==> paths::absolute_path(path->0@)),
            Err(e) => environment.setting(name@) is Some && !paths::absolute_path(
                environment.setting(name@)->0,
            ) && e == error::plain(ErrorKind::Api),
        },
{
    match environment.get_setting(name) {
        Some(path) => match paths::validated_absolute_path(path.as_str()) {
            Ok(checked) => Ok(Some(checked)),
            Err(e) => Err(e),
        },
        None => Ok(None),
    }
}

/// The paths that an environment selects.
pub fn select_paths(environment: &Environment) -> (r: Result<VertexPaths, ClassifiedError>)
    ensures
        match r {
            Ok(places) => places_ok(*environment) && environment.setting("HOME"@) == Some(
                places.home@,
            ) && places.config_dir@ == config_directory(*environment) && places.adc_path@
                == document_path(*environment),
            Err(e) => !places_ok(*environment) && e == error::plain(ErrorKind::Api),
        },
{
    let home = match required_absolute_directory(environment, "HOME") {
        Ok(home) => home,
        Err(e) => return Err(e),
    };
    let config_dir = match optional_absolute_directory(environment, "CLOUDSDK_CONFIG") {
        Ok(Some(directory)) => directory,
        Ok(None) => paths::join(home.as_str(), ".config/gcloud"),
        Err(e) => return Err(e),
    };
    let adc_path = match optional_absolute_directory(
        environment,
        "GOOGLE_APPLICATION_CREDENTIALS",
    ) {
        Ok(Some(path)) => path,
        Ok(None) => paths::join(config_dir.as_str(), "application_default_credentials.json"),
        Err(e) => return Err(e),
    };
    if let Err(e) = paths::validate_path_bound(adc_path.as_str()) {
        return Err(e);
    }
    Ok(VertexPaths { home, config_dir, adc_path })
}

/// The value of a `project` line.
pub open spec fn project_line(line: Seq<char>) -> Option<Seq<char>> {
    match text::split_at_first(text::trimmed(line), '=') {
        Some((key, value)) => if text::trimmed(key) == "project"@ {
            settings::cleaned_setting(value)
        } else {
            None
        },
        None => None,
    }
}

/// The value of the first `project` line at or behind `from`.
pub open spec fn first_project(lines: Seq<Seq<char>>, from: int) -> Option<Seq<char>>
    decreases lines.len() - from,
{
    if from < 0 || from >= lines.len() {
        None
    } else {
        match project_line(lines[from]) {
            Some(project) => Some(project),
            None => first_project(lines, from + 1),
        }
    }
}

/// Whether a result is this project, checked.
pub open spec fn is_project(
    r: Result<Option<String>, ClassifiedError>,
    project: Option<Seq<char>>,
) -> bool {
    match r {
        Ok(found) => found.deep_view() == project && (project is Some ==> project_ok(project->0)),
        Err(e) => project is Some && !project_ok(project->0) && e == error::plain(ErrorKind::Api),
    }
}

fn checked_project(project: Option<String>) -> (r: Result<Option<String>, ClassifiedError>)
    ensures
        is_project(r, project.deep_view()),
{
    match project {
        Some(name) => match validate_project(name.as_str()) {
            Ok(_) => Ok(Some(name)),
            Err(e) => Err(e),
        },
        None => Ok(None),
    }
}

/// The project that a configuration file names.
pub fn configured_project(content: &str) -> (r: Result<Option<String>, ClassifiedError>)
    ensures
        is_project(r, first_project(text::pieces(content@, '\n'), 0)),
{
    let chars = text::chars_of(content);
    let lines = text::split(chars.as_slice(), '\n');
    let ghost all = text::pieces(content@, '\n');
    let mut i: usize = 0;
    while i < lines.len()
        invariant
            all == text::pieces(content@, '\n'),
            lines@.len() == all.len(),
            forall|j: int| 0 <= j < lines@.len() ==> (#[trigger] lines@[j])@ == all[j],
            i <= lines@.len(),
            first_project(all, 0) == first_project(all, i as int),
        decreases lines@.len() - i,
    {
        assert(lines@[i as int]@ == all[i as int]);
        if let Some((key, value)) = text::split_once(text::trim(lines[i]), '=') {
            if text::equals(text::trim(key), "project") {
                let raw = text::text_of(value);
                let project = settings::clean_setting(raw.as_str());
                if project.is_some() {
                    return checked_project(project);
                }
            }
        }
        i += 1;
    }
    Ok(None)
}

/// The variables that may name the project, in order.
pub open spec fn project_variables() -> Seq<Seq<char>> {
    seq!["GOOGLE_CLOUD_PROJECT"@, "GCLOUD_PROJECT"@, "CLOUDSDK_CORE_PROJECT"@]
}

/// The project that the environment names.
pub fn environment_project(environment: &Environment) -> (r: Result<
    Option<String>,
    ClassifiedError,
>)
    ensures
        is_project(r, settings::first_setting(*environment, project_variables(), 0)),
{
    let names = vec!["GOOGLE_CLOUD_PROJECT", "GCLOUD_PROJECT", "CLOUDSDK_CORE_PROJECT"];
    assert(names.deep_view() =~= project_variables());
    checked_project(settings::first_clean_setting(environment, &names))
}

/// The project of an account: the service account's own before the configured
/// one.
pub fn select_project(credentials: &AdcCredentials, configured: Option<String>) -> (r: Result<
    String,
    ClassifiedError,
>)
    ensures
        ({
            let own = match credentials.value() {
                CredentialsView::ServiceAccount { project_id, .. } => project_id,
                _ => None,
            };
            let project = match own {
                Some(p) => Some(p),
                None => configured.deep_view(),
            };
            match r {
                Ok(selected) => project == Some(selected@) && project_ok(selected@),
                Err(e) => if project is None {
                    e == error::plain(ErrorKind::MissingCredential)
                } else {
                    !project_ok(project->0) && e == error::plain(ErrorKind::Api)
                },
            }
        }),
{
    let own = match credentials {
        AdcCredentials::ServiceAccount { project_id, .. } => project_id.clone(),
        AdcCredentials::User { .. } => None,
    };
    let project = match own {
        Some(p) => Some(p),
        None => configured,
    };
    match project {
        None => Err(ClassifiedError::new(ErrorKind::MissingCredential)),
        Some(p) => match validate_project(p.as_str()) {
            Ok(_) => Ok(p),
            Err(e) => Err(e),
        },
    }
}

/// Whether a file of this kind and size may be read under a limit.
pub fn readable_size(is_file: bool, size: u64, limit: u64) -> (r: Result<(), ClassifiedError>)
    ensures
        match r {
            Ok(_) => is_file && size <= limit,
            Err(e) => !(is_file && size <= limit) && e == error::plain(ErrorKind::Parse),
        },
{
    if !is_file || size > limit {
        return Err(ClassifiedError::new(ErrorKind::Parse));
    }
    Ok(())
}

/// Where the helper may be installed besides the search path.
pub open spec fn helper_places(home: Seq<char>) -> Seq<Seq<char>> {
    seq![
        "/usr/bin/gcloud"@,
        "/usr/local/bin/gcloud"@,
        "/opt/google-cloud-sdk/bin/gcloud"@,
        paths::path_below(home, "google-cloud-sdk/bin/gcloud"@),
        paths::path_below(home, ".local/bin/gcloud"@),
    ]
}

/// Where the helper may be installed besides the search path.
pub fn gcloud_fallbacks(home: &str) -> (r: Vec<String>)
    ensures
        r.deep_view() == helper_places(home@),
{
    let r = vec![
        "/usr/bin/gcloud".to_owned(),
        "/usr/local/bin/gcloud".to_owned(),
        "/opt/google-cloud-sdk/bin/gcloud".to_owned(),
        paths::join(home, "google-cloud-sdk/bin/gcloud"),
        paths::join(home, ".local/bin/gcloud"),
    ];
    assert(r.deep_view() =~= helper_places(home@));
    r
}

/// The variables that the helper may see, in order.
pub open spec fn helper_variables() -> Seq<Seq<char>> {
    seq![
        "PATH"@,
        "LANG"@,
        "LC_ALL"@,
        "LC_CTYPE"@,
        "SSL_CERT_FILE"@,
        "SSL_CERT_DIR"@,
        "REQUESTS_CA_BUNDLE"@,
        "CURL_CA_BUNDLE"@,
        "HTTPS_PROXY"@,
        "HTTP_PROXY"@,
        "NO_PROXY"@,
        "https_proxy"@,
        "http_proxy"@,
        "no_proxy"@,
        "CLOUDSDK_PYTHON"@,
        "CLOUDSDK_PYTHON_ARGS"@,
        "CLOUDSDK_PYTHON_SITEPACKAGES"@,
        "XDG_CACHE_HOME"@,
    ]
}

fn helper_variable_list() -> (r: Vec<&'static str>)
    ensures
        r.deep_view() == helper_variables(),
{
    let r = vec![
        "PATH",
        "LANG",
        "LC_ALL",
        "LC_CTYPE",
        "SSL_CERT_FILE",
        "SSL_CERT_DIR",
        "REQUESTS_CA_BUNDLE",
        "CURL_CA_BUNDLE",
        "HTTPS_PROXY",
        "HTTP_PROXY",
        "NO_PROXY",
        "https_proxy",
        "http_proxy",
        "no_proxy",
        "CLOUDSDK_PYTHON",
        "CLOUDSDK_PYTHON_ARGS",
        "CLOUDSDK_PYTHON_SITEPACKAGES",
        "XDG_CACHE_HOME",
    ];
    assert(r.deep_view() =~= helper_variables());
    r
}

/// The entries of an environment among the first `n` names.
pub open spec fn selected_entries(environment: Environment, names: Seq<Seq<char>>, n: int) -> Seq<
    (Seq<char>, Seq<char>),
>
    decreases n,
{
    if n <= 0 {
        seq![]
    } else {
        let before = selected_entries(environment, names, n - 1);
        match environment.value_of(names[n - 1]) {
            Some(value) => before.push((names[n - 1], value)),
            None => before,
        }
    }
}

/// The helper's environment: the home directory, the allowed variables that are
/// set, and a search path in any case.
pub open spec fn helper_environment(environment: Environment, home: Seq<char>) -> Seq<
    (Seq<char>, Seq<char>),
> {
    let names = helper_variables();
    let selected = seq![("HOME"@, home)] + selected_entries(environment, names, names.len() as int);
    match environment.value_of("PATH"@) {
        Some(_) => selected,
        None => selected.push(("PATH"@, "/usr/local/sbin:/usr/local/bin:/usr/bin"@)),
    }
}

/// The helper's environment.
pub fn gcloud_environment(environment: &Environment, home: &str) -> (r: Vec<(String, String)>)
    ensures
        r.deep_view() == helper_environment(*environment, home@),
{
    let names = helper_variable_list();
    let ghost all = helper_variables();
    let ghost start = seq![("HOME"@, home@)];
    let mut r: Vec<(String, String)> = Vec::new();
    r.push(("HOME".to_owned(), home.to_owned()));
    let mut i: usize = 0;
    assert(r.deep_view() =~= start + selected_entries(*environment, all, 0));
    while i < names.len()
        invariant
            names.deep_view() == all,
            i <= names@.len(),
            r.deep_view() == start + selected_entries(*environment, all, i as int),
        decreases names@.len() - i,
    {
        assert(all[i as int] == names@[i as int]@);
        let ghost before = r.deep_view();
        if let Some(value) = environment.get(names[i]) {
            r.push((names[i].to_owned(), value.to_owned()));
            assert(r.deep_view() =~= before.push((all[i as int], value@)));
        }
        i += 1;
        assert(r.deep_view() =~= start + selected_entries(*environment, all, i as int));
    }
    assert(names@.len() == all.len());
    let ghost before = r.deep_view();
    if environment.get("PATH").is_none() {
        r.push(("PATH".to_owned(), "/usr/local/sbin:/usr/local/bin:/usr/bin".to_owned()));
        assert(r.deep_view() =~= before.push(
            ("PATH"@, "/usr/local/sbin:/usr/local/bin:/usr/bin"@),
        ));
    }
    r
}

/// Whether a cached access token is still fresh at `now`, in seconds: it exists
/// and outlives the early-refresh margin.
pub open spec fn fresh(has_token: bool, expires_at: Option<Timestamp>, now: i64) -> bool {
    has_token && expires_at is Some && expires_at->0.seconds() > (if now + 300 > i64::MAX {
        i64::MAX as int
    } else {
        now + 300
    })
}

/// Whether a cached access token is still fresh.
pub fn token_is_fresh(has_token: bool, expires_at: Option<Timestamp>, now: i64) -> (r: bool)
    ensures
        r == fresh(has_token, expires_at, now),
{
    match expires_at {
        Some(at) => {
            let margin: i64 = if now > i64::MAX - ACCESS_TOKEN_EARLY_REFRESH_SECONDS {
                i64::MAX
            } else {
                now + ACCESS_TOKEN_EARLY_REFRESH_SECONDS
            };
            has_token && at.unix_seconds() > margin as i128
        },
        None => false,
    }
}

/// The form that refreshes a user's token.
pub open spec fn refresh_form(id: Seq<char>, secret: Seq<char>, token: Seq<char>) -> Seq<
    (Seq<char>, Seq<char>),
> {
    seq![
        ("client_id"@, id),
        ("client_secret"@, secret),
        ("refresh_token"@, token),
        ("grant_type"@, "refresh_token"@),
    ]
}

/// The request that refreshes a user's token. Fails where its form is longer
/// than a request body may be.
pub fn refresh_request(endpoint: &str, id: &str, secret: &str, token: &str) -> (r: Result<
    HttpRequest,
    ClassifiedError,
>)
    ensures
        ({
            let body = vstd::utf8::encode_utf8(
                urls::form_encoded(refresh_form(id@, secret@, token@)),
            );
            match r {
                Ok(q) => body.len() <= transport::MAX_REQUEST_BODY_BYTES && q.method == Method::Post
                    && q.url@ == endpoint@ && q.body@ == body && q.accept == Some(
                    RequestAccept::Json,
                ) && q.content_type == Some(RequestContentType::FormUrlEncoded)
                    && q.accepted_statuses@ == seq![400u16, 401u16] && q.authentication is None
                    && q.public_headers@.len() == 0 && q.sensitive_headers@.len() == 0
                    && q.response_headers@.len() == 0 && q.wf(),
                Err(e) => body.len() > transport::MAX_REQUEST_BODY_BYTES && e == error::plain(
                    ErrorKind::Api,
                ),
            }
        }),
{
    let pairs: Vec<(String, String)> = vec![
        ("client_id".to_owned(), id.to_owned()),
        ("client_secret".to_owned(), secret.to_owned()),
        ("refresh_token".to_owned(), token.to_owned()),
        ("grant_type".to_owned(), "refresh_token".to_owned()),
    ];
    assert(pairs.deep_view() =~= refresh_form(id@, secret@, token@));
    let form = urls::form_encode(&pairs);
    let statuses: Vec<u16> = vec![400, 401];
    assert(statuses@ =~= seq![400u16, 401u16]);
    match HttpRequest::post(endpoint.to_owned(), form.as_str().as_bytes_vec()) {
        Err(e) => Err(e.classified()),
        Ok(q) => match q.accept(RequestAccept::Json).content_type(
            RequestContentType::FormUrlEncoded,
        ).accepted_statuses(statuses.as_slice()) {
            Ok(q) => Ok(q),
            Err(e) => Err(e.classified()),
        },
    }
}

/// The failure of a refused refresh with this status and error name.
pub open spec fn refresh_failure(status: u16, name: Option<Seq<char>>) -> ErrorKind {
    if name is None || status == 401 || name->0 == "invalid_grant"@ || name->0
        == "unauthorized_client"@ {
        ErrorKind::AuthenticationExpired
    } else {
        ErrorKind::Api
    }
}

/// Classifies a refused refresh.
pub fn classify_refresh(status: u16, name: &Option<String>) -> (r: ClassifiedError)
    ensures
        r == error::plain(refresh_failure(status, name.deep_view())),
{
    let expired = match name {
        None => true,
        Some(n) => status == 401 || text::same_text(n.as_str(), "invalid_grant")
            || text::same_text(n.as_str(), "unauthorized_client"),
    };
    ClassifiedError::new(
        if expired {
            ErrorKind::AuthenticationExpired
        } else {
            ErrorKind::Api
        },
    )
}

/// The access token of a refresh response: the type, where given, is bearer, the
/// token is a secret and so is an identity token.
pub open spec fn refreshed_token(
    token_type: Option<Seq<char>>,
    access_token: Option<Seq<char>>,
    id_token: Option<Seq<char>>,
) -> Option<Seq<char>> {
    if !optional_secret_ok(access_token) || !optional_secret_ok(id_token) || (token_type is Some
        && !text::same_ignoring_case(token_type->0, "bearer"@)) {
        None
    } else {
        optional_secret(access_token)
    }
}

/// The access token of a refresh response.
pub fn parse_refresh(
    token_type: &Option<String>,
    access_token: Option<String>,
    id_token: Option<String>,
) -> (r: Result<String, ClassifiedError>)
    ensures
        match r {
            Ok(token) => refreshed_token(
                token_type.deep_view(),
                access_token.deep_view(),
                id_token.deep_view(),
            ) == Some(token@),
            Err(e) => refreshed_token(
                token_type.deep_view(),
                access_token.deep_view(),
                id_token.deep_view(),
            ) is None && e == error::plain(ErrorKind::Parse),
        },
{
    let access = match read_secret(access_token) {
        Ok(secret) => secret,
        Err(e) => return Err(e),
    };
    if let Err(e) = read_secret(id_token) {
        return Err(e);
    }
    if let Some(kind) = token_type {
        let a = text::chars_of(kind.as_str());
        let b = text::chars_of("bearer");
        if !text::eq_ignore_case(a.as_slice(), b.as_slice()) {
            return Err(ClassifiedError::new(ErrorKind::Parse));
        }
    }
    match access {
        Some(token) => Ok(token),
        None => Err(ClassifiedError::new(ErrorKind::Parse)),
    }
}

/// The access token that the helper printed.
pub fn helper_token(stdout: &[u8]) -> (r: Result<String, ClassifiedError>)
    ensures
        match r {
            Ok(token) => vstd::utf8::valid_utf8(stdout@) && secret_text(
                vstd::utf8::decode_utf8(stdout@),
            ) == Some(token@),
            Err(e) => (!vstd::utf8::valid_utf8(stdout@) || secret_text(
                vstd::utf8::decode_utf8(stdout@),
            ) is None) && e == error::plain(ErrorKind::Parse),
        },
{
    match text::utf8_text(stdout) {
        Some(printed) => parse_secret(printed.as_str()),
        None => Err(ClassifiedError::new(ErrorKind::Parse)),
    }
}

/// Checks that the credentials document still is the one that was read.
pub fn verify_fingerprint(bytes: &[u8], expected: &[u8]) -> (r: Result<(), ClassifiedError>)
    ensures
        match r {
            Ok(_) => qwencloud_session::sha256(bytes@) == expected@,
            Err(e) => qwencloud_session::sha256(bytes@) != expected@ && e == error::plain(
                ErrorKind::MissingCredential,
            ),
        },
{
    let digest = fingerprint(bytes);
    if digest.len() != expected.len() {
        return Err(ClassifiedError::new(ErrorKind::MissingCredential));
    }
    let mut i: usize = 0;
    while i < digest.len()
        invariant
            digest@ == qwencloud_session::sha256(bytes@),
            digest@.len() == expected@.len(),
            i <= digest@.len(),
            forall|j: int| 0 <= j < i ==> digest@[j] == expected@[j],
        decreases digest@.len() - i,
    {
        if digest[i] != expected[i] {
            return Err(ClassifiedError::new(ErrorKind::MissingCredential));
        }
        i += 1;
    }
    assert(digest@ =~= expected@);
    Ok(())
}

/// The fingerprint of a document.
pub fn fingerprint(bytes: &[u8]) -> (r: Vec<u8>)
    ensures
        r@ == qwencloud_session::sha256(bytes@),
        r@.len() == 32,
{
    qwencloud_session::digest(bytes)
}

/// The value of a base64 digit of either alphabet.
pub open spec fn base64_digit(b: u8) -> Option<int> {
    if 65 <= b <= 90 {
        Some(b - 65)
    } else if 97 <= b <= 122 {
        Some(b - 97 + 26)
    } else if 48 <= b <= 57 {
        Some(b - 48 + 52)
    } else if b == 45 || b == 43 {
        Some(62)
    } else if b == 95 || b == 47 {
        Some(63)
    } else {
        None
    }
}

/// State of a base64 reader after the first `n` bytes: the bytes decoded, the
/// value of the bits that are left and their number; `None` where a byte is no
/// digit or the result grows too long.
pub open spec fn base64_state(bytes: Seq<u8>, n: int) -> Option<(Seq<u8>, int, int)>
    decreases n,
{
    if n <= 0 {
        Some((seq![], 0, 0))
    } else {
        match (base64_state(bytes, n - 1), base64_digit(bytes[n - 1])) {
            (Some((out, value, bits)), Some(digit)) => {
                let grown = value * 64 + digit;
                if bits == 0 {
                    Some((out, grown, 6))
                } else {
                    let unit = if bits == 6 {
                        16
                    } else if bits == 4 {
                        4
                    } else {
                        1int
                    };
                    let more = out.push((grown / unit) as u8);
                    if more.len() > MAX_SECRET_BYTES {
                        None
                    } else {
                        Some((more, grown % unit, bits - 2))
                    }
                }
            },
            _ => None,
        }
    }
}

proof fn lemma_base64_failure(bytes: Seq<u8>, n: int, m: int)
    requires
        0 <= n <= m,
        base64_state(bytes, n) is None,
    ensures
        base64_state(bytes, m) is None,
    decreases m - n,
{
    if n < m {
        lemma_base64_failure(bytes, n, m - 1);
    }
}

/// Bytes before the first padding sign.
pub open spec fn base64_length(bytes: Seq<u8>, from: int) -> int
    decreases bytes.len() - from,
{
    if from < 0 || from >= bytes.len() || bytes[from] == 61 {
        from
    } else {
        base64_length(bytes, from + 1)
    }
}

/// What base64 text of either alphabet encodes, up to the first padding sign.
pub open spec fn base64_decoded(bytes: Seq<u8>) -> Option<Seq<u8>> {
    match base64_state(bytes, base64_length(bytes, 0)) {
        Some((out, _, _)) => Some(out),
        None => None,
    }
}

proof fn lemma_base64_length(bytes: Seq<u8>, from: int, at: int)
    requires
        0 <= from <= at <= bytes.len(),
        forall|i: int| from <= i < at ==> bytes[i] != 61,
    ensures
        base64_length(bytes, from) == base64_length(bytes, at),
        base64_length(bytes, at) >= at,
    decreases bytes.len() - from + bytes.len() - at,
{
    if from < at {
        lemma_base64_length(bytes, from + 1, at);
    } else if at < bytes.len() && bytes[at] != 61 {
        lemma_base64_length(bytes, at + 1, at + 1);
    }
}

/// Decodes base64 text of either alphabet, up to the first padding sign.
pub fn decode_base64_url(bytes: &[u8]) -> (r: Option<Vec<u8>>)
    ensures
        match r {
            Some(out) => base64_decoded(bytes@) == Some(out@),
            None => base64_decoded(bytes@) is None,
        },
{
    let mut out: Vec<u8> = Vec::new();
    let mut value: u32 = 0;
    let mut bits: u32 = 0;
    let mut i: usize = 0;
    while i < bytes.len()
        invariant
            i <= bytes@.len(),
            forall|j: int| 0 <= j < i ==> bytes@[j] != 61,
            base64_state(bytes@, i as int) == Some((out@, value as int, bits as int)),
            bits == 0 || bits == 2 || bits == 4 || bits == 6,
            value < 64,
            bits == 0 ==> value == 0,
            bits == 2 ==> value < 4,
            bits == 4 ==> value < 16,
        decreases bytes@.len() - i,
    {
        let b: u8 = bytes[i];
        proof {
            lemma_base64_length(bytes@, 0, i as int);
        }
        if b == 61 {
            return Some(out);
        }
        proof {
            lemma_base64_length(bytes@, 0, i as int + 1);
        }
        let digit: u32 = if 65 <= b && b <= 90 {
            (b - 65) as u32
        } else if 97 <= b && b <= 122 {
            (b - 97) as u32 + 26
        } else if 48 <= b && b <= 57 {
            (b - 48) as u32 + 52
        } else if b == 45 || b == 43 {
            62
        } else if b == 95 || b == 47 {
            63
        } else {
            proof {
                lemma_base64_failure(bytes@, i as int + 1, base64_length(bytes@, 0));
            }
            return None;
        };
        let grown: u32 = value * 64 + digit;
        if bits == 0 {
            value = grown;
            bits = 6;
        } else {
            let unit: u32 = if bits == 6 {
                16
            } else if bits == 4 {
                4
            } else {
                1
            };
            assert(grown / unit < 256 && grown % unit < unit) by (nonlinear_arith)
                requires
                    (unit == 16 && grown < 4096) || (unit == 4 && grown < 1024) || (unit == 1
                        && grown < 256),
            ;
            out.push((grown / unit) as u8);
            value = grown % unit;
            bits = bits - 2;
            if out.len() > MAX_SECRET_BYTES {
                proof {
                    lemma_base64_failure(bytes@, i as int + 1, base64_length(bytes@, 0));
                }
                return None;
            }
        }
        i += 1;
    }
    proof {
        lemma_base64_length(bytes@, 0, i as int);
    }
    Some(out)
}

/// The claims document of an identity token: its second part, decoded.
pub open spec fn claims_of(token: Seq<char>) -> Option<Seq<u8>> {
    let parts = text::pieces(token, '.');
    if parts.len() < 2 || parts[1].len() == 0 || text::byte_len(parts[1]) > MAX_SECRET_BYTES {
        None
    } else {
        base64_decoded(vstd::utf8::encode_utf8(parts[1]))
    }
}

/// The claims document of an identity token.
pub fn id_token_claims(token: &str) -> (r: Option<Vec<u8>>)
    ensures
        match r {
            Some(claims) => claims_of(token@) == Some(claims@),
            None => claims_of(token@) is None,
        },
{
    let chars = text::chars_of(token);
    let parts = text::split(chars.as_slice(), '.');
    let ghost all = text::pieces(token@, '.');
    if parts.len() < 2 {
        return None;
    }
    assert(parts@[1]@ == all[1]);
    let payload = text::text_of(parts[1]);
    if payload.as_str().is_empty() || payload.as_str().len() > MAX_SECRET_BYTES {
        return None;
    }
    decode_base64_url(payload.as_str().as_bytes())
}

/// Classifies a failed helper run.
pub fn map_subprocess_error(e: SubprocessError) -> (r: ClassifiedError)
    ensures
        r == error::plain(
            match e {
                SubprocessError::Spawn => ErrorKind::MissingCredential,
                SubprocessError::Cancelled | SubprocessError::Timeout => ErrorKind::Network,
                SubprocessError::StdoutTooLarge
                | SubprocessError::StderrTooLarge
                | SubprocessError::OutputRead => ErrorKind::Parse,
                SubprocessError::InvalidConfiguration | SubprocessError::Wait => ErrorKind::Api,
                SubprocessError::NonZero { stderr_tag, .. } => if stderr_tag == Some(1u8) {
                    ErrorKind::AuthenticationExpired
                } else {
                    ErrorKind::Api
                },
            },
        ),
{
    match e {
        SubprocessError::Spawn => ClassifiedError::new(ErrorKind::MissingCredential),
        SubprocessError::Cancelled | SubprocessError::Timeout => ClassifiedError::new(
            ErrorKind::Network,
        ),
        SubprocessError::StdoutTooLarge
        | SubprocessError::StderrTooLarge
        | SubprocessError::OutputRead => ClassifiedError::new(ErrorKind::Parse),
        SubprocessError::InvalidConfiguration | SubprocessError::Wait => ClassifiedError::new(
            ErrorKind::Api,
        ),
        SubprocessError::NonZero { stderr_tag: Some(1), .. } => ClassifiedError::new(
            ErrorKind::AuthenticationExpired,
        ),
        SubprocessError::NonZero { .. } => ClassifiedError::new(ErrorKind::Api),
    }
}

/// The sample of an account. Where there is a quota, its window is empty of a
/// percentage, which is known only as a measured number.
pub open spec fn sample_of(
    fetched_at: Timestamp,
    project: Seq<char>,
    email: Option<Seq<char>>,
    has_quota: bool,
) -> SampleView {
    SampleView {
        email,
        organization: Some(project),
        login_method: Some("gcloud"@),
        primary: if has_quota {
            Some(
                WindowView {
                    used: None,
                    minutes: Some(1440i64),
                    resets_at: None,
                    description: Some("Cloud Monitoring quota"@),
                },
            )
        } else {
            None
        },
        ..usage::empty_sample(ProviderId::VertexAi, fetched_at, "vertexai"@, "oauth"@)
    }
}

/// The sample of an account.
pub fn normalize(
    fetched_at: Timestamp,
    project: &str,
    email: Option<String>,
    has_quota: bool,
) -> (r: UsageSample)
    ensures
        r.value() == sample_of(fetched_at, project@, email.deep_view(), has_quota),
{
    let mut r = UsageSample::empty(ProviderId::VertexAi, fetched_at, "vertexai", "oauth");
    r.email = email;
    r.organization = Some(project.to_owned());
    r.login_method = Some("gcloud".to_owned());
    if has_quota {
        r.primary = Some(
            RateWindow {
                used: None,
                minutes: Some(1440),
                resets_at: None,
                description: Some("Cloud Monitoring quota".to_owned()),
            },
        );
    }
    r
}

/// Ceilings of this adapter's transport.
pub fn transport_config() -> (r: Result<TransportConfig, ClassifiedError>)
    ensures
        r == Ok::<TransportConfig, ClassifiedError>(
            transport::ceilings(5, 30, MAX_RESPONSE_BYTES, 0, retry::no_retry()),
        ),
        r->Ok_0.valid(),
{
    transport::bounded(5, 30, MAX_RESPONSE_BYTES, 0, RetryPolicy::none())
}

/// A token is used while more than five minutes of its life are left, and one without
/// a known end is not.
pub proof fn law_tokens_are_refreshed_early(expires_at: Timestamp, now: i64)
    requires
        now <= 9_000_000_000_000_000_000,
    ensures
        fresh(true, Some(expires_at), now) <==> expires_at.seconds() - now > 5 * 60,
        !fresh(false, Some(expires_at), now),
        !fresh(true, None, now),
{
}

/// The number that bytes denote, the first being the greatest.
pub open spec fn bytes_number(bytes: Seq<u8>) -> int
    decreases bytes.len(),
{
    if bytes.len() == 0 {
        0
    } else {
        256 * bytes_number(bytes.drop_last()) + bytes.last()
    }
}

/// The number that the first `n` digits denote, the first being the greatest.
pub open spec fn digits_number(bytes: Seq<u8>, n: int) -> int
    decreases n,
{
    if n <= 0 {
        0
    } else {
        64 * digits_number(bytes, n - 1) + (match base64_digit(bytes[n - 1]) {
            Some(digit) => digit,
            None => 0,
        })
    }
}

proof fn lemma_base64_value(bytes: Seq<u8>, n: int)
    requires
        0 <= n <= bytes.len(),
    ensures
        base64_state(bytes, n) matches Some((out, value, bits)) ==> {
            &&& bits == 0 || bits == 2 || bits == 4 || bits == 6
            &&& 6 * n == 8 * out.len() + bits
            &&& bits == 0 ==> value == 0 && digits_number(bytes, n) == bytes_number(out)
            &&& bits == 2 ==> 0 <= value < 4 && digits_number(bytes, n) == 4 * bytes_number(out)
                + value
            &&& bits == 4 ==> 0 <= value < 16 && digits_number(bytes, n) == 16 * bytes_number(out)
                + value
            &&& bits == 6 ==> 0 <= value < 64 && digits_number(bytes, n) == 64 * bytes_number(out)
                + value
        },
    decreases n,
{
    if n > 0 && base64_state(bytes, n) is Some {
        lemma_base64_value(bytes, n - 1);
        let (out, value, bits) = base64_state(bytes, n - 1)->0;
        let digit = base64_digit(bytes[n - 1])->0;
        let grown = value * 64 + digit;
        let (more, rest, left) = base64_state(bytes, n)->0;
        if bits > 0 {
            assert(more.drop_last() =~= out);
            assert(bytes_number(more) == 256 * bytes_number(out) + more.last());
        }
    }
}

/// Six bits for each digit, eight for each byte: decoded bytes denote the same number
/// as the digits, but for fewer than eight bits at the end.
pub proof fn law_decoding_keeps_the_bits(bytes: Seq<u8>)
    requires
        0 <= base64_length(bytes, 0) <= bytes.len(),
    ensures
        base64_decoded(bytes) matches Some(out) ==> {
            let n = base64_length(bytes, 0);
            let rest = 6 * n - 8 * out.len();
            &&& 0 <= rest < 8
            &&& rest == 0 ==> digits_number(bytes, n) == bytes_number(out)
            &&& rest == 2 ==> digits_number(bytes, n) / 4 == bytes_number(out)
            &&& rest == 4 ==> digits_number(bytes, n) / 16 == bytes_number(out)
            &&& rest == 6 ==> digits_number(bytes, n) / 64 == bytes_number(out)
        },
{
    lemma_base64_value(bytes, base64_length(bytes, 0));
}

/// The digits are the capital letters, the small letters, the figures and two signs,
/// in that order, each sign in two forms.
pub proof fn law_digits_are_in_order(b: u8)
    ensures
        base64_digit(b) matches Some(digit) ==> 0 <= digit < 64,
        65 <= b < 90 || 97 <= b < 122 || 48 <= b < 57 ==> base64_digit((b + 1) as u8) == Some(
            base64_digit(b)->0 + 1,
        ),
        base64_digit(65) == Some(0int),
        base64_digit(97) == Some(base64_digit(90)->0 + 1),
        base64_digit(48) == Some(base64_digit(122)->0 + 1),
        base64_digit(43) == Some(base64_digit(57)->0 + 1),
        base64_digit(47) == Some(base64_digit(57)->0 + 2),
        base64_digit(45) == base64_digit(43),
        base64_digit(95) == base64_digit(47),
{
}

/// A refused refresh tells of an expired session where no reason is readable, where
/// the status or the reason says so, and of an API failure otherwise.
pub proof fn law_refusals_tell_of_the_session(status: u16, name: Option<Seq<char>>)
    ensures
        status == 401 ==> refresh_failure(status, name) == ErrorKind::AuthenticationExpired,
        name is None ==> refresh_failure(status, name) == ErrorKind::AuthenticationExpired,
        name == Some("invalid_grant"@) || name == Some("unauthorized_client"@) ==> refresh_failure(
            status,
            name,
        ) == ErrorKind::AuthenticationExpired,
        status != 401 && name is Some && name->0 != "invalid_grant"@ && name->0
            != "unauthorized_client"@ ==> refresh_failure(status, name) == ErrorKind::Api,
{
}

} // verus!
