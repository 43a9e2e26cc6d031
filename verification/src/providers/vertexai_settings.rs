//! Account settings of Google Vertex AI, and the helper that mints tokens for a
//! service account.

use vstd::prelude::*;

use crate::error;
use crate::error::{ClassifiedError, ErrorKind};
use crate::instant::Duration;
use crate::providers::vertexai;
use crate::providers::vertexai::{
    AdcCredentials, AdcDocument, AdcView, CredentialsView, VertexCredentialKind, VertexPaths,
};
use crate::registry::ProviderId;
use crate::settings::Environment;
use crate::subprocess;
use crate::subprocess::{StderrClassifier, SubprocessRequest};
use crate::text;
use crate::urls::{UrlParts, UrlView};

verus! {

pub const GCLOUD_OUTPUT_BYTES: usize = 16 * 1024;

pub const GCLOUD_STDERR_BYTES: usize = 64 * 1024;

/// What was found in place of the helper's configuration file.
pub enum ConfigFile {
    Absent,
    /// It exists and is too large, no file, or could not be read.
    Unreadable,
    Content(Vec<u8>),
}

/// The outcome of looking for the helper.
pub enum GcloudSearch {
    /// The override names nothing that can be run.
    Failed,
    Missing,
    Found(String),
}

/// The project that the environment names, checked.
pub open spec fn environment_choice(environment: Environment) -> Result<
    Option<Seq<char>>,
    ErrorKind,
> {
    match crate::settings::first_setting(environment, vertexai::project_variables(), 0) {
        Some(project) => if vertexai::project_ok(project) {
            Ok(Some(project))
        } else {
            Err(ErrorKind::Api)
        },
        None => Ok(None),
    }
}

/// The configured project: the one of the configuration file, or else the one of
/// the environment.
pub open spec fn configured(file: ConfigFile, environment: Environment) -> Result<
    Option<Seq<char>>,
    ErrorKind,
> {
    match file {
        ConfigFile::Absent => environment_choice(environment),
        ConfigFile::Unreadable => Err(ErrorKind::Parse),
        ConfigFile::Content(bytes) => if !vstd::utf8::valid_utf8(bytes@) {
            Err(ErrorKind::Parse)
        } else {
            let lines = text::pieces(vstd::utf8::decode_utf8(bytes@), '\n');
            match vertexai::first_project(lines, 0) {
                Some(project) => if vertexai::project_ok(project) {
                    Ok(Some(project))
                } else {
                    Err(ErrorKind::Api)
                },
                None => environment_choice(environment),
            }
        },
    }
}

/// The configured project.
pub fn load_project_id(file: &ConfigFile, environment: &Environment) -> (r: Result<
    Option<String>,
    ClassifiedError,
>)
    ensures
        match r {
            Ok(project) => configured(*file, *environment) == Ok::<_, ErrorKind>(
                project.deep_view(),
            ),
            Err(e) => configured(*file, *environment) is Err && e == error::plain(
                configured(*file, *environment)->Err_0,
            ),
        },
{
    match file {
        ConfigFile::Absent => {},
        ConfigFile::Unreadable => return Err(ClassifiedError::new(ErrorKind::Parse)),
        ConfigFile::Content(bytes) => {
            let content = match text::utf8_text(bytes.as_slice()) {
                Some(content) => content,
                None => return Err(ClassifiedError::new(ErrorKind::Parse)),
            };
            match vertexai::configured_project(content.as_str()) {
                Ok(Some(project)) => return Ok(Some(project)),
                Ok(None) => {},
                Err(e) => return Err(e),
            }
        },
    }
    vertexai::environment_project(environment)
}

/// Validated account configuration.
pub struct VertexSettings {
    pub adc_path: String,
    pub config_dir: String,
    pub project_id: String,
    pub credentials: AdcCredentials,
    /// The helper, for a service account.
    pub gcloud: Option<String>,
    /// The environment that the helper sees.
    pub gcloud_environment: Vec<(String, String)>,
    /// Fingerprint of the credentials document.
    pub fingerprint: Vec<u8>,
}

/// Mathematical value of [`VertexSettings`].
pub struct SettingsView {
    pub adc_path: Seq<char>,
    pub config_dir: Seq<char>,
    pub project_id: Seq<char>,
    pub credentials: CredentialsView,
    pub gcloud: Option<Seq<char>>,
    pub gcloud_environment: Seq<(Seq<char>, Seq<char>)>,
    pub fingerprint: Seq<u8>,
}

/// The project that a service account carries itself.
pub open spec fn own_project(credentials: CredentialsView) -> Option<Seq<char>> {
    match credentials {
        CredentialsView::ServiceAccount { project_id, .. } => project_id,
        _ => None,
    }
}

/// The settings that an account has, or their failure.
pub open spec fn resolved(
    places: VertexPaths,
    document: AdcView,
    fingerprint: Seq<u8>,
    file: ConfigFile,
    search: GcloudSearch,
    environment: Environment,
) -> Result<SettingsView, ErrorKind> {
    if !vertexai::secrets_ok(document) {
        Err(ErrorKind::Parse)
    } else {
        match (
            configured(file, environment),
            vertexai::document_credentials(vertexai::trimmed_secrets(document)),
        ) {
            (Err(kind), _) => Err(kind),
            (_, Err(kind)) => Err(kind),
            (Ok(setting), Ok(credentials)) => {
                let service = credentials is ServiceAccount;
                let project = match own_project(credentials) {
                    Some(p) => Some(p),
                    None => setting,
                };
                if service && search is Failed {
                    Err(ErrorKind::Api)
                } else if service && search is Missing {
                    Err(ErrorKind::MissingCredential)
                } else if project is None {
                    Err(ErrorKind::MissingCredential)
                } else if !vertexai::project_ok(project->0) {
                    Err(ErrorKind::Api)
                } else {
                    Ok(
                        SettingsView {
                            adc_path: places.adc_path@,
                            config_dir: places.config_dir@,
                            project_id: project->0,
                            credentials,
                            gcloud: if service {
                                Some(search->Found_0@)
                            } else {
                                None
                            },
                            gcloud_environment: if service {
                                vertexai::helper_environment(environment, places.home@)
                            } else {
                                seq![]
                            },
                            fingerprint,
                        },
                    )
                }
            },
        }
    }
}

impl VertexSettings {
    pub open spec fn value(self) -> SettingsView {
        SettingsView {
            adc_path: self.adc_path@,
            config_dir: self.config_dir@,
            project_id: self.project_id@,
            credentials: self.credentials.value(),
            gcloud: self.gcloud.deep_view(),
            gcloud_environment: self.gcloud_environment.deep_view(),
            fingerprint: self.fingerprint@,
        }
    }

    /// Resolves the settings of an account from what was read: the credentials
    /// document, the helper's configuration file and the search for the helper.
    /// A service account's own project comes before the configured one.
    pub fn resolve(
        places: VertexPaths,
        document: AdcDocument,
        fingerprint: Vec<u8>,
        file: &ConfigFile,
        search: GcloudSearch,
        environment: &Environment,
    ) -> (r: Result<VertexSettings, ClassifiedError>)
        ensures
            ({
                let expected = resolved(
                    places,
                    document.value(),
                    fingerprint@,
                    *file,
                    search,
                    *environment,
                );
                match r {
                    Ok(settings) => expected == Ok::<_, ErrorKind>(settings.value()),
                    Err(e) => expected is Err && e == error::plain(expected->Err_0),
                }
            }),
    {
        let checked = match vertexai::check_document(document) {
            Ok(checked) => checked,
            Err(e) => return Err(e),
        };
        let setting = match load_project_id(file, environment) {
            Ok(setting) => setting,
            Err(e) => return Err(e),
        };
        let credentials = match vertexai::parse_adc(checked) {
            Ok(credentials) => credentials,
            Err(e) => return Err(e),
        };
        let mut gcloud: Option<String> = None;
        let mut gcloud_environment: Vec<(String, String)> = Vec::new();
        assert(gcloud_environment.deep_view() =~= seq![]);
        if let VertexCredentialKind::ServiceAccount = credentials.kind() {
            match search {
                GcloudSearch::Failed => return Err(ClassifiedError::new(ErrorKind::Api)),
                GcloudSearch::Missing => return Err(
                    ClassifiedError::new(ErrorKind::MissingCredential),
                ),
                GcloudSearch::Found(path) => {
                    gcloud = Some(path);
                    gcloud_environment = vertexai::gcloud_environment(
                        environment,
                        places.home.as_str(),
                    );
                },
            }
        }
        let project_id = match vertexai::select_project(&credentials, setting) {
            Ok(project) => project,
            Err(e) => return Err(e),
        };
        Ok(
            VertexSettings {
                adc_path: places.adc_path,
                config_dir: places.config_dir,
                project_id,
                credentials,
                gcloud,
                gcloud_environment,
                fingerprint,
            },
        )
    }

    /// The credentials document.
    pub fn adc_path(&self) -> (r: &str)
        ensures
            r@ == self.adc_path@,
    {
        self.adc_path.as_str()
    }

    /// The project that is observed.
    pub fn project_id(&self) -> (r: &str)
        ensures
            r@ == self.project_id@,
    {
        self.project_id.as_str()
    }

    /// The credential form.
    pub fn credential_kind(&self) -> (r: VertexCredentialKind)
        ensures
            r == (if self.credentials is User {
                VertexCredentialKind::User
            } else {
                VertexCredentialKind::ServiceAccount
            }),
    {
        self.credentials.kind()
    }

    /// The helper, where the credential form needs it.
    pub fn gcloud_path(&self) -> (r: Option<&str>)
        ensures
            match r {
                Some(path) => self.gcloud.deep_view() == Some(path@),
                None => self.gcloud is None,
            },
    {
        match &self.gcloud {
            Some(path) => Some(path.as_str()),
            None => None,
        }
    }
}

/// An account's settings show its own project wherever it carries one.
pub proof fn law_own_project_wins(
    places: VertexPaths,
    document: AdcView,
    fingerprint: Seq<u8>,
    file: ConfigFile,
    search: GcloudSearch,
    environment: Environment,
)
    ensures
        resolved(places, document, fingerprint, file, search, environment) matches Ok(settings)
            ==> (own_project(settings.credentials) is Some ==> settings.project_id == own_project(
            settings.credentials,
        )->0) && vertexai::project_ok(settings.project_id),
{
}

/// The address that an identity token claims, where it is usable.
pub fn claimed_identity(raw: &Option<String>) -> (r: Option<String>)
    ensures
        r.deep_view() == (match *raw {
            Some(text) => vertexai::identity_text(text@),
            None => None,
        }),
{
    match raw {
        Some(text) => match vertexai::clean_identity(text.as_str()) {
            Ok(identity) => Some(identity),
            Err(_) => None,
        },
        None => None,
    }
}

/// The words of stderr that tell an expired login.
pub open spec fn expiry_rules() -> Seq<(u8, &'static str)> {
    seq![
        (1u8, "application-default login"),
        (1u8, "reauthentication"),
        (1u8, "credentials are invalid"),
        (1u8, "credentials have expired"),
    ]
}

/// A list of environment changes with one more; `None` where it is not valid.
pub open spec fn with_variable(
    list: Option<Seq<(Seq<u8>, Option<Seq<u8>>)>>,
    name: Seq<char>,
    value: Seq<char>,
) -> Option<Seq<(Seq<u8>, Option<Seq<u8>>)>> {
    match list {
        None => None,
        Some(l) => {
            let c = (vstd::utf8::encode_utf8(name), Some(vstd::utf8::encode_utf8(value)));
            let next = subprocess::with_change(l, c);
            if subprocess::change_ok(c) && subprocess::change_set_ok(next) {
                Some(next)
            } else {
                None
            }
        },
    }
}

/// A list of environment changes with the first `n` variables.
pub open spec fn with_variables(
    start: Option<Seq<(Seq<u8>, Option<Seq<u8>>)>>,
    variables: Seq<(Seq<char>, Seq<char>)>,
    n: int,
) -> Option<Seq<(Seq<u8>, Option<Seq<u8>>)>>
    decreases n,
{
    if n <= 0 {
        start
    } else {
        with_variable(
            with_variables(start, variables, n - 1),
            variables[n - 1].0,
            variables[n - 1].1,
        )
    }
}

proof fn lemma_variables_failure(
    start: Option<Seq<(Seq<u8>, Option<Seq<u8>>)>>,
    variables: Seq<(Seq<char>, Seq<char>)>,
    n: int,
    m: int,
)
    requires
        0 <= n <= m,
        with_variables(start, variables, n) is None,
    ensures
        with_variables(start, variables, m) is None,
    decreases m - n,
{
    if n < m {
        lemma_variables_failure(start, variables, n, m - 1);
    }
}

/// The helper's environment changes; `None` where they are not valid.
pub open spec fn helper_changes(
    adc_path: Seq<char>,
    config_dir: Seq<char>,
    variables: Seq<(Seq<char>, Seq<char>)>,
) -> Option<Seq<(Seq<u8>, Option<Seq<u8>>)>> {
    let document = with_variable(Some(seq![]), "GOOGLE_APPLICATION_CREDENTIALS"@, adc_path);
    let directory = with_variable(document, "CLOUDSDK_CONFIG"@, config_dir);
    let quiet = with_variable(directory, "CLOUDSDK_CORE_DISABLE_PROMPTS"@, "1"@);
    with_variables(quiet, variables, variables.len() as int)
}

/// The helper's arguments.
pub open spec fn helper_arguments() -> Seq<Seq<u8>> {
    seq![
        vstd::utf8::encode_utf8("auth"@),
        vstd::utf8::encode_utf8("application-default"@),
        vstd::utf8::encode_utf8("print-access-token"@),
    ]
}

/// Whether the helper can be invoked.
pub open spec fn helper_ok(
    executable: Seq<char>,
    adc_path: Seq<char>,
    config_dir: Seq<char>,
    variables: Seq<(Seq<char>, Seq<char>)>,
) -> bool {
    &&& subprocess::rules_ok(subprocess::rule_bytes(expiry_rules()))
    &&& subprocess::invocation_ok(
        vstd::utf8::encode_utf8(executable),
        helper_arguments(),
        (Duration { seconds: 20, nanos: 0 }),
        GCLOUD_OUTPUT_BYTES,
        GCLOUD_STDERR_BYTES,
    )
    &&& helper_changes(adc_path, config_dir, variables) is Some
}

fn set_variable(request: SubprocessRequest, name: &str, value: &str) -> (r: Result<
    SubprocessRequest,
    ClassifiedError,
>)
    requires
        request.wf(),
    ensures
        ({
            let list = with_variable(
                Some(subprocess::changes(request.environment@)),
                name@,
                value@,
            );
            match r {
                Ok(next) => list == Some(subprocess::changes(next.environment@)) && next == (
                SubprocessRequest { environment: next.environment, ..request }) && next.wf(),
                Err(e) => list is None && e == error::plain(ErrorKind::Api),
            }
        }),
{
    match request.with_environment(name.as_bytes_vec(), value.as_bytes_vec()) {
        Ok(next) => Ok(next),
        Err(e) => Err(vertexai::map_subprocess_error(e)),
    }
}

/// The invocation of the helper that prints an access token. Its environment is
/// cleared but for the named variables.
pub fn gcloud_request(
    executable: &str,
    adc_path: &str,
    config_dir: &str,
    variables: &Vec<(String, String)>,
) -> (r: Result<SubprocessRequest, ClassifiedError>)
    ensures
        match r {
            Ok(q) => helper_ok(executable@, adc_path@, config_dir@, variables.deep_view())
                && q.executable@ == vstd::utf8::encode_utf8(executable@)
                && subprocess::argument_values(q.arguments@) == helper_arguments()
                && helper_changes(adc_path@, config_dir@, variables.deep_view()) == Some(
                subprocess::changes(q.environment@),
            ) && q.clear_environment && q.timeout == (Duration { seconds: 20, nanos: 0 })
                && q.max_stdout_bytes == GCLOUD_OUTPUT_BYTES && q.max_stderr_bytes
                == GCLOUD_STDERR_BYTES && (q.stderr_classifier matches Some(classifier)
                && subprocess::rule_values(classifier.rules@) == subprocess::rule_bytes(
                expiry_rules(),
            )) && q.wf(),
            Err(e) => !helper_ok(executable@, adc_path@, config_dir@, variables.deep_view()) && e
                == error::plain(ErrorKind::Api),
        },
{
    let rules: Vec<(u8, &str)> = vec![
        (1, "application-default login"),
        (1, "reauthentication"),
        (1, "credentials are invalid"),
        (1, "credentials have expired"),
    ];
    assert(rules@ =~= expiry_rules());
    let classifier = match StderrClassifier::ascii_case_insensitive(&rules) {
        Ok(classifier) => classifier,
        Err(e) => return Err(vertexai::map_subprocess_error(e)),
    };
    let arguments = vec![
        "auth".as_bytes_vec(),
        "application-default".as_bytes_vec(),
        "print-access-token".as_bytes_vec(),
    ];
    assert(subprocess::argument_values(arguments@) =~= helper_arguments());
    let request = match SubprocessRequest::new(
        executable.as_bytes_vec(),
        arguments,
        Duration::from_secs(20),
        GCLOUD_OUTPUT_BYTES,
        GCLOUD_STDERR_BYTES,
    ) {
        Ok(request) => request,
        Err(e) => return Err(vertexai::map_subprocess_error(e)),
    };
    let request = request.with_cleared_environment().with_stderr_classifier(classifier);
    assert(subprocess::changes(request.environment@) =~= seq![]);
    let ghost pairs = variables.deep_view();
    let ghost document = with_variable(
        Some(seq![]),
        "GOOGLE_APPLICATION_CREDENTIALS"@,
        adc_path@,
    );
    let ghost directory = with_variable(document, "CLOUDSDK_CONFIG"@, config_dir@);
    let ghost quiet = with_variable(directory, "CLOUDSDK_CORE_DISABLE_PROMPTS"@, "1"@);
    proof {
        if quiet is None {
            lemma_variables_failure(quiet, pairs, 0, pairs.len() as int);
        }
    }
    let request = match set_variable(request, "GOOGLE_APPLICATION_CREDENTIALS", adc_path) {
        Ok(request) => request,
        Err(e) => return Err(e),
    };
    let request = match set_variable(request, "CLOUDSDK_CONFIG", config_dir) {
        Ok(request) => request,
        Err(e) => return Err(e),
    };
    let mut request = match set_variable(request, "CLOUDSDK_CORE_DISABLE_PROMPTS", "1") {
        Ok(request) => request,
        Err(e) => return Err(e),
    };
    let ghost first = request;
    let mut i: usize = 0;
    while i < variables.len()
        invariant
            pairs == variables.deep_view(),
            i <= variables@.len(),
            with_variables(quiet, pairs, i as int) == Some(
                subprocess::changes(request.environment@),
            ),
            request == (SubprocessRequest { environment: request.environment, ..first }),
            request.wf(),
            helper_changes(adc_path@, config_dir@, pairs) == with_variables(
                quiet,
                pairs,
                pairs.len() as int,
            ),
        decreases variables@.len() - i,
    {
        assert(pairs[i as int] == (variables@[i as int].0@, variables@[i as int].1@));
        request =
        match set_variable(request, variables[i].0.as_str(), variables[i].1.as_str()) {
            Ok(next) => next,
            Err(e) => {
                proof {
                    lemma_variables_failure(quiet, pairs, i as int + 1, pairs.len() as int);
                }
                return Err(e);
            },
        };
        i += 1;
    }
    Ok(request)
}

/// The default endpoint of the token refresh.
pub open spec fn default_oauth_endpoint() -> Seq<char> {
    "https://oauth2.googleapis.com/token"@
}

/// The default origin of the series.
pub open spec fn default_monitoring_origin() -> Seq<char> {
    "https://monitoring.googleapis.com"@
}

/// The endpoints of the adapter.
pub struct VertexAiProvider {
    pub oauth_endpoint: String,
    pub monitoring_origin: String,
}

/// Whether a URL is the root of its origin, whatever credentials it holds.
pub open spec fn root(url: UrlView) -> bool {
    url.path == "/"@ && url.query is None && url.fragment is None
}

impl VertexAiProvider {
    /// The production endpoints. `allowed` is the verdict of the endpoint
    /// policies on both.
    pub fn new(provider: ProviderId, allowed: bool) -> (r: Result<VertexAiProvider, ClassifiedError>)
        ensures
            match r {
                Ok(adapter) => provider == ProviderId::VertexAi && allowed
                    && adapter.oauth_endpoint@ == default_oauth_endpoint()
                    && adapter.monitoring_origin@ == default_monitoring_origin(),
                Err(e) => !(provider == ProviderId::VertexAi && allowed) && e == error::plain(
                    ErrorKind::Api,
                ),
            },
    {
        if provider != ProviderId::VertexAi || !allowed {
            return Err(ClassifiedError::new(ErrorKind::Api));
        }
        Ok(
            VertexAiProvider {
                oauth_endpoint: "https://oauth2.googleapis.com/token".to_owned(),
                monitoring_origin: "https://monitoring.googleapis.com".to_owned(),
            },
        )
    }

    /// Loopback endpoints: the second one is a bare origin. `allowed` is the
    /// verdict of the loopback policies on both.
    pub fn with_loopback_endpoints(
        provider: ProviderId,
        oauth_endpoint: &UrlParts,
        monitoring_origin: &UrlParts,
        allowed: bool,
    ) -> (r: Result<VertexAiProvider, ClassifiedError>)
        ensures
            match r {
                Ok(adapter) => provider == ProviderId::VertexAi && allowed && root(
                    monitoring_origin.value(),
                ) && adapter.oauth_endpoint@ == oauth_endpoint.href@ && adapter.monitoring_origin@
                    == monitoring_origin.href@,
                Err(e) => !(provider == ProviderId::VertexAi && allowed && root(
                    monitoring_origin.value(),
                )) && e == error::plain(ErrorKind::Api),
            },
    {
        if !text::same_text(monitoring_origin.path.as_str(), "/") || monitoring_origin.query.is_some()
            || monitoring_origin.fragment.is_some() || !allowed || provider != ProviderId::VertexAi {
            return Err(ClassifiedError::new(ErrorKind::Api));
        }
        Ok(
            VertexAiProvider {
                oauth_endpoint: oauth_endpoint.href.clone(),
                monitoring_origin: monitoring_origin.href.clone(),
            },
        )
    }
}

} // verus!
