//! The decisions of one HTTP exchange: which headers go out, what a response
//! head leads to, and how a body is collected under its ceiling.

use vstd::prelude::*;

use crate::error;
use crate::error::{ClassifiedError, ErrorKind};
use crate::instant;
use crate::instant::{Duration, Timestamp};
use crate::retry;
use crate::text;
use crate::transport;
use crate::transport::{HttpRequest, Method, TransportConfig, TransportError};

verus! {

/// What arrives before the body of a response. `headers` holds the first value
/// of each header, under its lower-case name.
pub struct ResponseHead {
    pub status: u16,
    pub location: Option<Vec<u8>>,
    pub retry_after: Option<Vec<u8>>,
    pub content_length: Option<u64>,
    pub headers: Vec<(String, Vec<u8>)>,
}

/// What to do after a response head.
pub enum HeadDecision {
    /// Validate and request this URL instead.
    Redirect(String),
    /// Collect the body; the selected headers are these.
    Receive(Vec<(String, String)>),
    /// Give up.
    Fail(TransportError),
}

/// Mathematical value of a [`HeadDecision`].
pub enum DecisionView {
    Redirect(Seq<char>),
    Receive(Seq<(Seq<char>, Seq<char>)>),
    Fail(TransportError),
}

impl HeadDecision {
    pub open spec fn value(self) -> DecisionView {
        match self {
            HeadDecision::Redirect(url) => DecisionView::Redirect(url@),
            HeadDecision::Receive(headers) => DecisionView::Receive(headers.deep_view()),
            HeadDecision::Fail(error) => DecisionView::Fail(error),
        }
    }
}

/// The absolute URL that a reference denotes against a base; `None` where
/// either is not a valid URL.
pub uninterp spec fn joined_url(base: Seq<char>, reference: Seq<char>) -> Option<Seq<char>>;

/// `url::Url::parse` on the base and `join` on the reference. The resulting
/// serialization is named `joined_url`.
#[verifier::external_body]
pub(crate) fn join_url(base: &str, reference: &str) -> (r: Option<String>)
    ensures
        r.deep_view() == joined_url(base@, reference@),
{
    url::Url::parse(base).ok()?.join(reference).ok().map(String::from)
}

/// The failure of a status that is neither success nor accepted.
pub open spec fn status_failure(status: u16, delay: Option<Duration>) -> TransportError {
    if status == 401 {
        TransportError::AuthenticationExpired
    } else if status == 403 {
        TransportError::PermissionDenied
    } else if status == 408 {
        TransportError::RequestTimeout
    } else if status == 429 {
        TransportError::RateLimited { retry_after: delay }
    } else if 500 <= status <= 599 {
        TransportError::ProviderUnavailable { status, retry_after: delay }
    } else {
        TransportError::Api { status }
    }
}

/// The failure of a status that is neither success nor accepted.
pub fn status_error(status: u16, delay: Option<Duration>) -> (r: TransportError)
    ensures
        r == status_failure(status, delay),
{
    if status == 401 {
        TransportError::AuthenticationExpired
    } else if status == 403 {
        TransportError::PermissionDenied
    } else if status == 408 {
        TransportError::RequestTimeout
    } else if status == 429 {
        TransportError::RateLimited { retry_after: delay }
    } else if 500 <= status && status <= 599 {
        TransportError::ProviderUnavailable { status, retry_after: delay }
    } else {
        TransportError::Api { status }
    }
}

/// With a retry left, an answer of status 408, 429 or 500 to 599 leads to a delay:
/// the one that the server asked for with 429 or 5xx, or else the policy's own,
/// within the policy's ceiling. No other failing answer leads to one.
pub proof fn law_retries_follow_the_status(
    policy: retry::RetryPolicy,
    completed: u8,
    status: u16,
    delay: Option<Duration>,
)
    requires
        completed < policy.max_retries,
    ensures
        ({
            let chosen = policy.next_delay(completed, status_failure(status, delay));
            let wanted = if delay is Some && status != 408 {
                delay->0
            } else {
                policy.base_delay
            };
            let ceiling = policy.max_delay;
            let too_long = wanted.seconds > ceiling.seconds || (wanted.seconds == ceiling.seconds
                && wanted.nanos > ceiling.nanos);
            if status == 408 || status == 429 || 500 <= status <= 599 {
                chosen == Some(
                    if too_long {
                        ceiling
                    } else {
                        wanted
                    },
                )
            } else {
                chosen is None
            }
        }),
{
}

/// The class of a failing answer follows its status, and its delay in seconds is
/// what the server asked for with 429 or 5xx.
pub proof fn law_classes_follow_the_status(status: u16, delay: Option<Duration>)
    ensures
        ({
            let class = status_failure(status, delay).class();
            &&& status == 401 <==> class == ErrorKind::AuthenticationExpired
            &&& status == 403 <==> class == ErrorKind::PermissionDenied
            &&& status == 408 <==> class == ErrorKind::Network
            &&& status == 429 <==> class == ErrorKind::RateLimited
            &&& 500 <= status <= 599 <==> class == ErrorKind::ProviderUnavailable
            &&& status_failure(status, delay).server_delay() == (if status == 429 || 500 <= status
                <= 599 {
                delay
            } else {
                None
            })
        }),
{
}

/// The URL that a redirect leads to.
pub open spec fn redirect_url(current: Seq<char>, location: Option<Seq<u8>>) -> Option<Seq<char>> {
    match location {
        None => None,
        Some(bytes) => match transport::visible_text(bytes) {
            None => None,
            Some(reference) => joined_url(current, reference),
        },
    }
}

/// The URL that a redirect leads to.
pub fn redirect_target(current: &str, location: &Option<Vec<u8>>) -> (r: Result<
    String,
    TransportError,
>)
    ensures
        match r {
            Ok(url) => redirect_url(current@, location.deep_view()) == Some(url@),
            Err(error) => redirect_url(current@, location.deep_view()) is None && error
                == TransportError::MalformedResponse,
        },
{
    match location {
        None => Err(TransportError::MalformedResponse),
        Some(bytes) => {
            assert(bytes.deep_view() =~= bytes@);
            match transport::header_text(bytes.as_slice()) {
                None => Err(TransportError::MalformedResponse),
                Some(reference) => match join_url(current, reference.as_str()) {
                    Some(url) => Ok(url),
                    None => Err(TransportError::MalformedResponse),
                },
            }
        },
    }
}

/// Position of the first header named `name` at or behind `from`.
pub open spec fn header_position(
    headers: Seq<(Seq<char>, Seq<u8>)>,
    name: Seq<char>,
    from: int,
) -> Option<int>
    decreases headers.len() - from,
{
    if from < 0 || from >= headers.len() {
        None
    } else if headers[from].0 == name {
        Some(from)
    } else {
        header_position(headers, name, from + 1)
    }
}

/// The selected headers among the first `n` names: those present, in the order
/// of the selection; an oversized or unreadable value fails.
pub open spec fn selected_headers(
    headers: Seq<(Seq<char>, Seq<u8>)>,
    names: Seq<Seq<char>>,
    n: int,
) -> Result<Seq<(Seq<char>, Seq<char>)>, TransportError>
    decreases n,
{
    if n <= 0 {
        Ok(seq![])
    } else {
        match selected_headers(headers, names, n - 1) {
            Err(error) => Err(error),
            Ok(before) => match header_position(headers, names[n - 1], 0) {
                None => Ok(before),
                Some(at) => if headers[at].1.len() > transport::MAX_RESPONSE_HEADER_VALUE_BYTES {
                    Err(TransportError::ResponseTooLarge)
                } else {
                    match transport::visible_text(headers[at].1) {
                        None => Err(TransportError::MalformedResponse),
                        Some(value) => Ok(before.push((names[n - 1], value))),
                    }
                },
            },
        }
    }
}

/// Failures are final: a longer selection fails the same way.
proof fn lemma_selection_failure(
    headers: Seq<(Seq<char>, Seq<u8>)>,
    names: Seq<Seq<char>>,
    n: int,
    m: int,
)
    requires
        0 <= n <= m,
        selected_headers(headers, names, n) is Err,
    ensures
        selected_headers(headers, names, m) == selected_headers(headers, names, n),
    decreases m - n,
{
    if n < m {
        lemma_selection_failure(headers, names, n, m - 1);
    }
}

/// The selected headers of a response.
pub fn select_response_headers(headers: &Vec<(String, Vec<u8>)>, names: &Vec<String>) -> (r: Result<
    Vec<(String, String)>,
    TransportError,
>)
    ensures
        match r {
            Ok(selected) => selected_headers(
                headers.deep_view(),
                names.deep_view(),
                names@.len() as int,
            ) == Ok::<_, TransportError>(selected.deep_view()),
            Err(error) => selected_headers(
                headers.deep_view(),
                names.deep_view(),
                names@.len() as int,
            ) == Err::<Seq<(Seq<char>, Seq<char>)>, _>(error),
        },
{
    let ghost all = headers.deep_view();
    let ghost wanted = names.deep_view();
    let mut selected: Vec<(String, String)> = Vec::new();
    let mut i: usize = 0;
    assert(selected.deep_view() =~= seq![]);
    while i < names.len()
        invariant
            all == headers.deep_view(),
            wanted == names.deep_view(),
            i <= names@.len(),
            selected_headers(all, wanted, i as int) == Ok::<_, TransportError>(selected.deep_view()),
        decreases names@.len() - i,
    {
        assert(wanted[i as int] == names@[i as int]@);
        let mut k: usize = 0;
        let mut found: Option<usize> = None;
        while k < headers.len()
            invariant_except_break
                found is None,
                header_position(all, wanted[i as int], 0) == header_position(
                    all,
                    wanted[i as int],
                    k as int,
                ),
            invariant
                all == headers.deep_view(),
                wanted == names.deep_view(),
                i < names@.len(),
                wanted[i as int] == names@[i as int]@,
                k <= headers@.len(),
            ensures
                match found {
                    Some(at) => at < headers@.len() && header_position(all, wanted[i as int], 0)
                        == Some(at as int),
                    None => header_position(all, wanted[i as int], 0) is None,
                },
            decreases headers@.len() - k,
        {
            assert(all[k as int].0 == headers@[k as int].0@);
            if text::same_text(headers[k].0.as_str(), names[i].as_str()) {
                found = Some(k);
                break;
            }
            k += 1;
        }
        if let Some(at) = found {
            assert(all[at as int].1 =~= headers@[at as int].1@);
            proof {
                if selected_headers(all, wanted, i as int + 1) is Err {
                    lemma_selection_failure(all, wanted, i as int + 1, wanted.len() as int);
                }
            }
            if headers[at].1.len() > transport::MAX_RESPONSE_HEADER_VALUE_BYTES {
                return Err(TransportError::ResponseTooLarge);
            }
            match transport::header_text(headers[at].1.as_slice()) {
                None => return Err(TransportError::MalformedResponse),
                Some(value) => {
                    let ghost before = selected.deep_view();
                    selected.push((names[i].clone(), value));
                    assert(selected.deep_view() =~= before.push((wanted[i as int], value@)));
                },
            }
        }
        i += 1;
    }
    Ok(selected)
}

/// Whether a status stands for success.
pub open spec fn success(status: u16) -> bool {
    200 <= status <= 299
}

/// The delay that the response asks for, under the policy's ceiling.
pub open spec fn head_delay(
    retry_after: Option<Seq<u8>>,
    config: TransportConfig,
    now: Timestamp,
) -> Option<Duration> {
    match retry_after {
        Some(value) => retry::retry_after_delay(value, now, config.retry.max_delay),
        None => None,
    }
}

/// What a response head leads to, after `redirects` redirects.
pub open spec fn decision(
    request: HttpRequest,
    config: TransportConfig,
    current: Seq<char>,
    redirects: u8,
    head: ResponseHead,
    now: Timestamp,
) -> DecisionView {
    if 300 <= head.status <= 399 {
        if request.method != Method::Get {
            DecisionView::Fail(TransportError::MalformedResponse)
        } else if redirects == config.max_redirects {
            DecisionView::Fail(TransportError::TooManyRedirects)
        } else {
            match redirect_url(current, head.location.deep_view()) {
                Some(url) => DecisionView::Redirect(url),
                None => DecisionView::Fail(TransportError::MalformedResponse),
            }
        }
    } else if !success(head.status) && !request.accepted_statuses@.contains(head.status) {
        DecisionView::Fail(
            status_failure(head.status, head_delay(head.retry_after.deep_view(), config, now)),
        )
    } else {
        match selected_headers(
            head.headers.deep_view(),
            request.response_headers.deep_view(),
            request.response_headers@.len() as int,
        ) {
            Err(error) => DecisionView::Fail(error),
            Ok(selected) => if head.content_length is Some && head.content_length->0
                > config.max_response_bytes {
                DecisionView::Fail(TransportError::ResponseTooLarge)
            } else {
                DecisionView::Receive(selected)
            },
        }
    }
}

/// A request whose first answer is a failure that the request does not accept is
/// tried again for status 408, 429 and 500 to 599, and for no other status from 400
/// to 499; without a wish of the server, after the policy's own delay.
pub proof fn law_first_failures_are_retried(
    request: HttpRequest,
    config: TransportConfig,
    current: Seq<char>,
    redirects: u8,
    head: ResponseHead,
    now: Timestamp,
)
    requires
        config.retry.max_retries > 0,
        config.retry.valid(),
        head.status >= 400,
        !request.accepted_statuses@.contains(head.status),
    ensures
        ({
            let transient = head.status == 408 || head.status == 429 || 500 <= head.status <= 599;
            &&& decision(
                request,
                config,
                current,
                redirects,
                head,
                now,
            ) matches DecisionView::Fail(error)
            &&& transient <==> config.retry.next_delay(0, error) is Some
            &&& transient && head.retry_after is None ==> config.retry.next_delay(0, error) == Some(
                config.retry.base_delay,
            )
        }),
{
}

/// Decides what a response head leads to, after `redirects` redirects.
pub fn on_head(
    request: &HttpRequest,
    config: &TransportConfig,
    current: &str,
    redirects: u8,
    head: &ResponseHead,
    now: Timestamp,
) -> (r: HeadDecision)
    ensures
        r.value() == decision(*request, *config, current@, redirects, *head, now),
{
    if 300 <= head.status && head.status <= 399 {
        if request.method != Method::Get {
            return HeadDecision::Fail(TransportError::MalformedResponse);
        }
        if redirects == config.max_redirects {
            return HeadDecision::Fail(TransportError::TooManyRedirects);
        }
        return match redirect_target(current, &head.location) {
            Ok(url) => HeadDecision::Redirect(url),
            Err(error) => HeadDecision::Fail(error),
        };
    }
    let accepted = {
        let mut accepted = 200 <= head.status && head.status <= 299;
        let mut i: usize = 0;
        while i < request.accepted_statuses.len()
            invariant
                i <= request.accepted_statuses@.len(),
                accepted == (success(head.status) || request.accepted_statuses@.take(
                    i as int,
                ).contains(head.status)),
            decreases request.accepted_statuses@.len() - i,
        {
            let ghost before = request.accepted_statuses@.take(i as int);
            let ghost after = request.accepted_statuses@.take(i as int + 1);
            assert(after =~= before.push(request.accepted_statuses@[i as int]));
            proof {
                if before.contains(head.status) {
                    let k = choose|k: int| 0 <= k < before.len() && before[k] == head.status;
                    assert(after[k] == head.status);
                }
                assert(after[i as int] == request.accepted_statuses@[i as int]);
            }
            if request.accepted_statuses[i] == head.status {
                accepted = true;
            }
            i += 1;
        }
        assert(request.accepted_statuses@.take(i as int) =~= request.accepted_statuses@);
        accepted
    };
    if !accepted {
        let delay = match &head.retry_after {
            Some(value) => {
                assert(value.deep_view() =~= value@);
                retry::parse_retry_after(value.as_slice(), now, config.retry.max_delay())
            },
            None => None,
        };
        return HeadDecision::Fail(status_error(head.status, delay));
    }
    match select_response_headers(&head.headers, &request.response_headers) {
        Err(error) => HeadDecision::Fail(error),
        Ok(selected) => {
            if let Some(length) = head.content_length {
                if length > config.max_response_bytes as u64 {
                    return HeadDecision::Fail(TransportError::ResponseTooLarge);
                }
            }
            HeadDecision::Receive(selected)
        },
    }
}

/// A redirect is followed only while the count is below the ceiling: a count
/// that starts within the ceiling and grows by one per redirect stays within
/// it. Only a GET request is redirected.
pub proof fn law_redirects_bounded(
    request: HttpRequest,
    config: TransportConfig,
    current: Seq<char>,
    redirects: u8,
    head: ResponseHead,
    now: Timestamp,
)
    requires
        redirects <= config.max_redirects,
    ensures
        decision(request, config, current, redirects, head, now) is Redirect ==> redirects + 1
            <= config.max_redirects && request.method == Method::Get,
{
}

/// A body is collected only after a success status or one that the request
/// accepts.
pub proof fn law_received_status(
    request: HttpRequest,
    config: TransportConfig,
    current: Seq<char>,
    redirects: u8,
    head: ResponseHead,
    now: Timestamp,
)
    ensures
        decision(request, config, current, redirects, head, now) is Receive ==> success(head.status)
            || request.accepted_statuses@.contains(head.status),
{
}

/// Adds one chunk to a body, unless the body would grow beyond `limit`.
pub fn append_chunk(body: &mut Vec<u8>, chunk: &[u8], limit: usize) -> (r: Result<
    (),
    TransportError,
>)
    ensures
        match r {
            Ok(_) => old(body)@.len() + chunk@.len() <= limit && final(body)@ == old(body)@
                + chunk@,
            Err(error) => old(body)@.len() + chunk@.len() > limit && error
                == TransportError::ResponseTooLarge && final(body)@ == old(body)@,
        },
{
    let have: usize = body.len();
    let more: usize = chunk.len();
    if more > limit || have > limit - more {
        return Err(TransportError::ResponseTooLarge);
    }
    body.extend_from_slice(chunk);
    assert(body@ =~= old(body)@ + chunk@);
    Ok(())
}

/// The headers that go out with a request, in order.
pub open spec fn outgoing(request: HttpRequest) -> Seq<(Seq<char>, Seq<char>)> {
    let accept = match request.accept {
        Some(accept) => seq![("accept"@, accept.text())],
        None => seq![],
    };
    let content_type = match request.content_type {
        Some(content_type) => seq![("content-type"@, content_type.text())],
        None => seq![],
    };
    let authentication = match request.authentication {
        Some(authentication) => seq![authentication.header_view()],
        None => seq![],
    };
    accept + content_type + request.public_headers.deep_view()
        + request.sensitive_headers.deep_view() + authentication
}

/// Whether the secret values of a request can stand in headers.
pub open spec fn secrets_sendable(request: HttpRequest) -> bool {
    &&& forall|i: int|
        0 <= i < request.sensitive_headers@.len() ==> transport::header_value_ok(
            (#[trigger] request.sensitive_headers@[i]).1@,
        )
    &&& match request.authentication {
        Some(authentication) => transport::header_value_ok(authentication.header_view().1),
        None => true,
    }
}

/// How many of the headers that go out with a request are not secret. They come
/// first.
pub open spec fn plain_headers(request: HttpRequest) -> int {
    (if request.accept is Some {
        1int
    } else {
        0
    }) + (if request.content_type is Some {
        1int
    } else {
        0
    }) + request.public_headers@.len()
}

/// Whether a header that goes out with a request is secret, by its place.
pub fn is_secret(request: &HttpRequest, place: usize) -> (r: bool)
    ensures
        r == (place >= plain_headers(*request)),
{
    let accept: usize = if request.accept.is_some() {
        1
    } else {
        0
    };
    let content_type: usize = if request.content_type.is_some() {
        1
    } else {
        0
    };
    let fixed: usize = accept + content_type;
    place >= fixed && place - fixed >= request.public_headers.len()
}

/// The headers from the first secret one on are the sensitive headers and then the
/// authentication.
pub proof fn law_secret_headers_come_last(request: HttpRequest)
    ensures
        outgoing(request).skip(plain_headers(request)) =~= request.sensitive_headers.deep_view()
            + (match request.authentication {
            Some(authentication) => seq![authentication.header_view()],
            None => seq![],
        }),
{
}

/// The headers that go out with a request, where every secret can be sent.
pub fn outgoing_headers(request: &HttpRequest) -> (r: Result<
    Vec<(String, String)>,
    TransportError,
>)
    ensures
        match r {
            Ok(headers) => secrets_sendable(*request) && headers.deep_view() == outgoing(*request),
            Err(error) => !secrets_sendable(*request) && error
                == TransportError::InvalidConfiguration,
        },
{
    let mut headers: Vec<(String, String)> = Vec::new();
    assert(headers.deep_view() =~= seq![]);
    if let Some(accept) = request.accept {
        headers.push(("accept".to_owned(), accept.as_str().to_owned()));
        assert(headers.deep_view() =~= seq![("accept"@, accept.text())]);
    }
    let ghost first = headers.deep_view();
    if let Some(content_type) = request.content_type {
        headers.push(("content-type".to_owned(), content_type.as_str().to_owned()));
        assert(headers.deep_view() =~= first + seq![("content-type"@, content_type.text())]);
    }
    let ghost start = headers.deep_view();
    let mut i: usize = 0;
    assert(request.public_headers.deep_view().take(0) =~= seq![]);
    assert(start + Seq::<(Seq<char>, Seq<char>)>::empty() =~= start);
    while i < request.public_headers.len()
        invariant
            i <= request.public_headers@.len(),
            headers.deep_view() == start + request.public_headers.deep_view().take(i as int),
        decreases request.public_headers@.len() - i,
    {
        let ghost before = headers.deep_view();
        headers.push((request.public_headers[i].0.clone(), request.public_headers[i].1.clone()));
        assert(headers.deep_view() =~= before.push(request.public_headers.deep_view()[i as int]));
        assert(request.public_headers.deep_view().take(i as int + 1)
            =~= request.public_headers.deep_view().take(i as int).push(
            request.public_headers.deep_view()[i as int],
        ));
        i += 1;
        assert(headers.deep_view() =~= start + request.public_headers.deep_view().take(i as int));
    }
    assert(request.public_headers.deep_view().take(i as int)
        =~= request.public_headers.deep_view());
    let ghost middle = headers.deep_view();
    let mut k: usize = 0;
    assert(request.sensitive_headers.deep_view().take(0) =~= seq![]);
    assert(middle + Seq::<(Seq<char>, Seq<char>)>::empty() =~= middle);
    while k < request.sensitive_headers.len()
        invariant
            k <= request.sensitive_headers@.len(),
            headers.deep_view() == middle + request.sensitive_headers.deep_view().take(k as int),
            forall|j: int|
                0 <= j < k ==> transport::header_value_ok(
                    (#[trigger] request.sensitive_headers@[j]).1@,
                ),
        decreases request.sensitive_headers@.len() - k,
    {
        if !transport::is_header_value(request.sensitive_headers[k].1.as_str()) {
            assert(!transport::header_value_ok(request.sensitive_headers@[k as int].1@));
            return Err(TransportError::InvalidConfiguration);
        }
        let ghost before = headers.deep_view();
        headers.push(
            (request.sensitive_headers[k].0.clone(), request.sensitive_headers[k].1.clone()),
        );
        assert(headers.deep_view() =~= before.push(request.sensitive_headers.deep_view()[k as int]));
        assert(request.sensitive_headers.deep_view().take(k as int + 1)
            =~= request.sensitive_headers.deep_view().take(k as int).push(
            request.sensitive_headers.deep_view()[k as int],
        ));
        k += 1;
        assert(headers.deep_view() =~= middle + request.sensitive_headers.deep_view().take(
            k as int,
        ));
    }
    assert(request.sensitive_headers.deep_view().take(k as int)
        =~= request.sensitive_headers.deep_view());
    let ghost nearly = headers.deep_view();
    if let Some(authentication) = &request.authentication {
        match authentication.header() {
            Ok(pair) => {
                headers.push(pair);
                assert(headers.deep_view() =~= nearly + seq![authentication.header_view()]);
            },
            Err(error) => return Err(error),
        }
    }
    assert(headers.deep_view() =~= outgoing(*request));
    Ok(headers)
}

/// Bounded response of one exchange, with the validated URL that gave it.
pub struct HttpResponse {
    pub status: u16,
    pub body: Vec<u8>,
    pub headers: Vec<(String, String)>,
    pub endpoint: String,
}

/// The value of the first pair named `name` at or behind `from`.
pub open spec fn header_value(
    headers: Seq<(Seq<char>, Seq<char>)>,
    name: Seq<char>,
    from: int,
) -> Option<Seq<char>>
    decreases headers.len() - from,
{
    if from < 0 || from >= headers.len() {
        None
    } else if headers[from].0 == name {
        Some(headers[from].1)
    } else {
        header_value(headers, name, from + 1)
    }
}

impl HttpResponse {
    /// Numeric status.
    pub fn status(&self) -> (r: u16)
        ensures
            r == self.status,
    {
        self.status
    }

    /// Bounded response bytes.
    pub fn body(&self) -> (r: &[u8])
        ensures
            r@ == self.body@,
    {
        self.body.as_slice()
    }

    /// The bytes of a response that was answered in full; a failure of class
    /// `otherwise` for any other status.
    pub fn body_if_ok(&self, otherwise: ErrorKind) -> (r: Result<&[u8], ClassifiedError>)
        ensures
            match r {
                Ok(body) => self.status == 200 && body@ == self.body@,
                Err(e) => self.status != 200 && e == error::plain(otherwise),
            },
    {
        if self.status == 200 {
            Ok(self.body.as_slice())
        } else {
            Err(ClassifiedError::new(otherwise))
        }
    }

    /// One selected response header; the name is matched without regard to case.
    pub fn header(&self, name: &str) -> (r: Option<&str>)
        ensures
            match r {
                Some(value) => transport::header_name(name@) is Some && header_value(
                    self.headers.deep_view(),
                    text::lower(name@),
                    0,
                ) == Some(value@),
                None => transport::header_name(name@) is None || header_value(
                    self.headers.deep_view(),
                    text::lower(name@),
                    0,
                ) is None,
            },
    {
        let lower = match transport::parse_header_name(name) {
            Some(lower) => lower,
            None => return None,
        };
        let ghost all = self.headers.deep_view();
        let mut i: usize = 0;
        while i < self.headers.len()
            invariant
                all == self.headers.deep_view(),
                lower@ == text::lower(name@),
                transport::header_name(name@) is Some,
                i <= self.headers@.len(),
                header_value(all, lower@, 0) == header_value(all, lower@, i as int),
            decreases self.headers@.len() - i,
        {
            assert(all[i as int] == (self.headers@[i as int].0@, self.headers@[i as int].1@));
            if text::same_text(self.headers[i].0.as_str(), lower.as_str()) {
                return Some(self.headers[i].1.as_str());
            }
            i += 1;
        }
        None
    }
}

/// Nanoseconds since the epoch of a clock reading that lies `seconds` and
/// `nanos` behind the epoch, or before it where `before_epoch` holds.
pub open spec fn clock_nanos(before_epoch: bool, seconds: u64, nanos: u32) -> int {
    let span = seconds * 1_000_000_000 + nanos;
    if before_epoch {
        -span
    } else {
        span
    }
}

/// The instant of a clock reading: `seconds` and `nanos` since the epoch, or
/// before it where `before_epoch` holds. Readings outside the calendar fail.
pub fn system_time_utc(before_epoch: bool, seconds: u64, nanos: u32) -> (r: Result<
    Timestamp,
    TransportError,
>)
    ensures
        match r {
            Ok(at) => instant::calendar_nanos(clock_nanos(before_epoch, seconds, nanos)) == Some(
                at,
            ),
            Err(error) => instant::calendar_nanos(clock_nanos(before_epoch, seconds, nanos)) is None
                && error == TransportError::InvalidConfiguration,
        },
{
    let span: i128 = seconds as i128 * 1_000_000_000 + nanos as i128;
    let offset: i128 = if before_epoch {
        -span
    } else {
        span
    };
    match Timestamp::from_nanos(offset) {
        Some(at) => Ok(at),
        None => Err(TransportError::InvalidConfiguration),
    }
}

/// A selected header is the first of its name, was asked for and has at most 8192
/// bytes.
pub proof fn law_selected_headers_were_asked_for(
    headers: Seq<(Seq<char>, Seq<u8>)>,
    names: Seq<Seq<char>>,
    n: int,
)
    requires
        0 <= n <= names.len(),
    ensures
        selected_headers(headers, names, n) matches Ok(chosen) ==> chosen.len() <= n && forall|
            i: int,
        |
            0 <= i < chosen.len() ==> #[trigger] taken_from(chosen[i], headers, names),
    decreases n,
{
    if n > 0 && selected_headers(headers, names, n) is Ok {
        law_selected_headers_were_asked_for(headers, names, n - 1);
        let name = names[n - 1];
        lemma_first_header(headers, name, 0);
        let before = selected_headers(headers, names, n - 1)->Ok_0;
        let chosen = selected_headers(headers, names, n)->Ok_0;
        assert forall|i: int| 0 <= i < chosen.len() implies #[trigger] taken_from(
            chosen[i],
            headers,
            names,
        ) by {
            if i < before.len() {
                assert(chosen[i] == before[i]);
            } else {
                let at = header_position(headers, name, 0)->0;
                assert(chosen[i].0 == name);
                assert(names.contains(name));
                assert(heads(headers, name, at));
                assert(transport::visible_text(headers[at].1) == Some(chosen[i].1));
            }
        }
    }
}

/// Whether a pair is the first header of a name that was asked for.
pub open spec fn taken_from(
    pair: (Seq<char>, Seq<char>),
    headers: Seq<(Seq<char>, Seq<u8>)>,
    names: Seq<Seq<char>>,
) -> bool {
    names.contains(pair.0) && exists|at: int|
        #[trigger] heads(headers, pair.0, at) && headers[at].1.len() <= 8192
            && transport::visible_text(headers[at].1) == Some(pair.1)
}

/// Whether the first header of a name stands at `at`.
pub open spec fn heads(headers: Seq<(Seq<char>, Seq<u8>)>, name: Seq<char>, at: int) -> bool {
    0 <= at < headers.len() && headers[at].0 == name && forall|i: int|
        0 <= i < at ==> (#[trigger] headers[i]).0 != name
}

proof fn lemma_first_header(headers: Seq<(Seq<char>, Seq<u8>)>, name: Seq<char>, from: int)
    requires
        0 <= from,
        forall|i: int| 0 <= i < from && i < headers.len() ==> (#[trigger] headers[i]).0 != name,
    ensures
        header_position(headers, name, from) matches Some(at) ==> heads(headers, name, at),
    decreases headers.len() - from,
{
    if from < headers.len() && headers[from].0 != name {
        lemma_first_header(headers, name, from + 1);
    }
}

/// A clock that runs one second further reads a thousand million nanoseconds more,
/// and a clock before the epoch mirrors the one behind it.
pub proof fn law_clocks_count_nanoseconds(seconds: u64, nanos: u32)
    ensures
        clock_nanos(false, 0, nanos) == nanos,
        seconds < u64::MAX ==> clock_nanos(false, (seconds + 1) as u64, nanos) - clock_nanos(
            false,
            seconds,
            nanos,
        ) == 1_000_000_000,
        clock_nanos(true, seconds, nanos) + clock_nanos(false, seconds, nanos) == 0,
{
}

} // verus!
