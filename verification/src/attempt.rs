//! One attempt of an exchange: each URL is validated before any header of the
//! request goes out, and a bounded number of redirects is followed.

use vstd::prelude::*;

use crate::exchange;
use crate::exchange::{DecisionView, HeadDecision, ResponseHead};
use crate::instant::Timestamp;
use crate::transport::{HttpRequest, Method, TransportConfig, TransportError};

verus! {

/// Where an attempt stands: the URL to ask, and how many redirects led there.
pub struct Attempt {
    pub url: String,
    pub redirects: u8,
}

/// What follows a response head.
pub enum AttemptStep {
    /// Ask the redirect's target.
    Follow(Attempt),
    /// Collect the body; the selected headers are these.
    Receive(Vec<(String, String)>),
    /// Give up.
    Fail(TransportError),
}

/// The headers that reach a URL: none where the endpoint policy refuses it or a
/// secret cannot be sent.
pub open spec fn sent(request: HttpRequest, allowed: bool) -> Option<Seq<(Seq<char>, Seq<char>)>> {
    if allowed && exchange::secrets_sendable(request) {
        Some(exchange::outgoing(request))
    } else {
        None
    }
}

impl Attempt {
    /// The count of redirects is within its ceiling.
    pub open spec fn wf(self, config: TransportConfig) -> bool {
        self.redirects <= config.max_redirects
    }

    /// An attempt before its first request.
    pub fn start(request: &HttpRequest) -> (r: Attempt)
        ensures
            r.url@ == request.url@,
            r.redirects == 0,
    {
        Attempt { url: request.url.clone(), redirects: 0 }
    }

    /// The headers to send. `allowed` is the verdict of the endpoint policy on
    /// the URL of the attempt.
    pub fn prepare(&self, request: &HttpRequest, allowed: bool) -> (r: Result<
        Vec<(String, String)>,
        TransportError,
    >)
        ensures
            match r {
                Ok(headers) => sent(*request, allowed) == Some(headers.deep_view()),
                Err(error) => sent(*request, allowed) is None && error == (if allowed {
                    TransportError::InvalidConfiguration
                } else {
                    TransportError::Endpoint
                }),
            },
    {
        if !allowed {
            return Err(TransportError::Endpoint);
        }
        exchange::outgoing_headers(request)
    }

    /// What a response head leads to.
    pub fn on_head(
        self,
        request: &HttpRequest,
        config: &TransportConfig,
        head: &ResponseHead,
        now: Timestamp,
    ) -> (r: AttemptStep)
        requires
            self.wf(*config),
        ensures
            ({
                let decided = exchange::decision(
                    *request,
                    *config,
                    self.url@,
                    self.redirects,
                    *head,
                    now,
                );
                match r {
                    AttemptStep::Follow(next) => decided == DecisionView::Redirect(next.url@)
                        && next.redirects == self.redirects + 1 && next.wf(*config),
                    AttemptStep::Receive(headers) => decided == DecisionView::Receive(
                        headers.deep_view(),
                    ),
                    AttemptStep::Fail(error) => decided == DecisionView::Fail(error),
                }
            }),
    {
        match exchange::on_head(request, config, self.url.as_str(), self.redirects, head, now) {
            HeadDecision::Redirect(url) => AttemptStep::Follow(
                Attempt { url, redirects: self.redirects + 1 },
            ),
            HeadDecision::Receive(headers) => AttemptStep::Receive(headers),
            HeadDecision::Fail(error) => AttemptStep::Fail(error),
        }
    }
}

/// The URLs that an attempt asks while `heads` come back, one for each request,
/// after `redirects` redirects led to `url`. The attempt ends with the first head
/// that is no redirect to follow, or when the heads end.
pub open spec fn asked(
    request: HttpRequest,
    config: TransportConfig,
    url: Seq<char>,
    redirects: u8,
    heads: Seq<ResponseHead>,
    now: Timestamp,
) -> Seq<Seq<char>>
    decreases heads.len(),
{
    if heads.len() == 0 {
        seq![url]
    } else {
        match exchange::decision(request, config, url, redirects, heads[0], now) {
            DecisionView::Redirect(next) => if redirects == u8::MAX {
                seq![url]
            } else {
                seq![url] + asked(
                    request,
                    config,
                    next,
                    (redirects + 1) as u8,
                    heads.skip(1),
                    now,
                )
            },
            _ => seq![url],
        }
    }
}

/// Whatever comes back, an attempt asks at most one URL more than its ceiling of
/// redirects, and a request with a body asks one URL only.
pub proof fn law_attempt_asks_few_urls(
    request: HttpRequest,
    config: TransportConfig,
    url: Seq<char>,
    redirects: u8,
    heads: Seq<ResponseHead>,
    now: Timestamp,
)
    requires
        redirects <= config.max_redirects,
    ensures
        asked(request, config, url, redirects, heads, now).len() + redirects
            <= config.max_redirects + 1,
        asked(request, config, url, redirects, heads, now)[0] == url,
        request.method != Method::Get ==> asked(request, config, url, redirects, heads, now)
            == seq![url],
    decreases heads.len(),
{
    if heads.len() > 0 {
        match exchange::decision(request, config, url, redirects, heads[0], now) {
            DecisionView::Redirect(next) => {
                law_attempt_asks_few_urls(
                    request,
                    config,
                    next,
                    (redirects + 1) as u8,
                    heads.skip(1),
                    now,
                );
            },
            _ => {},
        }
    }
}

/// Nothing of a request reaches a URL that the endpoint policy refuses.
pub proof fn law_refused_url_gets_nothing(request: HttpRequest)
    ensures
        sent(request, false) is None,
{
}

} // verus!
