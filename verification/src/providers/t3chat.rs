//! T3 Chat browser-session usage: the request and what its answer holds.

use vstd::prelude::*;

use crate::capture::ManualCaptureError;
use crate::error;
use crate::error::{ClassifiedError, ErrorKind};
use crate::instant::Timestamp;
use crate::json;
use crate::json::{Json, Limits, Tree};
use crate::providers::stepfun;
use crate::registry::ProviderId;
use crate::retry;
use crate::retry::RetryPolicy;
use crate::text;
use crate::transport;
use crate::transport::{Authentication, HttpRequest, Method, RequestAccept, TransportConfig};
use crate::urls;
use crate::urls::{EndpointClass, UrlParts, UrlView};
use crate::usage;
use crate::usage::{ProviderSource, RateWindow, SampleView, UsageSample, WindowView};

verus! {

pub const MAX_RESPONSE_BYTES: usize = 2 * 1024 * 1024;

pub const MAX_JSONL_LINES: usize = 256;

pub const MAX_JSONL_LINE_BYTES: usize = 512 * 1024;

pub const MAX_JSON_NODES: usize = 32_768;

pub const MAX_JSON_DEPTH: usize = 32;

pub const MAX_FORWARDED_VALUE_BYTES: usize = 8 * 1024;

/// The headers of every request, in order.
pub open spec fn default_headers() -> Seq<(Seq<char>, Seq<char>)> {
    seq![
        ("trpc-accept"@, "application/jsonl"@),
        ("x-trpc-source"@, "web-client"@),
        ("x-trpc-batch"@, "true"@),
        ("accept-language"@, "en-US,en;q=0.9"@),
        ("user-agent"@, "Mozilla/5.0 (Macintosh; Intel Mac OS X 10_15_7) AppleWebKit/537.36 (KHTML, like Gecko) Chrome/143.0.0.0 Safari/537.36"@),
        ("referer"@, "https://t3.chat/settings/customization"@),
        ("sec-fetch-dest"@, "empty"@),
        ("sec-fetch-mode"@, "cors"@),
        ("sec-fetch-site"@, "same-origin"@),
        ("priority"@, "u=4"@),
        ("pragma"@, "no-cache"@),
        ("cache-control"@, "no-cache"@),
    ]
}

/// Whether a captured header may be forwarded.
pub open spec fn forwarded_name(name: Seq<char>) -> bool {
    ||| name == "trpc-accept"@
    ||| name == "x-trpc-source"@
    ||| name == "x-trpc-batch"@
    ||| name == "accept-language"@
    ||| name == "user-agent"@
    ||| name == "referer"@
    ||| name == "sec-fetch-dest"@
    ||| name == "sec-fetch-mode"@
    ||| name == "sec-fetch-site"@
    ||| name == "priority"@
    ||| name == "pragma"@
    ||| name == "cache-control"@
    ||| name == "x-client-context"@
    ||| name == "x-deployment-id"@
}

/// Whether a captured header may be forwarded.
pub fn is_forwarded_name(name: &str) -> (r: bool)
    ensures
        r == forwarded_name(name@),
{
    text::same_text(name, "trpc-accept")
        || text::same_text(name, "x-trpc-source")
        || text::same_text(name, "x-trpc-batch")
        || text::same_text(name, "accept-language")
        || text::same_text(name, "user-agent")
        || text::same_text(name, "referer")
        || text::same_text(name, "sec-fetch-dest")
        || text::same_text(name, "sec-fetch-mode")
        || text::same_text(name, "sec-fetch-site")
        || text::same_text(name, "priority")
        || text::same_text(name, "pragma")
        || text::same_text(name, "cache-control")
        || text::same_text(name, "x-client-context")
        || text::same_text(name, "x-deployment-id")
}

proof fn lemma_names()
    ensures
        transport::metadata_name("trpc-accept"@),
        transport::metadata_name("x-trpc-source"@),
        transport::metadata_name("x-trpc-batch"@),
        transport::metadata_name("accept-language"@),
        transport::metadata_name("user-agent"@),
        transport::metadata_name("referer"@),
        transport::metadata_name("sec-fetch-dest"@),
        transport::metadata_name("sec-fetch-mode"@),
        transport::metadata_name("sec-fetch-site"@),
        transport::metadata_name("priority"@),
        transport::metadata_name("pragma"@),
        transport::metadata_name("cache-control"@),
        transport::metadata_name("x-client-context"@),
        transport::metadata_name("x-deployment-id"@),
        transport::metadata_name("origin"@),
        "trpc-accept"@.len() == 11,
        "trpc-accept"@[0] == 't',
        "x-trpc-source"@.len() == 13,
        "x-trpc-source"@[0] == 'x',
        "x-trpc-batch"@.len() == 12,
        "x-trpc-batch"@[0] == 'x',
        "accept-language"@.len() == 15,
        "accept-language"@[0] == 'a',
        "user-agent"@.len() == 10,
        "user-agent"@[0] == 'u',
        "referer"@.len() == 7,
        "referer"@[0] == 'r',
        "sec-fetch-dest"@.len() == 14,
        "sec-fetch-dest"@[0] == 's',
        "sec-fetch-mode"@.len() == 14,
        "sec-fetch-mode"@[0] == 's',
        "sec-fetch-site"@.len() == 14,
        "sec-fetch-site"@[0] == 's',
        "priority"@.len() == 8,
        "priority"@[0] == 'p',
        "pragma"@.len() == 6,
        "pragma"@[0] == 'p',
        "cache-control"@.len() == 13,
        "cache-control"@[0] == 'c',
        "x-client-context"@.len() == 16,
        "x-client-context"@[0] == 'x',
        "x-deployment-id"@.len() == 15,
        "x-deployment-id"@[0] == 'x',
        "origin"@.len() == 6,
        "origin"@[0] == 'o',
        "sec-fetch-dest"@[10] == 'd',
        "sec-fetch-mode"@[10] == 'm',
        "sec-fetch-site"@[10] == 's',
{
    transport::reveal_reserved();
    reveal_strlit("trpc-accept");
    assert(text::lower("trpc-accept"@) =~= "trpc-accept"@);
    reveal_strlit("x-trpc-source");
    assert(text::lower("x-trpc-source"@) =~= "x-trpc-source"@);
    reveal_strlit("x-trpc-batch");
    assert(text::lower("x-trpc-batch"@) =~= "x-trpc-batch"@);
    reveal_strlit("accept-language");
    assert(text::lower("accept-language"@) =~= "accept-language"@);
    reveal_strlit("user-agent");
    assert(text::lower("user-agent"@) =~= "user-agent"@);
    reveal_strlit("referer");
    assert(text::lower("referer"@) =~= "referer"@);
    reveal_strlit("sec-fetch-dest");
    assert(text::lower("sec-fetch-dest"@) =~= "sec-fetch-dest"@);
    reveal_strlit("sec-fetch-mode");
    assert(text::lower("sec-fetch-mode"@) =~= "sec-fetch-mode"@);
    reveal_strlit("sec-fetch-site");
    assert(text::lower("sec-fetch-site"@) =~= "sec-fetch-site"@);
    reveal_strlit("priority");
    assert(text::lower("priority"@) =~= "priority"@);
    reveal_strlit("pragma");
    assert(text::lower("pragma"@) =~= "pragma"@);
    reveal_strlit("cache-control");
    assert(text::lower("cache-control"@) =~= "cache-control"@);
    reveal_strlit("x-client-context");
    assert(text::lower("x-client-context"@) =~= "x-client-context"@);
    reveal_strlit("x-deployment-id");
    assert(text::lower("x-deployment-id"@) =~= "x-deployment-id"@);
    reveal_strlit("origin");
    assert(text::lower("origin"@) =~= "origin"@);
}

proof fn lemma_values()
    ensures
        forall|i: int|
            0 <= i < default_headers().len() ==> transport::header_value_ok(
                (#[trigger] default_headers()[i]).1,
            ) && text::byte_len(default_headers()[i].1) <= transport::MAX_PUBLIC_HEADER_VALUE_BYTES,
        transport::header_value_ok("https://t3.chat"@),
        text::byte_len("https://t3.chat"@) <= transport::MAX_PUBLIC_HEADER_VALUE_BYTES,
{
    reveal_strlit("application/jsonl");
    vstd::utf8::is_ascii_chars_encode_utf8("application/jsonl"@);
    assert(transport::header_value_ok("application/jsonl"@));
    reveal_strlit("web-client");
    vstd::utf8::is_ascii_chars_encode_utf8("web-client"@);
    assert(transport::header_value_ok("web-client"@));
    reveal_strlit("true");
    vstd::utf8::is_ascii_chars_encode_utf8("true"@);
    assert(transport::header_value_ok("true"@));
    reveal_strlit("en-US,en;q=0.9");
    vstd::utf8::is_ascii_chars_encode_utf8("en-US,en;q=0.9"@);
    assert(transport::header_value_ok("en-US,en;q=0.9"@));
    reveal_strlit("Mozilla/5.0 (Macintosh; Intel Mac OS X 10_15_7) AppleWebKit/537.36 (KHTML, like Gecko) Chrome/143.0.0.0 Safari/537.36");
    vstd::utf8::is_ascii_chars_encode_utf8("Mozilla/5.0 (Macintosh; Intel Mac OS X 10_15_7) AppleWebKit/537.36 (KHTML, like Gecko) Chrome/143.0.0.0 Safari/537.36"@);
    assert(transport::header_value_ok("Mozilla/5.0 (Macintosh; Intel Mac OS X 10_15_7) AppleWebKit/537.36 (KHTML, like Gecko) Chrome/143.0.0.0 Safari/537.36"@));
    reveal_strlit("https://t3.chat/settings/customization");
    vstd::utf8::is_ascii_chars_encode_utf8("https://t3.chat/settings/customization"@);
    assert(transport::header_value_ok("https://t3.chat/settings/customization"@));
    reveal_strlit("empty");
    vstd::utf8::is_ascii_chars_encode_utf8("empty"@);
    assert(transport::header_value_ok("empty"@));
    reveal_strlit("cors");
    vstd::utf8::is_ascii_chars_encode_utf8("cors"@);
    assert(transport::header_value_ok("cors"@));
    reveal_strlit("same-origin");
    vstd::utf8::is_ascii_chars_encode_utf8("same-origin"@);
    assert(transport::header_value_ok("same-origin"@));
    reveal_strlit("u=4");
    vstd::utf8::is_ascii_chars_encode_utf8("u=4"@);
    assert(transport::header_value_ok("u=4"@));
    reveal_strlit("no-cache");
    vstd::utf8::is_ascii_chars_encode_utf8("no-cache"@);
    assert(transport::header_value_ok("no-cache"@));
    reveal_strlit("https://t3.chat");
    vstd::utf8::is_ascii_chars_encode_utf8("https://t3.chat"@);
    assert(transport::header_value_ok("https://t3.chat"@));
}

fn defaults() -> (r: Vec<(&'static str, &'static str)>)
    ensures
        r@.len() == default_headers().len(),
        forall|i: int|
            0 <= i < r@.len() ==> ((#[trigger] r@[i]).0@, r@[i].1@) == default_headers()[i],
{
    vec![
        ("trpc-accept", "application/jsonl"),
        ("x-trpc-source", "web-client"),
        ("x-trpc-batch", "true"),
        ("accept-language", "en-US,en;q=0.9"),
        ("user-agent", "Mozilla/5.0 (Macintosh; Intel Mac OS X 10_15_7) AppleWebKit/537.36 (KHTML, like Gecko) Chrome/143.0.0.0 Safari/537.36"),
        ("referer", "https://t3.chat/settings/customization"),
        ("sec-fetch-dest", "empty"),
        ("sec-fetch-mode", "cors"),
        ("sec-fetch-site", "same-origin"),
        ("priority", "u=4"),
        ("pragma", "no-cache"),
        ("cache-control", "no-cache"),
    ]
}

/// The default headers among the first `n` that no forwarded header replaces.
pub open spec fn kept_defaults(forwarded: Seq<(Seq<char>, Seq<char>)>, n: int) -> Seq<
    (Seq<char>, Seq<char>),
>
    decreases n,
{
    if n <= 0 {
        seq![]
    } else if transport::names_header(forwarded, default_headers()[n - 1].0) {
        kept_defaults(forwarded, n - 1)
    } else {
        kept_defaults(forwarded, n - 1).push(default_headers()[n - 1])
    }
}

/// Whether headers can be forwarded: known names, each once, with bounded
/// values.
pub open spec fn forwarded_ok(headers: Seq<(Seq<char>, Seq<char>)>) -> bool {
    &&& forall|i: int|
        0 <= i < headers.len() ==> forwarded_name((#[trigger] headers[i]).0) && text::byte_len(
            headers[i].1,
        ) <= MAX_FORWARDED_VALUE_BYTES
    &&& forall|i: int, j: int|
        0 <= i < j < headers.len() ==> (#[trigger] headers[i]).0 != (#[trigger] headers[j]).0
}

/// Whether all forwarded values can stand in secret headers.
pub open spec fn forwardable(headers: Seq<(Seq<char>, Seq<char>)>) -> bool {
    forall|i: int| 0 <= i < headers.len() ==> transport::secret_ok((#[trigger] headers[i]).1)
}

fn has_name(headers: &Vec<(String, String)>, name: &str) -> (r: bool)
    ensures
        r == transport::names_header(headers.deep_view(), name@),
{
    let ghost all = headers.deep_view();
    let mut i: usize = 0;
    while i < headers.len()
        invariant
            all == headers.deep_view(),
            i <= headers@.len(),
            forall|j: int| 0 <= j < i ==> (#[trigger] all[j]).0 != name@,
        decreases headers@.len() - i,
    {
        assert(all[i as int].0 == headers@[i as int].0@);
        if text::same_text(headers[i].0.as_str(), name) {
            assert(all[i as int].0 == name@);
            return true;
        }
        i += 1;
    }
    false
}

/// An adapter bound to one session.
pub struct T3ChatProvider {
    pub source: ProviderSource,
    pub endpoint: UrlParts,
    pub cookie: String,
    pub accept: RequestAccept,
    pub forwarded_headers: Vec<(String, String)>,
}

impl T3ChatProvider {
    /// The forwarded headers are known, each once; the cookie can be sent.
    pub open spec fn wf(self) -> bool {
        forwarded_ok(self.forwarded_headers.deep_view()) && transport::secret_ok(self.cookie@)
    }

    /// The request for the customer data.
    #[verifier::rlimit(60)]
    pub fn request(&self) -> (r: Result<HttpRequest, ClassifiedError>)
        requires
            self.wf(),
        ensures
            match r {
                Ok(q) => {
                    let forwarded = self.forwarded_headers.deep_view();
                    &&& forwardable(forwarded)
                    &&& q.method == Method::Get
                    &&& q.url@ == self.endpoint.href@
                    &&& q.accept == Some(self.accept)
                    &&& q.body@.len() == 0
                    &&& q.public_headers.deep_view() == kept_defaults(forwarded, 12).push(
                        ("origin"@, "https://t3.chat"@),
                    )
                    &&& q.sensitive_headers.deep_view() == forwarded
                    &&& q.accepted_statuses@ == seq![401u16, 403u16, 429u16]
                    &&& q.response_headers.deep_view() == seq!["x-vercel-mitigated"@]
                    &&& q.authentication is Some
                    &&& q.authentication->0.header_view() == ("cookie"@, self.cookie@)
                    &&& q.wf()
                },
                Err(e) => !forwardable(self.forwarded_headers.deep_view()) && e == error::plain(
                    ErrorKind::Api,
                ),
            },
    {
        let ghost forwarded = self.forwarded_headers.deep_view();
        let ghost listed = default_headers();
        proof {
            lemma_names();
            lemma_values();
        }
        let mut request = HttpRequest::get(self.endpoint.href.clone()).accept(self.accept);
        assert(request.public_headers.deep_view() =~= seq![]);
        assert(request.sensitive_headers.deep_view() =~= seq![]);
        let list = defaults();
        let mut i: usize = 0;
        while i < list.len()
            invariant
                i <= list@.len(),
                list@.len() == 12,
                listed == default_headers(),
                forall|k: int|
                    0 <= k < list@.len() ==> ((#[trigger] list@[k]).0@, list@[k].1@) == listed[k],
                forall|k: int|
                    0 <= k < 12 ==> transport::header_value_ok((#[trigger] listed[k]).1)
                        && text::byte_len(listed[k].1) <= transport::MAX_PUBLIC_HEADER_VALUE_BYTES,
                self.wf(),
                forwarded == self.forwarded_headers.deep_view(),
                request.wf(),
                request.method == Method::Get,
                request.url@ == self.endpoint.href@,
                request.accept == Some(self.accept),
                request.body@.len() == 0,
                request.authentication is None,
                request.sensitive_headers@.len() == 0,
                request.public_headers.deep_view() == kept_defaults(forwarded, i as int),
                request.public_headers@.len() <= i,
            decreases list@.len() - i,
        {
            let (name, value) = (list[i].0, list[i].1);
            assert((name@, value@) == listed[i as int]);
            if !has_name(&self.forwarded_headers, name) {
                proof {
                    lemma_names();
                    lemma_kept_from(forwarded, i as int);
                    lemma_defaults_distinct();
                    assert(!transport::names_header(request.public_headers.deep_view(), name@));
                    assert(request.sensitive_headers.deep_view() =~= seq![]);
                    lemma_default_name(i as int);
                }
                request = match request.public_header(name, value) {
                    Ok(next) => next,
                    Err(e) => return Err(e.classified()),
                };
            }
            i += 1;
        }
        let mut k: usize = 0;
        assert(request.sensitive_headers.deep_view() =~= forwarded.take(0));
        while k < self.forwarded_headers.len()
            invariant
                k <= self.forwarded_headers@.len(),
                self.wf(),
                forwarded == self.forwarded_headers.deep_view(),
                listed == default_headers(),
                request.wf(),
                request.method == Method::Get,
                request.url@ == self.endpoint.href@,
                request.accept == Some(self.accept),
                request.body@.len() == 0,
                request.authentication is None,
                request.public_headers.deep_view() == kept_defaults(forwarded, 12),
                request.public_headers@.len() <= 12,
                request.sensitive_headers.deep_view() == forwarded.take(k as int),
                request.sensitive_headers@.len() == k,
                forall|j: int| 0 <= j < k ==> transport::secret_ok((#[trigger] forwarded[j]).1),
            decreases self.forwarded_headers@.len() - k,
        {
            proof {
                lemma_names();
                lemma_few_forwarded(forwarded);
                lemma_kept_from(forwarded, 12);
                let name = forwarded[k as int].0;
                assert(forwarded[k as int] == (
                    self.forwarded_headers@[k as int].0@,
                    self.forwarded_headers@[k as int].1@,
                ));
                assert(!transport::names_header(request.public_headers.deep_view(), name)) by {
                    let public = request.public_headers.deep_view();
                    if transport::names_header(public, name) {
                        let at = choose|at: int|
                            0 <= at < public.len() && (#[trigger] public[at]).0 == name;
                        assert(!transport::names_header(forwarded, public[at].0));
                        assert(forwarded[k as int].0 == public[at].0);
                    }
                }
                assert(!transport::names_header(request.sensitive_headers.deep_view(), name)) by {
                    let before = forwarded.take(k as int);
                    if transport::names_header(before, name) {
                        let at = choose|at: int|
                            0 <= at < before.len() && (#[trigger] before[at]).0 == name;
                        assert(forwarded[at].0 == name);
                    }
                }
                assert(transport::metadata_name(name));
            }
            let value = self.forwarded_headers[k].1.clone();
            request = match request.sensitive_header(self.forwarded_headers[k].0.as_str(), value) {
                Ok(next) => next,
                Err(e) => {
                    assert(!transport::secret_ok(forwarded[k as int].1));
                    return Err(e.classified());
                },
            };
            k += 1;
            assert(forwarded.take(k as int) =~= forwarded.take(k as int - 1).push(
                forwarded[k as int - 1],
            ));
        }
        assert(forwarded.take(k as int) =~= forwarded);
        proof {
            lemma_names();
            lemma_few_forwarded(forwarded);
            lemma_kept_from(forwarded, 12);
            assert(!transport::names_header(request.public_headers.deep_view(), "origin"@)) by {
                let public = request.public_headers.deep_view();
                if transport::names_header(public, "origin"@) {
                    let at = choose|at: int|
                        0 <= at < public.len() && (#[trigger] public[at]).0 == "origin"@;
                    assert(forwarded_name(public[at].0));
                }
            }
            assert(!transport::names_header(request.sensitive_headers.deep_view(), "origin"@));
        }
        request = match request.public_header("origin", "https://t3.chat") {
            Ok(next) => next,
            Err(e) => return Err(e.classified()),
        };
        let statuses: [u16; 3] = [401, 403, 429];
        request = match request.accepted_statuses(&statuses) {
            Ok(next) => next,
            Err(e) => return Err(e.classified()),
        };
        let kept = vec!["x-vercel-mitigated"];
        proof {
            transport::reveal_reserved();
            reveal_strlit("x-vercel-mitigated");
            assert(text::lower("x-vercel-mitigated"@) =~= "x-vercel-mitigated"@);
            assert(kept.deep_view() =~= seq!["x-vercel-mitigated"@]);
            assert(transport::selected_names(kept.deep_view()) =~= seq!["x-vercel-mitigated"@]);
        }
        request = match request.response_headers(&kept) {
            Ok(next) => next,
            Err(e) => return Err(e.classified()),
        };
        match Authentication::cookie(self.cookie.clone()) {
            Ok(authentication) => Ok(request.authentication(authentication)),
            Err(e) => Err(e.classified()),
        }
    }
}

proof fn lemma_default_name(i: int)
    requires
        0 <= i < 12,
    ensures
        transport::metadata_name(default_headers()[i].0),
        forwarded_name(default_headers()[i].0),
{
    lemma_names();
}

proof fn lemma_defaults_distinct()
    ensures
        forall|i: int, j: int|
            0 <= i < j < 12 ==> (#[trigger] default_headers()[i]).0 != (
            #[trigger] default_headers()[j]).0,
{
    lemma_names();
}

/// The kept default headers are default headers that nothing replaces.
proof fn lemma_kept_from(forwarded: Seq<(Seq<char>, Seq<char>)>, n: int)
    requires
        0 <= n <= 12,
    ensures
        kept_defaults(forwarded, n).len() <= n,
        forall|i: int|
            0 <= i < kept_defaults(forwarded, n).len() ==> !transport::names_header(
                forwarded,
                (#[trigger] kept_defaults(forwarded, n)[i]).0,
            ) && forwarded_name(kept_defaults(forwarded, n)[i].0) && (exists|j: int|
                0 <= j < n && kept_defaults(forwarded, n)[i] == #[trigger] default_headers()[j]),
    decreases n,
{
    if n > 0 {
        lemma_kept_from(forwarded, n - 1);
        lemma_default_name(n - 1);
        let before = kept_defaults(forwarded, n - 1);
        let after = kept_defaults(forwarded, n);
        assert forall|i: int| 0 <= i < after.len() implies !transport::names_header(
            forwarded,
            (#[trigger] after[i]).0,
        ) && forwarded_name(after[i].0) && (exists|j: int|
            0 <= j < n && after[i] == #[trigger] default_headers()[j]) by {
            if i < before.len() {
                assert(after[i] == before[i]);
                let j = choose|j: int|
                    0 <= j < n - 1 && before[i] == #[trigger] default_headers()[j];
                assert(after[i] == default_headers()[j]);
            } else {
                assert(after[i] == default_headers()[n - 1]);
            }
        }
    }
}

/// A place for each header that may be forwarded.
spec fn name_place(name: Seq<char>) -> int {
    if name == "trpc-accept"@ {
        0
    } else if name == "x-trpc-source"@ {
        1
    } else if name == "x-trpc-batch"@ {
        2
    } else if name == "accept-language"@ {
        3
    } else if name == "user-agent"@ {
        4
    } else if name == "referer"@ {
        5
    } else if name == "sec-fetch-dest"@ {
        6
    } else if name == "sec-fetch-mode"@ {
        7
    } else if name == "sec-fetch-site"@ {
        8
    } else if name == "priority"@ {
        9
    } else if name == "pragma"@ {
        10
    } else if name == "cache-control"@ {
        11
    } else if name == "x-client-context"@ {
        12
    } else {
        13
    }
}

/// As names are distinct, no more headers are forwarded than there are names.
proof fn lemma_few_forwarded(headers: Seq<(Seq<char>, Seq<char>)>)
    requires
        forwarded_ok(headers),
    ensures
        headers.len() <= 14,
{
    let places = headers.map_values(|h: (Seq<char>, Seq<char>)| name_place(h.0));
    assert forall|i: int, j: int| 0 <= i < j < places.len() implies places[i] != places[j] by {
        assert(headers[i].0 != headers[j].0);
        assert(forwarded_name(headers[i].0));
        assert(forwarded_name(headers[j].0));
    }
    assert(places.no_duplicates());
    places.unique_seq_to_set();
    vstd::set_lib::lemma_int_range(0, 14);
    assert(places.to_set().subset_of(vstd::set_lib::set_int_range(0, 14))) by {
        assert forall|x: int| places.to_set().contains(x) implies 0 <= x < 14 by {
            let i = choose|i: int| 0 <= i < places.len() && places[i] == x;
            assert(places[i] == name_place(headers[i].0));
        }
    }
    vstd::set_lib::lemma_len_subset(places.to_set(), vstd::set_lib::set_int_range(0, 14));
}

/// What a request accepts where a captured header says so.
pub open spec fn accept_of(value: Seq<char>) -> Option<RequestAccept> {
    let shown = text::trimmed(value);
    if text::same_ignoring_case(shown, "*/*"@) {
        Some(RequestAccept::Any)
    } else if text::same_ignoring_case(shown, "application/json"@) {
        Some(RequestAccept::Json)
    } else if text::same_ignoring_case(shown, "text/html,application/xhtml+xml"@) {
        Some(RequestAccept::Html)
    } else {
        None
    }
}

/// What a request accepts where a captured header says so.
pub fn captured_accept(value: &str) -> (r: Result<RequestAccept, ClassifiedError>)
    ensures
        match r {
            Ok(accept) => accept_of(value@) == Some(accept),
            Err(e) => accept_of(value@) is None && e == error::plain(ErrorKind::Api),
        },
{
    let chars = text::chars_of(value);
    let shown = text::trim(chars.as_slice());
    let any = text::chars_of("*/*");
    let json_type = text::chars_of("application/json");
    let html_type = text::chars_of("text/html,application/xhtml+xml");
    if text::eq_ignore_case(shown, any.as_slice()) {
        Ok(RequestAccept::Any)
    } else if text::eq_ignore_case(shown, json_type.as_slice()) {
        Ok(RequestAccept::Json)
    } else if text::eq_ignore_case(shown, html_type.as_slice()) {
        Ok(RequestAccept::Html)
    } else {
        Err(ClassifiedError::new(ErrorKind::Api))
    }
}

/// The position of a header at or behind `from`.
pub open spec fn header_position(
    headers: Seq<(Seq<char>, Seq<char>)>,
    name: Seq<char>,
    from: int,
) -> Option<int>
    decreases headers.len() - from,
{
    if from < 0 || from >= headers.len() {
        None
    } else if headers[from].0 == name {
        Some(from)
    } else {
        header_position(headers, name, from + 1)
    }
}

/// The first position at or behind `from` whose name comes after `name`.
pub open spec fn sorted_position(
    headers: Seq<(Seq<char>, Seq<char>)>,
    name: Seq<char>,
    from: int,
) -> int
    decreases headers.len() - from,
{
    if from < 0 || from >= headers.len() || text::precedes(name, headers[from].0) {
        from
    } else {
        sorted_position(headers, name, from + 1)
    }
}

proof fn lemma_header_position(headers: Seq<(Seq<char>, Seq<char>)>, name: Seq<char>, from: int)
    requires
        0 <= from <= headers.len(),
    ensures
        match header_position(headers, name, from) {
            Some(at) => from <= at < headers.len() && headers[at].0 == name,
            None => forall|i: int| from <= i < headers.len() ==> (#[trigger] headers[i]).0 != name,
        },
        from <= sorted_position(headers, name, from) <= headers.len(),
    decreases headers.len() - from,
{
    if from < headers.len() {
        lemma_header_position(headers, name, from + 1);
    }
}

/// Headers in the order of their names, with one more; a later value replaces an
/// earlier one.
pub open spec fn header_put(headers: Seq<(Seq<char>, Seq<char>)>, pair: (Seq<char>, Seq<char>)) -> Seq<
    (Seq<char>, Seq<char>),
> {
    match header_position(headers, pair.0, 0) {
        Some(at) => headers.update(at, pair),
        None => headers.insert(sorted_position(headers, pair.0, 0), pair),
    }
}

fn put_header(headers: &mut Vec<(String, String)>, name: &str, value: &str)
    ensures
        final(headers).deep_view() == header_put(old(headers).deep_view(), (name@, value@)),
{
    let ghost all = headers.deep_view();
    let wanted = text::chars_of(name);
    let mut i: usize = 0;
    while i < headers.len()
        invariant
            i <= headers@.len(),
            all == headers.deep_view(),
            all == old(headers).deep_view(),
            header_position(all, name@, 0) == header_position(all, name@, i as int),
        decreases headers@.len() - i,
    {
        assert(all[i as int] == (headers@[i as int].0@, headers@[i as int].1@));
        if text::same_text(headers[i].0.as_str(), name) {
            headers.set(i, (name.to_owned(), value.to_owned()));
            assert(headers.deep_view() =~= all.update(i as int, (name@, value@)));
            return;
        }
        i += 1;
    }
    let mut at: usize = 0;
    let mut searching = true;
    while searching && at < headers.len()
        invariant
            at <= headers@.len(),
            all == headers.deep_view(),
            all == old(headers).deep_view(),
            wanted@ == name@,
            searching ==> sorted_position(all, name@, 0) == sorted_position(all, name@, at as int),
            !searching ==> sorted_position(all, name@, 0) == at,
        decreases headers@.len() - at, (if searching {
            1int
        } else {
            0
        }),
    {
        assert(all[at as int] == (headers@[at as int].0@, headers@[at as int].1@));
        let other = text::chars_of(headers[at].0.as_str());
        if text::is_before(wanted.as_slice(), other.as_slice()) {
            searching = false;
        } else {
            at += 1;
        }
    }
    headers.insert(at, (name.to_owned(), value.to_owned()));
    assert(headers.deep_view() =~= all.insert(at as int, (name@, value@)));
}

/// The headers that the first `n` captured ones forward, and what they say is
/// accepted; `None` where one of them cannot be used.
pub open spec fn captured_headers(captured: Seq<(Seq<char>, Seq<char>)>, n: int) -> Option<
    (RequestAccept, Seq<(Seq<char>, Seq<char>)>),
>
    decreases n,
{
    if n <= 0 {
        Some((RequestAccept::Any, seq![]))
    } else {
        match captured_headers(captured, n - 1) {
            None => None,
            Some((accept, headers)) => {
                let (name, value) = captured[n - 1];
                if name == "accept"@ {
                    match accept_of(value) {
                        Some(named) => Some((named, headers)),
                        None => None,
                    }
                } else if text::byte_len(value) > MAX_FORWARDED_VALUE_BYTES {
                    None
                } else {
                    Some((accept, header_put(headers, (name, value))))
                }
            },
        }
    }
}

proof fn lemma_captured_failure(captured: Seq<(Seq<char>, Seq<char>)>, n: int, m: int)
    requires
        n <= m,
        captured_headers(captured, n) is None,
    ensures
        captured_headers(captured, m) is None,
    decreases m - n,
{
    if n < m {
        lemma_captured_failure(captured, n, m - 1);
    }
}

proof fn lemma_put_keeps(headers: Seq<(Seq<char>, Seq<char>)>, pair: (Seq<char>, Seq<char>))
    requires
        forwarded_ok(headers),
        forwarded_name(pair.0),
        text::byte_len(pair.1) <= MAX_FORWARDED_VALUE_BYTES,
    ensures
        forwarded_ok(header_put(headers, pair)),
{
    lemma_header_position(headers, pair.0, 0);
    let after = header_put(headers, pair);
    match header_position(headers, pair.0, 0) {
        Some(at) => {
            assert forall|i: int, j: int| 0 <= i < j < after.len() implies (#[trigger] after[i]).0
                != (#[trigger] after[j]).0 by {
                assert(after[i].0 == headers[i].0);
                assert(after[j].0 == headers[j].0);
            }
        },
        None => {
            let at = sorted_position(headers, pair.0, 0);
            assert forall|i: int|
                0 <= i < after.len() implies forwarded_name((#[trigger] after[i]).0)
                && text::byte_len(after[i].1) <= MAX_FORWARDED_VALUE_BYTES by {
                if i < at {
                    assert(after[i] == headers[i]);
                } else if i > at {
                    assert(after[i] == headers[i - 1]);
                }
            }
            assert forall|i: int, j: int| 0 <= i < j < after.len() implies (#[trigger] after[i]).0
                != (#[trigger] after[j]).0 by {
                let a = if i < at {
                    i
                } else {
                    i - 1
                };
                let b = if j < at {
                    j
                } else {
                    j - 1
                };
                if i == at {
                    assert(after[j] == headers[j - 1]);
                } else if j == at {
                    assert(after[i] == headers[a]);
                } else {
                    assert(after[i] == headers[a]);
                    assert(after[j] == headers[b]);
                }
            }
        },
    }
}

/// Whether every captured header is one that may be forwarded.
pub open spec fn captured_names_ok(captured: Seq<(Seq<char>, Seq<char>)>) -> bool {
    forall|i: int|
        0 <= i < captured.len() ==> (#[trigger] captured[i]).0 == "accept"@ || forwarded_name(
            captured[i].0,
        )
}

/// The headers that captured ones forward, and what they say is accepted.
pub fn forward_headers(captured: &Vec<(String, String)>) -> (r: Result<
    (RequestAccept, Vec<(String, String)>),
    ClassifiedError,
>)
    requires
        captured_names_ok(captured.deep_view()),
    ensures
        ({
            let found = captured_headers(captured.deep_view(), captured@.len() as int);
            match r {
                Ok((accept, headers)) => found == Some((accept, headers.deep_view()))
                    && forwarded_ok(headers.deep_view()),
                Err(e) => found is None && e == error::plain(ErrorKind::Api),
            }
        }),
{
    let ghost all = captured.deep_view();
    let mut accept = RequestAccept::Any;
    let mut headers: Vec<(String, String)> = Vec::new();
    let mut i: usize = 0;
    assert(headers.deep_view() =~= seq![]);
    while i < captured.len()
        invariant
            i <= captured@.len(),
            all == captured.deep_view(),
            captured_names_ok(all),
            captured_headers(all, i as int) == Some((accept, headers.deep_view())),
            forwarded_ok(headers.deep_view()),
        decreases captured@.len() - i,
    {
        assert(all[i as int] == (captured@[i as int].0@, captured@[i as int].1@));
        let name = captured[i].0.as_str();
        let value = captured[i].1.as_str();
        if text::same_text(name, "accept") {
            match captured_accept(value) {
                Ok(named) => {
                    accept = named;
                },
                Err(e) => {
                    proof {
                        lemma_captured_failure(all, i as int + 1, all.len() as int);
                    }
                    return Err(e);
                },
            }
        } else {
            if value.len() > MAX_FORWARDED_VALUE_BYTES {
                proof {
                    lemma_captured_failure(all, i as int + 1, all.len() as int);
                }
                return Err(ClassifiedError::new(ErrorKind::Api));
            }
            proof {
                lemma_put_keeps(headers.deep_view(), all[i as int]);
            }
            put_header(&mut headers, name, value);
        }
        i += 1;
    }
    Ok((accept, headers))
}

/// The path of the customer data.
pub open spec fn data_path() -> Seq<char> {
    "/api/trpc/getCustomerData"@
}

/// The input of a request for the customer data.
pub open spec fn data_input() -> Seq<char> {
    "{\"0\":{\"json\":{\"sessionId\":null},\"meta\":{\"values\":{\"sessionId\":[\"undefined\"]}}}}"@
}

/// The query pairs of a request for the customer data.
pub open spec fn data_pairs() -> Seq<(Seq<char>, Seq<char>)> {
    seq![("batch"@, "1"@), ("input"@, data_input())]
}

/// Whether a URL is that of the customer data at some origin.
pub open spec fn data_url_ok(url: UrlView) -> bool {
    url.username.len() == 0 && !url.has_password && url.host is Some && url.path == data_path()
        && url.fragment is None && url.query is Some && urls::query_pairs_of(url.query->0)
        == data_pairs()
}

/// Checks that a URL is that of the customer data at some origin.
pub fn validate_customer_data_url(url: &UrlParts) -> (r: Result<(), ClassifiedError>)
    ensures
        match r {
            Ok(_) => data_url_ok(url.value()),
            Err(e) => !data_url_ok(url.value()) && e == error::plain(ErrorKind::Api),
        },
{
    if !url.username.as_str().is_empty() || url.has_password || url.host.is_none()
        || !text::same_text(url.path.as_str(), "/api/trpc/getCustomerData")
        || url.fragment.is_some() {
        return Err(ClassifiedError::new(ErrorKind::Api));
    }
    let pairs = match &url.query {
        Some(query) => urls::query_pairs(query.as_str()),
        None => return Err(ClassifiedError::new(ErrorKind::Api)),
    };
    let ghost all = pairs.deep_view();
    if pairs.len() != 2 {
        assert(all.len() != data_pairs().len());
        return Err(ClassifiedError::new(ErrorKind::Api));
    }
    assert(all[0] == (pairs@[0].0@, pairs@[0].1@));
    assert(all[1] == (pairs@[1].0@, pairs@[1].1@));
    if !text::same_text(pairs[0].0.as_str(), "batch") || !text::same_text(
        pairs[0].1.as_str(),
        "1",
    ) || !text::same_text(pairs[1].0.as_str(), "input") || !text::same_text(
        pairs[1].1.as_str(),
        "{\"0\":{\"json\":{\"sessionId\":null},\"meta\":{\"values\":{\"sessionId\":[\"undefined\"]}}}}",
    ) {
        assert(all[0] != data_pairs()[0] || all[1] != data_pairs()[1]);
        return Err(ClassifiedError::new(ErrorKind::Api));
    }
    assert(all =~= data_pairs());
    Ok(())
}

/// The URL of the customer data at an origin.
pub open spec fn data_url(origin: UrlView) -> Option<UrlView> {
    if origin.username.len() == 0 && !origin.has_password && origin.host is Some
        && origin.query is None && origin.fragment is None {
        match urls::url_with_pairs(urls::url_at_path(origin.href, data_path()), data_pairs()) {
            Some(href) => match urls::parsed_url(href) {
                Some(url) => if data_url_ok(url) {
                    Some(url)
                } else {
                    None
                },
                None => None,
            },
            None => None,
        }
    } else {
        None
    }
}

/// The URL of the customer data at an origin.
pub fn customer_data_url(origin: &UrlParts) -> (r: Result<UrlParts, ClassifiedError>)
    ensures
        match r {
            Ok(url) => data_url(origin.value()) == Some(url.value()),
            Err(e) => data_url(origin.value()) is None && e == error::plain(ErrorKind::Api),
        },
{
    if !origin.username.as_str().is_empty() || origin.has_password || origin.host.is_none()
        || origin.query.is_some() || origin.fragment.is_some() {
        return Err(ClassifiedError::new(ErrorKind::Api));
    }
    let base = match urls::with_path(origin.href.as_str(), "/api/trpc/getCustomerData") {
        Some(href) => href,
        None => return Err(ClassifiedError::new(ErrorKind::Api)),
    };
    let pairs = vec![
        ("batch".to_owned(), "1".to_owned()),
        (
            "input".to_owned(),
            "{\"0\":{\"json\":{\"sessionId\":null},\"meta\":{\"values\":{\"sessionId\":[\"undefined\"]}}}}".to_owned(),
        ),
    ];
    assert(pairs.deep_view() =~= data_pairs());
    let href = match urls::extend_pairs(base.as_str(), &pairs) {
        Some(href) => href,
        None => return Err(ClassifiedError::new(ErrorKind::Api)),
    };
    match urls::parse(href.as_str()) {
        Some(url) => match validate_customer_data_url(&url) {
            Ok(_) => Ok(url),
            Err(e) => Err(e),
        },
        None => Err(ClassifiedError::new(ErrorKind::Api)),
    }
}

/// Whether an endpoint of a class may be asked: the production host over HTTPS,
/// or a loopback.
pub open spec fn class_ok(url: UrlView, class: EndpointClass) -> bool {
    match class {
        EndpointClass::PublicHttps => url.scheme == "https"@ && url.host is Some
            && text::same_ignoring_case(url.host->0, "t3.chat"@) && url.port == Some(443u16),
        EndpointClass::LoopbackDevelopment => true,
        EndpointClass::PrivateHttps | EndpointClass::PrivateHttp => false,
    }
}

fn is_class_ok(url: &UrlParts, class: EndpointClass) -> (r: bool)
    ensures
        r == class_ok(url.value(), class),
{
    match class {
        EndpointClass::PublicHttps => match &url.host {
            Some(host) => {
                let chars = text::chars_of(host.as_str());
                let production = text::chars_of("t3.chat");
                text::same_text(url.scheme.as_str(), "https") && text::eq_ignore_case(
                    chars.as_slice(),
                    production.as_slice(),
                ) && match url.port {
                    Some(port) => port == 443,
                    None => false,
                }
            },
            None => false,
        },
        EndpointClass::LoopbackDevelopment => true,
        EndpointClass::PrivateHttps => false,
        EndpointClass::PrivateHttp => false,
    }
}

/// What a manual capture gives: its cookie and the headers it forwards.
pub struct Captured {
    pub cookie: Option<String>,
    pub headers: Vec<(String, String)>,
}

/// Whether an adapter can be built.
pub open spec fn buildable(
    provider: ProviderId,
    source: ProviderSource,
    endpoint: UrlView,
    class: EndpointClass,
    allowed: bool,
    cookie: Seq<char>,
) -> bool {
    &&& provider == ProviderId::T3Chat
    &&& source == ProviderSource::ManualCookie || source == ProviderSource::BrowserSession
    &&& data_url_ok(endpoint)
    &&& class_ok(endpoint, class)
    &&& allowed
    &&& transport::secret_ok(cookie)
}

/// The failure of a manual capture.
pub open spec fn manual_failure(
    provider: ProviderId,
    capture: Result<Captured, ManualCaptureError>,
    origin: UrlView,
    class: EndpointClass,
    allowed: bool,
) -> Option<ErrorKind> {
    match capture {
        Err(e) => Some(stepfun::capture_class(e)),
        Ok(captured) => match captured.cookie {
            None => Some(ErrorKind::MissingCredential),
            Some(cookie) => if captured_headers(
                captured.headers.deep_view(),
                captured.headers@.len() as int,
            ) is Some && data_url(origin) is Some && buildable(
                provider,
                ProviderSource::ManualCookie,
                data_url(origin)->0,
                class,
                allowed,
                cookie@,
            ) {
                None
            } else {
                Some(ErrorKind::Api)
            },
        },
    }
}

/// The failure of a browser session. `header` is the cookie header for the
/// target, or `None` in it where the jar has no applicable cookie.
pub open spec fn browser_failure(
    provider: ProviderId,
    header: Result<Option<String>, ()>,
    jar_empty: bool,
    target: UrlView,
    class: EndpointClass,
    allowed: bool,
) -> Option<ErrorKind> {
    if !data_url_ok(target) {
        Some(ErrorKind::Api)
    } else {
        match header {
            Err(_) => Some(ErrorKind::Api),
            Ok(None) => Some(
                if jar_empty {
                    ErrorKind::MissingCredential
                } else {
                    ErrorKind::AuthenticationExpired
                },
            ),
            Ok(Some(cookie)) => if buildable(
                provider,
                ProviderSource::BrowserSession,
                target,
                class,
                allowed,
                cookie@,
            ) {
                None
            } else {
                Some(ErrorKind::Api)
            },
        }
    }
}

/// The production origin.
pub open spec fn production_origin() -> Option<UrlView> {
    urls::parsed_url("https://t3.chat"@)
}

/// The URL of the customer data at the production origin.
pub open spec fn production_target() -> Option<UrlView> {
    match production_origin() {
        Some(origin) => data_url(origin),
        None => None,
    }
}

impl T3ChatProvider {
    /// Whether this is the adapter of a manual capture at an origin.
    pub open spec fn of_capture(
        self,
        capture: Result<Captured, ManualCaptureError>,
        origin: UrlView,
    ) -> bool {
        &&& self.wf()
        &&& self.source == ProviderSource::ManualCookie
        &&& data_url(origin) == Some(self.endpoint.value())
        &&& capture matches Ok(captured)
        &&& captured.cookie is Some
        &&& self.cookie@ == captured.cookie->0@
        &&& captured_headers(captured.headers.deep_view(), captured.headers@.len() as int) == Some(
            (self.accept, self.forwarded_headers.deep_view()),
        )
    }

    /// Creates the production adapter of a manual capture. `allowed` is the
    /// endpoint policy's verdict.
    pub fn new_manual(
        provider: ProviderId,
        capture: Result<Captured, ManualCaptureError>,
        allowed: bool,
    ) -> (r: Result<T3ChatProvider, ClassifiedError>)
        requires
            capture matches Ok(captured) ==> captured_names_ok(captured.headers.deep_view()),
        ensures
            match production_origin() {
                None => r == Err::<T3ChatProvider, _>(error::plain(ErrorKind::Api)),
                Some(origin) => {
                    let failure = manual_failure(
                        provider,
                        capture,
                        origin,
                        EndpointClass::PublicHttps,
                        allowed,
                    );
                    match r {
                        Ok(adapter) => failure is None && adapter.of_capture(capture, origin),
                        Err(e) => failure is Some && e == error::plain(failure->0),
                    }
                },
            },
    {
        match urls::parse("https://t3.chat") {
            Some(origin) => T3ChatProvider::from_manual_capture_at(
                provider,
                capture,
                &origin,
                EndpointClass::PublicHttps,
                allowed,
            ),
            None => Err(ClassifiedError::new(ErrorKind::Api)),
        }
    }

    /// Creates the production adapter of a browser session. `header` is the cookie
    /// header for the customer data, `sendable` whether cookies may go to it, and
    /// `allowed` the endpoint policy's verdict.
    pub fn new_browser(
        provider: ProviderId,
        header: Result<Option<String>, ()>,
        jar_empty: bool,
        sendable: bool,
        allowed: bool,
    ) -> (r: Result<T3ChatProvider, ClassifiedError>)
        ensures
            match production_target() {
                Some(target) if sendable => {
                    let failure = browser_failure(
                        provider,
                        header,
                        jar_empty,
                        target,
                        EndpointClass::PublicHttps,
                        allowed,
                    );
                    match r {
                        Ok(adapter) => failure is None && adapter.wf() && adapter.source
                            == ProviderSource::BrowserSession && adapter.endpoint.value() == target
                            && adapter.accept == RequestAccept::Any
                            && adapter.forwarded_headers@.len() == 0 && (header matches Ok(
                            Some(cookie),
                        ) && cookie@ == adapter.cookie@),
                        Err(e) => failure is Some && e == error::plain(failure->0),
                    }
                },
                _ => r == Err::<T3ChatProvider, _>(error::plain(ErrorKind::Api)),
            },
    {
        let origin = match urls::parse("https://t3.chat") {
            Some(origin) => origin,
            None => return Err(ClassifiedError::new(ErrorKind::Api)),
        };
        let target = match T3ChatProvider::browser_target(&origin, sendable) {
            Ok(target) => target,
            Err(e) => return Err(e),
        };
        T3ChatProvider::from_browser_jar_at(
            provider,
            header,
            jar_empty,
            target,
            EndpointClass::PublicHttps,
            allowed,
        )
    }

    /// The target of cookies at an origin: the URL of the customer data.
    /// `sendable` is whether cookies may go to it.
    pub fn browser_target(origin: &UrlParts, sendable: bool) -> (r: Result<
        UrlParts,
        ClassifiedError,
    >)
        ensures
            match r {
                Ok(target) => sendable && data_url(origin.value()) == Some(target.value()),
                Err(e) => (!sendable || data_url(origin.value()) is None) && e == error::plain(
                    ErrorKind::Api,
                ),
            },
    {
        match customer_data_url(origin) {
            Ok(target) => if sendable {
                Ok(target)
            } else {
                Err(ClassifiedError::new(ErrorKind::Api))
            },
            Err(e) => Err(e),
        }
    }

    /// An adapter for a session. `allowed` is the endpoint policy's verdict.
    pub fn build(
        provider: ProviderId,
        source: ProviderSource,
        endpoint: UrlParts,
        class: EndpointClass,
        allowed: bool,
        cookie: String,
        accept: RequestAccept,
        forwarded_headers: Vec<(String, String)>,
    ) -> (r: Result<T3ChatProvider, ClassifiedError>)
        requires
            forwarded_ok(forwarded_headers.deep_view()),
        ensures
            match r {
                Ok(adapter) => buildable(
                    provider,
                    source,
                    endpoint.value(),
                    class,
                    allowed,
                    cookie@,
                ) && adapter.wf() && adapter.source == source && adapter.endpoint == endpoint
                    && adapter.cookie@ == cookie@ && adapter.accept == accept
                    && adapter.forwarded_headers == forwarded_headers,
                Err(e) => !buildable(
                    provider,
                    source,
                    endpoint.value(),
                    class,
                    allowed,
                    cookie@,
                ) && e == error::plain(ErrorKind::Api),
            },
    {
        if provider != ProviderId::T3Chat || (source != ProviderSource::ManualCookie && source
            != ProviderSource::BrowserSession) {
            return Err(ClassifiedError::new(ErrorKind::Api));
        }
        if let Err(e) = validate_customer_data_url(&endpoint) {
            return Err(e);
        }
        if !is_class_ok(&endpoint, class) || !allowed {
            return Err(ClassifiedError::new(ErrorKind::Api));
        }
        match Authentication::cookie(cookie.clone()) {
            Ok(_) => Ok(T3ChatProvider { source, endpoint, cookie, accept, forwarded_headers }),
            Err(e) => Err(e.classified()),
        }
    }

    /// An adapter for a manual capture at an origin. `allowed` is the endpoint
    /// policy's verdict.
    pub fn from_manual_capture_at(
        provider: ProviderId,
        capture: Result<Captured, ManualCaptureError>,
        origin: &UrlParts,
        class: EndpointClass,
        allowed: bool,
    ) -> (r: Result<T3ChatProvider, ClassifiedError>)
        requires
            capture matches Ok(captured) ==> captured_names_ok(captured.headers.deep_view()),
        ensures
            match r {
                Ok(adapter) => manual_failure(provider, capture, origin.value(), class, allowed)
                    is None && adapter.of_capture(capture, origin.value()),
                Err(e) => manual_failure(provider, capture, origin.value(), class, allowed)
                    is Some && e == error::plain(
                    manual_failure(provider, capture, origin.value(), class, allowed)->0,
                ),
            },
    {
        let captured = match capture {
            Ok(captured) => captured,
            Err(e) => return Err(stepfun::classify_capture_error(e)),
        };
        let cookie = match captured.cookie {
            Some(cookie) => cookie,
            None => return Err(ClassifiedError::new(ErrorKind::MissingCredential)),
        };
        let (accept, forwarded_headers) = match forward_headers(&captured.headers) {
            Ok(found) => found,
            Err(e) => return Err(e),
        };
        let endpoint = match customer_data_url(origin) {
            Ok(endpoint) => endpoint,
            Err(e) => return Err(e),
        };
        T3ChatProvider::build(
            provider,
            ProviderSource::ManualCookie,
            endpoint,
            class,
            allowed,
            cookie,
            accept,
            forwarded_headers,
        )
    }

    /// An adapter for a browser session. `header` is the cookie header for the
    /// target, and `allowed` the endpoint policy's verdict.
    pub fn from_browser_jar_at(
        provider: ProviderId,
        header: Result<Option<String>, ()>,
        jar_empty: bool,
        target: UrlParts,
        class: EndpointClass,
        allowed: bool,
    ) -> (r: Result<T3ChatProvider, ClassifiedError>)
        ensures
            match r {
                Ok(adapter) => browser_failure(
                    provider,
                    header,
                    jar_empty,
                    target.value(),
                    class,
                    allowed,
                ) is None && adapter.wf() && adapter.source == ProviderSource::BrowserSession
                    && adapter.endpoint == target && adapter.accept == RequestAccept::Any
                    && adapter.forwarded_headers@.len() == 0 && (header matches Ok(Some(cookie))
                    && cookie@ == adapter.cookie@),
                Err(e) => browser_failure(
                    provider,
                    header,
                    jar_empty,
                    target.value(),
                    class,
                    allowed,
                ) is Some && e == error::plain(
                    browser_failure(
                        provider,
                        header,
                        jar_empty,
                        target.value(),
                        class,
                        allowed,
                    )->0,
                ),
            },
    {
        if let Err(e) = validate_customer_data_url(&target) {
            return Err(e);
        }
        let cookie = match header {
            Err(_) => return Err(ClassifiedError::new(ErrorKind::Api)),
            Ok(None) => {
                if jar_empty {
                    return Err(ClassifiedError::new(ErrorKind::MissingCredential));
                }
                return Err(ClassifiedError::new(ErrorKind::AuthenticationExpired));
            },
            Ok(Some(cookie)) => cookie,
        };
        let forwarded_headers: Vec<(String, String)> = Vec::new();
        T3ChatProvider::build(
            provider,
            ProviderSource::BrowserSession,
            target,
            class,
            allowed,
            cookie,
            RequestAccept::Any,
            forwarded_headers,
        )
    }
}

/// The failure of an answer's status. `mitigated` is the header by which a
/// challenge is told from a limit.
pub open spec fn status_failure(status: u16, mitigated: Option<Seq<char>>) -> Option<ErrorKind> {
    if status == 200 {
        None
    } else if status == 401 || status == 403 {
        Some(ErrorKind::AuthenticationExpired)
    } else if status == 429 {
        if mitigated is Some && text::same_ignoring_case(mitigated->0, "challenge"@) {
            Some(ErrorKind::PermissionDenied)
        } else {
            Some(ErrorKind::RateLimited)
        }
    } else {
        Some(ErrorKind::Api)
    }
}

/// Whether an answer's body may be read.
pub fn check_status(status: u16, mitigated: &Option<String>) -> (r: Result<(), ClassifiedError>)
    ensures
        match r {
            Ok(_) => status_failure(status, mitigated.deep_view()) is None,
            Err(e) => status_failure(status, mitigated.deep_view()) is Some && e == error::plain(
                status_failure(status, mitigated.deep_view())->0,
            ),
        },
{
    if status == 200 {
        return Ok(());
    }
    if status == 401 || status == 403 {
        return Err(ClassifiedError::new(ErrorKind::AuthenticationExpired));
    }
    if status == 429 {
        if let Some(value) = mitigated {
            let chars = text::chars_of(value.as_str());
            let challenge = text::chars_of("challenge");
            if text::eq_ignore_case(chars.as_slice(), challenge.as_slice()) {
                return Err(ClassifiedError::new(ErrorKind::PermissionDenied));
            }
        }
        return Err(ClassifiedError::new(ErrorKind::RateLimited));
    }
    Err(ClassifiedError::new(ErrorKind::Api))
}

/// What the customer data holds. Numbers stay in their decimal texts.
pub struct CustomerData {
    pub sub_tier: Option<String>,
    pub product_name: Option<String>,
    pub current_period_end: Option<String>,
    pub usage_band: Option<String>,
    pub four_hour_percentage: Option<String>,
    pub month_percentage: Option<String>,
    pub four_hour_next_reset_at: Option<String>,
    pub period_percentage: Option<String>,
    pub window_next_reset_at: Option<String>,
}

/// Mathematical value of [`CustomerData`].
pub struct CustomerValue {
    pub sub_tier: Option<Seq<char>>,
    pub product_name: Option<Seq<char>>,
    pub current_period_end: Option<Seq<char>>,
    pub usage_band: Option<Seq<char>>,
    pub four_hour_percentage: Option<Seq<char>>,
    pub month_percentage: Option<Seq<char>>,
    pub four_hour_next_reset_at: Option<Seq<char>>,
    pub period_percentage: Option<Seq<char>>,
    pub window_next_reset_at: Option<Seq<char>>,
}

impl CustomerData {
    pub open spec fn value(self) -> CustomerValue {
        CustomerValue {
            sub_tier: self.sub_tier.deep_view(),
            product_name: self.product_name.deep_view(),
            current_period_end: self.current_period_end.deep_view(),
            usage_band: self.usage_band.deep_view(),
            four_hour_percentage: self.four_hour_percentage.deep_view(),
            month_percentage: self.month_percentage.deep_view(),
            four_hour_next_reset_at: self.four_hour_next_reset_at.deep_view(),
            period_percentage: self.period_percentage.deep_view(),
            window_next_reset_at: self.window_next_reset_at.deep_view(),
        }
    }
}

/// A text that may be absent: `Some(None)` where it is, `None` where the value is
/// something else.
pub open spec fn text_if_any(t: Option<Tree>) -> Option<Option<Seq<char>>> {
    match t {
        None | Some(Tree::Null) => Some(None),
        Some(Tree::Text(s)) => Some(Some(s)),
        _ => None,
    }
}

/// A number that may be absent, in its decimal text.
pub open spec fn number_if_any(t: Option<Tree>) -> Option<Option<Seq<char>>> {
    match t {
        None | Some(Tree::Null) => Some(None),
        Some(Tree::Number(n)) => Some(Some(n)),
        _ => None,
    }
}

/// The value of a found field.
pub open spec fn found_tree(value: Option<&Json>) -> Option<Tree> {
    match value {
        Some(v) => Some(v.tree()),
        None => None,
    }
}

fn read_text(value: Option<&Json>) -> (r: Option<Option<String>>)
    ensures
        match r {
            Some(found) => text_if_any(found_tree(value)) == Some(found.deep_view()),
            None => text_if_any(found_tree(value)) is None,
        },
{
    match value {
        None => Some(None),
        Some(Json::Null) => Some(None),
        Some(Json::Text(s)) => Some(Some(s.clone())),
        Some(_) => None,
    }
}

fn read_number(value: Option<&Json>) -> (r: Option<Option<String>>)
    ensures
        match r {
            Some(found) => number_if_any(found_tree(value)) == Some(found.deep_view()),
            None => number_if_any(found_tree(value)) is None,
        },
{
    match value {
        None => Some(None),
        Some(Json::Null) => Some(None),
        Some(Json::Number(n)) => Some(Some(n.clone())),
        Some(_) => None,
    }
}

/// The product and the end of the period of a subscription, given by name or in
/// order; `None` where it is malformed.
pub open spec fn subscription_of(t: Option<Tree>) -> Option<
    (Option<Seq<char>>, Option<Seq<char>>),
> {
    match t {
        None | Some(Tree::Null) => Some((None, None)),
        Some(Tree::Object(names, values)) => match (
            text_if_any(json::field(t->0, "productName"@)),
            number_if_any(json::field(t->0, "currentPeriodEnd"@)),
        ) {
            (Some(product), Some(end)) => Some((product, end)),
            _ => None,
        },
        Some(Tree::Array(items)) => if items.len() == 2 {
            match (text_if_any(Some(items[0])), number_if_any(Some(items[1]))) {
                (Some(product), Some(end)) => Some((product, end)),
                _ => None,
            }
        } else {
            None
        },
        _ => None,
    }
}

fn read_subscription(value: Option<&Json>) -> (r: Option<(Option<String>, Option<String>)>)
    ensures
        match r {
            Some((product, end)) => subscription_of(found_tree(value)) == Some(
                (product.deep_view(), end.deep_view()),
            ),
            None => subscription_of(found_tree(value)) is None,
        },
{
    let found = match value {
        None => return Some((None, None)),
        Some(found) => found,
    };
    match found {
        Json::Null => Some((None, None)),
        Json::Object(_) => {
            let product = match read_text(found.get("productName")) {
                Some(product) => product,
                None => return None,
            };
            match read_number(found.get("currentPeriodEnd")) {
                Some(end) => Some((product, end)),
                None => None,
            }
        },
        Json::Array(items) => {
            let ghost all = json::children(found.tree());
            assert(all.len() == items@.len());
            if items.len() != 2 {
                return None;
            }
            assert(all[0] == items@[0].tree());
            assert(all[1] == items@[1].tree());
            let product = match read_text(Some(&items[0])) {
                Some(product) => product,
                None => return None,
            };
            match read_number(Some(&items[1])) {
                Some(end) => Some((product, end)),
                None => None,
            }
        },
        _ => None,
    }
}

/// The customer data of an object; `None` where it is malformed.
pub open spec fn customer_of(t: Tree) -> Option<CustomerValue> {
    match (
        text_if_any(json::field(t, "subTier"@)),
        subscription_of(json::field(t, "subscription"@)),
        text_if_any(json::field(t, "usageBand"@)),
        number_if_any(json::field(t, "usageFourHourPercentage"@)),
        number_if_any(json::field(t, "usageMonthPercentage"@)),
        number_if_any(json::field(t, "usageFourHourNextResetAt"@)),
        number_if_any(json::field(t, "usagePeriodPercentage"@)),
        number_if_any(json::field(t, "usageWindowNextResetAt"@)),
    ) {
        (
            Some(sub_tier),
            Some((product_name, current_period_end)),
            Some(usage_band),
            Some(four_hour_percentage),
            Some(month_percentage),
            Some(four_hour_next_reset_at),
            Some(period_percentage),
            Some(window_next_reset_at),
        ) => Some(
            CustomerValue {
                sub_tier,
                product_name,
                current_period_end,
                usage_band,
                four_hour_percentage,
                month_percentage,
                four_hour_next_reset_at,
                period_percentage,
                window_next_reset_at,
            },
        ),
        _ => None,
    }
}

/// The customer data of an object.
pub fn read_customer(value: &Json) -> (r: Option<CustomerData>)
    ensures
        match r {
            Some(customer) => customer_of(value.tree()) == Some(customer.value()),
            None => customer_of(value.tree()) is None,
        },
{
    let sub_tier = read_text(value.get("subTier"))?;
    let (product_name, current_period_end) = read_subscription(value.get("subscription"))?;
    let usage_band = read_text(value.get("usageBand"))?;
    let four_hour_percentage = read_number(value.get("usageFourHourPercentage"))?;
    let month_percentage = read_number(value.get("usageMonthPercentage"))?;
    let four_hour_next_reset_at = read_number(value.get("usageFourHourNextResetAt"))?;
    let period_percentage = read_number(value.get("usagePeriodPercentage"))?;
    let window_next_reset_at = read_number(value.get("usageWindowNextResetAt"))?;
    Some(
        CustomerData {
            sub_tier,
            product_name,
            current_period_end,
            usage_band,
            four_hour_percentage,
            month_percentage,
            four_hour_next_reset_at,
            period_percentage,
            window_next_reset_at,
        },
    )
}

/// Whether an object is the customer data.
pub open spec fn is_customer(t: Tree) -> bool {
    t is Object && (json::field(t, "usageFourHourPercentage"@) is Some || json::field(
        t,
        "usageMonthPercentage"@,
    ) is Some || (json::field(t, "subscription"@) is Some && json::field(t, "usageBand"@) is Some))
}

/// The value itself where it is the customer data.
pub open spec fn customer_hit() -> spec_fn(Tree) -> Option<Tree> {
    |t: Tree|
        if is_customer(t) {
            Some(t)
        } else {
            None
        }
}

/// The first customer data of a document, in walk order.
pub open spec fn first_customer(t: Tree) -> Option<Tree> {
    json::first_hit(json::walk(t, 0), customer_hit())
}

/// The first customer data of a document, in walk order.
pub fn find_customer_data<'a>(root: &'a Json) -> (r: Option<&'a Json>)
    ensures
        match r {
            Some(found) => first_customer(root.tree()) == Some(found.tree()),
            None => first_customer(root.tree()) is None,
        },
{
    let nodes = json::visits(root);
    let ghost walked = json::walk(root.tree(), 0);
    let ghost f = customer_hit();
    let mut i: usize = 0;
    while i < nodes.len()
        invariant
            walked == json::walk(root.tree(), 0),
            f == customer_hit(),
            json::visit_nodes(nodes@) == walked,
            nodes@.len() == walked.len(),
            i <= nodes@.len(),
            forall|j: int| 0 <= j < i ==> f((#[trigger] walked[j]).0) is None,
        decreases nodes@.len() - i,
    {
        assert(walked[i as int] == nodes@[i as int].node());
        let value = nodes[i].value;
        if value.is_object() && (value.get("usageFourHourPercentage").is_some() || value.get(
            "usageMonthPercentage",
        ).is_some() || (value.get("subscription").is_some() && value.get("usageBand").is_some())) {
            proof {
                json::lemma_first_hit_skip(walked, f, i as int);
                assert(walked.skip(i as int)[0] == walked[i as int]);
            }
            return Some(value);
        }
        i += 1;
    }
    proof {
        json::lemma_first_hit_skip(walked, f, walked.len() as int);
    }
    None
}

/// Limits on the shape of a line's document.
pub open spec fn shape_limits() -> Limits {
    Limits {
        nodes: MAX_JSON_NODES,
        depth: MAX_JSON_DEPTH,
        key_bytes: usize::MAX,
        text_bytes: usize::MAX,
    }
}

/// Whether lines are few and bounded.
pub open spec fn lines_ok(lines: Seq<Seq<char>>) -> bool {
    lines.len() <= MAX_JSONL_LINES && forall|i: int|
        0 <= i < lines.len() ==> text::byte_len(#[trigger] lines[i]) <= MAX_JSONL_LINE_BYTES
}

/// The customer data of the lines at and behind `from`: that of the first line
/// that has any. `None` where there is none, where it is malformed, or where a
/// document before it exceeds its limits.
pub open spec fn customer_in(lines: Seq<Seq<char>>, from: int) -> Option<CustomerValue>
    decreases lines.len() - from,
{
    if from < 0 || from >= lines.len() {
        None
    } else if text::trimmed(lines[from]).len() == 0 {
        customer_in(lines, from + 1)
    } else {
        match json::parsed_json(vstd::utf8::encode_utf8(lines[from])) {
            None => customer_in(lines, from + 1),
            Some(root) => if !json::within_limits(root, shape_limits()) {
                None
            } else {
                match first_customer(root) {
                    Some(found) => customer_of(found),
                    None => customer_in(lines, from + 1),
                }
            },
        }
    }
}

/// The customer data of an answer's body.
pub open spec fn customer_in_body(body: Seq<u8>) -> Option<CustomerValue> {
    if body.len() > MAX_RESPONSE_BYTES || !vstd::utf8::valid_utf8(body) {
        None
    } else {
        let lines = text::lines_from(vstd::utf8::decode_utf8(body), 0);
        if lines_ok(lines) {
            customer_in(lines, 0)
        } else {
            None
        }
    }
}

/// The customer data of an answer's body, one JSON document on each line.
pub fn parse_json_lines(body: &[u8]) -> (r: Result<CustomerData, ClassifiedError>)
    ensures
        match r {
            Ok(customer) => customer_in_body(body@) == Some(customer.value()),
            Err(e) => customer_in_body(body@) is None && e == error::plain(ErrorKind::Parse),
        },
{
    if body.len() > MAX_RESPONSE_BYTES {
        return Err(ClassifiedError::new(ErrorKind::Parse));
    }
    let source = match text::utf8_text(body) {
        Some(source) => source,
        None => return Err(ClassifiedError::new(ErrorKind::Parse)),
    };
    let chars = text::chars_of(source.as_str());
    let lines = text::lines(chars.as_slice());
    let ghost all = text::lines_from(chars@, 0);
    if lines.len() > MAX_JSONL_LINES {
        return Err(ClassifiedError::new(ErrorKind::Parse));
    }
    let mut texts: Vec<String> = Vec::new();
    let mut i: usize = 0;
    while i < lines.len()
        invariant
            i <= lines@.len(),
            all.len() == lines@.len(),
            all == text::lines_from(chars@, 0),
            chars@ == vstd::utf8::decode_utf8(body@),
            vstd::utf8::valid_utf8(body@),
            body@.len() <= MAX_RESPONSE_BYTES,
            forall|j: int| 0 <= j < lines@.len() ==> (#[trigger] lines@[j])@ == all[j],
            texts@.len() == i,
            forall|j: int| 0 <= j < i ==> (#[trigger] texts@[j])@ == all[j] && text::byte_len(all[j])
                <= MAX_JSONL_LINE_BYTES,
        decreases lines@.len() - i,
    {
        let line = text::text_of(lines[i]);
        assert(line@ == all[i as int]);
        if line.as_str().len() > MAX_JSONL_LINE_BYTES {
            assert(!lines_ok(all));
            return Err(ClassifiedError::new(ErrorKind::Parse));
        }
        texts.push(line);
        i += 1;
    }
    assert forall|j: int| 0 <= j < all.len() implies text::byte_len(#[trigger] all[j])
        <= MAX_JSONL_LINE_BYTES by {
        assert(texts@[j]@ == all[j]);
    }
    assert(lines_ok(all));
    let limits = Limits {
        nodes: MAX_JSON_NODES,
        depth: MAX_JSON_DEPTH,
        key_bytes: usize::MAX,
        text_bytes: usize::MAX,
    };
    let mut k: usize = 0;
    while k < texts.len()
        invariant
            k <= texts@.len(),
            all.len() == texts@.len(),
            forall|j: int| 0 <= j < texts@.len() ==> (#[trigger] texts@[j])@ == all[j],
            limits == shape_limits(),
            customer_in_body(body@) == customer_in(all, k as int),
        decreases texts@.len() - k,
    {
        assert(texts@[k as int]@ == all[k as int]);
        let shown = text::trim_text(texts[k].as_str());
        if !shown.as_str().is_empty() {
            let bytes = texts[k].as_str().as_bytes_vec();
            if let Some(root) = json::parse(bytes.as_slice()) {
                if !json::respects(&root, &limits) {
                    return Err(ClassifiedError::new(ErrorKind::Parse));
                }
                if let Some(found) = find_customer_data(&root) {
                    return match read_customer(found) {
                        Some(customer) => Ok(customer),
                        None => Err(ClassifiedError::new(ErrorKind::Parse)),
                    };
                }
            }
        }
        k += 1;
    }
    Err(ClassifiedError::new(ErrorKind::Parse))
}

/// The description of the first window.
pub open spec fn base_description(band: Option<Seq<char>>) -> Seq<char> {
    match band {
        Some(b) => if text::trimmed(b).len() > 0 {
            "Base - "@ + text::trimmed(b)
        } else {
            "Base"@
        },
        None => "Base"@,
    }
}

/// The description of the first window.
pub fn primary_description(band: &Option<String>) -> (r: String)
    ensures
        r@ == base_description(band.deep_view()),
{
    if let Some(b) = band {
        let shown = text::trim_text(b.as_str());
        if !shown.as_str().is_empty() {
            let mut r = "Base - ".to_owned();
            r.append(shown.as_str());
            return r;
        }
    }
    "Base".to_owned()
}

/// The capitalized parts among the first `n` that are not empty.
pub open spec fn shown_parts(parts: Seq<Seq<char>>, n: int) -> Seq<Seq<char>>
    decreases n,
{
    if n <= 0 {
        seq![]
    } else if parts[n - 1].len() == 0 {
        shown_parts(parts, n - 1)
    } else {
        shown_parts(parts, n - 1).push(text::capitalized(parts[n - 1]))
    }
}

/// A plan's name for display: its parts capitalized, with spaces between them.
pub open spec fn plan_name(raw: Seq<char>) -> Option<Seq<char>> {
    let parts = text::pieces(text::trimmed(raw), '-');
    if text::trimmed(raw).len() == 0 {
        None
    } else {
        Some(text::joined(shown_parts(parts, parts.len() as int), " "@))
    }
}

/// A plan's name for display.
pub fn format_plan_name(raw: &str) -> (r: Option<String>)
    ensures
        r.deep_view() == plan_name(raw@),
{
    let chars = text::chars_of(raw);
    let shown = text::trim(chars.as_slice());
    if shown.len() == 0 {
        return None;
    }
    let parts = text::split(shown, '-');
    let ghost all = text::pieces(text::trimmed(raw@), '-');
    let mut names: Vec<String> = Vec::new();
    let mut i: usize = 0;
    assert(names.deep_view() =~= seq![]);
    while i < parts.len()
        invariant
            i <= parts@.len(),
            parts@.len() == all.len(),
            forall|j: int| 0 <= j < parts@.len() ==> (#[trigger] parts@[j])@ == all[j],
            names.deep_view() == shown_parts(all, i as int),
        decreases parts@.len() - i,
    {
        assert(parts@[i as int]@ == all[i as int]);
        let ghost before = names.deep_view();
        if parts[i].len() > 0 {
            let name = text::capitalize(parts[i]);
            names.push(name);
            assert(names.deep_view() =~= before.push(name@));
        }
        i += 1;
    }
    Some(text::join(&names, " "))
}

/// The name of the customer's plan: of the product, or else of the tier.
pub open spec fn customer_plan(customer: CustomerValue) -> Option<Seq<char>> {
    match customer.product_name {
        Some(product) => plan_name(product),
        None => match customer.sub_tier {
            Some(tier) => plan_name(tier),
            None => None,
        },
    }
}

/// The name of the customer's plan.
pub fn customer_login(customer: &CustomerData) -> (r: Option<String>)
    ensures
        r.deep_view() == customer_plan(customer.value()),
{
    match &customer.product_name {
        Some(product) => format_plan_name(product.as_str()),
        None => match &customer.sub_tier {
            Some(tier) => format_plan_name(tier.as_str()),
            None => None,
        },
    }
}

/// The percentage of the second window: of the month, or else of the period.
pub fn overage_percentage(customer: &CustomerData) -> (r: Option<&str>)
    ensures
        match r {
            Some(n) => Some(n@) == (match customer.value().month_percentage {
                Some(month) => Some(month),
                None => customer.value().period_percentage,
            }),
            None => customer.value().month_percentage is None
                && customer.value().period_percentage is None,
        },
{
    match &customer.month_percentage {
        Some(n) => Some(n.as_str()),
        None => match &customer.period_percentage {
            Some(n) => Some(n.as_str()),
            None => None,
        },
    }
}

/// A captured header that is forwarded replaces the default one: no name is sent
/// twice.
pub proof fn law_forwarded_replaces(forwarded: Seq<(Seq<char>, Seq<char>)>, i: int, j: int)
    requires
        0 <= i < forwarded.len(),
        0 <= j < kept_defaults(forwarded, 12).len(),
    ensures
        forwarded[i].0 != kept_defaults(forwarded, 12)[j].0,
{
    lemma_kept_from(forwarded, 12);
    assert(!transport::names_header(forwarded, kept_defaults(forwarded, 12)[j].0));
}

/// The reading of a customer, for the instants of its resets: the next one of the
/// base window, the one of the current window, and the end of the period. The
/// percentages are left open.
pub open spec fn customer_sample(
    fetched_at: Timestamp,
    customer: CustomerValue,
    next_reset: Option<Timestamp>,
    window_reset: Option<Timestamp>,
    period_end: Option<Timestamp>,
) -> SampleView {
    SampleView {
        primary: Some(
            WindowView {
                used: None,
                minutes: Some(240),
                resets_at: if next_reset is Some {
                    next_reset
                } else {
                    window_reset
                },
                description: Some(base_description(customer.usage_band)),
            },
        ),
        secondary: Some(
            WindowView {
                used: None,
                minutes: None,
                resets_at: period_end,
                description: Some("Overage"@),
            },
        ),
        login_method: customer_plan(customer),
        ..usage::empty_sample(ProviderId::T3Chat, fetched_at, "t3chat"@, "web"@)
    }
}

/// The reading of a customer, for the instants of its resets.
pub fn normalize_customer(
    fetched_at: Timestamp,
    customer: &CustomerData,
    next_reset: Option<Timestamp>,
    window_reset: Option<Timestamp>,
    period_end: Option<Timestamp>,
) -> (r: UsageSample)
    ensures
        r.value() == customer_sample(
            fetched_at,
            customer.value(),
            next_reset,
            window_reset,
            period_end,
        ),
{
    let resets_at = match next_reset {
        Some(at) => Some(at),
        None => window_reset,
    };
    let mut sample = UsageSample::empty(ProviderId::T3Chat, fetched_at, "t3chat", "web");
    sample.primary = Some(
        RateWindow {
            used: None,
            minutes: Some(240),
            resets_at,
            description: Some(primary_description(&customer.usage_band)),
        },
    );
    sample.secondary = Some(
        RateWindow {
            used: None,
            minutes: None,
            resets_at: period_end,
            description: Some("Overage".to_owned()),
        },
    );
    sample.login_method = customer_login(customer);
    sample
}

/// Ceilings of this adapter's transport.
pub fn transport_config() -> (r: Result<TransportConfig, ClassifiedError>)
    ensures
        r == Ok::<TransportConfig, ClassifiedError>(
            transport::ceilings(5, 15, MAX_RESPONSE_BYTES, 0, retry::no_retry()),
        ),
        r->Ok_0.valid(),
{
    transport::bounded(5, 15, MAX_RESPONSE_BYTES, 0, RetryPolicy::none())
}

/// An answer in full is the only one that is read; a refused session has expired, and
/// too many requests are told from a challenge.
pub proof fn law_statuses_tell_the_failure(status: u16, mitigated: Option<Seq<char>>)
    ensures
        status_failure(status, mitigated) is None <==> status == 200,
        status_failure(status, mitigated) == Some(ErrorKind::AuthenticationExpired) <==> status == 401
            || status == 403,
        status_failure(status, mitigated) == Some(ErrorKind::RateLimited) ==> status == 429,
        status_failure(status, mitigated) == Some(ErrorKind::PermissionDenied) ==> status == 429
            && mitigated is Some,
        status == 429 && mitigated is None ==> status_failure(status, mitigated) == Some(
            ErrorKind::RateLimited,
        ),
        status == 429 && mitigated == Some("challenge"@) ==> status_failure(status, mitigated)
            == Some(ErrorKind::PermissionDenied),
{
}

/// The base window is of four hours and resets at the next reset where one is told;
/// the overage lasts until the end of the period.
pub proof fn law_customer_windows(
    fetched_at: Timestamp,
    customer: CustomerValue,
    next_reset: Option<Timestamp>,
    window_reset: Option<Timestamp>,
    period_end: Option<Timestamp>,
)
    ensures
        ({
            let sample = customer_sample(
                fetched_at,
                customer,
                next_reset,
                window_reset,
                period_end,
            );
            &&& sample.primary matches Some(base)
            &&& sample.secondary matches Some(overage)
            &&& base.minutes == Some((4 * 60) as i64)
            &&& next_reset is Some ==> base.resets_at == next_reset
            &&& next_reset is None ==> base.resets_at == window_reset
            &&& overage.resets_at == period_end
        }),
{
}

} // verus!
