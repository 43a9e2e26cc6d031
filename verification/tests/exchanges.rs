use oab_providers::attempt::{Attempt, AttemptStep};
use oab_providers::error::ErrorKind;
use oab_providers::exchange;
use oab_providers::exchange::{HeadDecision, HttpResponse, ResponseHead};
use oab_providers::instant::{Duration, Timestamp};
use oab_providers::retry;
use oab_providers::retry::RetryPolicy;
use oab_providers::transport;
use oab_providers::transport::{
    Authentication, HttpRequest, RequestAccept, RequestContentType, TransportConfig,
    TransportError,
};

fn limited(seconds: u64) -> TransportError {
    TransportError::RateLimited { retry_after: Some(Duration::from_secs(seconds)) }
}

fn config(redirects: u8, bytes: usize) -> TransportConfig {
    transport::bounded(5, 15, bytes, redirects, RetryPolicy::none()).unwrap()
}

fn head(status: u16) -> ResponseHead {
    ResponseHead {
        status,
        location: None,
        retry_after: None,
        content_length: None,
        headers: Vec::new(),
    }
}

#[test]
fn one_retry_is_allowed_and_its_delay_is_bounded() {
    let policy = RetryPolicy::one(Duration::from_millis(250), Duration::from_secs(15));
    assert!(policy.is_valid());
    assert_eq!(policy.delay(0, &TransportError::Timeout), Some(Duration::from_millis(250)));
    assert_eq!(policy.delay(0, &limited(60)), Some(Duration::from_secs(15)));
    assert_eq!(policy.delay(1, &TransportError::Timeout), None);
    assert_eq!(policy.delay(0, &TransportError::PermissionDenied), None);
    assert_eq!(RetryPolicy::none().delay(0, &TransportError::Timeout), None);
    assert_eq!(policy.max_delay(), Duration::from_secs(15));
    assert!(!RetryPolicy::one(Duration::from_secs(2), Duration::from_secs(1)).is_valid());
}

#[test]
fn server_delays_are_read_and_bounded() {
    let now = Timestamp { nanos: 784_111_770_000_000_000 };
    let hour = Duration::from_secs(3600);
    assert_eq!(
        retry::parse_retry_after(b"120", now, hour),
        Some(Duration::from_secs(120))
    );
    assert_eq!(retry::parse_retry_after(b"99999", now, hour), Some(hour));
    assert_eq!(
        retry::parse_retry_after(b"Sun, 06 Nov 1994 08:49:37 GMT", now, hour),
        Some(Duration::from_secs(7))
    );
    assert_eq!(
        retry::parse_retry_after(b"Sun, 06 Nov 1994 08:00:00 GMT", now, hour),
        Some(Duration::from_secs(0))
    );
    assert_eq!(retry::parse_retry_after(b"soon", now, hour), None);
    assert_eq!(retry::delay_until(784_111_800, now, hour), Duration::from_secs(30));
}

#[test]
fn transport_failures_are_classified() {
    assert_eq!(TransportError::Cancelled.classified().kind(), ErrorKind::Network);
    assert_eq!(TransportError::AuthenticationExpired.classified().kind(), ErrorKind::AuthenticationExpired);
    assert_eq!(limited(9).classified().kind(), ErrorKind::RateLimited);
    assert_eq!(limited(9).classified().retry_after_seconds, Some(9));
    assert_eq!(limited(9).retry_after(), Some(Duration::from_secs(9)));
    assert_eq!(TransportError::Api { status: 418 }.http_status(), Some(418));
    assert_eq!(TransportError::Network.http_status(), None);
    assert!(TransportError::Network.is_retryable());
    assert!(!TransportError::MalformedResponse.is_retryable());
    assert_eq!(
        TransportError::Api { status: 418 }.classified_as(ErrorKind::Parse).kind(),
        ErrorKind::Parse
    );
}

#[test]
fn statuses_map_to_failures() {
    assert_eq!(exchange::status_error(401, None), TransportError::AuthenticationExpired);
    assert_eq!(exchange::status_error(403, None), TransportError::PermissionDenied);
    assert_eq!(exchange::status_error(408, None), TransportError::RequestTimeout);
    let delay = Some(Duration::from_secs(3));
    assert_eq!(exchange::status_error(429, delay), TransportError::RateLimited { retry_after: delay });
    assert_eq!(
        exchange::status_error(503, delay),
        TransportError::ProviderUnavailable { status: 503, retry_after: delay }
    );
    assert_eq!(exchange::status_error(404, None), TransportError::Api { status: 404 });
}

#[test]
fn ceilings_are_checked() {
    let zero = Duration::from_secs(0);
    let ten = Duration::from_secs(10);
    assert!(TransportConfig::new(ten, ten, 1, 0, RetryPolicy::none()).is_ok());
    assert_eq!(
        TransportConfig::new(zero, ten, 1, 0, RetryPolicy::none()).err(),
        Some(TransportError::InvalidConfiguration)
    );
    assert!(TransportConfig::new(ten, ten, 0, 0, RetryPolicy::none()).is_err());
}

#[test]
fn headers_of_a_request_are_limited() {
    let request = HttpRequest::get("https://example.com/".to_owned());
    let request = request.public_header("X-Trace", "1").ok().unwrap();
    assert_eq!(request.public_headers, [("x-trace".to_owned(), "1".to_owned())]);
    let again = HttpRequest::get("https://example.com/".to_owned())
        .public_header("X-Trace", "1")
        .ok()
        .unwrap()
        .sensitive_header("x-trace", "2".to_owned());
    assert!(again.is_err());
    let reserved = HttpRequest::get("https://example.com/".to_owned());
    assert!(reserved.public_header("Cookie", "a").is_err());
    let malformed = HttpRequest::get("https://example.com/".to_owned());
    assert!(malformed.public_header("bad name", "a").is_err());
    let control = HttpRequest::get("https://example.com/".to_owned());
    assert!(control.public_header("x-trace", "a\u{7f}").is_err());
    let statuses = HttpRequest::get("https://example.com/".to_owned());
    assert!(statuses.accepted_statuses(&[404, 404]).is_err());
    let success = HttpRequest::get("https://example.com/".to_owned());
    assert!(success.accepted_statuses(&[200]).is_err());
    assert!(HttpRequest::post("https://example.com/".to_owned(), vec![0; 9_000_000]).is_err());
}

#[test]
fn authentication_is_one_header() {
    let bearer = Authentication::bearer("token".to_owned()).ok().unwrap();
    assert_eq!(
        bearer.header().unwrap(),
        ("authorization".to_owned(), "Bearer token".to_owned())
    );
    let scheme = Authentication::authorization_scheme("42", "token".to_owned()).ok().unwrap();
    assert_eq!(scheme.header().unwrap().1, "42 token");
    let key = Authentication::api_key("X-Api-Key", "k".to_owned()).ok().unwrap();
    assert_eq!(key.header().unwrap(), ("x-api-key".to_owned(), "k".to_owned()));
    let cookie = Authentication::cookie("a=b".to_owned()).ok().unwrap();
    assert_eq!(cookie.header().unwrap(), ("cookie".to_owned(), "a=b".to_owned()));
    assert!(Authentication::bearer("a\nb".to_owned()).is_err());
    assert!(Authentication::api_key("Authorization", "k".to_owned()).is_err());
}

#[test]
fn outgoing_headers_name_the_accepted_types() {
    let request = HttpRequest::post_json("https://example.com/".to_owned(), vec![123, 125])
        .ok()
        .unwrap()
        .accept(RequestAccept::Json)
        .content_type(RequestContentType::Json)
        .authentication(Authentication::bearer("t".to_owned()).ok().unwrap());
    let headers = exchange::outgoing_headers(&request).unwrap();
    assert!(headers.contains(&("accept".to_owned(), "application/json".to_owned())));
    assert!(headers.contains(&("content-type".to_owned(), "application/json".to_owned())));
    assert!(headers.contains(&("authorization".to_owned(), "Bearer t".to_owned())));
}

#[test]
fn redirects_stay_within_their_bound() {
    let request = HttpRequest::get("https://example.com/a".to_owned());
    let now = Timestamp { nanos: 0 };
    let moved = ResponseHead { location: Some(b"/b".to_vec()), ..head(302) };
    let step = exchange::on_head(&request, &config(1, 10), "https://example.com/a", 0, &moved, now);
    assert!(matches!(step, HeadDecision::Redirect(url) if url == "https://example.com/b"));
    let step = exchange::on_head(&request, &config(1, 10), "https://example.com/b", 1, &moved, now);
    assert!(matches!(step, HeadDecision::Fail(TransportError::TooManyRedirects)));
    let lost = exchange::on_head(&request, &config(1, 10), "https://example.com/a", 0, &head(302), now);
    assert!(matches!(lost, HeadDecision::Fail(TransportError::MalformedResponse)));
    assert_eq!(
        exchange::redirect_target("https://example.com/a/b", &Some(b"../c".to_vec())).unwrap(),
        "https://example.com/c"
    );
}

#[test]
fn received_heads_keep_only_selected_headers() {
    let names = vec!["x-keep"];
    let request = HttpRequest::get("https://example.com/".to_owned())
        .response_headers(&names)
        .ok()
        .unwrap();
    let now = Timestamp { nanos: 0 };
    let found = ResponseHead {
        headers: vec![
            ("x-keep".to_owned(), b"1".to_vec()),
            ("x-drop".to_owned(), b"2".to_vec()),
        ],
        ..head(200)
    };
    let step = exchange::on_head(&request, &config(0, 10), "https://example.com/", 0, &found, now);
    assert!(matches!(step, HeadDecision::Receive(kept)
        if kept == [("x-keep".to_owned(), "1".to_owned())]));
    let large = ResponseHead { content_length: Some(11), ..head(200) };
    let step = exchange::on_head(&request, &config(0, 10), "https://example.com/", 0, &large, now);
    assert!(matches!(step, HeadDecision::Fail(TransportError::ResponseTooLarge)));
    let refused = exchange::on_head(&request, &config(0, 10), "https://example.com/", 0, &head(401), now);
    assert!(matches!(refused, HeadDecision::Fail(TransportError::AuthenticationExpired)));
}

#[test]
fn bodies_are_bounded() {
    let mut body = vec![1, 2];
    assert!(exchange::append_chunk(&mut body, &[3], 3).is_ok());
    assert_eq!(body, [1, 2, 3]);
    assert_eq!(
        exchange::append_chunk(&mut body, &[4], 3).err(),
        Some(TransportError::ResponseTooLarge)
    );
    let response = HttpResponse {
        status: 204,
        body,
        headers: vec![("x-keep".to_owned(), "1".to_owned())],
        endpoint: "https://a.example/x".to_owned(),
    };
    assert_eq!(response.status(), 204);
    assert_eq!(response.header("X-Keep"), Some("1"));
    assert_eq!(response.header("other"), None);
    assert_eq!(response.body_if_ok(ErrorKind::Api).err().unwrap().kind(), ErrorKind::Api);
    let full = HttpResponse { status: 200, ..response };
    assert_eq!(full.body_if_ok(ErrorKind::Api).ok(), Some(&[1, 2, 3][..]));
}

#[test]
fn header_values_are_visible_text() {
    assert_eq!(transport::header_text(b"plain"), Some("plain".to_owned()));
    assert_eq!(transport::header_text(b"\xff"), None);
    assert!(transport::is_http_token_byte(b'-'));
    assert!(!transport::is_http_token_byte(b' '));
}

#[test]
fn attempts_validate_before_they_send() {
    let request = HttpRequest::get_json("https://a.example/x".to_owned())
        .authentication(Authentication::bearer("tok".to_owned()).ok().unwrap());
    let limits = TransportConfig::new(
        Duration::from_secs(1),
        Duration::from_secs(2),
        1024,
        1,
        RetryPolicy::none(),
    )
    .ok()
    .unwrap();
    let first = Attempt::start(&request);
    assert_eq!(first.prepare(&request, false).err(), Some(TransportError::Endpoint));
    let headers = first.prepare(&request, true).ok().unwrap();
    assert!(headers.contains(&("authorization".to_owned(), "Bearer tok".to_owned())));
    let moved = ResponseHead {
        status: 302,
        location: Some(b"/y".to_vec()),
        retry_after: None,
        content_length: None,
        headers: Vec::new(),
    };
    let now = Timestamp { nanos: 0 };
    let next = match first.on_head(&request, &limits, &moved, now) {
        AttemptStep::Follow(next) => next,
        _ => panic!("a redirect is followed"),
    };
    assert_eq!((next.url.as_str(), next.redirects), ("https://a.example/y", 1));
    assert!(matches!(
        next.on_head(&request, &limits, &moved, now),
        AttemptStep::Fail(TransportError::TooManyRedirects)
    ));
    let done = ResponseHead { status: 200, ..moved };
    assert!(matches!(
        Attempt::start(&request).on_head(&request, &limits, &done, now),
        AttemptStep::Receive(headers) if headers.is_empty()
    ));
}

#[test]
fn secret_headers_come_last() {
    let request = HttpRequest::get("https://a.example/".to_owned())
        .accept(RequestAccept::Json)
        .public_header("x-trace", "1")
        .ok()
        .unwrap()
        .sensitive_header("x-secret", "2".to_owned())
        .ok()
        .unwrap();
    let sent = exchange::outgoing_headers(&request).unwrap();
    let secret: Vec<_> = (0..sent.len()).map(|i| exchange::is_secret(&request, i)).collect();
    assert_eq!(secret, [false, false, true]);
    assert_eq!(sent[2].0, "x-secret");
}
