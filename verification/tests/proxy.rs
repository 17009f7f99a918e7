use valve::plumber::{plumber_handler, Plumber};
use valve::proxy::{
    error_response, Action, Event, Outcome, Proxy, Refusal, BAD_GATEWAY, MAX_ATTEMPTS,
};
use valve::uri::{upstream_uri, UriError};

type Exchange = Proxy<&'static str, Vec<u8>, u16>;

fn worker() -> Plumber {
    Plumber { host: String::from("127.0.0.1"), port: 8000 }
}

fn begun() -> Exchange {
    plumber_handler(Some(&worker()), Some("/echo?msg=hi"), "POST").unwrap()
}

fn body_read() -> Exchange {
    begun().advance(Event::BodyRead(vec![1, 2, 3]))
}

fn refused(proxy: Exchange, refusal: Refusal) -> bool {
    proxy.action() == Action::Finish
        && matches!(proxy.into_outcome(), Some(Outcome::Refused(r)) if r == refusal)
}

fn responded(proxy: Exchange, response: u16) -> bool {
    proxy.action() == Action::Finish
        && matches!(proxy.into_outcome(), Some(Outcome::Response(r)) if r == response)
}

#[test]
fn first_response_is_forwarded() {
    let proxy = begun();
    assert_eq!(proxy.action(), Action::ReadBody);
    let proxy = proxy.advance(Event::BodyRead(vec![1, 2, 3]));
    assert_eq!(proxy.action(), Action::BuildRequest);
    let proxy = proxy.advance(Event::RequestBuilt);
    assert_eq!(proxy.action(), Action::SendRequest);
    let proxy = proxy.advance(Event::Responded(200));
    assert!(responded(proxy, 200));
}

#[test]
fn dead_worker_is_tried_three_times_with_growing_pauses() {
    let mut proxy = body_read();
    let mut sent = 0;
    let mut pauses = Vec::new();
    loop {
        let event = match proxy.action() {
            Action::ReadBody => unreachable!(),
            Action::BuildRequest => Event::RequestBuilt,
            Action::SendRequest => {
                sent += 1;
                Event::SendFailed
            }
            Action::Sleep { millis } => {
                pauses.push(millis);
                Event::SleptEnough
            }
            Action::Finish => break,
        };
        proxy = proxy.advance(event);
    }
    assert_eq!(sent, MAX_ATTEMPTS);
    assert_eq!(sent, 3);
    assert_eq!(pauses, vec![50, 100]);
    assert!(refused(proxy, Refusal::WorkerUnavailable));
}

#[test]
fn late_worker_is_heard_at_every_attempt() {
    for failures in 0..3 {
        let mut proxy = body_read();
        for _ in 0..failures {
            proxy = proxy
                .advance(Event::RequestBuilt)
                .advance(Event::SendFailed)
                .advance(Event::SleptEnough);
        }
        proxy = proxy.advance(Event::RequestBuilt).advance(Event::Responded(200 + failures));
        assert!(responded(proxy, 200 + failures));
    }
}

#[test]
fn every_attempt_sends_the_same_request() {
    let mut proxy = body_read();
    for attempt in 0..3 {
        match &proxy {
            Proxy::Building { request, attempt: a } => {
                assert_eq!(*a, attempt);
                assert_eq!(request.head, "POST");
                assert_eq!(request.body, vec![1, 2, 3]);
                assert_eq!(request.uri.authority, "127.0.0.1:8000");
                assert_eq!(request.uri.path_and_query, "/echo?msg=hi");
            }
            _ => panic!("not building"),
        }
        proxy = proxy
            .advance(Event::RequestBuilt)
            .advance(Event::SendFailed)
            .advance(Event::SleptEnough);
    }
    assert!(refused(proxy, Refusal::WorkerUnavailable));
}

#[test]
fn unreadable_body_is_refused() {
    assert!(refused(begun().advance(Event::BodyFailed), Refusal::BodyUnreadable));
}

#[test]
fn unbuildable_request_is_refused() {
    assert!(refused(body_read().advance(Event::BuildFailed), Refusal::RequestUnbuildable));
}

#[test]
fn pool_without_worker_is_refused() {
    let proxy: Exchange = plumber_handler(None, Some("/"), "GET").unwrap();
    assert!(refused(proxy, Refusal::NoWorker));
    let proxy: Exchange = plumber_handler(None, None, "GET").unwrap();
    assert!(refused(proxy, Refusal::NoWorker));
}

#[test]
fn request_without_path_is_refused() {
    let proxy: Exchange = worker().proxy_request(None, "CONNECT").unwrap();
    assert!(refused(proxy, Refusal::InvalidUri));
}

#[test]
fn malformed_addresses_are_handed_back() {
    let bad = Plumber { host: String::from("a b"), port: 1 };
    let proxy: Result<Exchange, UriError> = plumber_handler(Some(&bad), Some("/"), "GET");
    assert_eq!(proxy.unwrap_err(), UriError::Authority);
    let proxy: Result<Exchange, UriError> = worker().proxy_request(Some("/a b"), "GET");
    assert_eq!(proxy.unwrap_err(), UriError::Path);
}

#[test]
fn begin_follows_the_address() {
    let proxy: Exchange = Proxy::begin(upstream_uri("h", 1, Some("/x")), "GET").unwrap();
    assert_eq!(proxy.action(), Action::ReadBody);
    let proxy: Exchange = Proxy::begin(Err(UriError::Incomplete), "GET").unwrap();
    assert!(refused(proxy, Refusal::InvalidUri));
    let proxy: Result<Exchange, UriError> = Proxy::begin(Err(UriError::Path), "GET");
    assert_eq!(proxy.unwrap_err(), UriError::Path);
}

#[test]
fn unawaited_events_change_nothing() {
    let proxy = begun().advance(Event::Responded(200)).advance(Event::SleptEnough);
    assert_eq!(proxy.action(), Action::ReadBody);
    let proxy = body_read().advance(Event::SendFailed).advance(Event::BodyRead(vec![]));
    assert_eq!(proxy.action(), Action::BuildRequest);
    let done = body_read().advance(Event::RequestBuilt).advance(Event::Responded(404));
    let done = done.advance(Event::SendFailed).advance(Event::Responded(200));
    assert!(responded(done, 404));
}

#[test]
fn every_refusal_is_a_bad_gateway() {
    assert_eq!(BAD_GATEWAY, hyper::StatusCode::BAD_GATEWAY.as_u16());
    let told = [
        (Refusal::NoWorker, "no plumber worker available"),
        (Refusal::InvalidUri, "invalid upstream uri"),
        (Refusal::BodyUnreadable, "could not read request body"),
        (Refusal::RequestUnbuildable, "could not build request"),
        (Refusal::WorkerUnavailable, "upstream worker unavailable"),
    ];
    for (refusal, text) in told {
        let response = refusal.response();
        assert_eq!(response.status, 502);
        assert_eq!(response.body, text);
    }
}

#[test]
fn error_response_has_status_and_text() {
    let response = error_response(404, "gone");
    assert_eq!(response.status, 404);
    assert_eq!(response.body, "gone");
}

#[test]
fn unfinished_request_has_no_outcome() {
    assert!(begun().into_outcome().is_none());
    assert!(body_read().into_outcome().is_none());
}
