use balancebeam::config::{Config, ConfigError};
use balancebeam::health::{probe_admits_upstream, probe_request};
use balancebeam::httpmsg::{extend_header_value, method_is_head, Header, HttpRequest};
use balancebeam::limiter::RateLimiter;
use balancebeam::pool::UpstreamPool;
use balancebeam::session::{parse_failure_status, step, Action, Event, ParseFailure, Phase};

fn simple_request() -> HttpRequest {
    HttpRequest {
        method: b"GET".to_vec(),
        uri: b"/".to_vec(),
        headers: vec![Header { name: b"host".to_vec(), value: b"x".to_vec() }],
        body: Vec::new(),
    }
}

#[test]
fn happy_path_one_request() {
    // One client request served whole over a single healthy upstream.
    let pool = UpstreamPool::new(vec!["a:80".to_string()]);
    let slot = pool.choose_active_slot().expect("one upstream is healthy");
    assert_eq!(pool.address_at_slot(slot), "a:80");

    let (phase, action) = step(Phase::Dialing, Event::UpstreamConnected);
    assert_eq!(phase, Phase::Serving);
    assert_eq!(action, Action::AwaitRequest);

    // The outbound request carries the client as the newest forwarded hop.
    let mut req = simple_request();
    extend_header_value(&mut req, &b"x-forwarded-for".to_vec(), &b"10.0.0.9".to_vec());
    assert_eq!(req.headers.len(), 2);
    assert_eq!(req.headers[1].name, b"x-forwarded-for".to_vec());
    assert_eq!(req.headers[1].value, b"10.0.0.9".to_vec());

    let (phase, action) = step(Phase::Serving, Event::RequestAdmitted);
    assert_eq!((phase, action), (Phase::Serving, Action::Forward));
    let (phase, action) = step(Phase::Serving, Event::RequestForwarded);
    assert_eq!((phase, action), (Phase::Serving, Action::AwaitResponse));
    let (phase, action) = step(Phase::Serving, Event::ResponseRead);
    assert_eq!((phase, action), (Phase::Serving, Action::Deliver));
    let (phase, action) = step(Phase::Serving, Event::ResponseDelivered);
    assert_eq!((phase, action), (Phase::Serving, Action::AwaitRequest));
}

#[test]
fn xff_appends_to_prior_hops() {
    let mut req = HttpRequest {
        method: b"GET".to_vec(),
        uri: b"/".to_vec(),
        headers: vec![
            Header { name: b"x-forwarded-for".to_vec(), value: b"203.0.113.7".to_vec() },
            Header { name: b"host".to_vec(), value: b"x".to_vec() },
        ],
        body: Vec::new(),
    };
    extend_header_value(&mut req, &b"x-forwarded-for".to_vec(), &b"10.0.0.9".to_vec());
    assert_eq!(req.headers.len(), 2);
    assert_eq!(req.headers[0].value, b"203.0.113.7, 10.0.0.9".to_vec());
    assert_eq!(req.headers[1].value, b"x".to_vec());
}

#[test]
fn dead_upstream_eviction() {
    // First upstream refuses; after its eviction the pool holds the other.
    let mut pool = UpstreamPool::new(vec!["a:80".to_string(), "b:80".to_string()]);
    assert_eq!(pool.active_count(), 2);
    pool.evict_slot(0);
    assert_eq!(pool.active_count(), 1);
    assert_eq!(pool.all_count(), 2);
    assert_eq!(pool.address_at_slot(0), "b:80");
}

#[test]
fn all_upstreams_dead() {
    let mut pool = UpstreamPool::new(vec!["a:80".to_string(), "b:80".to_string()]);
    pool.evict_slot(0);
    pool.evict_slot(0);
    assert_eq!(pool.active_count(), 0);
    assert!(pool.choose_active_slot().is_none());
    let (phase, action) = step(Phase::Dialing, Event::NoUpstreamAvailable);
    assert_eq!(phase, Phase::Closed);
    assert_eq!(action, Action::ReplyAndClose(502));
}

#[test]
fn rate_limit_three_per_minute() {
    // Five quick requests: three served, the fourth and fifth denied;
    // after the window rolls, service resumes.
    let mut limiter = RateLimiter::new(3);
    let ip = b"10.0.0.9".to_vec();
    assert!(limiter.allow_request(&ip, 0));
    assert!(limiter.allow_request(&ip, 0));
    assert!(limiter.allow_request(&ip, 1));
    assert!(!limiter.allow_request(&ip, 1));
    assert!(!limiter.allow_request(&ip, 1));
    assert!(limiter.allow_request(&ip, 61));
    let (phase, action) = step(Phase::Serving, Event::RateLimited);
    assert_eq!(phase, Phase::Serving);
    assert_eq!(action, Action::Reply(429));
}

#[test]
fn rate_limit_disabled_by_zero() {
    let mut limiter = RateLimiter::new(0);
    let ip = b"10.0.0.9".to_vec();
    for _ in 0..100 {
        assert!(limiter.allow_request(&ip, 5));
    }
}

#[test]
fn rate_limit_tracks_clients_apart() {
    let mut limiter = RateLimiter::new(1);
    let one = b"10.0.0.1".to_vec();
    let two = b"10.0.0.2".to_vec();
    assert!(limiter.allow_request(&one, 0));
    assert!(!limiter.allow_request(&one, 1));
    assert!(limiter.allow_request(&two, 1));
    assert!(!limiter.allow_request(&two, 2));
}

#[test]
fn malformed_request_keeps_session() {
    // A request that does not parse answers 400 and the session reads on.
    assert_eq!(parse_failure_status(ParseFailure::Malformed), 400);
    let (phase, action) = step(Phase::Serving, Event::BadRequest(ParseFailure::Malformed));
    assert_eq!(phase, Phase::Serving);
    assert_eq!(action, Action::Reply(400));
    // A later well-formed request is served normally.
    let (phase, action) = step(phase, Event::RequestAdmitted);
    assert_eq!((phase, action), (Phase::Serving, Action::Forward));
}

#[test]
fn parse_failure_statuses() {
    assert_eq!(parse_failure_status(ParseFailure::Incomplete), 400);
    assert_eq!(parse_failure_status(ParseFailure::InvalidContentLength), 400);
    assert_eq!(parse_failure_status(ParseFailure::ContentLengthMismatch), 400);
    assert_eq!(parse_failure_status(ParseFailure::BodyTooLarge), 413);
    assert_eq!(parse_failure_status(ParseFailure::Io), 503);
}

#[test]
fn session_ends_on_upstream_failures() {
    assert_eq!(
        step(Phase::Serving, Event::UpstreamWriteFailed),
        (Phase::Closed, Action::ReplyAndClose(502))
    );
    assert_eq!(
        step(Phase::Serving, Event::UpstreamReadFailed),
        (Phase::Closed, Action::ReplyAndClose(502))
    );
    assert_eq!(step(Phase::Serving, Event::ClientClosed), (Phase::Closed, Action::Shutdown));
    assert_eq!(step(Phase::Serving, Event::ClientWriteFailed), (Phase::Closed, Action::Shutdown));
    assert_eq!(step(Phase::Closed, Event::RequestAdmitted), (Phase::Closed, Action::Shutdown));
}

#[test]
fn health_check_recovery() {
    // Down at first: the probe fails and the subset empties. One cycle
    // after the upstream answers 200, the pool offers it again.
    let mut pool = UpstreamPool::new(vec!["a:80".to_string()]);
    pool.rebuild_active(&vec![false]);
    assert_eq!(pool.active_count(), 0);
    assert!(!probe_admits_upstream(500));
    assert!(probe_admits_upstream(200));
    pool.rebuild_active(&vec![true]);
    assert_eq!(pool.active_count(), 1);
    assert_eq!(pool.address_at_slot(0), "a:80");
    assert!(pool.choose_active_slot().is_some());
}

#[test]
fn health_rebuild_keeps_healthy_only() {
    let mut pool =
        UpstreamPool::new(vec!["a:80".to_string(), "b:80".to_string(), "c:80".to_string()]);
    pool.rebuild_active(&vec![true, false, true]);
    assert_eq!(pool.active_count(), 2);
    assert_eq!(pool.address_at_slot(0), "a:80");
    assert_eq!(pool.address_at_slot(1), "c:80");
}

#[test]
fn probe_request_shape() {
    let req = probe_request(&b"/health".to_vec(), &b"a:80".to_vec());
    assert_eq!(req.method, b"GET".to_vec());
    assert_eq!(req.uri, b"/health".to_vec());
    assert_eq!(req.headers.len(), 1);
    assert_eq!(req.headers[0].name, b"host".to_vec());
    assert_eq!(req.headers[0].value, b"a:80".to_vec());
    assert!(req.body.is_empty());
}

#[test]
fn head_method_recognised() {
    assert!(method_is_head(&b"HEAD".to_vec()));
    assert!(!method_is_head(&b"GET".to_vec()));
    assert!(!method_is_head(&b"HEADx".to_vec()));
}

#[test]
fn chosen_slot_stays_in_range() {
    // The slot always falls inside the healthy subset, whatever the
    // random draw came back with.
    let pool = UpstreamPool::new(vec!["a:80".to_string(), "b:80".to_string(), "c:80".to_string()]);
    for _ in 0..64 {
        let slot = pool.choose_active_slot().expect("the subset is inhabited");
        assert!(slot < 3);
    }
}

#[test]
fn config_requires_an_upstream() {
    let r = Config::new("0.0.0.0:1100".to_string(), Vec::new(), 10, "/".to_string(), 0);
    assert_eq!(r.err(), Some(ConfigError::NoUpstreams));
}

#[test]
fn config_accepts_one_upstream() {
    let c = Config::new(
        "0.0.0.0:1100".to_string(),
        vec!["a:80".to_string()],
        10,
        "/".to_string(),
        3,
    )
    .expect("an upstream was supplied");
    assert_eq!(c.bind, "0.0.0.0:1100");
    assert_eq!(c.upstreams, vec!["a:80".to_string()]);
    assert_eq!(c.health_check_interval, 10);
    assert_eq!(c.health_check_path, "/");
    assert_eq!(c.max_requests_per_minute, 3);
}
