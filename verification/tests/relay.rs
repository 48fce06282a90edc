use moq::address::{
    check_scheme, connect_target, get_port, moq_url, parse_address, Address, TargetError,
    Transport, DEFAULT_PORT,
};
use moq::connect::{
    choose_next, publisher_next, subscriber_next, with_stats_and_rate_limit, PublisherNext,
    PUBLISHER_RETRY_SECS, SUBSCRIBER_RETRY_SECS,
};
use moq::message::control::Message;
use moq::native::{
    accept_transport, client_alpn, server_alpns, stats_of, transport_plan, AcceptError, PathStats,
};
use moq::relay::plan::{
    after_local, choose_source, forward_plan, session_plan, uses_api, AfterLocal, Forward, Lookup,
    ProducerLoop, RelayEvent, RelayLoop, SessionRun, SessionTasks, Source,
};
use moq::relay::web::{
    deadline_config, first_fingerprint, goaway, rate_limit, DEFAULT_BETA_BITS, DEFAULT_GUARD_MS,
    WEB_ALPN_H2, WEB_ALPN_HTTP1,
};
use moq::session::error::ServeError;
use moq::session::shared::{DeadlineMode, SharedState, DEFAULT_GOAWAY_TIMEOUT};

fn address(text: &str) -> Address {
    parse_address(text).unwrap()
}

#[test]
fn addresses_are_taken_apart() {
    let a = address("https://Relay.Example:4443/x?y=1");
    assert_eq!(a.scheme, "https");
    assert_eq!(a.host.as_deref(), Some("relay.example"));
    assert_eq!(a.port, Some(4443));
    assert_eq!(a.text, "https://relay.example:4443/x?y=1");
    assert_eq!(address("https://a:443").port, None);
    assert_eq!(parse_address("relay").unwrap_err(), "relative URL without a base");
    assert_eq!(get_port("https://a:4443"), Some(4443));
    assert_eq!(get_port("https://a"), None);
    assert_eq!(get_port("nowhere"), None);
}

#[test]
fn only_two_schemes_are_taken() {
    assert_eq!(moq_url("https://a/").unwrap().text, "https://a/");
    assert_eq!(moq_url("moqt://a").unwrap().scheme, "moqt");
    assert_eq!(
        moq_url("http://a").unwrap_err(),
        "url scheme must be https:// for WebTransport & moqt:// for QUIC"
    );
    assert_eq!(moq_url("").unwrap_err(), "relative URL without a base");
    assert!(check_scheme(address("ftp://a")).is_err());
}

#[test]
fn where_to_connect() {
    let t = connect_target(&address("https://a:1/")).unwrap();
    assert_eq!((t.transport, t.host.as_str(), t.port), (Transport::WebTransport, "a", 1));
    let t = connect_target(&address("moqt://b/")).unwrap();
    assert_eq!((t.transport, t.host.as_str(), t.port), (Transport::Quic, "b", DEFAULT_PORT));
    assert_eq!(DEFAULT_PORT, 443);
    assert_eq!(connect_target(&address("ftp://b/")).unwrap_err(), TargetError::Scheme);
    let nowhere = Address {
        scheme: String::from("https"),
        host: None,
        port: None,
        text: String::from("https:"),
    };
    assert_eq!(connect_target(&nowhere).unwrap_err(), TargetError::Host);
}

#[test]
fn what_a_publisher_does_next() {
    match publisher_next(true, "https://b:2/") {
        PublisherNext::Moved(a) => assert_eq!(a.port, Some(2)),
        other => panic!("{:?}", other),
    }
    assert!(matches!(publisher_next(true, ""), PublisherNext::BadUrl(_)));
    assert!(matches!(
        publisher_next(false, "https://b"),
        PublisherNext::Retry { secs: PUBLISHER_RETRY_SECS }
    ));
    assert_eq!((PUBLISHER_RETRY_SECS, SUBSCRIBER_RETRY_SECS), (5, 1));
    assert!(with_stats_and_rate_limit(Some(1), false));
    assert!(with_stats_and_rate_limit(None, true));
    assert!(!with_stats_and_rate_limit(None, false));
}

#[test]
fn what_a_subscriber_does_next() {
    assert_eq!(subscriber_next(address("https://a"), "https://b").text, "https://b/");
    assert_eq!(subscriber_next(address("https://a"), "https://a").text, "https://a/");
    assert_eq!(subscriber_next(address("https://a"), "").text, "https://a/");
    let told = Err(String::from("no"));
    assert_eq!(choose_next(address("https://a"), told).text, "https://a/");
}

#[test]
fn protocols_are_agreed_on() {
    assert_eq!(client_alpn(Transport::WebTransport), "h3");
    assert_eq!(client_alpn(Transport::Quic), "moq-00");
    assert_eq!(server_alpns(), vec!["h3", "moq-00"]);
    for t in [Transport::WebTransport, Transport::Quic] {
        assert_eq!(accept_transport(Some(client_alpn(t).as_bytes())), Ok(t));
    }
    assert_eq!(accept_transport(Some(b"h2")), Err(AcceptError::Unsupported));
    assert_eq!(accept_transport(None), Err(AcceptError::Missing));
}

#[test]
fn the_settings_of_a_connection() {
    let p = transport_plan(Some(40));
    assert_eq!((p.max_idle_timeout_secs, p.keep_alive_interval_secs), (30, 10));
    assert_eq!((p.initial_mtu, p.min_mtu, p.default_mss), (1200, 1200, 1200));
    assert!(!p.segmentation_offload && !p.mtu_discovery && !p.deadline_scheduler);
    assert_eq!(p.initial_rtt_ms, Some(40));
    assert_eq!(f64::from_bits(p.beta_bits), 0.8);
    assert_eq!(p.guard_ms, 10);
    assert_eq!(transport_plan(None).initial_rtt_ms, None);
}

#[test]
fn the_statistics_of_a_path() {
    let path = PathStats {
        rtt: 1,
        cwnd: 2,
        congestion_events: 3,
        lost_packets: 4,
        sent_packets: 5,
    };
    assert_eq!(stats_of(&path), (1, 2, 3, 4, 5));
}

#[test]
fn other_relays_need_an_address_and_a_name() {
    assert!(uses_api(true, true));
    assert!(!uses_api(true, false));
    assert!(!uses_api(false, true));
}

#[test]
fn announcements_are_forwarded() {
    assert_eq!(forward_plan(false, Some(1)), Forward::Off);
    assert_eq!(forward_plan(true, None), Forward::Unlimited);
    assert_eq!(forward_plan(true, Some(9)), Forward::Limited(9));
}

#[test]
fn sessions_are_monitored_where_that_is_asked() {
    assert_eq!(session_plan(Some(5), None).run, SessionRun::Plain);
    assert_eq!(session_plan(Some(5), None).rate_limit_bps, Some(5));
    assert_eq!(
        session_plan(Some(5), Some(2)).run,
        SessionRun::Monitored { interval_secs: 2, rate_bps: 5 }
    );
    assert_eq!(
        session_plan(None, Some(2)).run,
        SessionRun::Monitored { interval_secs: 2, rate_bps: 0 }
    );
}

#[test]
fn a_relay_runs_until_something_fails() {
    let mut l = RelayLoop::new(true, Forward::Unlimited);
    assert_eq!(l.tasks, 2);
    assert!(!RelayLoop::new(false, Forward::Off).waits_for_tasks());
    assert!(l.event(RelayEvent::Accepted));
    assert_eq!(l.tasks, 3);
    assert!(l.event(RelayEvent::TaskDone));
    assert!(l.waits_for_tasks());
    assert!(!l.event(RelayEvent::TaskFailed));
    assert_eq!(l.tasks, 1);
    assert!(!l.event(RelayEvent::AcceptFailed));
}

#[test]
fn a_session_of_a_relay_runs_to_its_end() {
    let mut t = SessionTasks::new(true, true);
    assert_eq!(t.left, 3);
    assert!(!t.task_done(true));
    assert!(t.task_done(true));
    assert!(!t.finished());
    assert!(!t.task_done(false));
    assert!(t.finished());
    assert_eq!(SessionTasks::new(false, false).left, 1);
}

#[test]
fn a_subscription_is_served_from_the_nearest_place() {
    for other in [Lookup::NoNamespace, Lookup::NoTrack] {
        assert_eq!(after_local(other, true), AfterLocal::AskRemotes);
        assert_eq!(after_local(other, false), AfterLocal::NotFound);
        assert_eq!(choose_source(other, Some(Lookup::Track)), Ok(Source::Remote));
        assert_eq!(choose_source(other, Some(Lookup::NoTrack)), Err(ServeError::NotFound));
        assert_eq!(choose_source(other, None), Err(ServeError::NotFound));
    }
    assert_eq!(after_local(Lookup::Track, true), AfterLocal::Serve);
    assert_eq!(choose_source(Lookup::Track, Some(Lookup::Track)), Ok(Source::Local));
}

#[test]
fn a_producer_serves_until_nothing_is_left() {
    let mut l = ProducerLoop::new();
    l.subscribed(true);
    l.subscribed(false);
    assert!(!l.finished());
    l.task_done();
    assert!(l.finished());
}

#[test]
fn sessions_are_sent_away() {
    let mut s = SharedState::new();
    assert!(s.goaway_message().is_none());
    assert_eq!(s.goaway_timeout(), DEFAULT_GOAWAY_TIMEOUT);
    assert_eq!(DEFAULT_GOAWAY_TIMEOUT, 100000);
    let r = goaway(&mut s, "https://localhost:4442", 5);
    assert_eq!(r.text, "URL updated. Integer value updated.");
    assert!(r.wake);
    assert!(s.get());
    assert_eq!(s.get_url().as_deref(), Some("https://localhost:4442/"));
    assert_eq!(s.get_value(), Some(5));
    assert_eq!(s.goaway_timeout(), 5);
    match s.goaway_message() {
        Some(Message::GoAway(m)) => assert_eq!(m.url, "https://localhost:4442/"),
        other => panic!("{:?}", other),
    }
    let r = goaway(&mut s, "localhost", 6);
    assert_eq!(
        r.text,
        "Invalid URL parameter: relative URL without a base. Integer value updated."
    );
    assert!(r.wake);
    assert_eq!(s.get_url().as_deref(), Some("https://localhost:4442/"));
    assert_eq!(s.get_value(), Some(6));
}

#[test]
fn a_change_without_an_address_is_waited_through() {
    let mut s = SharedState::new();
    assert_eq!(rate_limit(&mut s, Some(8), None), Ok((8, true)));
    assert!(s.goaway_message().is_none());
    assert!(goaway(&mut s, "https://localhost:4442", 5).wake);
    match s.goaway_message() {
        Some(Message::GoAway(m)) => assert_eq!(m.url, "https://localhost:4442/"),
        other => panic!("{:?}", other),
    }
    assert!(s.update());
    assert!(s.update_with_int(7));
    assert!(s.update_deadline_scheduler(deadline_config(None, None, None, None)));
}

#[test]
fn rates_are_set() {
    let mut s = SharedState::default();
    assert_eq!(s.bandwidth_message().bandwidth, 0);
    assert_eq!(
        rate_limit(&mut s, None, None).unwrap_err(),
        "Missing 'bps' or 'mbps'"
    );
    assert!(!s.get());
    assert_eq!(rate_limit(&mut s, None, Some(7)), Ok((7, true)));
    assert_eq!(rate_limit(&mut s, Some(8), Some(7)), Ok((8, true)));
    assert_eq!(s.get_rate_limit_bps(), Some(8));
    assert_eq!(s.bandwidth_message().bandwidth, 8);
}

#[test]
fn schedulers_are_set() {
    let c = deadline_config(None, None, None, None);
    assert!(c.enabled);
    assert_eq!(c.mode, DeadlineMode::Lstf);
    assert_eq!(c.guard_ms, DEFAULT_GUARD_MS);
    assert_eq!(f64::from_bits(c.beta_bits), 0.9);
    assert_eq!(c.beta_bits, DEFAULT_BETA_BITS);
    let c = deadline_config(Some(false), Some("edf"), Some(3), Some(1.5f64.to_bits()));
    assert!(!c.enabled);
    assert_eq!(c.mode, DeadlineMode::Edf);
    assert_eq!(c.guard_ms, 3);
    assert_eq!(f64::from_bits(c.beta_bits), 1.5);
    assert_eq!(deadline_config(None, Some("EDF"), None, None).mode, DeadlineMode::Lstf);
    let mut s = SharedState::new();
    assert!(s.update_deadline_scheduler(c));
    assert!(s.update());
    assert_eq!(s.get_deadline_scheduler(), Some(c));
}

#[test]
fn the_first_certificate_is_shown() {
    let f = vec![String::from("ab"), String::from("cd")];
    assert_eq!(first_fingerprint(&f), "ab");
    assert_eq!((WEB_ALPN_H2, WEB_ALPN_HTTP1), ("h2", "http/1.1"));
}
