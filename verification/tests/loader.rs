use valhalla::loader::{after_send, on_connect, ConnectOutcome, ConnectStep, SendStep};
use valhalla::loader::{
    module_url, on_socket_event, probe_url, resolve_auto_bundle, ws_url_from_http, Bundle, BundleError,
    HmrBackoff, HmrMessage, HmrStep, ResolvedBundle, SocketEvent, NO_APP_BUNDLE,
};

#[test]
fn auto_prefers_dev_then_file_then_empty() {
    match resolve_auto_bundle(Some("http://localhost:5173".into()), Some("/b.js".into())) {
        Bundle::Vite { url } => assert_eq!(url, "http://localhost:5173"),
        other => panic!("{:?}", other),
    }
    match resolve_auto_bundle(None, Some("/b.js".into())) {
        Bundle::File(p) => assert_eq!(p, "/b.js"),
        other => panic!("{:?}", other),
    }
    match resolve_auto_bundle(None, None) {
        Bundle::Embedded(s) => assert_eq!(s, NO_APP_BUNDLE),
        other => panic!("{:?}", other),
    }
}

#[test]
fn resolve_turns_each_mode_into_a_source() {
    match Bundle::Embedded("x()").resolve(None, None, true) {
        Ok(ResolvedBundle::Source(s)) => assert_eq!(s, "x()"),
        other => panic!("{:?}", other),
    }
    match Bundle::File("/a.js".into()).resolve(None, None, false) {
        Ok(ResolvedBundle::File(p)) => assert_eq!(p, "/a.js"),
        other => panic!("{:?}", other),
    }
    match (Bundle::Vite { url: "http://h".into() }).resolve(None, None, true) {
        Ok(ResolvedBundle::Live(u)) => assert_eq!(u, "http://h"),
        other => panic!("{:?}", other),
    }
    match (Bundle::Vite { url: "http://h".into() }).resolve(None, None, false) {
        Err(e) => {
            assert_eq!(e, BundleError::ViteRequiresDevLoader);
            assert_eq!(e.message(), "Bundle::Vite requires the `dev-loader` feature");
        }
        other => panic!("{:?}", other),
    }
    match Bundle::Auto.resolve(None, Some("/b.js".into()), true) {
        Ok(ResolvedBundle::File(p)) => assert_eq!(p, "/b.js"),
        other => panic!("{:?}", other),
    }
    match Bundle::Auto.resolve(None, None, true) {
        Ok(ResolvedBundle::Source(s)) => assert!(s.contains("no bundle configured")),
        other => panic!("{:?}", other),
    }
}

#[test]
fn ws_urls() {
    assert_eq!(ws_url_from_http("http://localhost:5173/"), "ws://localhost:5173");
    assert_eq!(ws_url_from_http("https://example.com//"), "wss://example.com");
    assert_eq!(ws_url_from_http("localhost:5173"), "ws://localhost:5173");
}

#[test]
fn module_and_probe_urls() {
    assert_eq!(probe_url("http://h:1//"), "http://h:1/");
    assert_eq!(module_url("http://h/", "/src/App.tsx"), "http://h/src/App.tsx");
    assert_eq!(module_url("http://h", "src/App.tsx?v=1"), "http://h/src/App.tsx?v=1");
    assert_eq!(module_url("http://h", "https://cdn/x.js"), "https://cdn/x.js");
}

#[test]
fn socket_events() {
    assert_eq!(
        on_socket_event(SocketEvent::Text("{}".into())),
        HmrStep::Forward(HmrMessage::Frame("{}".into()))
    );
    assert_eq!(on_socket_event(SocketEvent::Close), HmrStep::Reconnect);
    assert_eq!(on_socket_event(SocketEvent::Error), HmrStep::Reconnect);
    assert_eq!(on_socket_event(SocketEvent::Other), HmrStep::Ignore);
}

#[test]
fn backoff_doubles_up_to_five_seconds_and_resets() {
    let mut b = HmrBackoff::new();
    let waits: Vec<u64> = (0..7).map(|_| b.next_delay()).collect();
    assert_eq!(waits, vec![250, 500, 1000, 2000, 4000, 5000, 5000]);
    b.connected();
    assert_eq!(b.next_delay(), 250);
}

#[test]
fn connect_outcomes_decide_the_hmr_loop() {
    assert_eq!(on_connect(ConnectOutcome::BadUrl), ConnectStep::GiveUp);
    assert_eq!(on_connect(ConnectOutcome::Failed), ConnectStep::Retry);
    assert_eq!(on_connect(ConnectOutcome::Open), ConnectStep::Read);
    assert_eq!(after_send(true), SendStep::Continue);
    assert_eq!(after_send(false), SendStep::Stop);
}
