use radio::startup::{listen_addr, tls_plan, TlsPlan, NEW_TRACKS, ROOM_EVENTS, SOCKET_MESSAGES};

fn some(s: &str) -> Option<String> {
    Some(s.to_owned())
}

#[test]
fn address_is_the_given_one_or_the_default() {
    assert_eq!(listen_addr(None), "0.0.0.0:29874");
    assert_eq!(listen_addr(some("127.0.0.1:1")), "127.0.0.1:1");
}

#[test]
fn encryption_is_for_production() {
    assert_eq!(tls_plan(false, some("c"), some("k")), TlsPlan::Off);
    assert_eq!(
        tls_plan(true, some("c"), some("k")),
        TlsPlan::Load { cert: "c".to_owned(), key: "k".to_owned() }
    );
    assert_eq!(tls_plan(true, None, some("k")), TlsPlan::CertMissing);
    assert_eq!(tls_plan(true, None, None), TlsPlan::CertMissing);
    assert_eq!(tls_plan(true, some("c"), None), TlsPlan::KeyMissing);
}

#[test]
fn what_lacks_is_said() {
    assert_eq!(TlsPlan::CertMissing.notice(), some("CERT_PATH not set"));
    assert_eq!(TlsPlan::KeyMissing.notice(), some("KEY_PATH not set"));
    assert_eq!(TlsPlan::Off.notice(), None);
    assert_eq!(tls_plan(true, some("c"), some("k")).notice(), None);
}

#[test]
fn queues_are_short() {
    assert_eq!((ROOM_EVENTS, SOCKET_MESSAGES, NEW_TRACKS), (1, 100, 1));
}
