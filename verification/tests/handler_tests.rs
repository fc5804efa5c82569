//! Routing decisions of the wrapping handlers on concrete inputs: which
//! TLS target a server name selects, and which upgrade requests a
//! WebSocket target accepts.

use proxy_core::config::{ServerProxyConfig, TlsServerConfig};
use proxy_core::handlers::{select_tls_target, websocket_request_matches};
use proxy_core::option_util::NoneOrSome;

fn tls_target(cert: &str, protocol: ServerProxyConfig) -> TlsServerConfig {
    TlsServerConfig {
        cert: cert.to_owned(),
        key: "key.pem".to_owned(),
        alpn_protocols: NoneOrSome::Unspecified,
        protocol,
        override_rules: NoneOrSome::Unspecified,
    }
}

#[test]
fn sni_selects_the_named_target() {
    // Two named targets: a.test serves HTTP, b.test serves SOCKS; no
    // default target, so an unknown name selects nothing and the
    // connection is closed.
    let targets = vec![
        (
            "a.test".to_owned(),
            tls_target("a.pem", ServerProxyConfig::Http { username: None, password: None }),
        ),
        (
            "b.test".to_owned(),
            tls_target("b.pem", ServerProxyConfig::Socks { username: None, password: None }),
        ),
    ];
    let a = select_tls_target(&targets, &None, &"a.test".to_owned()).unwrap();
    assert!(matches!(a.protocol, ServerProxyConfig::Http { .. }));
    let b = select_tls_target(&targets, &None, &"b.test".to_owned()).unwrap();
    assert!(matches!(b.protocol, ServerProxyConfig::Socks { .. }));
    assert!(select_tls_target(&targets, &None, &"c.test".to_owned()).is_none());
}

#[test]
fn unknown_sni_falls_back_to_the_default_target() {
    let targets = vec![(
        "a.test".to_owned(),
        tls_target("a.pem", ServerProxyConfig::Http { username: None, password: None }),
    )];
    let fallback = Some(Box::new(tls_target(
        "d.pem",
        ServerProxyConfig::Socks { username: None, password: None },
    )));
    let chosen = select_tls_target(&targets, &fallback, &"c.test".to_owned()).unwrap();
    assert!(matches!(chosen.protocol, ServerProxyConfig::Socks { .. }));
    // A named match still wins over the default.
    let named = select_tls_target(&targets, &fallback, &"a.test".to_owned()).unwrap();
    assert!(matches!(named.protocol, ServerProxyConfig::Http { .. }));
}

#[test]
fn websocket_path_must_match_when_set() {
    // The target demands the path /x: a request to /y is turned away, a
    // request to /x completes the upgrade.
    let matching_path = Some("/x".to_owned());
    let no_headers: Option<Vec<(String, String)>> = None;
    assert!(!websocket_request_matches(
        &matching_path,
        &no_headers,
        &"/y".to_owned(),
        &vec![],
    ));
    assert!(websocket_request_matches(
        &matching_path,
        &no_headers,
        &"/x".to_owned(),
        &vec![],
    ));
}

#[test]
fn websocket_without_requirements_accepts_everything() {
    let none_path: Option<String> = None;
    let no_headers: Option<Vec<(String, String)>> = None;
    assert!(websocket_request_matches(
        &none_path,
        &no_headers,
        &"/anything".to_owned(),
        &vec![("Host".to_owned(), "a.test".to_owned())],
    ));
}

#[test]
fn websocket_headers_must_all_be_present() {
    let none_path: Option<String> = None;
    let required = Some(vec![
        ("X-Key".to_owned(), "abc".to_owned()),
        ("X-Mode".to_owned(), "fast".to_owned()),
    ]);
    let full = vec![
        ("Host".to_owned(), "a.test".to_owned()),
        ("X-Mode".to_owned(), "fast".to_owned()),
        ("X-Key".to_owned(), "abc".to_owned()),
    ];
    assert!(websocket_request_matches(&none_path, &required, &"/".to_owned(), &full));
    let wrong_value = vec![
        ("X-Key".to_owned(), "abc".to_owned()),
        ("X-Mode".to_owned(), "slow".to_owned()),
    ];
    assert!(!websocket_request_matches(
        &none_path,
        &required,
        &"/".to_owned(),
        &wrong_value,
    ));
    let missing = vec![("X-Key".to_owned(), "abc".to_owned())];
    assert!(!websocket_request_matches(&none_path, &required, &"/".to_owned(), &missing));
}
