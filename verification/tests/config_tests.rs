//! Validation-pass behaviour on concrete documents: group expansion,
//! seeding, coherence checks, duplicate and unknown group names, and
//! idempotence of the pass.

use proxy_core::address::{Address, NetLocation, NetLocationMask};
use proxy_core::config::{
    BindLocation, ClientConfig, Config, ConfigSelection, RuleActionConfig,
    RuleConfig, ServerConfig, ServerProxyConfig, ServerQuicConfig, TcpConfig, TlsServerConfig,
    Transport,
};
use proxy_core::option_util::{NoneOrSome, OneOrSome};
use proxy_core::validate::validate_configs;

fn basic_server(rules: NoneOrSome<ConfigSelection<RuleConfig>>) -> ServerConfig {
    ServerConfig {
        bind_location: BindLocation::Address(NetLocation {
            address: Address::Ipv4(0x7f000001),
            port: 8080,
        }),
        protocol: ServerProxyConfig::Http {
            username: None,
            password: None,
        },
        transport: Transport::Tcp,
        tcp_settings: None,
        quic_settings: None,
        rules,
    }
}

#[test]
fn group_expansion_inlines_the_group() {
    // A client group g1, a rule group r1 whose rule allows anything
    // through g1, and a server whose rules are just "r1". After
    // validation the server holds a single inline rule with a single
    // inline egress configuration.
    let docs = vec![
        Config::ClientConfigGroup {
            client_group: "g1".to_owned(),
            client_proxies: OneOrSome::One(ClientConfig::default()),
        },
        Config::RuleConfigGroup {
            rule_group: "r1".to_owned(),
            rules: OneOrSome::One(RuleConfig {
                masks: OneOrSome::One(NetLocationMask::any()),
                action: RuleActionConfig::Allow {
                    override_address: None,
                    client_proxies: OneOrSome::One(ConfigSelection::GroupName("g1".to_owned())),
                },
            }),
        },
        Config::ServerConfig(basic_server(NoneOrSome::One(ConfigSelection::GroupName(
            "r1".to_owned(),
        )))),
    ];
    let servers = validate_configs(docs, true).unwrap();
    assert_eq!(servers.len(), 1);
    let rules: Vec<&ConfigSelection<RuleConfig>> = match &servers[0].rules {
        NoneOrSome::Many(v) => v.iter().collect(),
        _ => panic!("rules were not replaced with an explicit list"),
    };
    assert_eq!(rules.len(), 1);
    match rules[0] {
        ConfigSelection::Config(rule) => match &rule.action {
            RuleActionConfig::Allow { client_proxies, .. } => {
                let proxies: Vec<&ConfigSelection<ClientConfig>> = match client_proxies {
                    OneOrSome::Many(v) => v.iter().collect(),
                    _ => panic!("client proxies were not replaced with an explicit list"),
                };
                assert_eq!(proxies.len(), 1);
                match proxies[0] {
                    ConfigSelection::Config(cc) => {
                        assert!(cc.protocol.is_direct());
                        assert!(matches!(cc.transport, Transport::Tcp));
                    }
                    ConfigSelection::GroupName(_) => panic!("a group name survived validation"),
                }
            }
            RuleActionConfig::Block => panic!("wrong action"),
        },
        ConfigSelection::GroupName(_) => panic!("a group name survived validation"),
    }
}

#[test]
fn empty_rules_are_seeded_with_allow_any_direct() {
    let docs = vec![Config::ServerConfig(basic_server(NoneOrSome::Unspecified))];
    let servers = validate_configs(docs, true).unwrap();
    assert_eq!(servers.len(), 1);
    let rules = match &servers[0].rules {
        NoneOrSome::Many(v) => v,
        _ => panic!("rules were not replaced"),
    };
    assert_eq!(rules.len(), 1);
    match &rules[0] {
        ConfigSelection::Config(rule) => {
            assert!(matches!(
                rule.masks,
                OneOrSome::One(m) if m == NetLocationMask::any()
            ));
            match &rule.action {
                RuleActionConfig::Allow { override_address, client_proxies } => {
                    assert!(override_address.is_none());
                    assert_eq!(client_proxies.len(), 1);
                }
                RuleActionConfig::Block => panic!("seeded rule must allow"),
            }
        }
        ConfigSelection::GroupName(_) => panic!("a group name survived validation"),
    }
}

#[test]
fn duplicate_client_group_is_rejected() {
    let group = |name: &str| Config::ClientConfigGroup {
        client_group: name.to_owned(),
        client_proxies: OneOrSome::One(ClientConfig::default()),
    };
    let docs = vec![group("g1"), group("g1")];
    assert!(validate_configs(docs, true).is_err());
}

#[test]
fn redefining_a_builtin_group_is_rejected() {
    let docs = vec![Config::ClientConfigGroup {
        client_group: "direct".to_owned(),
        client_proxies: OneOrSome::One(ClientConfig::default()),
    }];
    assert!(validate_configs(docs, true).is_err());
}

#[test]
fn unknown_rule_group_is_rejected() {
    let docs = vec![Config::ServerConfig(basic_server(NoneOrSome::One(
        ConfigSelection::GroupName("nope".to_owned()),
    )))];
    assert!(validate_configs(docs, true).is_err());
}

#[test]
fn builtin_rule_groups_expand() {
    let docs = vec![Config::ServerConfig(basic_server(NoneOrSome::Many(vec![
        ConfigSelection::GroupName("block-all".to_owned()),
        ConfigSelection::GroupName("allow-all-direct".to_owned()),
    ])))];
    let servers = validate_configs(docs, true).unwrap();
    let rules = match &servers[0].rules {
        NoneOrSome::Many(v) => v,
        _ => panic!("rules were not replaced"),
    };
    assert_eq!(rules.len(), 2);
    match &rules[0] {
        ConfigSelection::Config(rule) => assert!(matches!(rule.action, RuleActionConfig::Block)),
        ConfigSelection::GroupName(_) => panic!("a group name survived validation"),
    }
    match &rules[1] {
        ConfigSelection::Config(rule) => {
            assert!(matches!(rule.action, RuleActionConfig::Allow { .. }))
        }
        ConfigSelection::GroupName(_) => panic!("a group name survived validation"),
    }
}

#[test]
fn tcp_settings_on_udp_transport_are_rejected() {
    let mut server = basic_server(NoneOrSome::Unspecified);
    server.transport = Transport::Udp;
    server.tcp_settings = Some(TcpConfig { no_delay: true });
    assert!(validate_configs(vec![Config::ServerConfig(server)], true).is_err());
}

#[test]
fn quic_transport_needs_quic_settings() {
    let mut server = basic_server(NoneOrSome::Unspecified);
    server.transport = Transport::Quic;
    assert!(validate_configs(vec![Config::ServerConfig(server)], true).is_err());
}

#[test]
fn quic_settings_need_quic_transport() {
    let mut server = basic_server(NoneOrSome::Unspecified);
    server.quic_settings = Some(ServerQuicConfig {
        cert: "cert.pem".to_owned(),
        key: "key.pem".to_owned(),
        alpn_protocols: NoneOrSome::Unspecified,
    });
    assert!(validate_configs(vec![Config::ServerConfig(server)], true).is_err());
}

#[test]
fn quic_transport_with_settings_passes() {
    let mut server = basic_server(NoneOrSome::Unspecified);
    server.transport = Transport::Quic;
    server.quic_settings = Some(ServerQuicConfig {
        cert: "cert.pem".to_owned(),
        key: "key.pem".to_owned(),
        alpn_protocols: NoneOrSome::One("h3".to_owned()),
    });
    let servers = validate_configs(vec![Config::ServerConfig(server)], true).unwrap();
    assert!(matches!(servers[0].transport, Transport::Quic));
}

#[test]
fn unix_socket_path_needs_tcp_transport() {
    let mut server = basic_server(NoneOrSome::Unspecified);
    server.bind_location = BindLocation::Path("/tmp/proxy.sock".to_owned());
    server.transport = Transport::Udp;
    assert!(validate_configs(vec![Config::ServerConfig(server)], true).is_err());
}

#[test]
fn bind_interface_is_rejected_off_linux_family() {
    let mk = || {
        let mut client = ClientConfig::default();
        client.bind_interface = proxy_core::option_util::NoneOrOne::One("eth0".to_owned());
        vec![Config::ServerConfig(basic_server(NoneOrSome::One(
            ConfigSelection::Config(RuleConfig {
                masks: OneOrSome::One(NetLocationMask::any()),
                action: RuleActionConfig::Allow {
                    override_address: None,
                    client_proxies: OneOrSome::One(ConfigSelection::Config(client)),
                },
            }),
        )))]
    };
    assert!(validate_configs(mk(), false).is_err());
    assert!(validate_configs(mk(), true).is_ok());
}

#[test]
fn validation_is_idempotent_on_its_output() {
    let docs = vec![
        Config::ClientConfigGroup {
            client_group: "g1".to_owned(),
            client_proxies: OneOrSome::One(ClientConfig::default()),
        },
        Config::ServerConfig(basic_server(NoneOrSome::One(ConfigSelection::Config(
            RuleConfig {
                masks: OneOrSome::One(NetLocationMask::any()),
                action: RuleActionConfig::Allow {
                    override_address: None,
                    client_proxies: OneOrSome::One(ConfigSelection::GroupName("g1".to_owned())),
                },
            },
        )))),
    ];
    let servers = validate_configs(docs, true).unwrap();
    let again = validate_configs(
        servers.into_iter().map(Config::ServerConfig).collect(),
        true,
    )
    .unwrap();
    assert_eq!(again.len(), 1);
    // The re-validated server must be unchanged in its observable shape.
    let rules = match &again[0].rules {
        NoneOrSome::Many(v) => v,
        _ => panic!("rules were not replaced"),
    };
    assert_eq!(rules.len(), 1);
    match &rules[0] {
        ConfigSelection::Config(rule) => match &rule.action {
            RuleActionConfig::Allow { client_proxies, .. } => {
                assert_eq!(client_proxies.len(), 1)
            }
            RuleActionConfig::Block => panic!("wrong action"),
        },
        ConfigSelection::GroupName(_) => panic!("a group name survived validation"),
    }
}

#[test]
fn nested_tls_override_rules_are_expanded() {
    let inner = TlsServerConfig {
        cert: "a.pem".to_owned(),
        key: "a.key".to_owned(),
        alpn_protocols: NoneOrSome::Unspecified,
        protocol: ServerProxyConfig::Socks { username: None, password: None },
        override_rules: NoneOrSome::One(ConfigSelection::GroupName("block-all".to_owned())),
    };
    let mut server = basic_server(NoneOrSome::Unspecified);
    server.protocol = ServerProxyConfig::Tls {
        sni_targets: vec![("a.test".to_owned(), inner)],
        default_target: None,
    };
    let servers = validate_configs(vec![Config::ServerConfig(server)], true).unwrap();
    match &servers[0].protocol {
        ServerProxyConfig::Tls { sni_targets, .. } => {
            assert_eq!(sni_targets.len(), 1);
            let target = &sni_targets[0].1;
            let overrides = match &target.override_rules {
                NoneOrSome::Many(v) => v,
                _ => panic!("override rules were not replaced"),
            };
            assert_eq!(overrides.len(), 1);
            match &overrides[0] {
                ConfigSelection::Config(rule) => {
                    assert!(matches!(rule.action, RuleActionConfig::Block))
                }
                ConfigSelection::GroupName(_) => panic!("a group name survived validation"),
            }
        }
        _ => panic!("protocol changed shape"),
    }
}

#[test]
fn protocol_names_are_stable() {
    let http = ServerProxyConfig::Http { username: None, password: None };
    assert_eq!(http.protocol_name(), "HTTP");
    let fwd = ServerProxyConfig::PortForward {
        targets: OneOrSome::One(NetLocation {
            address: Address::Hostname("example.test".to_owned()),
            port: 80,
        }),
    };
    assert_eq!(fwd.protocol_name(), "Portforward");
}

#[test]
fn unwrap_config_yields_the_inline_value() {
    let sel: ConfigSelection<RuleConfig> = ConfigSelection::Config(RuleConfig {
        masks: OneOrSome::One(NetLocationMask::any()),
        action: RuleActionConfig::Block,
    });
    let rule = sel.unwrap_config();
    assert!(matches!(rule.action, RuleActionConfig::Block));
}
