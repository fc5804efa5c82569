//! Selector and supervisor behaviour on concrete rules: the blocked
//! mask, the allow-any fall-through, the default decision, and the
//! plans the supervisor derives from them.

use proxy_core::address::{Address, NetLocation, NetLocationMask};
use proxy_core::config::{ClientConfig, ConfigSelection, RuleActionConfig, RuleConfig};
use proxy_core::option_util::OneOrSome;
use proxy_core::selector::{ClientProxySelector, ConnectDecision};
use proxy_core::supervisor::{plan_connection, ConnectionPlan, SetupSummary};

fn allow_any_direct() -> RuleConfig {
    RuleConfig {
        masks: OneOrSome::One(NetLocationMask::any()),
        action: RuleActionConfig::Allow {
            override_address: None,
            client_proxies: OneOrSome::One(ConfigSelection::Config(ClientConfig::default())),
        },
    }
}

fn block(mask: &str) -> RuleConfig {
    RuleConfig {
        masks: OneOrSome::One(NetLocationMask::from(mask).unwrap()),
        action: RuleActionConfig::Block,
    }
}

#[test]
fn blocked_mask_fires_before_allow_any() {
    // Rule one blocks 10.0.0.0/8; rule two allows anything through a
    // direct egress. A connection to 10.1.2.3:22 is blocked.
    let selector = ClientProxySelector::new(vec![block("10.0.0.0/8"), allow_any_direct()]);
    let target = NetLocation { address: Address::Ipv4(0x0a010203), port: 22 };
    let decision = selector.judge(&target, None);
    assert!(matches!(decision, ConnectDecision::Block));
    // A target outside the blocked range falls through to the allow.
    let other = NetLocation { address: Address::Ipv4(0x08080808), port: 22 };
    match selector.judge(&other, None) {
        ConnectDecision::Allow { client_proxy, remote_location } => {
            assert!(client_proxy.protocol.is_direct());
            assert!(matches!(remote_location.address, Address::Ipv4(0x08080808)));
            assert_eq!(remote_location.port, 22);
        }
        ConnectDecision::Block => panic!("8.8.8.8 is not under 10.0.0.0/8"),
    }
}

#[test]
fn allow_any_direct_allows_hostname_targets() {
    let selector = ClientProxySelector::new(vec![allow_any_direct()]);
    let target = NetLocation {
        address: Address::Hostname("example.test".to_owned()),
        port: 80,
    };
    match selector.judge(&target, None) {
        ConnectDecision::Allow { client_proxy, remote_location } => {
            assert!(client_proxy.protocol.is_direct());
            match remote_location.address {
                Address::Hostname(h) => assert_eq!(h, "example.test"),
                _ => panic!("the target must be kept"),
            }
            assert_eq!(remote_location.port, 80);
        }
        ConnectDecision::Block => panic!("allow-any must allow"),
    }
}

#[test]
fn hostname_target_needs_resolution_for_concrete_masks() {
    let selector = ClientProxySelector::new(vec![block("10.0.0.0/8"), allow_any_direct()]);
    let target = NetLocation {
        address: Address::Hostname("internal.test".to_owned()),
        port: 22,
    };
    // Unresolved: the concrete block mask cannot fire; the allow does.
    assert!(matches!(
        selector.judge(&target, None),
        ConnectDecision::Allow { .. }
    ));
    // Resolved into the blocked range: the block fires.
    let resolved = Address::Ipv4(0x0a000005);
    assert!(matches!(
        selector.judge(&target, Some(&resolved)),
        ConnectDecision::Block
    ));
}

#[test]
fn override_address_redirects_the_target() {
    let redirect = NetLocation { address: Address::Ipv4(0x7f000001), port: 9000 };
    let selector = ClientProxySelector::new(vec![RuleConfig {
        masks: OneOrSome::One(NetLocationMask::any()),
        action: RuleActionConfig::Allow {
            override_address: Some(redirect),
            client_proxies: OneOrSome::One(ConfigSelection::Config(ClientConfig::default())),
        },
    }]);
    let target = NetLocation { address: Address::Ipv4(0x01020304), port: 80 };
    match selector.judge(&target, None) {
        ConnectDecision::Allow { remote_location, .. } => {
            assert!(matches!(remote_location.address, Address::Ipv4(0x7f000001)));
            assert_eq!(remote_location.port, 9000);
        }
        ConnectDecision::Block => panic!("the rule allows"),
    }
}

#[test]
fn default_decision_blocks_without_a_wildcard_allow() {
    // Only a block-any rule: the default decision is to block.
    let selector = ClientProxySelector::new(vec![RuleConfig {
        masks: OneOrSome::One(NetLocationMask::any()),
        action: RuleActionConfig::Block,
    }]);
    assert!(matches!(selector.default_decision(), ConnectDecision::Block));
    // Rules over concrete masks only: they do not fire either.
    let concrete = ClientProxySelector::new(vec![block("10.0.0.0/8")]);
    assert!(matches!(concrete.default_decision(), ConnectDecision::Block));
}

#[test]
fn default_decision_allows_with_the_seeded_rule() {
    let selector = ClientProxySelector::new(vec![allow_any_direct()]);
    match selector.default_decision() {
        ConnectDecision::Allow { client_proxy, .. } => {
            assert!(client_proxy.protocol.is_direct())
        }
        ConnectDecision::Block => panic!("allow-any makes the default allow"),
    }
}

#[test]
fn blocked_multidirectional_udp_closes_with_a_warning() {
    // A multiplexed UDP session under a default-block rule set: the
    // supervisor warns and closes without opening any egress socket.
    let selector = ClientProxySelector::new(vec![RuleConfig {
        masks: OneOrSome::One(NetLocationMask::any()),
        action: RuleActionConfig::Block,
    }]);
    let setup = SetupSummary::MultidirectionalUdpForward { need_initial_flush: false };
    let plan = plan_connection(&setup, &selector.default_decision());
    assert!(matches!(plan, ConnectionPlan::Close { warn: true }));
}

#[test]
fn allowed_tcp_forward_is_bridged_with_the_handshake_flags() {
    // The HTTP CONNECT shape: a success response to write back, no
    // initial upstream data.
    let selector = ClientProxySelector::new(vec![allow_any_direct()]);
    let target = NetLocation {
        address: Address::Hostname("example.test".to_owned()),
        port: 80,
    };
    let setup = SetupSummary::TcpForward {
        remote_location: NetLocation {
            address: Address::Hostname("example.test".to_owned()),
            port: 80,
        },
        need_initial_flush: false,
        has_connection_success_response: true,
        has_initial_remote_data: false,
    };
    let plan = plan_connection(&setup, &selector.judge(&target, None));
    match plan {
        ConnectionPlan::TcpBridge {
            remote_location,
            write_success_response,
            write_initial_data,
            server_need_initial_flush,
            client_need_initial_flush,
        } => {
            match remote_location.address {
                Address::Hostname(h) => assert_eq!(h, "example.test"),
                _ => panic!("the target must be kept"),
            }
            assert_eq!(remote_location.port, 80);
            assert!(write_success_response);
            assert!(!write_initial_data);
            assert!(!server_need_initial_flush);
            assert!(!client_need_initial_flush);
        }
        _ => panic!("an allowed TCP forward is bridged"),
    }
}

#[test]
fn blocked_tcp_forward_is_closed_quietly() {
    let selector = ClientProxySelector::new(vec![block("10.0.0.0/8"), allow_any_direct()]);
    let target = NetLocation { address: Address::Ipv4(0x0a010203), port: 22 };
    let setup = SetupSummary::TcpForward {
        remote_location: NetLocation { address: Address::Ipv4(0x0a010203), port: 22 },
        need_initial_flush: false,
        has_connection_success_response: true,
        has_initial_remote_data: false,
    };
    let plan = plan_connection(&setup, &selector.judge(&target, None));
    assert!(matches!(plan, ConnectionPlan::Close { warn: false }));
}

#[test]
fn initial_remote_data_forces_a_client_flush() {
    // The Shadowsocks shape: decoded payload bytes must reach the
    // upstream first, so the client side is flushed.
    let selector = ClientProxySelector::new(vec![allow_any_direct()]);
    let target = NetLocation { address: Address::Ipv4(0x01020304), port: 443 };
    let setup = SetupSummary::TcpForward {
        remote_location: NetLocation { address: Address::Ipv4(0x01020304), port: 443 },
        need_initial_flush: true,
        has_connection_success_response: false,
        has_initial_remote_data: true,
    };
    match plan_connection(&setup, &selector.judge(&target, None)) {
        ConnectionPlan::TcpBridge {
            write_success_response,
            write_initial_data,
            server_need_initial_flush,
            client_need_initial_flush,
            ..
        } => {
            assert!(!write_success_response);
            assert!(write_initial_data);
            assert!(server_need_initial_flush);
            assert!(client_need_initial_flush);
        }
        _ => panic!("an allowed TCP forward is bridged"),
    }
}

#[test]
fn allowed_bidirectional_udp_gets_a_connected_socket() {
    let selector = ClientProxySelector::new(vec![allow_any_direct()]);
    let target = NetLocation { address: Address::Ipv4(0x01010101), port: 53 };
    let setup = SetupSummary::BidirectionalUdpForward {
        remote_location: NetLocation { address: Address::Ipv4(0x01010101), port: 53 },
    };
    match plan_connection(&setup, &selector.judge(&target, None)) {
        ConnectionPlan::UdpConnect { remote_location } => {
            assert!(matches!(remote_location.address, Address::Ipv4(0x01010101)));
            assert_eq!(remote_location.port, 53);
        }
        _ => panic!("an allowed UDP forward gets its socket"),
    }
}
