//! The validation and expansion pass over a parsed configuration
//! document: group references are replaced by the groups' contents,
//! empty server rule lists are seeded with "allow any through direct",
//! and transport settings are checked for coherence. The spec functions
//! here (`..._v`) define the pass mathematically, over the models.

use vstd::prelude::*;

use crate::address::NetLocationMask;
use crate::clone_util::DeepClone;
use crate::config::{
    ClientConfig, ClientConfigV, Config, ConfigSelection, ConfigSelectionV, ConfigV, RuleActionConfig,
    RuleActionConfigV, RuleConfig, RuleConfigV, ServerConfig, ServerConfigV, ServerProxyConfig,
    ServerProxyConfigV, TlsServerConfig, TlsServerConfigV, Transport, WebsocketServerConfig,
    WebsocketServerConfigV, BindLocation, BindLocationV, direct_allow_rule,
};
use crate::groups::{ConfigError, GroupMap};
use crate::option_util::{NoneOrSome, OneOrSome};

verus! {

/// Replaces every group name in a selection list by the group's
/// contents, inline and in order; an unknown name fails.
pub open spec fn expand_selections_v<V>(
    sels: Seq<ConfigSelectionV<V>>,
    groups: Map<Seq<char>, Seq<V>>,
) -> Option<Seq<ConfigSelectionV<V>>>
    decreases sels.len(),
{
    if sels.len() == 0 {
        Option::Some(Seq::empty())
    } else {
        match expand_selections_v(sels.drop_last(), groups) {
            Option::None => Option::None,
            Option::Some(front) => match sels.last() {
                ConfigSelectionV::Config(c) => Option::Some(
                    front.push(ConfigSelectionV::Config(c)),
                ),
                ConfigSelectionV::GroupName(g) => if groups.contains_key(g) {
                    Option::Some(
                        front + groups[g].map_values(|c: V| ConfigSelectionV::Config(c)),
                    )
                } else {
                    Option::None
                },
            },
        }
    }
}

/// What the original accepted of one egress configuration: TCP settings
/// only with the TCP transport, QUIC settings only with the QUIC
/// transport, and a bind interface only on a Linux-family platform.
pub open spec fn validate_client_config_v(c: ClientConfigV, linux_family: bool) -> bool {
    &&& !(c.transport != Transport::Tcp && c.tcp_settings is Some)
    &&& !(c.transport != Transport::Quic && c.quic_settings is Some)
    &&& (linux_family || c.bind_interface is None)
}

/// Expands a rule's egress selections and checks each inlined egress
/// configuration; blocking rules pass through unchanged.
pub open spec fn expand_rule_config_v(
    r: RuleConfigV,
    client_groups: Map<Seq<char>, Seq<ClientConfigV>>,
    linux_family: bool,
) -> Option<RuleConfigV> {
    match r.action {
        RuleActionConfigV::Allow { override_address, client_proxies } => {
            match expand_selections_v(client_proxies, client_groups) {
                Option::None => Option::None,
                Option::Some(sels) => if forall|i: int|
                    0 <= i < sels.len() ==> sels[i] is Config && validate_client_config_v(
                        sels[i]->Config_0,
                        linux_family,
                    ) {
                    Option::Some(
                        RuleConfigV {
                            masks: r.masks,
                            action: RuleActionConfigV::Allow {
                                override_address,
                                client_proxies: sels,
                            },
                        },
                    )
                } else {
                    Option::None
                },
            }
        },
        RuleActionConfigV::Block => Option::Some(r),
    }
}

/// Expands each rule of an already inlined rule list.
pub open spec fn expand_each_rule_v(
    sels: Seq<ConfigSelectionV<RuleConfigV>>,
    client_groups: Map<Seq<char>, Seq<ClientConfigV>>,
    linux_family: bool,
) -> Option<Seq<ConfigSelectionV<RuleConfigV>>>
    decreases sels.len(),
{
    if sels.len() == 0 {
        Option::Some(Seq::empty())
    } else {
        match expand_each_rule_v(sels.drop_last(), client_groups, linux_family) {
            Option::None => Option::None,
            Option::Some(front) => match sels.last() {
                ConfigSelectionV::Config(rc) => match expand_rule_config_v(
                    rc,
                    client_groups,
                    linux_family,
                ) {
                    Option::Some(rc2) => Option::Some(front.push(ConfigSelectionV::Config(rc2))),
                    Option::None => Option::None,
                },
                ConfigSelectionV::GroupName(_) => Option::None,
            },
        }
    }
}

/// Expands a wrapper's override rules: group replacement, then each
/// rule's own expansion. No seeding happens here.
pub open spec fn expand_override_rules_v(
    rules: Seq<ConfigSelectionV<RuleConfigV>>,
    client_groups: Map<Seq<char>, Seq<ClientConfigV>>,
    rule_groups: Map<Seq<char>, Seq<RuleConfigV>>,
    linux_family: bool,
) -> Option<Seq<ConfigSelectionV<RuleConfigV>>> {
    match expand_selections_v(rules, rule_groups) {
        Option::None => Option::None,
        Option::Some(s) => expand_each_rule_v(s, client_groups, linux_family),
    }
}

/// Expands a TLS wrapper target: its nested protocol, then its
/// override rules.
pub open spec fn expand_tls_target_v(
    t: TlsServerConfigV,
    client_groups: Map<Seq<char>, Seq<ClientConfigV>>,
    rule_groups: Map<Seq<char>, Seq<RuleConfigV>>,
    linux_family: bool,
) -> Option<TlsServerConfigV>
    decreases t,
{
    match expand_server_proxy_v(t.protocol, client_groups, rule_groups, linux_family) {
        Option::None => Option::None,
        Option::Some(p2) => match expand_override_rules_v(
            t.override_rules,
            client_groups,
            rule_groups,
            linux_family,
        ) {
            Option::None => Option::None,
            Option::Some(rr) => Option::Some(
                TlsServerConfigV {
                    cert: t.cert,
                    key: t.key,
                    alpn_protocols: t.alpn_protocols,
                    protocol: p2,
                    override_rules: rr,
                },
            ),
        },
    }
}

/// Expands each named TLS target in order.
pub open spec fn expand_tls_targets_v(
    s: Seq<(Seq<char>, TlsServerConfigV)>,
    client_groups: Map<Seq<char>, Seq<ClientConfigV>>,
    rule_groups: Map<Seq<char>, Seq<RuleConfigV>>,
    linux_family: bool,
) -> Option<Seq<(Seq<char>, TlsServerConfigV)>>
    decreases s,
{
    if s.len() == 0 {
        Option::Some(Seq::empty())
    } else {
        match expand_tls_targets_v(s.drop_last(), client_groups, rule_groups, linux_family) {
            Option::None => Option::None,
            Option::Some(front) => match expand_tls_target_v(
                s.last().1,
                client_groups,
                rule_groups,
                linux_family,
            ) {
                Option::None => Option::None,
                Option::Some(t2) => Option::Some(front.push((s.last().0, t2))),
            },
        }
    }
}

/// Expands a WebSocket wrapper target: its nested protocol, then its
/// override rules.
pub open spec fn expand_ws_target_v(
    w: WebsocketServerConfigV,
    client_groups: Map<Seq<char>, Seq<ClientConfigV>>,
    rule_groups: Map<Seq<char>, Seq<RuleConfigV>>,
    linux_family: bool,
) -> Option<WebsocketServerConfigV>
    decreases w,
{
    match expand_server_proxy_v(w.protocol, client_groups, rule_groups, linux_family) {
        Option::None => Option::None,
        Option::Some(p2) => match expand_override_rules_v(
            w.override_rules,
            client_groups,
            rule_groups,
            linux_family,
        ) {
            Option::None => Option::None,
            Option::Some(rr) => Option::Some(
                WebsocketServerConfigV {
                    matching_path: w.matching_path,
                    matching_headers: w.matching_headers,
                    protocol: p2,
                    ping_type: w.ping_type,
                    override_rules: rr,
                },
            ),
        },
    }
}

/// Expands each WebSocket target in order.
pub open spec fn expand_ws_targets_v(
    s: Seq<WebsocketServerConfigV>,
    client_groups: Map<Seq<char>, Seq<ClientConfigV>>,
    rule_groups: Map<Seq<char>, Seq<RuleConfigV>>,
    linux_family: bool,
) -> Option<Seq<WebsocketServerConfigV>>
    decreases s,
{
    if s.len() == 0 {
        Option::Some(Seq::empty())
    } else {
        match expand_ws_targets_v(s.drop_last(), client_groups, rule_groups, linux_family) {
            Option::None => Option::None,
            Option::Some(front) => match expand_ws_target_v(
                s.last(),
                client_groups,
                rule_groups,
                linux_family,
            ) {
                Option::None => Option::None,
                Option::Some(t2) => Option::Some(front.push(t2)),
            },
        }
    }
}

/// Expands the wrapping protocols of a server protocol stack: TLS
/// targets and WebSocket targets carry nested protocols and override
/// rules; terminal protocols pass through unchanged.
pub open spec fn expand_server_proxy_v(
    p: ServerProxyConfigV,
    client_groups: Map<Seq<char>, Seq<ClientConfigV>>,
    rule_groups: Map<Seq<char>, Seq<RuleConfigV>>,
    linux_family: bool,
) -> Option<ServerProxyConfigV>
    decreases p,
{
    match p {
        ServerProxyConfigV::Tls { sni_targets, default_target } => {
            match expand_tls_targets_v(sni_targets, client_groups, rule_groups, linux_family) {
                Option::None => Option::None,
                Option::Some(ts) => match default_target {
                    Option::None => Option::Some(
                        ServerProxyConfigV::Tls {
                            sni_targets: ts,
                            default_target: Option::None,
                        },
                    ),
                    Option::Some(t) => match expand_tls_target_v(
                        *t,
                        client_groups,
                        rule_groups,
                        linux_family,
                    ) {
                        Option::None => Option::None,
                        Option::Some(t2) => Option::Some(
                            ServerProxyConfigV::Tls {
                                sni_targets: ts,
                                default_target: Option::Some(Box::new(t2)),
                            },
                        ),
                    },
                },
            }
        },
        ServerProxyConfigV::Websocket { targets } => {
            match expand_ws_targets_v(targets, client_groups, rule_groups, linux_family) {
                Option::None => Option::None,
                Option::Some(ts) => Option::Some(ServerProxyConfigV::Websocket { targets: ts }),
            }
        },
        _ => Option::Some(p),
    }
}

/// Whether a server's transport settings cohere: TCP settings only on
/// TCP, QUIC settings exactly on QUIC, Unix socket paths only on TCP.
pub open spec fn server_transport_coherent_v(c: ServerConfigV) -> bool {
    &&& !(c.transport != Transport::Tcp && c.tcp_settings is Some)
    &&& (c.transport == Transport::Quic <==> c.quic_settings is Some)
    &&& !(c.bind_location is Path && c.transport != Transport::Tcp)
}

/// Expands and checks one server configuration: transport coherence,
/// rule expansion with seeding of an empty list, and the protocol
/// stack's own expansion.
pub open spec fn expand_server_config_v(
    c: ServerConfigV,
    client_groups: Map<Seq<char>, Seq<ClientConfigV>>,
    rule_groups: Map<Seq<char>, Seq<RuleConfigV>>,
    linux_family: bool,
) -> Option<ServerConfigV> {
    if !server_transport_coherent_v(c) {
        Option::None
    } else {
        match expand_selections_v(c.rules, rule_groups) {
            Option::None => Option::None,
            Option::Some(sels0) => {
                let sels = if sels0.len() == 0 {
                    seq![ConfigSelectionV::Config(RuleConfigV::default_v())]
                } else {
                    sels0
                };
                match expand_each_rule_v(sels, client_groups, linux_family) {
                    Option::None => Option::None,
                    Option::Some(rules2) => match expand_server_proxy_v(
                        c.protocol,
                        client_groups,
                        rule_groups,
                        linux_family,
                    ) {
                        Option::None => Option::None,
                        Option::Some(p2) => Option::Some(
                            ServerConfigV {
                                bind_location: c.bind_location,
                                protocol: p2,
                                transport: c.transport,
                                tcp_settings: c.tcp_settings,
                                quic_settings: c.quic_settings,
                                rules: rules2,
                            },
                        ),
                    },
                }
            },
        }
    }
}

/// The rule of the built-in `block-all` group: block any location.
pub open spec fn block_all_rule_v() -> RuleConfigV {
    RuleConfigV {
        masks: seq![NetLocationMask::spec_any()],
        action: RuleActionConfigV::Block,
    }
}

/// The built-in client groups: `direct` is the default egress.
pub open spec fn builtin_client_groups_v() -> Map<Seq<char>, Seq<ClientConfigV>> {
    Map::empty().insert("direct"@, seq![ClientConfigV::default_v()])
}

/// The built-in rule groups: `allow-all-direct` and `block-all`.
pub open spec fn builtin_rule_groups_v() -> Map<Seq<char>, Seq<RuleConfigV>> {
    Map::empty().insert("allow-all-direct"@, seq![RuleConfigV::default_v()]).insert(
        "block-all"@,
        seq![block_all_rule_v()],
    )
}

/// Registers the document's client groups over the built-ins; a name
/// given twice fails.
pub open spec fn build_client_groups_v(docs: Seq<ConfigV>) -> Option<
    Map<Seq<char>, Seq<ClientConfigV>>,
>
    decreases docs.len(),
{
    if docs.len() == 0 {
        Option::Some(builtin_client_groups_v())
    } else {
        match build_client_groups_v(docs.drop_last()) {
            Option::None => Option::None,
            Option::Some(m) => match docs.last() {
                ConfigV::ClientConfigGroup { client_group, client_proxies } => {
                    if m.contains_key(client_group) {
                        Option::None
                    } else {
                        Option::Some(m.insert(client_group, client_proxies))
                    }
                },
                _ => Option::Some(m),
            },
        }
    }
}

/// Registers the document's rule groups over the built-ins; a name
/// given twice fails.
pub open spec fn build_rule_groups_v(docs: Seq<ConfigV>) -> Option<
    Map<Seq<char>, Seq<RuleConfigV>>,
>
    decreases docs.len(),
{
    if docs.len() == 0 {
        Option::Some(builtin_rule_groups_v())
    } else {
        match build_rule_groups_v(docs.drop_last()) {
            Option::None => Option::None,
            Option::Some(m) => match docs.last() {
                ConfigV::RuleConfigGroup { rule_group, rules } => {
                    if m.contains_key(rule_group) {
                        Option::None
                    } else {
                        Option::Some(m.insert(rule_group, rules))
                    }
                },
                _ => Option::Some(m),
            },
        }
    }
}

/// The document's server configurations, in order.
pub open spec fn server_configs_of_v(docs: Seq<ConfigV>) -> Seq<ServerConfigV>
    decreases docs.len(),
{
    if docs.len() == 0 {
        Seq::empty()
    } else {
        match docs.last() {
            ConfigV::ServerConfig(s) => server_configs_of_v(docs.drop_last()).push(s),
            _ => server_configs_of_v(docs.drop_last()),
        }
    }
}

/// Expands each server configuration in order.
pub open spec fn expand_servers_v(
    ss: Seq<ServerConfigV>,
    client_groups: Map<Seq<char>, Seq<ClientConfigV>>,
    rule_groups: Map<Seq<char>, Seq<RuleConfigV>>,
    linux_family: bool,
) -> Option<Seq<ServerConfigV>>
    decreases ss.len(),
{
    if ss.len() == 0 {
        Option::Some(Seq::empty())
    } else {
        match expand_servers_v(ss.drop_last(), client_groups, rule_groups, linux_family) {
            Option::None => Option::None,
            Option::Some(front) => match expand_server_config_v(
                ss.last(),
                client_groups,
                rule_groups,
                linux_family,
            ) {
                Option::None => Option::None,
                Option::Some(s2) => Option::Some(front.push(s2)),
            },
        }
    }
}

/// The whole pass over a parsed document: register groups (failing on a
/// duplicate name), then expand and check every server configuration.
pub open spec fn load_configs_v(docs: Seq<ConfigV>, linux_family: bool) -> Option<
    Seq<ServerConfigV>,
> {
    match build_client_groups_v(docs) {
        Option::None => Option::None,
        Option::Some(cg) => match build_rule_groups_v(docs) {
            Option::None => Option::None,
            Option::Some(rg) => expand_servers_v(
                server_configs_of_v(docs),
                cg,
                rg,
                linux_family,
            ),
        },
    }
}

/// A failed prefix fails the whole selection list.
proof fn lemma_expand_selections_none_prefix<V>(
    sels: Seq<ConfigSelectionV<V>>,
    groups: Map<Seq<char>, Seq<V>>,
    i: int,
)
    requires
        0 <= i <= sels.len(),
        expand_selections_v(sels.subrange(0, i), groups) is None,
    ensures
        expand_selections_v(sels, groups) is None,
    decreases sels.len() - i,
{
    if i == sels.len() {
        assert(sels.subrange(0, i) =~= sels);
    } else {
        assert(sels.subrange(0, i + 1).drop_last() =~= sels.subrange(0, i));
        lemma_expand_selections_none_prefix(sels, groups, i + 1);
    }
}

/// A failed prefix fails the whole rule list.
proof fn lemma_expand_each_rule_none_prefix(
    sels: Seq<ConfigSelectionV<RuleConfigV>>,
    client_groups: Map<Seq<char>, Seq<ClientConfigV>>,
    linux_family: bool,
    i: int,
)
    requires
        0 <= i <= sels.len(),
        expand_each_rule_v(sels.subrange(0, i), client_groups, linux_family) is None,
    ensures
        expand_each_rule_v(sels, client_groups, linux_family) is None,
    decreases sels.len() - i,
{
    if i == sels.len() {
        assert(sels.subrange(0, i) =~= sels);
    } else {
        assert(sels.subrange(0, i + 1).drop_last() =~= sels.subrange(0, i));
        lemma_expand_each_rule_none_prefix(sels, client_groups, linux_family, i + 1);
    }
}

impl<T: DeepClone> ConfigSelection<T> {
    /// Replaces every group name in the list by the group's contents,
    /// inline and in order; an unknown name fails.
    fn replace(selections: &Vec<ConfigSelection<T>>, groups: &GroupMap<T>) -> (r: Result<
        Vec<ConfigSelection<T>>,
        ConfigError,
    >)
        requires
            groups.wf(),
        ensures
            (r is Ok) == (expand_selections_v(selections.deep_view(), groups.as_map()) is Some),
            r is Ok ==> r->Ok_0.deep_view() == expand_selections_v(
                selections.deep_view(),
                groups.as_map(),
            )->Some_0,
            r is Ok ==> forall|i: int| 0 <= i < r->Ok_0@.len() ==> r->Ok_0@[i] is Config,
    {
        let ghost svs = selections.deep_view();
        let ghost m = groups.as_map();
        let mut ret: Vec<ConfigSelection<T>> = Vec::new();
        let mut i: usize = 0;
        proof {
            assert(svs.subrange(0, 0) =~= Seq::<ConfigSelectionV<T::V>>::empty());
        }
        while i < selections.len()
            invariant
                groups.wf(),
                m == groups.as_map(),
                svs == selections.deep_view(),
                svs.len() == selections@.len(),
                i <= selections@.len(),
                expand_selections_v(svs.subrange(0, i as int), m) is Some,
                ret.deep_view() == expand_selections_v(svs.subrange(0, i as int), m)->Some_0,
                forall|j: int| 0 <= j < ret@.len() ==> ret@[j] is Config,
            decreases selections@.len() - i,
        {
            proof {
                assert(svs.subrange(0, i + 1).drop_last() =~= svs.subrange(0, i as int));
                assert(svs.subrange(0, i + 1).last() == svs[i as int]);
            }
            let ghost front = ret.deep_view();
            match &selections[i] {
                ConfigSelection::Config(c) => {
                    ret.push(ConfigSelection::Config(c.deep_clone()));
                    proof {
                        assert(ret.deep_view() =~= front.push(
                            ConfigSelectionV::Config(c.deep_view()),
                        ));
                    }
                },
                ConfigSelection::GroupName(g) => {
                    match groups.get(g) {
                        Option::Some(items) => {
                            let ghost gseq = m[g@];
                            let ghost mapped = gseq.map_values(
                                |c: T::V| ConfigSelectionV::Config(c),
                            );
                            let mut j: usize = 0;
                            while j < items.len()
                                invariant
                                    items.deep_view() == gseq,
                                    gseq.len() == items@.len(),
                                    mapped == gseq.map_values(
                                        |c: T::V| ConfigSelectionV::Config(c),
                                    ),
                                    j <= items@.len(),
                                    ret.deep_view() =~= front + mapped.subrange(0, j as int),
                                    forall|l: int| 0 <= l < ret@.len() ==> ret@[l] is Config,
                                decreases items@.len() - j,
                            {
                                let ghost before = ret.deep_view();
                                ret.push(ConfigSelection::Config(items[j].deep_clone()));
                                proof {
                                    assert(ret.deep_view() =~= before.push(
                                        ConfigSelectionV::Config(items.deep_view()[j as int]),
                                    ));
                                    assert(ret.deep_view() =~= front + mapped.subrange(
                                        0,
                                        j + 1,
                                    ));
                                }
                                j = j + 1;
                            }
                            proof {
                                assert(mapped.subrange(0, mapped.len() as int) =~= mapped);
                            }
                        },
                        Option::None => {
                            proof {
                                lemma_expand_selections_none_prefix(svs, m, i + 1);
                            }
                            return Result::Err(
                                ConfigError::new("No such group referenced by a selection"),
                            );
                        },
                    }
                },
            }
            i = i + 1;
        }
        proof {
            assert(svs.subrange(0, svs.len() as int) =~= svs);
        }
        Result::Ok(ret)
    }

    /// Expands a possibly empty selection list in place; an empty list
    /// stays as it is.
    pub fn replace_none_or_some_groups(
        selections: &mut NoneOrSome<ConfigSelection<T>>,
        groups: &GroupMap<T>,
    ) -> (r: Result<(), ConfigError>)
        requires
            groups.wf(),
        ensures
            (r is Ok) == (expand_selections_v(old(selections).deep_view(), groups.as_map())
                is Some),
            r is Ok ==> final(selections).deep_view() == expand_selections_v(
                old(selections).deep_view(),
                groups.as_map(),
            )->Some_0,
            r is Ok ==> forall|i: int|
                0 <= i < final(selections).items().len() ==> final(selections).items()[i]
                    is Config,
            !(r is Ok) ==> *final(selections) == *old(selections),
    {
        proof {
            selections.lemma_deep_view();
        }
        if selections.is_empty() {
            proof {
                assert(selections.deep_view() =~= Seq::<
                    ConfigSelectionV<T::V>,
                >::empty());
            }
            return Result::Ok(());
        }
        let mut flat: Vec<ConfigSelection<T>> = Vec::new();
        let mut i: usize = 0;
        while i < selections.len()
            invariant
                i <= selections.items().len(),
                flat@.len() == i,
                forall|j: int| 0 <= j < i ==> flat@[j].deep_view() == selections.items()[j].deep_view(),
            decreases selections.items().len() - i,
        {
            flat.push(selections.get(i).deep_clone());
            i = i + 1;
        }
        proof {
            selections.lemma_deep_view();
            assert(flat.deep_view() =~= selections.deep_view());
        }
        match ConfigSelection::replace(&flat, groups) {
            Result::Ok(expanded) => {
                *selections = NoneOrSome::Many(expanded);
                proof {
                    selections.lemma_deep_view();
                }
                Result::Ok(())
            },
            Result::Err(e) => Result::Err(e),
        }
    }

    /// Expands a one-or-more selection list in place.
    pub fn replace_one_or_some_groups(
        selections: &mut OneOrSome<ConfigSelection<T>>,
        groups: &GroupMap<T>,
    ) -> (r: Result<(), ConfigError>)
        requires
            groups.wf(),
        ensures
            (r is Ok) == (expand_selections_v(old(selections).deep_view(), groups.as_map())
                is Some),
            r is Ok ==> final(selections).deep_view() == expand_selections_v(
                old(selections).deep_view(),
                groups.as_map(),
            )->Some_0,
            r is Ok ==> forall|i: int|
                0 <= i < final(selections).items().len() ==> final(selections).items()[i]
                    is Config,
            !(r is Ok) ==> *final(selections) == *old(selections),
    {
        let mut flat: Vec<ConfigSelection<T>> = Vec::new();
        let mut i: usize = 0;
        while i < selections.len()
            invariant
                i <= selections.items().len(),
                flat@.len() == i,
                forall|j: int| 0 <= j < i ==> flat@[j].deep_view() == selections.items()[j].deep_view(),
            decreases selections.items().len() - i,
        {
            flat.push(selections.get(i).deep_clone());
            i = i + 1;
        }
        proof {
            selections.lemma_deep_view();
            assert(flat.deep_view() =~= selections.deep_view());
        }
        match ConfigSelection::replace(&flat, groups) {
            Result::Ok(expanded) => {
                *selections = OneOrSome::Many(expanded);
                proof {
                    selections.lemma_deep_view();
                }
                Result::Ok(())
            },
            Result::Err(e) => Result::Err(e),
        }
    }
}

/// Checks one egress configuration: TCP settings only with the TCP
/// transport, QUIC settings only with the QUIC transport, and a bind
/// interface only on a Linux-family platform.
pub fn validate_client_config(client_config: &ClientConfig, linux_family: bool) -> (r: Result<
    (),
    ConfigError,
>)
    ensures
        (r is Ok) == validate_client_config_v(client_config.deep_view(), linux_family),
{
    if !matches!(client_config.transport, Transport::Tcp) && client_config.tcp_settings.is_some() {
        return Result::Err(
            ConfigError::new("TCP transport is not selected but TCP settings specified"),
        );
    }
    if !matches!(client_config.transport, Transport::Quic) && client_config.quic_settings.is_some()
    {
        return Result::Err(
            ConfigError::new("QUIC transport is not selected but QUIC settings specified"),
        );
    }
    if !linux_family && client_config.bind_interface.is_one() {
        return Result::Err(
            ConfigError::new("bind_interface is only available on Android, Fuchsia, or Linux."),
        );
    }
    Result::Ok(())
}

/// Expands a rule's egress selections in place and checks each inlined
/// egress configuration; blocking rules pass unchanged.
#[verifier::loop_isolation(false)]
pub fn validate_rule_config(
    rule_config: &mut RuleConfig,
    client_groups: &GroupMap<ClientConfig>,
    linux_family: bool,
) -> (r: Result<(), ConfigError>)
    requires
        client_groups.wf(),
    ensures
        (r is Ok) == (expand_rule_config_v(
            old(rule_config).deep_view(),
            client_groups.as_map(),
            linux_family,
        ) is Some),
        r is Ok ==> final(rule_config).deep_view() == expand_rule_config_v(
            old(rule_config).deep_view(),
            client_groups.as_map(),
            linux_family,
        )->Some_0,
        !(r is Ok) ==> *final(rule_config) == *old(rule_config),
{
    let is_block = matches!(rule_config.action, RuleActionConfig::Block);
    if is_block {
        return Result::Ok(());
    }
    match &rule_config.action {
        RuleActionConfig::Block => unreached(),
        RuleActionConfig::Allow { override_address, client_proxies } => {
            let oa = override_address.deep_clone();
            let mut flat: Vec<ConfigSelection<ClientConfig>> = Vec::new();
            let mut i: usize = 0;
            while i < client_proxies.len()
                invariant
                    i <= client_proxies.items().len(),
                    flat@.len() == i,
                    forall|j: int| 0 <= j < i ==> flat@[j].deep_view() == client_proxies.items()[j].deep_view(),
                decreases client_proxies.items().len() - i,
            {
                flat.push(client_proxies.get(i).deep_clone());
                i = i + 1;
            }
            proof {
                client_proxies.lemma_deep_view();
                assert(flat.deep_view() =~= client_proxies.deep_view());
            }
            match ConfigSelection::replace(&flat, client_groups) {
                Result::Err(e) => Result::Err(e),
                Result::Ok(expanded) => {
                    let ghost ev = expanded.deep_view();
                    let mut k: usize = 0;
                    while k < expanded.len()
                        invariant
                            ev == expanded.deep_view(),
                            ev.len() == expanded@.len(),
                            k <= expanded@.len(),
                            forall|j: int| 0 <= j < expanded@.len() ==> expanded@[j] is Config,
                            forall|j: int|
                                0 <= j < k ==> ev[j] is Config && validate_client_config_v(
                                    ev[j]->Config_0,
                                    linux_family,
                                ),
                        decreases expanded@.len() - k,
                    {
                        let cc = expanded[k].config_ref();
                        match validate_client_config(cc, linux_family) {
                            Result::Err(e) => {
                                proof {
                                    assert(ev[k as int] == expanded@[k as int].deep_view());
                                    assert(ev[k as int]->Config_0 == cc.deep_view());
                                    assert(!validate_client_config_v(
                                        ev[k as int]->Config_0,
                                        linux_family,
                                    ));
                                    assert(!(forall|i: int|
                                        0 <= i < ev.len() ==> ev[i] is Config
                                            && validate_client_config_v(
                                            ev[i]->Config_0,
                                            linux_family,
                                        ))) by {
                                        if forall|i: int|
                                            0 <= i < ev.len() ==> ev[i] is Config
                                                && validate_client_config_v(
                                                ev[i]->Config_0,
                                                linux_family,
                                            ) {
                                            assert(ev[k as int] is Config
                                                && validate_client_config_v(
                                                ev[k as int]->Config_0,
                                                linux_family,
                                            ));
                                        }
                                    }
                                }
                                return Result::Err(e);
                            },
                            Result::Ok(()) => {},
                        }
                        k = k + 1;
                    }
                    let ghost old_view = old(rule_config).deep_view();
                    rule_config.action = RuleActionConfig::Allow {
                        override_address: oa,
                        client_proxies: OneOrSome::Many(expanded),
                    };
                    proof {
                        assert(rule_config.deep_view() =~= expand_rule_config_v(
                            old_view,
                            client_groups.as_map(),
                            linux_family,
                        )->Some_0);
                    }
                    Result::Ok(())
                },
            }
        },
    }
}

/// A failed prefix fails the whole TLS target list.
proof fn lemma_expand_tls_targets_none_prefix(
    s: Seq<(Seq<char>, TlsServerConfigV)>,
    client_groups: Map<Seq<char>, Seq<ClientConfigV>>,
    rule_groups: Map<Seq<char>, Seq<RuleConfigV>>,
    linux_family: bool,
    i: int,
)
    requires
        0 <= i <= s.len(),
        expand_tls_targets_v(s.subrange(0, i), client_groups, rule_groups, linux_family) is None,
    ensures
        expand_tls_targets_v(s, client_groups, rule_groups, linux_family) is None,
    decreases s.len() - i,
{
    if i == s.len() {
        assert(s.subrange(0, i) =~= s);
    } else {
        assert(s.subrange(0, i + 1).drop_last() =~= s.subrange(0, i));
        lemma_expand_tls_targets_none_prefix(s, client_groups, rule_groups, linux_family, i + 1);
    }
}

/// A failed prefix fails the whole WebSocket target list.
proof fn lemma_expand_ws_targets_none_prefix(
    s: Seq<WebsocketServerConfigV>,
    client_groups: Map<Seq<char>, Seq<ClientConfigV>>,
    rule_groups: Map<Seq<char>, Seq<RuleConfigV>>,
    linux_family: bool,
    i: int,
)
    requires
        0 <= i <= s.len(),
        expand_ws_targets_v(s.subrange(0, i), client_groups, rule_groups, linux_family) is None,
    ensures
        expand_ws_targets_v(s, client_groups, rule_groups, linux_family) is None,
    decreases s.len() - i,
{
    if i == s.len() {
        assert(s.subrange(0, i) =~= s);
    } else {
        assert(s.subrange(0, i + 1).drop_last() =~= s.subrange(0, i));
        lemma_expand_ws_targets_none_prefix(s, client_groups, rule_groups, linux_family, i + 1);
    }
}

/// A failed prefix fails the whole server list.
proof fn lemma_expand_servers_none_prefix(
    ss: Seq<ServerConfigV>,
    client_groups: Map<Seq<char>, Seq<ClientConfigV>>,
    rule_groups: Map<Seq<char>, Seq<RuleConfigV>>,
    linux_family: bool,
    i: int,
)
    requires
        0 <= i <= ss.len(),
        expand_servers_v(ss.subrange(0, i), client_groups, rule_groups, linux_family) is None,
    ensures
        expand_servers_v(ss, client_groups, rule_groups, linux_family) is None,
    decreases ss.len() - i,
{
    if i == ss.len() {
        assert(ss.subrange(0, i) =~= ss);
    } else {
        assert(ss.subrange(0, i + 1).drop_last() =~= ss.subrange(0, i));
        lemma_expand_servers_none_prefix(ss, client_groups, rule_groups, linux_family, i + 1);
    }
}

/// A duplicate in a prefix fails the whole document's client groups.
proof fn lemma_build_client_groups_none_prefix(docs: Seq<ConfigV>, i: int)
    requires
        0 <= i <= docs.len(),
        build_client_groups_v(docs.subrange(0, i)) is None,
    ensures
        build_client_groups_v(docs) is None,
    decreases docs.len() - i,
{
    if i == docs.len() {
        assert(docs.subrange(0, i) =~= docs);
    } else {
        assert(docs.subrange(0, i + 1).drop_last() =~= docs.subrange(0, i));
        lemma_build_client_groups_none_prefix(docs, i + 1);
    }
}

/// A duplicate in a prefix fails the whole document's rule groups.
proof fn lemma_build_rule_groups_none_prefix(docs: Seq<ConfigV>, i: int)
    requires
        0 <= i <= docs.len(),
        build_rule_groups_v(docs.subrange(0, i)) is None,
    ensures
        build_rule_groups_v(docs) is None,
    decreases docs.len() - i,
{
    if i == docs.len() {
        assert(docs.subrange(0, i) =~= docs);
    } else {
        assert(docs.subrange(0, i + 1).drop_last() =~= docs.subrange(0, i));
        lemma_build_rule_groups_none_prefix(docs, i + 1);
    }
}

/// Expands every rule of an inlined list in place, in order.
#[verifier::loop_isolation(false)]
fn validate_rules_vec(
    sels: Vec<ConfigSelection<RuleConfig>>,
    client_groups: &GroupMap<ClientConfig>,
    linux_family: bool,
) -> (r: Result<Vec<ConfigSelection<RuleConfig>>, ConfigError>)
    requires
        client_groups.wf(),
        forall|i: int| 0 <= i < sels@.len() ==> sels@[i] is Config,
    ensures
        (r is Ok) == (expand_each_rule_v(sels.deep_view(), client_groups.as_map(), linux_family)
            is Some),
        r is Ok ==> r->Ok_0.deep_view() == expand_each_rule_v(
            sels.deep_view(),
            client_groups.as_map(),
            linux_family,
        )->Some_0,
{
    let ghost svs = sels.deep_view();
    let ghost orig = sels@;
    let mut rest = sels;
    let mut out: Vec<ConfigSelection<RuleConfig>> = Vec::new();
    let mut i: usize = 0;
    let total: usize = rest.len();
    proof {
        assert(orig.len() == total as int);
    }
    proof {
        assert(svs.subrange(0, 0) =~= Seq::<ConfigSelectionV<RuleConfigV>>::empty());
    }
    while rest.len() > 0
        invariant
            i <= orig.len() <= usize::MAX,
            i + rest@.len() == orig.len(),
            rest@ == orig.subrange(i as int, orig.len() as int),
            expand_each_rule_v(svs.subrange(0, i as int), client_groups.as_map(), linux_family)
                is Some,
            out.deep_view() == expand_each_rule_v(
                svs.subrange(0, i as int),
                client_groups.as_map(),
                linux_family,
            )->Some_0,
        decreases rest@.len(),
    {
        let sel = rest.remove(0);
        proof {
            assert(sel == orig[i as int]);
            assert(rest@ =~= orig.subrange(i + 1, orig.len() as int));
            assert(svs[i as int] == orig[i as int].deep_view());
            assert(svs.subrange(0, i + 1).drop_last() =~= svs.subrange(0, i as int));
            assert(svs.subrange(0, i + 1).last() == svs[i as int]);
        }
        let mut rc = sel.unwrap_config();
        match validate_rule_config(&mut rc, client_groups, linux_family) {
            Result::Ok(()) => {},
            Result::Err(e) => {
                proof {
                    lemma_expand_each_rule_none_prefix(
                        svs,
                        client_groups.as_map(),
                        linux_family,
                        i + 1,
                    );
                }
                return Result::Err(e);
            },
        }
        let ghost before = out.deep_view();
        out.push(ConfigSelection::Config(rc));
        proof {
            assert(out.deep_view() =~= before.push(ConfigSelectionV::Config(rc.deep_view())));
        }
        i = i + 1;
    }
    proof {
        assert(svs.subrange(0, svs.len() as int) =~= svs);
    }
    Result::Ok(out)
}

/// Expands a TLS wrapper target: its nested protocol, then its
/// override rules.
fn validated_tls_target(
    t: TlsServerConfig,
    client_groups: &GroupMap<ClientConfig>,
    rule_groups: &GroupMap<RuleConfig>,
    linux_family: bool,
) -> (r: Result<TlsServerConfig, ConfigError>)
    requires
        client_groups.wf(),
        rule_groups.wf(),
    ensures
        (r is Ok) == (expand_tls_target_v(
            t.deep_view(),
            client_groups.as_map(),
            rule_groups.as_map(),
            linux_family,
        ) is Some),
        r is Ok ==> r->Ok_0.deep_view() == expand_tls_target_v(
            t.deep_view(),
            client_groups.as_map(),
            rule_groups.as_map(),
            linux_family,
        )->Some_0,
    decreases t,
{
    let ghost tv = t.deep_view();
    let TlsServerConfig { cert, key, alpn_protocols, protocol, override_rules } = t;
    let protocol2 = match validated_server_proxy(protocol, client_groups, rule_groups, linux_family)
    {
        Result::Ok(p) => p,
        Result::Err(e) => {
            return Result::Err(e);
        },
    };
    let mut rules = override_rules;
    match ConfigSelection::replace_none_or_some_groups(&mut rules, rule_groups) {
        Result::Ok(()) => {},
        Result::Err(e) => {
            return Result::Err(e);
        },
    }
    proof {
        rules.lemma_deep_view();
    }
    let flat = rules.into_vec();
    proof {
        assert(flat.deep_view() =~= rules.deep_view());
    }
    let validated = match validate_rules_vec(flat, client_groups, linux_family) {
        Result::Ok(v) => v,
        Result::Err(e) => {
            return Result::Err(e);
        },
    };
    let out = TlsServerConfig {
        cert,
        key,
        alpn_protocols,
        protocol: protocol2,
        override_rules: NoneOrSome::Many(validated),
    };
    proof {
        assert(out.deep_view() =~= expand_tls_target_v(
            tv,
            client_groups.as_map(),
            rule_groups.as_map(),
            linux_family,
        )->Some_0);
    }
    Result::Ok(out)
}

/// Expands a WebSocket wrapper target: its nested protocol, then its
/// override rules.
fn validated_ws_target(
    w: WebsocketServerConfig,
    client_groups: &GroupMap<ClientConfig>,
    rule_groups: &GroupMap<RuleConfig>,
    linux_family: bool,
) -> (r: Result<WebsocketServerConfig, ConfigError>)
    requires
        client_groups.wf(),
        rule_groups.wf(),
    ensures
        (r is Ok) == (expand_ws_target_v(
            w.deep_view(),
            client_groups.as_map(),
            rule_groups.as_map(),
            linux_family,
        ) is Some),
        r is Ok ==> r->Ok_0.deep_view() == expand_ws_target_v(
            w.deep_view(),
            client_groups.as_map(),
            rule_groups.as_map(),
            linux_family,
        )->Some_0,
    decreases w,
{
    let ghost wv = w.deep_view();
    let WebsocketServerConfig { matching_path, matching_headers, protocol, ping_type, override_rules }
        = w;
    let protocol2 = match validated_server_proxy(protocol, client_groups, rule_groups, linux_family)
    {
        Result::Ok(p) => p,
        Result::Err(e) => {
            return Result::Err(e);
        },
    };
    let mut rules = override_rules;
    match ConfigSelection::replace_none_or_some_groups(&mut rules, rule_groups) {
        Result::Ok(()) => {},
        Result::Err(e) => {
            return Result::Err(e);
        },
    }
    proof {
        rules.lemma_deep_view();
    }
    let flat = rules.into_vec();
    proof {
        assert(flat.deep_view() =~= rules.deep_view());
    }
    let validated = match validate_rules_vec(flat, client_groups, linux_family) {
        Result::Ok(v) => v,
        Result::Err(e) => {
            return Result::Err(e);
        },
    };
    let out = WebsocketServerConfig {
        matching_path,
        matching_headers,
        protocol: protocol2,
        ping_type,
        override_rules: NoneOrSome::Many(validated),
    };
    proof {
        assert(out.deep_view() =~= expand_ws_target_v(
            wv,
            client_groups.as_map(),
            rule_groups.as_map(),
            linux_family,
        )->Some_0);
    }
    Result::Ok(out)
}

/// Expands the wrapping protocols of a server protocol stack.
#[verifier::loop_isolation(false)]
#[verifier::rlimit(100)]
fn validated_server_proxy(
    p: ServerProxyConfig,
    client_groups: &GroupMap<ClientConfig>,
    rule_groups: &GroupMap<RuleConfig>,
    linux_family: bool,
) -> (r: Result<ServerProxyConfig, ConfigError>)
    requires
        client_groups.wf(),
        rule_groups.wf(),
    ensures
        (r is Ok) == (expand_server_proxy_v(
            p.deep_view(),
            client_groups.as_map(),
            rule_groups.as_map(),
            linux_family,
        ) is Some),
        r is Ok ==> r->Ok_0.deep_view() == expand_server_proxy_v(
            p.deep_view(),
            client_groups.as_map(),
            rule_groups.as_map(),
            linux_family,
        )->Some_0,
    decreases p,
{
    let ghost pv = p.deep_view();
    let ghost cgm = client_groups.as_map();
    let ghost rgm = rule_groups.as_map();
    match p {
        ServerProxyConfig::Tls { sni_targets, default_target } => {
            let ghost orig = sni_targets@;
            let ghost vorig = crate::config::view_tls_targets(orig);
            proof {
                crate::config::lemma_view_tls_targets(orig);
                assert(vorig.subrange(0, 0) =~= Seq::<(Seq<char>, TlsServerConfigV)>::empty());
            }
            let mut rest = sni_targets;
            let mut out: Vec<(String, TlsServerConfig)> = Vec::new();
            let mut i: usize = 0;
            let total: usize = rest.len();
            proof {
                assert(orig.len() == total as int);
            }
            while rest.len() > 0
                invariant
                    i <= orig.len() <= usize::MAX,
                    i + rest@.len() == orig.len(),
                    rest@ == orig.subrange(i as int, orig.len() as int),
                    expand_tls_targets_v(vorig.subrange(0, i as int), cgm, rgm, linux_family)
                        is Some,
                    crate::config::view_tls_targets(out@) == expand_tls_targets_v(
                        vorig.subrange(0, i as int),
                        cgm,
                        rgm,
                        linux_family,
                    )->Some_0,
                decreases rest@.len(),
            {
                let pair = rest.remove(0);
                proof {
                    assert(pair == orig[i as int]);
                    assert(rest@ =~= orig.subrange(i + 1, orig.len() as int));
                    assert(vorig.subrange(0, i + 1).drop_last() =~= vorig.subrange(0, i as int));
                    assert(vorig.subrange(0, i + 1).last() == vorig[i as int]);
                    assert(vorig[i as int] == (
                        orig[i as int].0@,
                        crate::config::view_tls_target(orig[i as int].1),
                    ));
                }
                let (name, target) = pair;
                let t2 = match validated_tls_target(
                    target,
                    client_groups,
                    rule_groups,
                    linux_family,
                ) {
                    Result::Ok(t2) => t2,
                    Result::Err(e) => {
                        proof {
                            lemma_expand_tls_targets_none_prefix(
                                vorig,
                                cgm,
                                rgm,
                                linux_family,
                                i + 1,
                            );
                        }
                        return Result::Err(e);
                    },
                };
                let ghost out_before = out@;
                let ghost outv = crate::config::view_tls_targets(out@);
                out.push((name, t2));
                proof {
                    assert(out@.drop_last() =~= out_before);
                    assert(out@.last() == (name, t2));
                    assert(crate::config::view_tls_targets(out@) =~= outv.push(
                        (name@, crate::config::view_tls_target(t2)),
                    ));
                }
                i = i + 1;
            }
            proof {
                assert(vorig.subrange(0, vorig.len() as int) =~= vorig);
            }
            match default_target {
                Option::None => {
                    let outp = ServerProxyConfig::Tls {
                        sni_targets: out,
                        default_target: Option::None,
                    };
                    proof {
                        assert(outp.deep_view() =~= expand_server_proxy_v(
                            pv,
                            cgm,
                            rgm,
                            linux_family,
                        )->Some_0);
                    }
                    Result::Ok(outp)
                },
                Option::Some(bt) => {
                    let t2 = match validated_tls_target(
                        *bt,
                        client_groups,
                        rule_groups,
                        linux_family,
                    ) {
                        Result::Ok(t2) => t2,
                        Result::Err(e) => {
                            return Result::Err(e);
                        },
                    };
                    let outp = ServerProxyConfig::Tls {
                        sni_targets: out,
                        default_target: Option::Some(Box::new(t2)),
                    };
                    proof {
                        assert(outp.deep_view() =~= expand_server_proxy_v(
                            pv,
                            cgm,
                            rgm,
                            linux_family,
                        )->Some_0);
                    }
                    Result::Ok(outp)
                },
            }
        },
        ServerProxyConfig::Websocket { targets } => {
            match *targets {
                OneOrSome::One(w) => {
                    let ghost wv = w.deep_view();
                    proof {
                        assert(seq![wv].drop_last() =~= Seq::<WebsocketServerConfigV>::empty());
                        assert(seq![wv].last() == wv);
                        assert(pv->Websocket_targets == seq![wv]);
                    }
                    let w2 = match validated_ws_target(w, client_groups, rule_groups, linux_family)
                    {
                        Result::Ok(w2) => w2,
                        Result::Err(e) => {
                            return Result::Err(e);
                        },
                    };
                    let outp = ServerProxyConfig::Websocket {
                        targets: Box::new(OneOrSome::One(w2)),
                    };
                    proof {
                        let ts = expand_ws_targets_v(seq![wv], cgm, rgm, linux_family);
                        assert(expand_ws_targets_v(
                            Seq::<WebsocketServerConfigV>::empty(),
                            cgm,
                            rgm,
                            linux_family,
                        ) == Option::Some(Seq::<WebsocketServerConfigV>::empty()));
                        assert(ts == Option::Some(
                            Seq::<WebsocketServerConfigV>::empty().push(w2.deep_view()),
                        ));
                        assert(outp.deep_view()->Websocket_targets =~= ts->Some_0);
                        assert(outp.deep_view() =~= expand_server_proxy_v(
                            pv,
                            cgm,
                            rgm,
                            linux_family,
                        )->Some_0);
                    }
                    Result::Ok(outp)
                },
                OneOrSome::Many(v) => {
                    let ghost orig = v@;
                    let ghost vorig = crate::config::view_ws_targets(orig);
                    proof {
                        crate::config::lemma_view_ws_targets(orig);
                        assert(vorig.subrange(0, 0) =~= Seq::<WebsocketServerConfigV>::empty());
                    }
                    let mut rest = v;
                    let mut out: Vec<WebsocketServerConfig> = Vec::new();
                    let mut i: usize = 0;
                    let total: usize = rest.len();
                    proof {
                        assert(orig.len() == total as int);
                    }
                    while rest.len() > 0
                        invariant
                            i <= orig.len() <= usize::MAX,
                            i + rest@.len() == orig.len(),
                            rest@ == orig.subrange(i as int, orig.len() as int),
                            expand_ws_targets_v(
                                vorig.subrange(0, i as int),
                                cgm,
                                rgm,
                                linux_family,
                            ) is Some,
                            crate::config::view_ws_targets(out@) == expand_ws_targets_v(
                                vorig.subrange(0, i as int),
                                cgm,
                                rgm,
                                linux_family,
                            )->Some_0,
                        decreases rest@.len(),
                    {
                        let target = rest.remove(0);
                        proof {
                            assert(target == orig[i as int]);
                            assert(rest@ =~= orig.subrange(i + 1, orig.len() as int));
                            assert(vorig.subrange(0, i + 1).drop_last() =~= vorig.subrange(
                                0,
                                i as int,
                            ));
                            assert(vorig.subrange(0, i + 1).last() == vorig[i as int]);
                            assert(vorig[i as int] == crate::config::view_ws_target(
                                orig[i as int],
                            ));
                        }
                        let t2 = match validated_ws_target(
                            target,
                            client_groups,
                            rule_groups,
                            linux_family,
                        ) {
                            Result::Ok(t2) => t2,
                            Result::Err(e) => {
                                proof {
                                    lemma_expand_ws_targets_none_prefix(
                                        vorig,
                                        cgm,
                                        rgm,
                                        linux_family,
                                        i + 1,
                                    );
                                }
                                return Result::Err(e);
                            },
                        };
                        let ghost out_before = out@;
                        let ghost outv = crate::config::view_ws_targets(out@);
                        out.push(t2);
                        proof {
                            assert(out@.drop_last() =~= out_before);
                            assert(out@.last() == t2);
                            assert(crate::config::view_ws_targets(out@) =~= outv.push(
                                crate::config::view_ws_target(t2),
                            ));
                        }
                        i = i + 1;
                    }
                    proof {
                        assert(vorig.subrange(0, vorig.len() as int) =~= vorig);
                    }
                    let outp = ServerProxyConfig::Websocket {
                        targets: Box::new(OneOrSome::Many(out)),
                    };
                    proof {
                        assert(outp.deep_view() =~= expand_server_proxy_v(
                            pv,
                            cgm,
                            rgm,
                            linux_family,
                        )->Some_0);
                    }
                    Result::Ok(outp)
                },
            }
        },
        other => {
            proof {
                assert(expand_server_proxy_v(pv, cgm, rgm, linux_family) == Option::Some(pv));
            }
            Result::Ok(other)
        },
    }
}

/// Expands the wrapping protocols of a server protocol stack in place.
pub fn validate_server_proxy_config(
    server_proxy_config: &mut ServerProxyConfig,
    client_groups: &GroupMap<ClientConfig>,
    rule_groups: &GroupMap<RuleConfig>,
    linux_family: bool,
) -> (r: Result<(), ConfigError>)
    requires
        client_groups.wf(),
        rule_groups.wf(),
    ensures
        (r is Ok) == (expand_server_proxy_v(
            old(server_proxy_config).deep_view(),
            client_groups.as_map(),
            rule_groups.as_map(),
            linux_family,
        ) is Some),
        r is Ok ==> final(server_proxy_config).deep_view() == expand_server_proxy_v(
            old(server_proxy_config).deep_view(),
            client_groups.as_map(),
            rule_groups.as_map(),
            linux_family,
        )->Some_0,
{
    let mut p = ServerProxyConfig::Http { username: Option::None, password: Option::None };
    core::mem::swap(&mut p, server_proxy_config);
    match validated_server_proxy(p, client_groups, rule_groups, linux_family) {
        Result::Ok(p2) => {
            *server_proxy_config = p2;
            Result::Ok(())
        },
        Result::Err(e) => Result::Err(e),
    }
}

/// Expands and checks one listener configuration in place: transport
/// coherence, rule expansion with seeding of an empty list, and the
/// protocol stack's own expansion.
pub fn validate_server_config(
    server_config: &mut ServerConfig,
    client_groups: &GroupMap<ClientConfig>,
    rule_groups: &GroupMap<RuleConfig>,
    linux_family: bool,
) -> (r: Result<(), ConfigError>)
    requires
        client_groups.wf(),
        rule_groups.wf(),
    ensures
        (r is Ok) == (expand_server_config_v(
            old(server_config).deep_view(),
            client_groups.as_map(),
            rule_groups.as_map(),
            linux_family,
        ) is Some),
        r is Ok ==> final(server_config).deep_view() == expand_server_config_v(
            old(server_config).deep_view(),
            client_groups.as_map(),
            rule_groups.as_map(),
            linux_family,
        )->Some_0,
{
    let ghost cv = server_config.deep_view();
    let ghost cgm = client_groups.as_map();
    let ghost rgm = rule_groups.as_map();
    if !matches!(server_config.transport, Transport::Tcp) && server_config.tcp_settings.is_some() {
        return Result::Err(
            ConfigError::new("TCP transport is not selected but TCP settings specified"),
        );
    }
    if matches!(server_config.transport, Transport::Quic) {
        if server_config.quic_settings.is_none() {
            return Result::Err(
                ConfigError::new("QUIC transport is selected but QUIC settings not specified"),
            );
        }
    } else {
        if server_config.quic_settings.is_some() {
            return Result::Err(
                ConfigError::new("QUIC transport is not selected but QUIC settings specified"),
            );
        }
    }
    if matches!(server_config.bind_location, BindLocation::Path(_)) && !matches!(
        server_config.transport,
        Transport::Tcp,
    ) {
        return Result::Err(
            ConfigError::new("Unix domain socket support only available for TCP transport"),
        );
    }
    proof {
        assert(server_transport_coherent_v(cv));
    }
    let mut rules = NoneOrSome::Unspecified;
    core::mem::swap(&mut rules, &mut server_config.rules);
    match ConfigSelection::replace_none_or_some_groups(&mut rules, rule_groups) {
        Result::Ok(()) => {},
        Result::Err(e) => {
            return Result::Err(e);
        },
    }
    if rules.is_empty() {
        proof {
            rules.lemma_deep_view();
        }
        rules = direct_allow_rule();
    }
    proof {
        rules.lemma_deep_view();
    }
    let flat = rules.into_vec();
    proof {
        assert(flat.deep_view() =~= rules.deep_view());
    }
    let validated = match validate_rules_vec(flat, client_groups, linux_family) {
        Result::Ok(v) => v,
        Result::Err(e) => {
            return Result::Err(e);
        },
    };
    server_config.rules = NoneOrSome::Many(validated);
    let mut protocol = ServerProxyConfig::Http { username: Option::None, password: Option::None };
    core::mem::swap(&mut protocol, &mut server_config.protocol);
    match validated_server_proxy(protocol, client_groups, rule_groups, linux_family) {
        Result::Ok(p2) => {
            server_config.protocol = p2;
            proof {
                assert(server_config.deep_view() =~= expand_server_config_v(
                    cv,
                    cgm,
                    rgm,
                    linux_family,
                )->Some_0);
            }
            Result::Ok(())
        },
        Result::Err(e) => Result::Err(e),
    }
}

/// The whole pass over a parsed document: registers the groups over the
/// built-ins (failing on a duplicate name), then expands and checks
/// every server configuration, in order.
#[verifier::loop_isolation(false)]
pub fn validate_configs(all_configs: Vec<Config>, linux_family: bool) -> (r: Result<
    Vec<ServerConfig>,
    ConfigError,
>)
    ensures
        (r is Ok) == (load_configs_v(all_configs.deep_view(), linux_family) is Some),
        r is Ok ==> r->Ok_0.deep_view() == load_configs_v(
            all_configs.deep_view(),
            linux_family,
        )->Some_0,
{
    let ghost docs = all_configs.deep_view();
    proof {
        reveal_strlit("direct");
        reveal_strlit("allow-all-direct");
        reveal_strlit("block-all");
    }
    let mut client_groups: GroupMap<ClientConfig> = GroupMap::new();
    let mut direct_items: Vec<ClientConfig> = Vec::new();
    direct_items.push(ClientConfig::default());
    let ok_direct = client_groups.insert("direct".to_owned(), direct_items);
    proof {
        assert(ok_direct);
        assert(direct_items.deep_view() =~= seq![ClientConfigV::default_v()]);
        assert(client_groups.as_map() =~= builtin_client_groups_v());
    }
    let mut rule_groups: GroupMap<RuleConfig> = GroupMap::new();
    let mut allow_items: Vec<RuleConfig> = Vec::new();
    allow_items.push(RuleConfig::default());
    let ok_allow = rule_groups.insert("allow-all-direct".to_owned(), allow_items);
    let mut block_items: Vec<RuleConfig> = Vec::new();
    block_items.push(
        RuleConfig {
            masks: OneOrSome::One(NetLocationMask::any()),
            action: RuleActionConfig::Block,
        },
    );
    let ok_block = rule_groups.insert("block-all".to_owned(), block_items);
    proof {
        assert(ok_allow);
        assert("allow-all-direct"@.len() == 16);
        assert("block-all"@.len() == 9);
        assert("allow-all-direct"@ != "block-all"@);
        assert(ok_block);
        assert(allow_items.deep_view() =~= seq![RuleConfigV::default_v()]);
        assert(block_items.deep_view() =~= seq![block_all_rule_v()]);
        assert(rule_groups.as_map() =~= builtin_rule_groups_v());
        assert(docs.subrange(0, 0) =~= Seq::<ConfigV>::empty());
    }
    let ghost orig = all_configs@;
    let mut rest = all_configs;
    let mut servers: Vec<ServerConfig> = Vec::new();
    let mut i: usize = 0;
    let total: usize = rest.len();
    proof {
        assert(orig.len() == total as int);
    }
    while rest.len() > 0
        invariant
            i <= orig.len() <= usize::MAX,
            i + rest@.len() == orig.len(),
            rest@ == orig.subrange(i as int, orig.len() as int),
            client_groups.wf(),
            rule_groups.wf(),
            build_client_groups_v(docs.subrange(0, i as int)) == Option::Some(
                client_groups.as_map(),
            ),
            build_rule_groups_v(docs.subrange(0, i as int)) == Option::Some(rule_groups.as_map()),
            servers.deep_view() == server_configs_of_v(docs.subrange(0, i as int)),
        decreases rest@.len(),
    {
        let c = rest.remove(0);
        proof {
            assert(c == orig[i as int]);
            assert(rest@ =~= orig.subrange(i + 1, orig.len() as int));
            assert(docs[i as int] == orig[i as int].deep_view());
            assert(docs.subrange(0, i + 1).drop_last() =~= docs.subrange(0, i as int));
            assert(docs.subrange(0, i + 1).last() == docs[i as int]);
        }
        match c {
            Config::ServerConfig(s) => {
                let ghost before = servers.deep_view();
                servers.push(s);
                proof {
                    assert(servers.deep_view() =~= before.push(s.deep_view()));
                }
            },
            Config::ClientConfigGroup { client_group, client_proxies } => {
                proof {
                    client_proxies.lemma_deep_view();
                }
                let items = client_proxies.into_vec();
                proof {
                    assert(items.deep_view() =~= client_proxies.deep_view());
                }
                if !client_groups.insert(client_group, items) {
                    proof {
                        lemma_build_client_groups_none_prefix(docs, i + 1);
                    }
                    return Result::Err(ConfigError::new("client group already exists"));
                }
            },
            Config::RuleConfigGroup { rule_group, rules } => {
                proof {
                    rules.lemma_deep_view();
                }
                let items = rules.into_vec();
                proof {
                    assert(items.deep_view() =~= rules.deep_view());
                }
                if !rule_groups.insert(rule_group, items) {
                    proof {
                        lemma_build_rule_groups_none_prefix(docs, i + 1);
                    }
                    return Result::Err(ConfigError::new("rule group already exists"));
                }
            },
        }
        i = i + 1;
    }
    proof {
        assert(docs.subrange(0, docs.len() as int) =~= docs);
    }
    let ghost cgm = client_groups.as_map();
    let ghost rgm = rule_groups.as_map();
    let ghost ssv = server_configs_of_v(docs);
    let ghost sorig = servers@;
    proof {
        assert(ssv.len() == sorig.len() && forall|j: int|
            0 <= j < sorig.len() ==> ssv[j] == sorig[j].deep_view()) by {
            assert(servers.deep_view() == ssv);
        }
        assert(ssv.subrange(0, 0) =~= Seq::<ServerConfigV>::empty());
    }
    let mut rest_s = servers;
    let mut out: Vec<ServerConfig> = Vec::new();
    let mut k: usize = 0;
    let total: usize = rest_s.len();
    proof {
        assert(sorig.len() == total as int);
    }
    while rest_s.len() > 0
        invariant
            k <= sorig.len() <= usize::MAX,
            k + rest_s@.len() == sorig.len(),
            rest_s@ == sorig.subrange(k as int, sorig.len() as int),
            expand_servers_v(ssv.subrange(0, k as int), cgm, rgm, linux_family) is Some,
            out.deep_view() == expand_servers_v(
                ssv.subrange(0, k as int),
                cgm,
                rgm,
                linux_family,
            )->Some_0,
        decreases rest_s@.len(),
    {
        let mut s = rest_s.remove(0);
        proof {
            assert(s == sorig[k as int]);
            assert(rest_s@ =~= sorig.subrange(k + 1, sorig.len() as int));
            assert(ssv.subrange(0, k + 1).drop_last() =~= ssv.subrange(0, k as int));
            assert(ssv.subrange(0, k + 1).last() == ssv[k as int]);
        }
        match validate_server_config(&mut s, &client_groups, &rule_groups, linux_family) {
            Result::Ok(()) => {},
            Result::Err(e) => {
                proof {
                    lemma_expand_servers_none_prefix(ssv, cgm, rgm, linux_family, k + 1);
                }
                return Result::Err(e);
            },
        }
        let ghost before = out.deep_view();
        out.push(s);
        proof {
            assert(out.deep_view() =~= before.push(s.deep_view()));
        }
        k = k + 1;
    }
    proof {
        assert(ssv.subrange(0, ssv.len() as int) =~= ssv);
    }
    Result::Ok(out)
}

} // verus!
