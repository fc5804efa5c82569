//! What the validation pass guarantees, stated and proved once and for
//! all: every selection is inline afterwards, transport settings
//! cohere, every server has at least one rule, and running the pass on
//! its own output changes nothing.

use vstd::prelude::*;

use crate::config::{
    ClientConfigV, ConfigSelectionV, ConfigV, RuleActionConfigV, RuleConfigV, ServerConfigV,
    ServerProxyConfigV, TlsServerConfigV, WebsocketServerConfigV,
};
use crate::validate::{
    build_client_groups_v, build_rule_groups_v, expand_each_rule_v, expand_override_rules_v,
    expand_rule_config_v, expand_selections_v, expand_server_config_v, expand_server_proxy_v,
    expand_servers_v, expand_tls_target_v, expand_tls_targets_v, expand_ws_target_v,
    expand_ws_targets_v, load_configs_v, server_configs_of_v, server_transport_coherent_v,
    validate_client_config_v,
};

verus! {

/// Every selection in the list is inline: no group name remains.
pub open spec fn selections_inline<V>(sels: Seq<ConfigSelectionV<V>>) -> bool {
    forall|i: int| 0 <= i < sels.len() ==> sels[i] is Config
}

/// A validated rule: its egress selections are inline and each egress
/// configuration passes its own checks.
pub open spec fn rule_validated(r: RuleConfigV, linux_family: bool) -> bool {
    match r.action {
        RuleActionConfigV::Allow { client_proxies, .. } => forall|i: int|
            0 <= i < client_proxies.len() ==> client_proxies[i] is Config
                && validate_client_config_v(client_proxies[i]->Config_0, linux_family),
        RuleActionConfigV::Block => true,
    }
}

/// A validated rule list: every selection is an inline, validated rule.
pub open spec fn rules_validated(
    sels: Seq<ConfigSelectionV<RuleConfigV>>,
    linux_family: bool,
) -> bool {
    forall|i: int|
        0 <= i < sels.len() ==> sels[i] is Config && rule_validated(
            sels[i]->Config_0,
            linux_family,
        )
}

/// A validated TLS target: its nested protocol and override rules are
/// validated.
pub open spec fn tls_target_validated(t: TlsServerConfigV, linux_family: bool) -> bool
    decreases t,
{
    server_proxy_validated(t.protocol, linux_family) && rules_validated(
        t.override_rules,
        linux_family,
    )
}

/// A validated WebSocket target: its nested protocol and override rules
/// are validated.
pub open spec fn ws_target_validated(w: WebsocketServerConfigV, linux_family: bool) -> bool
    decreases w,
{
    server_proxy_validated(w.protocol, linux_family) && rules_validated(
        w.override_rules,
        linux_family,
    )
}

/// A validated protocol stack: every nested target of a wrapper is
/// validated; terminal protocols carry nothing to check.
pub open spec fn server_proxy_validated(p: ServerProxyConfigV, linux_family: bool) -> bool
    decreases p,
{
    match p {
        ServerProxyConfigV::Tls { sni_targets, default_target } => {
            &&& forall|i: int|
                0 <= i < sni_targets.len() ==> tls_target_validated(
                    #[trigger] sni_targets[i].1,
                    linux_family,
                )
            &&& match default_target {
                Option::Some(t) => tls_target_validated(*t, linux_family),
                Option::None => true,
            }
        },
        ServerProxyConfigV::Websocket { targets } => forall|i: int|
            0 <= i < targets.len() ==> ws_target_validated(#[trigger] targets[i], linux_family),
        _ => true,
    }
}

/// What holds of every server configuration after validation: coherent
/// transport settings, at least one rule, every selection inline, and
/// every egress configuration checked.
pub open spec fn server_config_validated(c: ServerConfigV, linux_family: bool) -> bool {
    &&& server_transport_coherent_v(c)
    &&& c.rules.len() >= 1
    &&& rules_validated(c.rules, linux_family)
    &&& server_proxy_validated(c.protocol, linux_family)
}

/// An expanded rule is validated, straight from the expansion's checks.
proof fn lemma_rule_expand_validated(
    r: RuleConfigV,
    cg: Map<Seq<char>, Seq<ClientConfigV>>,
    linux_family: bool,
)
    requires
        expand_rule_config_v(r, cg, linux_family) is Some,
    ensures
        rule_validated(expand_rule_config_v(r, cg, linux_family)->Some_0, linux_family),
{
}

/// An expanded rule list is validated and keeps its length.
proof fn lemma_each_rule_expand_validated(
    sels: Seq<ConfigSelectionV<RuleConfigV>>,
    cg: Map<Seq<char>, Seq<ClientConfigV>>,
    linux_family: bool,
)
    requires
        expand_each_rule_v(sels, cg, linux_family) is Some,
    ensures
        expand_each_rule_v(sels, cg, linux_family)->Some_0.len() == sels.len(),
        rules_validated(expand_each_rule_v(sels, cg, linux_family)->Some_0, linux_family),
    decreases sels.len(),
{
    if sels.len() > 0 {
        lemma_each_rule_expand_validated(sels.drop_last(), cg, linux_family);
        match sels.last() {
            ConfigSelectionV::Config(rc) => {
                lemma_rule_expand_validated(rc, cg, linux_family);
            },
            ConfigSelectionV::GroupName(_) => {},
        }
    }
}

/// An expanded TLS target is validated.
proof fn lemma_tls_target_expand_validated(
    t: TlsServerConfigV,
    cg: Map<Seq<char>, Seq<ClientConfigV>>,
    rg: Map<Seq<char>, Seq<RuleConfigV>>,
    linux_family: bool,
)
    requires
        expand_tls_target_v(t, cg, rg, linux_family) is Some,
    ensures
        tls_target_validated(expand_tls_target_v(t, cg, rg, linux_family)->Some_0, linux_family),
    decreases t,
{
    lemma_server_proxy_expand_validated(t.protocol, cg, rg, linux_family);
    let s = expand_selections_v(t.override_rules, rg)->Some_0;
    lemma_each_rule_expand_validated(s, cg, linux_family);
}

/// An expanded WebSocket target is validated.
proof fn lemma_ws_target_expand_validated(
    w: WebsocketServerConfigV,
    cg: Map<Seq<char>, Seq<ClientConfigV>>,
    rg: Map<Seq<char>, Seq<RuleConfigV>>,
    linux_family: bool,
)
    requires
        expand_ws_target_v(w, cg, rg, linux_family) is Some,
    ensures
        ws_target_validated(expand_ws_target_v(w, cg, rg, linux_family)->Some_0, linux_family),
    decreases w,
{
    lemma_server_proxy_expand_validated(w.protocol, cg, rg, linux_family);
    let s = expand_selections_v(w.override_rules, rg)->Some_0;
    lemma_each_rule_expand_validated(s, cg, linux_family);
}

/// Every target of an expanded TLS target list is validated.
proof fn lemma_tls_targets_expand_validated(
    s: Seq<(Seq<char>, TlsServerConfigV)>,
    cg: Map<Seq<char>, Seq<ClientConfigV>>,
    rg: Map<Seq<char>, Seq<RuleConfigV>>,
    linux_family: bool,
)
    requires
        expand_tls_targets_v(s, cg, rg, linux_family) is Some,
    ensures
        forall|i: int|
            0 <= i < expand_tls_targets_v(s, cg, rg, linux_family)->Some_0.len()
                ==> tls_target_validated(
                #[trigger] expand_tls_targets_v(s, cg, rg, linux_family)->Some_0[i].1,
                linux_family,
            ),
    decreases s,
{
    if s.len() > 0 {
        lemma_tls_targets_expand_validated(s.drop_last(), cg, rg, linux_family);
        lemma_tls_target_expand_validated(s.last().1, cg, rg, linux_family);
    }
}

/// Every target of an expanded WebSocket target list is validated.
proof fn lemma_ws_targets_expand_validated(
    s: Seq<WebsocketServerConfigV>,
    cg: Map<Seq<char>, Seq<ClientConfigV>>,
    rg: Map<Seq<char>, Seq<RuleConfigV>>,
    linux_family: bool,
)
    requires
        expand_ws_targets_v(s, cg, rg, linux_family) is Some,
    ensures
        forall|i: int|
            0 <= i < expand_ws_targets_v(s, cg, rg, linux_family)->Some_0.len()
                ==> ws_target_validated(
                #[trigger] expand_ws_targets_v(s, cg, rg, linux_family)->Some_0[i],
                linux_family,
            ),
    decreases s,
{
    if s.len() > 0 {
        lemma_ws_targets_expand_validated(s.drop_last(), cg, rg, linux_family);
        lemma_ws_target_expand_validated(s.last(), cg, rg, linux_family);
    }
}

/// An expanded protocol stack is validated.
proof fn lemma_server_proxy_expand_validated(
    p: ServerProxyConfigV,
    cg: Map<Seq<char>, Seq<ClientConfigV>>,
    rg: Map<Seq<char>, Seq<RuleConfigV>>,
    linux_family: bool,
)
    requires
        expand_server_proxy_v(p, cg, rg, linux_family) is Some,
    ensures
        server_proxy_validated(
            expand_server_proxy_v(p, cg, rg, linux_family)->Some_0,
            linux_family,
        ),
    decreases p,
{
    match p {
        ServerProxyConfigV::Tls { sni_targets, default_target } => {
            lemma_tls_targets_expand_validated(sni_targets, cg, rg, linux_family);
            match default_target {
                Option::Some(t) => {
                    lemma_tls_target_expand_validated(*t, cg, rg, linux_family);
                },
                Option::None => {},
            }
        },
        ServerProxyConfigV::Websocket { targets } => {
            lemma_ws_targets_expand_validated(targets, cg, rg, linux_family);
        },
        _ => {},
    }
}

/// After validation a server configuration is validated through and
/// through: its transport settings cohere (QUIC settings exactly with
/// the QUIC transport, TCP settings only with TCP, a socket path only
/// with TCP), it has at least one rule, no group name remains anywhere
/// in it, and every egress configuration passed its checks.
pub proof fn lemma_server_config_expand_validated(
    c: ServerConfigV,
    cg: Map<Seq<char>, Seq<ClientConfigV>>,
    rg: Map<Seq<char>, Seq<RuleConfigV>>,
    linux_family: bool,
)
    requires
        expand_server_config_v(c, cg, rg, linux_family) is Some,
    ensures
        server_config_validated(
            expand_server_config_v(c, cg, rg, linux_family)->Some_0,
            linux_family,
        ),
{
    let sels0 = expand_selections_v(c.rules, rg)->Some_0;
    let sels = if sels0.len() == 0 {
        seq![ConfigSelectionV::Config(RuleConfigV::default_v())]
    } else {
        sels0
    };
    lemma_each_rule_expand_validated(sels, cg, linux_family);
    lemma_server_proxy_expand_validated(c.protocol, cg, rg, linux_family);
}

/// Every configuration a loaded document yields is validated.
pub proof fn lemma_loaded_configs_validated(docs: Seq<ConfigV>, linux_family: bool, i: int)
    requires
        load_configs_v(docs, linux_family) is Some,
        0 <= i < load_configs_v(docs, linux_family)->Some_0.len(),
    ensures
        server_config_validated(load_configs_v(docs, linux_family)->Some_0[i], linux_family),
{
    let cg = build_client_groups_v(docs)->Some_0;
    let rg = build_rule_groups_v(docs)->Some_0;
    lemma_servers_expand_validated(server_configs_of_v(docs), cg, rg, linux_family, i);
}

/// Every configuration of an expanded server list is validated.
proof fn lemma_servers_expand_validated(
    ss: Seq<ServerConfigV>,
    cg: Map<Seq<char>, Seq<ClientConfigV>>,
    rg: Map<Seq<char>, Seq<RuleConfigV>>,
    linux_family: bool,
    i: int,
)
    requires
        expand_servers_v(ss, cg, rg, linux_family) is Some,
        0 <= i < expand_servers_v(ss, cg, rg, linux_family)->Some_0.len(),
    ensures
        server_config_validated(
            expand_servers_v(ss, cg, rg, linux_family)->Some_0[i],
            linux_family,
        ),
    decreases ss.len(),
{
    if ss.len() > 0 {
        if i < expand_servers_v(ss.drop_last(), cg, rg, linux_family)->Some_0.len() {
            lemma_servers_expand_validated(ss.drop_last(), cg, rg, linux_family, i);
        } else {
            lemma_server_config_expand_validated(ss.last(), cg, rg, linux_family);
        }
    }
}

/// Expanding an already inline selection list changes nothing.
proof fn lemma_expand_selections_idem<V>(
    sels: Seq<ConfigSelectionV<V>>,
    groups: Map<Seq<char>, Seq<V>>,
)
    requires
        selections_inline(sels),
    ensures
        expand_selections_v(sels, groups) == Option::Some(sels),
    decreases sels.len(),
{
    if sels.len() == 0 {
        assert(sels =~= Seq::<ConfigSelectionV<V>>::empty());
    } else {
        lemma_expand_selections_idem(sels.drop_last(), groups);
        assert(sels.drop_last().push(sels.last()) =~= sels);
    }
}

/// Expanding an already validated rule changes nothing.
proof fn lemma_rule_idem(
    r: RuleConfigV,
    cg: Map<Seq<char>, Seq<ClientConfigV>>,
    linux_family: bool,
)
    requires
        rule_validated(r, linux_family),
    ensures
        expand_rule_config_v(r, cg, linux_family) == Option::Some(r),
{
    match r.action {
        RuleActionConfigV::Allow { override_address, client_proxies } => {
            lemma_expand_selections_idem(client_proxies, cg);
            assert(expand_rule_config_v(r, cg, linux_family)->Some_0 =~= r);
        },
        RuleActionConfigV::Block => {},
    }
}

/// Expanding an already validated rule list changes nothing.
proof fn lemma_each_rule_idem(
    sels: Seq<ConfigSelectionV<RuleConfigV>>,
    cg: Map<Seq<char>, Seq<ClientConfigV>>,
    linux_family: bool,
)
    requires
        rules_validated(sels, linux_family),
    ensures
        expand_each_rule_v(sels, cg, linux_family) == Option::Some(sels),
    decreases sels.len(),
{
    if sels.len() == 0 {
        assert(sels =~= Seq::<ConfigSelectionV<RuleConfigV>>::empty());
    } else {
        lemma_each_rule_idem(sels.drop_last(), cg, linux_family);
        lemma_rule_idem(sels.last()->Config_0, cg, linux_family);
        assert(sels.drop_last().push(sels.last()) =~= sels);
    }
}

/// Expanding an already validated TLS target changes nothing.
proof fn lemma_tls_target_idem(
    t: TlsServerConfigV,
    cg: Map<Seq<char>, Seq<ClientConfigV>>,
    rg: Map<Seq<char>, Seq<RuleConfigV>>,
    linux_family: bool,
)
    requires
        tls_target_validated(t, linux_family),
    ensures
        expand_tls_target_v(t, cg, rg, linux_family) == Option::Some(t),
    decreases t,
{
    lemma_server_proxy_idem(t.protocol, cg, rg, linux_family);
    lemma_expand_selections_idem(t.override_rules, rg);
    lemma_each_rule_idem(t.override_rules, cg, linux_family);
    assert(expand_tls_target_v(t, cg, rg, linux_family)->Some_0 =~= t);
}

/// Expanding an already validated WebSocket target changes nothing.
proof fn lemma_ws_target_idem(
    w: WebsocketServerConfigV,
    cg: Map<Seq<char>, Seq<ClientConfigV>>,
    rg: Map<Seq<char>, Seq<RuleConfigV>>,
    linux_family: bool,
)
    requires
        ws_target_validated(w, linux_family),
    ensures
        expand_ws_target_v(w, cg, rg, linux_family) == Option::Some(w),
    decreases w,
{
    lemma_server_proxy_idem(w.protocol, cg, rg, linux_family);
    lemma_expand_selections_idem(w.override_rules, rg);
    lemma_each_rule_idem(w.override_rules, cg, linux_family);
    assert(expand_ws_target_v(w, cg, rg, linux_family)->Some_0 =~= w);
}

/// Expanding an already validated TLS target list changes nothing.
proof fn lemma_tls_targets_idem(
    s: Seq<(Seq<char>, TlsServerConfigV)>,
    cg: Map<Seq<char>, Seq<ClientConfigV>>,
    rg: Map<Seq<char>, Seq<RuleConfigV>>,
    linux_family: bool,
)
    requires
        forall|i: int|
            0 <= i < s.len() ==> tls_target_validated(#[trigger] s[i].1, linux_family),
    ensures
        expand_tls_targets_v(s, cg, rg, linux_family) == Option::Some(s),
    decreases s,
{
    if s.len() == 0 {
        assert(s =~= Seq::<(Seq<char>, TlsServerConfigV)>::empty());
    } else {
        lemma_tls_targets_idem(s.drop_last(), cg, rg, linux_family);
        lemma_tls_target_idem(s.last().1, cg, rg, linux_family);
        assert(s.drop_last().push((s.last().0, s.last().1)) =~= s);
    }
}

/// Expanding an already validated WebSocket target list changes
/// nothing.
proof fn lemma_ws_targets_idem(
    s: Seq<WebsocketServerConfigV>,
    cg: Map<Seq<char>, Seq<ClientConfigV>>,
    rg: Map<Seq<char>, Seq<RuleConfigV>>,
    linux_family: bool,
)
    requires
        forall|i: int|
            0 <= i < s.len() ==> ws_target_validated(#[trigger] s[i], linux_family),
    ensures
        expand_ws_targets_v(s, cg, rg, linux_family) == Option::Some(s),
    decreases s,
{
    if s.len() == 0 {
        assert(s =~= Seq::<WebsocketServerConfigV>::empty());
    } else {
        lemma_ws_targets_idem(s.drop_last(), cg, rg, linux_family);
        lemma_ws_target_idem(s.last(), cg, rg, linux_family);
        assert(s.drop_last().push(s.last()) =~= s);
    }
}

/// Expanding an already validated protocol stack changes nothing.
proof fn lemma_server_proxy_idem(
    p: ServerProxyConfigV,
    cg: Map<Seq<char>, Seq<ClientConfigV>>,
    rg: Map<Seq<char>, Seq<RuleConfigV>>,
    linux_family: bool,
)
    requires
        server_proxy_validated(p, linux_family),
    ensures
        expand_server_proxy_v(p, cg, rg, linux_family) == Option::Some(p),
    decreases p,
{
    match p {
        ServerProxyConfigV::Tls { sni_targets, default_target } => {
            lemma_tls_targets_idem(sni_targets, cg, rg, linux_family);
            match default_target {
                Option::Some(t) => {
                    lemma_tls_target_idem(*t, cg, rg, linux_family);
                    assert(expand_server_proxy_v(p, cg, rg, linux_family)->Some_0 =~= p);
                },
                Option::None => {
                    assert(expand_server_proxy_v(p, cg, rg, linux_family)->Some_0 =~= p);
                },
            }
        },
        ServerProxyConfigV::Websocket { targets } => {
            lemma_ws_targets_idem(targets, cg, rg, linux_family);
            assert(expand_server_proxy_v(p, cg, rg, linux_family)->Some_0 =~= p);
        },
        _ => {},
    }
}

/// Expanding an already validated server configuration changes
/// nothing, whatever groups are in scope.
proof fn lemma_server_config_idem(
    d: ServerConfigV,
    cg2: Map<Seq<char>, Seq<ClientConfigV>>,
    rg2: Map<Seq<char>, Seq<RuleConfigV>>,
    linux_family: bool,
)
    requires
        server_config_validated(d, linux_family),
    ensures
        expand_server_config_v(d, cg2, rg2, linux_family) == Option::Some(d),
{
    lemma_expand_selections_idem(d.rules, rg2);
    lemma_each_rule_idem(d.rules, cg2, linux_family);
    lemma_server_proxy_idem(d.protocol, cg2, rg2, linux_family);
    assert(expand_server_config_v(d, cg2, rg2, linux_family)->Some_0 =~= d);
}

/// Validation is idempotent: the pass maps its own output to itself,
/// whatever groups are in scope the second time.
pub proof fn lemma_validation_idempotent(
    c: ServerConfigV,
    cg: Map<Seq<char>, Seq<ClientConfigV>>,
    rg: Map<Seq<char>, Seq<RuleConfigV>>,
    cg2: Map<Seq<char>, Seq<ClientConfigV>>,
    rg2: Map<Seq<char>, Seq<RuleConfigV>>,
    linux_family: bool,
)
    requires
        expand_server_config_v(c, cg, rg, linux_family) is Some,
    ensures
        expand_server_config_v(
            expand_server_config_v(c, cg, rg, linux_family)->Some_0,
            cg2,
            rg2,
            linux_family,
        ) == expand_server_config_v(c, cg, rg, linux_family),
{
    let d = expand_server_config_v(c, cg, rg, linux_family)->Some_0;
    lemma_server_config_expand_validated(c, cg, rg, linux_family);
    lemma_server_config_idem(d, cg2, rg2, linux_family);
}

/// A document holding only server configurations registers no groups.
proof fn lemma_servers_only_groups(ss: Seq<ServerConfigV>)
    ensures
        build_client_groups_v(ss.map_values(|s: ServerConfigV| ConfigV::ServerConfig(s)))
            == Option::Some(crate::validate::builtin_client_groups_v()),
        build_rule_groups_v(ss.map_values(|s: ServerConfigV| ConfigV::ServerConfig(s)))
            == Option::Some(crate::validate::builtin_rule_groups_v()),
        server_configs_of_v(ss.map_values(|s: ServerConfigV| ConfigV::ServerConfig(s))) == ss,
    decreases ss.len(),
{
    let mapped = ss.map_values(|s: ServerConfigV| ConfigV::ServerConfig(s));
    if ss.len() == 0 {
        assert(mapped =~= Seq::<ConfigV>::empty());
        assert(server_configs_of_v(mapped) =~= ss);
    } else {
        lemma_servers_only_groups(ss.drop_last());
        assert(mapped.drop_last() =~= ss.drop_last().map_values(
            |s: ServerConfigV| ConfigV::ServerConfig(s),
        ));
        assert(mapped.last() == ConfigV::ServerConfig(ss.last()));
        assert(server_configs_of_v(mapped) =~= ss);
    }
}

/// Expanding a list of already validated server configurations changes
/// nothing.
proof fn lemma_expand_servers_idem(
    ss: Seq<ServerConfigV>,
    cg: Map<Seq<char>, Seq<ClientConfigV>>,
    rg: Map<Seq<char>, Seq<RuleConfigV>>,
    linux_family: bool,
)
    requires
        forall|i: int|
            0 <= i < ss.len() ==> server_config_validated(#[trigger] ss[i], linux_family),
    ensures
        expand_servers_v(ss, cg, rg, linux_family) == Option::Some(ss),
    decreases ss.len(),
{
    if ss.len() == 0 {
        assert(ss =~= Seq::<ServerConfigV>::empty());
    } else {
        lemma_expand_servers_idem(ss.drop_last(), cg, rg, linux_family);
        lemma_server_config_idem(ss.last(), cg, rg, linux_family);
        assert(ss.drop_last().push(ss.last()) =~= ss);
    }
}

/// The document-level round trip: what a loaded document yields,
/// written out as a document of its server configurations and loaded
/// again, validates to the same expanded form.
pub proof fn lemma_document_roundtrip(docs: Seq<ConfigV>, linux_family: bool)
    requires
        load_configs_v(docs, linux_family) is Some,
    ensures
        load_configs_v(
            load_configs_v(docs, linux_family)->Some_0.map_values(
                |s: ServerConfigV| ConfigV::ServerConfig(s),
            ),
            linux_family,
        ) == load_configs_v(docs, linux_family),
{
    let ss = load_configs_v(docs, linux_family)->Some_0;
    lemma_servers_only_groups(ss);
    assert forall|i: int| 0 <= i < ss.len() implies server_config_validated(
        #[trigger] ss[i],
        linux_family,
    ) by {
        lemma_loaded_configs_validated(docs, linux_family, i);
    }
    lemma_expand_servers_idem(
        ss,
        crate::validate::builtin_client_groups_v(),
        crate::validate::builtin_rule_groups_v(),
        linux_family,
    );
}

} // verus!
