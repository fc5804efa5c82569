//! The client-proxy selector: given a connection's target location, it
//! walks the expanded rules in order and yields the decision of the
//! first rule with a matching mask — allow through a chosen egress
//! (possibly redirected), or block. DNS-name targets are matched
//! through their resolved address, which the caller supplies; an
//! unresolved name falls under no concrete mask.

use vstd::prelude::*;

use crate::address::{Address, AddressV, MaskAddress, NetLocation, NetLocationMask, NetLocationV};
use crate::clone_util::DeepClone;
use crate::config::{
    ClientConfig, ClientConfigV, ConfigSelection, RuleActionConfig, RuleConfig, RuleConfigV,
    RuleActionConfigV, ConfigSelectionV,
};

verus! {

/// The decision for one connection target: allow it through an egress
/// configuration, bound for a possibly redirected location, or block.
#[derive(Debug)]
pub enum ConnectDecision {
    Allow { client_proxy: ClientConfig, remote_location: NetLocation },
    Block,
}

/// Mathematical model of a [`ConnectDecision`].
#[verifier::ext_equal]
pub enum ConnectDecisionV {
    Allow { client_proxy: ClientConfigV, remote_location: NetLocationV },
    Block,
}

impl DeepView for ConnectDecision {
    type V = ConnectDecisionV;

    open spec fn deep_view(&self) -> ConnectDecisionV {
        match self {
            ConnectDecision::Allow { client_proxy, remote_location } => ConnectDecisionV::Allow {
                client_proxy: client_proxy.deep_view(),
                remote_location: remote_location.deep_view(),
            },
            ConnectDecision::Block => ConnectDecisionV::Block,
        }
    }
}

/// Whether one mask covers the target: an IP-addressed target is
/// matched directly; a DNS-name target is matched through its resolved
/// address against any concrete mask, and falls under no concrete mask
/// when unresolved.
pub open spec fn mask_matches_target(
    m: NetLocationMask,
    t: NetLocationV,
    resolved: Option<AddressV>,
) -> bool {
    if t.address is Hostname && !(m.address is Any) {
        match resolved {
            Option::Some(a) => m.spec_matches(NetLocationV { address: a, port: t.port }),
            Option::None => false,
        }
    } else {
        m.spec_matches(t)
    }
}

/// Whether any of a rule's masks covers the target.
pub open spec fn rule_matches(r: RuleConfigV, t: NetLocationV, resolved: Option<AddressV>) -> bool {
    exists|i: int| 0 <= i < r.masks.len() && mask_matches_target(r.masks[i], t, resolved)
}

/// The first inline egress of a rule's allow action, when there is one.
pub open spec fn rule_first_proxy(client_proxies: Seq<ConfigSelectionV<ClientConfigV>>) -> Option<
    ClientConfigV,
> {
    if client_proxies.len() >= 1 && client_proxies[0] is Config {
        Option::Some(client_proxies[0]->Config_0)
    } else {
        Option::None
    }
}

/// The decision of the first matching rule: allow through the rule's
/// first egress, bound for the rule's override address if it has one
/// and the original target otherwise, or block. A matching allow rule
/// without a usable egress is passed over; no matching rule means
/// block.
pub open spec fn spec_judge(
    rules: Seq<RuleConfigV>,
    t: NetLocationV,
    resolved: Option<AddressV>,
) -> ConnectDecisionV
    decreases rules.len(),
{
    if rules.len() == 0 {
        ConnectDecisionV::Block
    } else {
        let r = rules.first();
        if rule_matches(r, t, resolved) {
            match r.action {
                RuleActionConfigV::Allow { override_address, client_proxies } => {
                    match rule_first_proxy(client_proxies) {
                        Option::Some(cp) => ConnectDecisionV::Allow {
                            client_proxy: cp,
                            remote_location: match override_address {
                                Option::Some(o) => o,
                                Option::None => t,
                            },
                        },
                        Option::None => spec_judge(rules.drop_first(), t, resolved),
                    }
                },
                RuleActionConfigV::Block => ConnectDecisionV::Block,
            }
        } else {
            spec_judge(rules.drop_first(), t, resolved)
        }
    }
}

/// The decision when no single target exists at decision time: the
/// decision of the first rule carrying the wildcard mask, or block.
/// Rules covering only concrete masks do not fire here, so a mask that
/// would block a specific target cannot block such a flow.
pub open spec fn spec_default_decision(rules: Seq<RuleConfigV>) -> ConnectDecisionV
    decreases rules.len(),
{
    if rules.len() == 0 {
        ConnectDecisionV::Block
    } else {
        let r = rules.first();
        if exists|i: int| 0 <= i < r.masks.len() && r.masks[i] == NetLocationMask::spec_any() {
            match r.action {
                RuleActionConfigV::Allow { override_address, client_proxies } => {
                    match rule_first_proxy(client_proxies) {
                        Option::Some(cp) => ConnectDecisionV::Allow {
                            client_proxy: cp,
                            remote_location: NetLocationV::unspecified(),
                        },
                        Option::None => spec_default_decision(rules.drop_first()),
                    }
                },
                RuleActionConfigV::Block => ConnectDecisionV::Block,
            }
        } else {
            spec_default_decision(rules.drop_first())
        }
    }
}

/// The per-listener selector: the expanded rules of one scope.
#[derive(Debug)]
pub struct ClientProxySelector {
    pub rules: Vec<RuleConfig>,
}

impl ClientProxySelector {
    /// Every mask of every rule is well-formed.
    pub open spec fn wf(&self) -> bool {
        forall|i: int, j: int|
            0 <= i < self.rules@.len() && 0 <= j < self.rules@[i].masks.items().len()
                ==> self.rules@[i].masks.items()[j].wf()
    }

    /// A selector over the given rules.
    pub fn new(rules: Vec<RuleConfig>) -> (r: ClientProxySelector)
        ensures
            r.rules == rules,
    {
        ClientProxySelector { rules }
    }

    /// The decision for a target location. For a DNS-name target the
    /// caller passes the address the name resolved to, if any; the
    /// resolver itself lives outside this crate.
    #[verifier::loop_isolation(false)]
    pub fn judge(&self, location: &NetLocation, resolved: Option<&Address>) -> (r: ConnectDecision)
        requires
            self.wf(),
        ensures
            r.deep_view() == spec_judge(
                self.rules.deep_view(),
                location.deep_view(),
                resolved.deep_view(),
            ),
    {
        let ghost rv = self.rules.deep_view();
        let ghost tv = location.deep_view();
        let ghost av = resolved.deep_view();
        proof {
            assert(rv.skip(0) =~= rv);
        }
        let mut i: usize = 0;
        while i < self.rules.len()
            invariant
                i <= self.rules@.len(),
                spec_judge(rv, tv, av) == spec_judge(rv.skip(i as int), tv, av),
            decreases self.rules@.len() - i,
        {
            proof {
                assert(rv.skip(i as int).first() == rv[i as int]);
                assert(rv.skip(i as int).drop_first() =~= rv.skip(i + 1));
                self.rules@[i as int].masks.lemma_deep_view();
            }
            let rule = &self.rules[i];
            proof {
                assert(rule.deep_view() == rv[i as int]);
                assert(rule.masks.deep_view() == rv[i as int].masks);
            }
            let matched = Self::any_mask_matches(&rule.masks, location, resolved);
            proof {
                assert(matched == rule_matches(rv[i as int], tv, av));
            }
            if matched {
                match &rule.action {
                    RuleActionConfig::Allow { override_address, client_proxies } => {
                        proof {
                            client_proxies.lemma_deep_view();
                            assert(rv[i as int].action->Allow_client_proxies
                                == client_proxies.deep_view());
                        }
                        if client_proxies.len() >= 1 {
                            let first = client_proxies.get(0);
                            proof {
                                assert(first.deep_view() == client_proxies.deep_view()[0]);
                            }
                            match first {
                                ConfigSelection::Config(cp) => {
                                    let remote = match override_address {
                                        Option::Some(o) => o.deep_clone(),
                                        Option::None => location.deep_clone(),
                                    };
                                    return ConnectDecision::Allow {
                                        client_proxy: cp.deep_clone(),
                                        remote_location: remote,
                                    };
                                },
                                ConfigSelection::GroupName(_) => {},
                            }
                        }
                    },
                    RuleActionConfig::Block => {
                        return ConnectDecision::Block;
                    },
                }
            }
            i = i + 1;
        }
        proof {
            assert(rv.skip(rv.len() as int) =~= Seq::<RuleConfigV>::empty());
        }
        ConnectDecision::Block
    }

    /// Whether any of the masks covers the target.
    #[verifier::loop_isolation(false)]
    fn any_mask_matches(
        masks: &crate::option_util::OneOrSome<NetLocationMask>,
        location: &NetLocation,
        resolved: Option<&Address>,
    ) -> (r: bool)
        requires
            forall|j: int| 0 <= j < masks.items().len() ==> masks.items()[j].wf(),
        ensures
            r == exists|j: int|
                0 <= j < masks.deep_view().len() && mask_matches_target(
                    masks.deep_view()[j],
                    location.deep_view(),
                    resolved.deep_view(),
                ),
    {
        proof {
            masks.lemma_deep_view();
        }
        let n = masks.len();
        let mut j: usize = 0;
        while j < n
            invariant
                j <= n == masks.items().len(),
                forall|l: int|
                    0 <= l < j ==> !mask_matches_target(
                        masks.deep_view()[l],
                        location.deep_view(),
                        resolved.deep_view(),
                    ),
            decreases n - j,
        {
            let m = masks.get(j);
            let hit: bool;
            let is_hostname = matches!(&location.address, Address::Hostname(_));
            let mask_is_any = matches!(m.address, MaskAddress::Any);
            if is_hostname && !mask_is_any {
                match resolved {
                    Option::Some(a) => {
                        let probe = NetLocation { address: a.deep_clone(), port: location.port };
                        hit = m.matches(&probe);
                    },
                    Option::None => {
                        hit = false;
                    },
                }
            } else {
                hit = m.matches(location);
            }
            if hit {
                proof {
                    assert(masks.deep_view()[j as int] == *m);
                    assert(mask_matches_target(
                        masks.deep_view()[j as int],
                        location.deep_view(),
                        resolved.deep_view(),
                    ));
                }
                return true;
            }
            proof {
                assert(masks.deep_view()[j as int] == *m);
                assert(!mask_matches_target(
                    masks.deep_view()[j as int],
                    location.deep_view(),
                    resolved.deep_view(),
                ));
            }
            j = j + 1;
        }
        false
    }

    /// The decision when no single target exists at decision time: the
    /// first rule carrying the wildcard mask decides, else block.
    #[verifier::loop_isolation(false)]
    pub fn default_decision(&self) -> (r: ConnectDecision)
        ensures
            r.deep_view() == spec_default_decision(self.rules.deep_view()),
    {
        let ghost rv = self.rules.deep_view();
        proof {
            assert(rv.skip(0) =~= rv);
        }
        let mut i: usize = 0;
        while i < self.rules.len()
            invariant
                i <= self.rules@.len(),
                spec_default_decision(rv) == spec_default_decision(rv.skip(i as int)),
            decreases self.rules@.len() - i,
        {
            proof {
                assert(rv.skip(i as int).first() == rv[i as int]);
                assert(rv.skip(i as int).drop_first() =~= rv.skip(i + 1));
                self.rules@[i as int].masks.lemma_deep_view();
            }
            let rule = &self.rules[i];
            proof {
                assert(rule.deep_view() == rv[i as int]);
            }
            let masks = &rule.masks;
            let n = masks.len();
            let mut j: usize = 0;
            let mut has_any = false;
            while j < n
                invariant
                    j <= n == masks.items().len(),
                    masks.deep_view().len() == masks.items().len(),
                    forall|l: int|
                        0 <= l < masks.items().len() ==> masks.deep_view()[l] == masks.items()[l].deep_view(),
                    has_any == exists|l: int|
                        0 <= l < j && masks.deep_view()[l] == NetLocationMask::spec_any(),
                decreases n - j,
            {
                let m = masks.get(j);
                if matches!(m.address, MaskAddress::Any) && m.port == 0 {
                    has_any = true;
                    proof {
                        assert(masks.deep_view()[j as int] == NetLocationMask::spec_any());
                    }
                } else {
                    proof {
                        assert(masks.deep_view()[j as int] != NetLocationMask::spec_any());
                    }
                }
                j = j + 1;
            }
            if has_any {
                match &rule.action {
                    RuleActionConfig::Allow { override_address: _, client_proxies } => {
                        proof {
                            client_proxies.lemma_deep_view();
                        }
                        if client_proxies.len() >= 1 {
                            let first = client_proxies.get(0);
                            proof {
                                assert(first.deep_view() == client_proxies.deep_view()[0]);
                            }
                            match first {
                                ConfigSelection::Config(cp) => {
                                    return ConnectDecision::Allow {
                                        client_proxy: cp.deep_clone(),
                                        remote_location: NetLocation::unspecified(),
                                    };
                                },
                                ConfigSelection::GroupName(_) => {},
                            }
                        }
                    },
                    RuleActionConfig::Block => {
                        return ConnectDecision::Block;
                    },
                }
            }
            i = i + 1;
        }
        proof {
            assert(rv.skip(rv.len() as int) =~= Seq::<RuleConfigV>::empty());
        }
        ConnectDecision::Block
    }
}

} // verus!
