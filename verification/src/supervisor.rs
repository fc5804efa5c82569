//! The decision kernel of the per-connection supervisor: given what a
//! handshake produced and what the selector decided, it says what the
//! connection's runtime must do next. The runtime around it performs
//! the dialing, the writes and the byte copying, which are I/O.

use vstd::prelude::*;

use crate::address::{NetLocation, NetLocationV};
use crate::clone_util::DeepClone;
use crate::config::TcpConfig;
use crate::selector::{ConnectDecision, ConnectDecisionV};

verus! {

/// What a handshake produced, stripped of its streams: a TCP tunnel to
/// one target, a UDP flow to one target, or a multiplexed UDP flow
/// whose messages carry their own destinations.
#[derive(Debug)]
pub enum SetupSummary {
    TcpForward {
        remote_location: NetLocation,
        need_initial_flush: bool,
        has_connection_success_response: bool,
        has_initial_remote_data: bool,
    },
    BidirectionalUdpForward { remote_location: NetLocation },
    MultidirectionalUdpForward { need_initial_flush: bool },
}

/// Mathematical model of a [`SetupSummary`].
#[verifier::ext_equal]
pub enum SetupSummaryV {
    TcpForward {
        remote_location: NetLocationV,
        need_initial_flush: bool,
        has_connection_success_response: bool,
        has_initial_remote_data: bool,
    },
    BidirectionalUdpForward { remote_location: NetLocationV },
    MultidirectionalUdpForward { need_initial_flush: bool },
}

impl DeepView for SetupSummary {
    type V = SetupSummaryV;

    open spec fn deep_view(&self) -> SetupSummaryV {
        match self {
            SetupSummary::TcpForward {
                remote_location,
                need_initial_flush,
                has_connection_success_response,
                has_initial_remote_data,
            } => SetupSummaryV::TcpForward {
                remote_location: remote_location.deep_view(),
                need_initial_flush: *need_initial_flush,
                has_connection_success_response: *has_connection_success_response,
                has_initial_remote_data: *has_initial_remote_data,
            },
            SetupSummary::BidirectionalUdpForward { remote_location } => {
                SetupSummaryV::BidirectionalUdpForward {
                    remote_location: remote_location.deep_view(),
                }
            },
            SetupSummary::MultidirectionalUdpForward { need_initial_flush } => {
                SetupSummaryV::MultidirectionalUdpForward {
                    need_initial_flush: *need_initial_flush,
                }
            },
        }
    }
}

/// What the runtime must do for one accepted connection.
#[derive(Debug)]
pub enum ConnectionPlan {
    /// Dial the decided location through the decided egress, write the
    /// protocol's success response to the origin and the decoded
    /// initial data to the upstream where present, then copy bytes both
    /// ways with the given flush flags.
    TcpBridge {
        remote_location: NetLocation,
        write_success_response: bool,
        write_initial_data: bool,
        server_need_initial_flush: bool,
        client_need_initial_flush: bool,
    },
    /// Resolve the decided location, connect a UDP socket to it, and
    /// copy messages both ways.
    UdpConnect { remote_location: NetLocation },
    /// Open an unconnected UDP socket and copy messages with
    /// per-message destinations.
    UdpMulti { server_need_initial_flush: bool },
    /// Close the origin stream; a blocked multiplexed UDP flow is also
    /// logged as a warning.
    Close { warn: bool },
}

/// Mathematical model of a [`ConnectionPlan`].
#[verifier::ext_equal]
pub enum ConnectionPlanV {
    TcpBridge {
        remote_location: NetLocationV,
        write_success_response: bool,
        write_initial_data: bool,
        server_need_initial_flush: bool,
        client_need_initial_flush: bool,
    },
    UdpConnect { remote_location: NetLocationV },
    UdpMulti { server_need_initial_flush: bool },
    Close { warn: bool },
}

impl DeepView for ConnectionPlan {
    type V = ConnectionPlanV;

    open spec fn deep_view(&self) -> ConnectionPlanV {
        match self {
            ConnectionPlan::TcpBridge {
                remote_location,
                write_success_response,
                write_initial_data,
                server_need_initial_flush,
                client_need_initial_flush,
            } => ConnectionPlanV::TcpBridge {
                remote_location: remote_location.deep_view(),
                write_success_response: *write_success_response,
                write_initial_data: *write_initial_data,
                server_need_initial_flush: *server_need_initial_flush,
                client_need_initial_flush: *client_need_initial_flush,
            },
            ConnectionPlan::UdpConnect { remote_location } => ConnectionPlanV::UdpConnect {
                remote_location: remote_location.deep_view(),
            },
            ConnectionPlan::UdpMulti { server_need_initial_flush } => ConnectionPlanV::UdpMulti {
                server_need_initial_flush: *server_need_initial_flush,
            },
            ConnectionPlan::Close { warn } => ConnectionPlanV::Close { warn: *warn },
        }
    }
}

/// What the supervisor does with a handshake result and a decision: a
/// blocked connection is closed (with a warning for the multiplexed UDP
/// flow); an allowed TCP tunnel is bridged to the decision's location,
/// writing back the success response and forwarding the decoded
/// initial data exactly when the handshake produced them, and flushing
/// the upstream first exactly when initial data is written; an allowed
/// UDP flow gets its socket.
pub open spec fn spec_plan_connection(
    setup: SetupSummaryV,
    decision: ConnectDecisionV,
) -> ConnectionPlanV {
    match setup {
        SetupSummaryV::TcpForward {
            remote_location: _,
            need_initial_flush,
            has_connection_success_response,
            has_initial_remote_data,
        } => match decision {
            ConnectDecisionV::Allow { client_proxy: _, remote_location } => {
                ConnectionPlanV::TcpBridge {
                    remote_location,
                    write_success_response: has_connection_success_response,
                    write_initial_data: has_initial_remote_data,
                    server_need_initial_flush: need_initial_flush,
                    client_need_initial_flush: has_initial_remote_data,
                }
            },
            ConnectDecisionV::Block => ConnectionPlanV::Close { warn: false },
        },
        SetupSummaryV::BidirectionalUdpForward { .. } => match decision {
            ConnectDecisionV::Allow { client_proxy: _, remote_location } => {
                ConnectionPlanV::UdpConnect { remote_location }
            },
            ConnectDecisionV::Block => ConnectionPlanV::Close { warn: false },
        },
        SetupSummaryV::MultidirectionalUdpForward { need_initial_flush } => match decision {
            ConnectDecisionV::Allow { .. } => ConnectionPlanV::UdpMulti {
                server_need_initial_flush: need_initial_flush,
            },
            ConnectDecisionV::Block => ConnectionPlanV::Close { warn: true },
        },
    }
}

/// The supervisor's next step for one accepted connection. The caller
/// obtains the decision from the effective selector — the wrapper's
/// override selector when the handshake produced one, else the
/// listener's — judging the TCP or UDP target, or the default decision
/// for the multiplexed UDP flow, which has no single target.
pub fn plan_connection(setup: &SetupSummary, decision: &ConnectDecision) -> (r: ConnectionPlan)
    ensures
        r.deep_view() == spec_plan_connection(setup.deep_view(), decision.deep_view()),
{
    match setup {
        SetupSummary::TcpForward {
            remote_location: _,
            need_initial_flush,
            has_connection_success_response,
            has_initial_remote_data,
        } => match decision {
            ConnectDecision::Allow { client_proxy: _, remote_location } => {
                ConnectionPlan::TcpBridge {
                    remote_location: remote_location.deep_clone(),
                    write_success_response: *has_connection_success_response,
                    write_initial_data: *has_initial_remote_data,
                    server_need_initial_flush: *need_initial_flush,
                    client_need_initial_flush: *has_initial_remote_data,
                }
            },
            ConnectDecision::Block => ConnectionPlan::Close { warn: false },
        },
        SetupSummary::BidirectionalUdpForward { .. } => match decision {
            ConnectDecision::Allow { client_proxy: _, remote_location } => {
                ConnectionPlan::UdpConnect { remote_location: remote_location.deep_clone() }
            },
            ConnectDecision::Block => ConnectionPlan::Close { warn: false },
        },
        SetupSummary::MultidirectionalUdpForward { need_initial_flush } => match decision {
            ConnectDecision::Allow { .. } => ConnectionPlan::UdpMulti {
                server_need_initial_flush: *need_initial_flush,
            },
            ConnectDecision::Block => ConnectionPlan::Close { warn: true },
        },
    }
}

/// The TCP settings a listener runs with: its own, or the default.
pub fn effective_tcp_config(tcp_settings: Option<TcpConfig>) -> (r: TcpConfig)
    ensures
        r == (match tcp_settings {
            Option::Some(t) => t,
            Option::None => TcpConfig { no_delay: true },
        }),
{
    match tcp_settings {
        Option::Some(t) => t,
        Option::None => TcpConfig::default(),
    }
}

/// The rules of a validated server, unwrapped for the listener's
/// selector. Validation guarantees that every selection is inline.
pub fn unwrap_rule_selections(
    rules: crate::option_util::NoneOrSome<crate::config::ConfigSelection<crate::config::RuleConfig>>,
) -> (r: Vec<crate::config::RuleConfig>)
    requires
        forall|i: int| 0 <= i < rules.items().len() ==> rules.items()[i] is Config,
    ensures
        r.deep_view().len() == rules.deep_view().len(),
        forall|i: int|
            0 <= i < r.deep_view().len() ==> rules.deep_view()[i]
                == crate::config::ConfigSelectionV::Config(#[trigger] r.deep_view()[i]),
    decreases rules.items().len(),
{
    proof {
        rules.lemma_deep_view();
    }
    let mut sels = rules.into_vec();
    let ghost orig = sels@;
    let mut out: Vec<crate::config::RuleConfig> = Vec::new();
    let mut i: usize = 0;
    let total: usize = sels.len();
    while sels.len() > 0
        invariant
            i <= orig.len() == total,
            i + sels@.len() == orig.len(),
            sels@ == orig.subrange(i as int, orig.len() as int),
            forall|j: int| 0 <= j < orig.len() ==> orig[j] is Config,
            forall|j: int| 0 <= j < orig.len() ==> rules.deep_view()[j] == orig[j].deep_view(),
            rules.deep_view().len() == orig.len(),
            out@.len() == i,
            forall|j: int|
                0 <= j < i ==> rules.deep_view()[j] == crate::config::ConfigSelectionV::Config(
                    #[trigger] out.deep_view()[j],
                ),
        decreases sels@.len(),
    {
        let sel = sels.remove(0);
        proof {
            assert(sel == orig[i as int]);
            assert(sels@ =~= orig.subrange(i + 1, orig.len() as int));
        }
        let ghost before = out.deep_view();
        let rc = sel.unwrap_config();
        out.push(rc);
        proof {
            assert(out.deep_view() =~= before.push(rc.deep_view()));
            assert(rules.deep_view()[i as int] == crate::config::ConfigSelectionV::Config(
                rc.deep_view(),
            ));
        }
        i = i + 1;
    }
    out
}

} // verus!
