//! Role of a receiver board.
//!
//! Both receivers run the same firmware. A provisioned role wins; otherwise
//! the board with external memory is the second receiver, and any other is
//! the first.

use vstd::prelude::*;

use crate::protocol::node;
use crate::storage::{link_node, RadarConfig, RxLink};

verus! {

/// The receiver with a given node id.
pub open spec fn link_of(node_id: u8) -> Option<RxLink> {
    if node_id == node::RX1 {
        Some(RxLink::Rx1)
    } else if node_id == node::RX2 {
        Some(RxLink::Rx2)
    } else {
        None
    }
}

/// The receiver with a given node id, if it is one.
pub fn rx_link_for(node_id: u8) -> (r: Option<RxLink>)
    ensures
        r == link_of(node_id),
{
    if node_id == node::RX1 {
        Some(RxLink::Rx1)
    } else if node_id == node::RX2 {
        Some(RxLink::Rx2)
    } else {
        None
    }
}

/// A receiver is found again by its node id, and by no other.
pub proof fn links_have_their_own_node(link: RxLink, node_id: u8)
    ensures
        link_of(node_id) == Some(link) <==> node_id == link_node(link),
{
}

/// A role as resolved at boot.
#[derive(Clone, Copy, Debug, PartialEq, Eq, Structural)]
pub struct ResolvedRole {
    pub node_id: u8,
    /// The role was inferred, and the configuration is to be stored.
    pub inferred: bool,
}

/// The role a configuration provides.
pub open spec fn provisioned(config: RadarConfig) -> bool {
    config.node_role == node::RX1 || config.node_role == node::RX2
}

/// Resolves the role, and records an inferred one in the configuration.
pub fn resolve_role(config: &mut RadarConfig, has_psram: bool) -> (r: ResolvedRole)
    ensures
        provisioned(*old(config)) ==> *final(config) == *old(config) && r == (ResolvedRole {
            node_id: old(config).node_role,
            inferred: false,
        }),
        !provisioned(*old(config)) ==> r == (ResolvedRole {
            node_id: if has_psram {
                node::RX2
            } else {
                node::RX1
            },
            inferred: true,
        }) && *final(config) == (RadarConfig { node_role: r.node_id, ..*old(config) }),
        provisioned(*final(config)),
        link_of(r.node_id) is Some,
        final(config).node_role == r.node_id,
        old(config).node_role == 2 || old(config).node_role == 3 ==> r.node_id == old(
            config,
        ).node_role && !r.inferred,
        r.inferred ==> r.node_id == if has_psram {
            3u8
        } else {
            2u8
        },
{
    if config.node_role == node::RX1 || config.node_role == node::RX2 {
        return ResolvedRole { node_id: config.node_role, inferred: false };
    }
    let inferred: u8 = if has_psram {
        node::RX2
    } else {
        node::RX1
    };
    config.node_role = inferred;
    ResolvedRole { node_id: inferred, inferred: true }
}

/// The name of a role.
pub open spec fn name_of(node_id: u8) -> Seq<char> {
    if node_id == node::RX1 {
        "RADAR-RX1"@
    } else if node_id == node::RX2 {
        "RADAR-RX2"@
    } else {
        "unknown"@
    }
}

/// Human-readable role for logs.
pub fn role_name(node_id: u8) -> (s: &'static str)
    ensures
        s@ == name_of(node_id),
{
    if node_id == node::RX1 {
        "RADAR-RX1"
    } else if node_id == node::RX2 {
        "RADAR-RX2"
    } else {
        "unknown"
    }
}

/// What to do after looking at the state of the association.
#[derive(Clone, Copy, Debug, PartialEq, Eq, Structural)]
pub enum Association {
    /// The station is associated.
    Done,
    /// Wait one polling step and look again.
    Wait,
    /// Give up this attempt and connect anew.
    Reconnect,
}

/// Polling steps of one association attempt.
pub const POLL_STEPS: u32 = 50;

/// Decides after `polls` steps of an attempt.
pub fn after_poll(connected: bool, polls: u32) -> (a: Association)
    ensures
        a == (if connected {
            Association::Done
        } else if polls < POLL_STEPS {
            Association::Wait
        } else {
            Association::Reconnect
        }),
        connected <==> a == Association::Done,
        a == Association::Wait ==> polls < 50,
        a == Association::Reconnect ==> polls >= 50,
{
    if connected {
        Association::Done
    } else if polls < POLL_STEPS {
        Association::Wait
    } else {
        Association::Reconnect
    }
}

} // verus!
