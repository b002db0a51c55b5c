//! Discovery of nodes by multicast: the packages nodes exchange, what a
//! node does with a package it receives, and when it sends its requests.
use vstd::prelude::*;
use crate::net::{NodeAddr, NodeId, NodeInfo};

verus! {

/// Whether a discovery package asks or answers.
#[derive(Debug, Clone, Copy, PartialEq, Eq, Structural)]
pub enum PackageKind {
    Request,
    Response,
}

/// A discovery package: a node description, sent as a request or an answer.
#[derive(Debug)]
pub struct DiscoveryPackage {
    pub kind: PackageKind,
    pub node: NodeInfo,
}

impl DiscoveryPackage {
    /// A request that carries the sender's description.
    pub fn new_request(host: NodeInfo) -> (p: DiscoveryPackage)
        ensures
            p.kind == PackageKind::Request,
            p.node == host,
    {
        DiscoveryPackage { kind: PackageKind::Request, node: host }
    }

    /// An answer that carries one known node's description.
    pub fn new_response(host: NodeInfo) -> (p: DiscoveryPackage)
        ensures
            p.kind == PackageKind::Response,
            p.node == host,
    {
        DiscoveryPackage { kind: PackageKind::Response, node: host }
    }

    /// Whether the package is a request.
    pub fn is_request(&self) -> (b: bool)
        ensures
            b == (self.kind == PackageKind::Request),
    {
        self.kind == PackageKind::Request
    }
}

/// What a node does with a discovery package it received.
#[derive(Debug)]
pub struct PackageAction {
    /// Where to send the descriptions of all known nodes, one answer each:
    /// present for a request from another node.
    pub answer_to: Option<NodeAddr>,
    /// The description to learn: always the one the package carries.
    pub learn: NodeInfo,
}

/// Decides what node `this_id`, listening on `listen_port`, does with
/// `package` received from `src`: a request from another node is answered at
/// the sender's address on the listening port, and the carried description
/// is learnt in any case.
pub fn on_package(this_id: NodeId, listen_port: u16, package: DiscoveryPackage, src: NodeAddr) -> (a:
    PackageAction)
    ensures
        a.learn == package.node,
        a.answer_to == (if package.kind == PackageKind::Request && package.node.id != this_id {
            Some(NodeAddr { ip: src.ip, port: listen_port })
        } else {
            None
        }),
{
    let answer_to = if package.is_request() && package.node.id != this_id {
        Some(NodeAddr { ip: src.ip, port: listen_port })
    } else {
        None
    };
    PackageAction { answer_to, learn: package.node }
}

/// One discovery request to send: through which interface, and how long
/// after the start.
#[derive(Debug, Clone, Copy, PartialEq, Eq, Structural)]
pub struct DiscoverySend {
    pub iface: usize,
    pub delay_ms: u64,
}

/// The discovery requests, round by round: in round `r` (from 1) one request
/// through each of `ifaces` interfaces, `r` intervals after the start.
pub open spec fn discovery_plan(rounds: nat, ifaces: nat, interval_ms: nat) -> Seq<DiscoverySend> {
    Seq::new(
        rounds * ifaces,
        |k: int| DiscoverySend { iface: (k % ifaces as int) as usize, delay_ms: ((k / ifaces as int + 1) * interval_ms) as u64 },
    )
}

/// The discovery requests to send: `rounds` rounds, each through every one
/// of `ifaces` interfaces, round `r` (from 1) `r * interval_ms` after the start.
pub fn discovery_schedule(rounds: usize, ifaces: usize, interval_ms: u64) -> (plan: Vec<DiscoverySend>)
    requires
        rounds * ifaces <= usize::MAX,
        rounds * interval_ms <= u64::MAX,
    ensures
        plan@ == discovery_plan(rounds as nat, ifaces as nat, interval_ms as nat),
{
    let mut plan: Vec<DiscoverySend> = Vec::new();
    let mut r: usize = 0;
    while r < rounds
        invariant
            r <= rounds,
            rounds * ifaces <= usize::MAX,
            rounds * interval_ms <= u64::MAX,
            plan@ =~= discovery_plan(r as nat, ifaces as nat, interval_ms as nat),
        decreases rounds - r,
    {
        assert((r + 1) * interval_ms <= rounds * interval_ms) by (nonlinear_arith)
            requires
                r < rounds,
        ;
        assert((r + 1) * ifaces <= rounds * ifaces) by (nonlinear_arith)
            requires
                r < rounds,
        ;
        let delay_ms: u64 = ((r + 1) as u64) * interval_ms;
        let mut i: usize = 0;
        while i < ifaces
            invariant
                r < rounds,
                i <= ifaces,
                (r + 1) * ifaces <= usize::MAX,
                delay_ms == (r + 1) * interval_ms,
                plan@ =~= discovery_plan(r as nat, ifaces as nat, interval_ms as nat) + Seq::new(
                    i as nat,
                    |j: int| DiscoverySend { iface: j as usize, delay_ms },
                ),
            decreases ifaces - i,
        {
            plan.push(DiscoverySend { iface: i, delay_ms });
            i = i + 1;
        }
        proof {
            let old_plan = discovery_plan(r as nat, ifaces as nat, interval_ms as nat);
            let new_plan = discovery_plan((r + 1) as nat, ifaces as nat, interval_ms as nat);
            assert((r + 1) * ifaces == r * ifaces + ifaces) by (nonlinear_arith);
            assert forall|k: int| 0 <= k < new_plan.len() implies #[trigger] new_plan[k] == plan@[k] by {
                if k < r * ifaces {
                    assert(k / ifaces as int == k / ifaces as int);
                } else {
                    let j = k - r * ifaces;
                    assert(0 <= j < ifaces);
                    assert(k % ifaces as int == j && k / ifaces as int == r) by (nonlinear_arith)
                        requires
                            k == r * ifaces + j,
                            0 <= j < ifaces,
                    ;
                }
            }
        }
        r = r + 1;
    }
    plan
}

} // verus!
