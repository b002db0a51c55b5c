//! The settings of a node's network server.
use vstd::prelude::*;
use crate::net::{NodeAddr, NodeInfo};

verus! {

/// The network settings: where the server listens, where discovery
/// multicasts, and the intervals and timeouts (in milliseconds) of
/// discovery, probing, connections and acknowledgements.
#[derive(Debug, Clone)]
pub struct Config {
    pub listen_port: u16,
    pub listen_addr: NodeAddr,
    /// The IPv4 multicast group, as a 32-bit number.
    pub multicast_addr: u32,
    pub multicast_ipv4_ifaces: Vec<NodeAddr>,
    pub discovery_interval: u64,
    pub discovery_count: u64,
    pub probe_node_timeout: u64,
    pub probe_node_interval: u64,
    pub idle_connection_timeout: u64,
    pub connection_heartbeat_interval: u64,
    pub connection_timeout: u64,
    pub default_ack_timeout: u64,
    pub this_node: NodeInfo,
}

/// The addresses `addrs` moved to `port`.
pub open spec fn addrs_on_port(addrs: Seq<NodeAddr>, port: u16) -> Seq<NodeAddr> {
    addrs.map_values(|a: NodeAddr| NodeAddr { ip: a.ip, port })
}

impl Config {
    /// The standard settings for `this_node`, whose addresses are moved to
    /// the listening port 6666, with discovery over `multicast_ipv4_ifaces`
    /// to the group 224.6.6.6.
    pub fn standard(this_node: NodeInfo, multicast_ipv4_ifaces: Vec<NodeAddr>) -> (c: Config)
        ensures
            c.listen_port == 6666,
            c.listen_addr == (NodeAddr { ip: 0, port: 6666 }),
            c.multicast_addr == 0xe006_0606,
            c.multicast_ipv4_ifaces@ == multicast_ipv4_ifaces@,
            c.discovery_interval == 1000,
            c.discovery_count == 3,
            c.probe_node_timeout == 500,
            c.probe_node_interval == 5000,
            c.idle_connection_timeout == 2000,
            c.connection_heartbeat_interval == 2000,
            c.connection_timeout == 1000,
            c.default_ack_timeout == 2000,
            c.this_node.id == this_node.id,
            c.this_node.name == this_node.name,
            c.this_node.time == this_node.time,
            c.this_node.ipv4@ == addrs_on_port(this_node.ipv4@, 6666),
    {
        let listen_port: u16 = 6666;
        let mut node = this_node;
        let mut i: usize = 0;
        let ghost addrs = node.ipv4@;
        while i < node.ipv4.len()
            invariant
                i <= node.ipv4@.len(),
                node.ipv4@.len() == addrs.len(),
                node.id == this_node.id,
                node.name == this_node.name,
                node.time == this_node.time,
                addrs == this_node.ipv4@,
                forall|j: int| 0 <= j < i ==> #[trigger] node.ipv4@[j] == (NodeAddr { ip: addrs[j].ip, port: listen_port }),
                forall|j: int| i <= j < addrs.len() ==> #[trigger] node.ipv4@[j] == addrs[j],
            decreases node.ipv4@.len() - i,
        {
            let a = node.ipv4[i];
            node.ipv4.set(i, NodeAddr { ip: a.ip, port: listen_port });
            i = i + 1;
        }
        assert(node.ipv4@ =~= addrs_on_port(this_node.ipv4@, 6666));
        Config {
            listen_port,
            listen_addr: NodeAddr { ip: 0, port: listen_port },
            multicast_addr: 0xe006_0606,
            multicast_ipv4_ifaces,
            discovery_interval: 1000,
            discovery_count: 3,
            probe_node_timeout: 500,
            probe_node_interval: 5000,
            idle_connection_timeout: 2000,
            connection_heartbeat_interval: 2000,
            connection_timeout: 1000,
            default_ack_timeout: 2000,
            this_node: node,
        }
    }

    /// The IPv4 multicast group of discovery.
    pub fn multicast_addr(&self) -> (a: u32)
        ensures
            a == self.multicast_addr,
    {
        self.multicast_addr
    }

    /// Where the server listens.
    pub fn listen_addr(&self) -> (a: NodeAddr)
        ensures
            a == self.listen_addr,
    {
        self.listen_addr
    }

    /// The interfaces discovery multicasts through.
    pub fn multicast_ipv4_ifaces(&self) -> (v: &Vec<NodeAddr>)
        ensures
            v@ == self.multicast_ipv4_ifaces@,
    {
        &self.multicast_ipv4_ifaces
    }

    /// The listening port.
    pub fn listen_port(&self) -> (p: u16)
        ensures
            p == self.listen_port,
    {
        self.listen_port
    }

    /// The time between discovery rounds.
    pub fn discovery_interval(&self) -> (t: u64)
        ensures
            t == self.discovery_interval,
    {
        self.discovery_interval
    }

    /// The number of discovery rounds.
    pub fn discovery_count(&self) -> (n: u64)
        ensures
            n == self.discovery_count,
    {
        self.discovery_count
    }

    /// How long a probe waits for its answer.
    pub fn probe_node_timeout(&self) -> (t: u64)
        ensures
            t == self.probe_node_timeout,
    {
        self.probe_node_timeout
    }

    /// The time between probing rounds.
    pub fn probe_node_interval(&self) -> (t: u64)
        ensures
            t == self.probe_node_interval,
    {
        self.probe_node_interval
    }

    /// How long a fresh connection may stay idle.
    pub fn idle_connection_timeout(&self) -> (t: u64)
        ensures
            t == self.idle_connection_timeout,
    {
        self.idle_connection_timeout
    }

    /// The time between heartbeats.
    pub fn connection_heartbeat_interval(&self) -> (t: u64)
        ensures
            t == self.connection_heartbeat_interval,
    {
        self.connection_heartbeat_interval
    }

    /// How long a connect may take.
    pub fn connection_timeout(&self) -> (t: u64)
        ensures
            t == self.connection_timeout,
    {
        self.connection_timeout
    }

    /// How long a request waits for its acknowledgement.
    pub fn default_ack_timeout(&self) -> (t: u64)
        ensures
            t == self.default_ack_timeout,
    {
        self.default_ack_timeout
    }

    /// This node's description.
    pub fn this_node(&self) -> (n: &NodeInfo)
        ensures
            *n == self.this_node,
    {
        &self.this_node
    }

    /// This node's description, to change in place.
    pub fn this_node_mut(&mut self) -> (n: &mut NodeInfo)
        ensures
            *n == old(self).this_node,
            *final(self) == (Config { this_node: *final(n), ..*old(self) }),
    {
        &mut self.this_node
    }
}

} // verus!
