//! Host-to-host networking: node descriptions, wire messages, the connection
//! protocol and the server's bookkeeping of known and reachable nodes.
pub mod config;
pub mod connection;
pub mod discovery;
pub mod server;

use vstd::prelude::*;

verus! {

/// The identifier of a node: the 128 bits of its UUID.
pub type NodeId = u128;

/// An application-layer message: opaque bytes.
pub type Message = Vec<u8>;

/// An IPv4 socket address: the address as a 32-bit number and the port.
#[derive(Debug, Clone, Copy, PartialEq, Eq, Structural, Hash)]
pub struct NodeAddr {
    pub ip: u32,
    pub port: u16,
}

/// A point in time: seconds since the epoch and nanoseconds within the second.
#[derive(Debug, Clone, Copy, PartialEq, Eq, Structural, Hash)]
pub struct Timestamp {
    pub secs: i64,
    pub nanos: u32,
}

/// Whether time `a` lies before time `b`.
pub open spec fn time_before(a: Timestamp, b: Timestamp) -> bool {
    a.secs < b.secs || (a.secs == b.secs && a.nanos < b.nanos)
}

impl Timestamp {
    /// Whether this time lies before `other`.
    pub fn is_before(&self, other: &Timestamp) -> (b: bool)
        ensures
            b == time_before(*self, *other),
    {
        self.secs < other.secs || (self.secs == other.secs && self.nanos < other.nanos)
    }
}

/// What a node tells others about itself: identifier, name, addresses and
/// the time the description was made.
#[derive(Debug, Clone, PartialEq, Eq)]
pub struct NodeInfo {
    pub id: NodeId,
    pub name: Option<String>,
    pub ipv4: Vec<NodeAddr>,
    pub time: Timestamp,
}

impl NodeInfo {
    /// The node identifier.
    pub fn id(&self) -> (id: &NodeId)
        ensures
            *id == self.id,
    {
        &self.id
    }

    /// Whether this is the empty description, whose identifier is nil.
    pub fn is_empty(&self) -> (b: bool)
        ensures
            b == (self.id == 0),
    {
        self.id == 0
    }

    /// The empty description made at `time`: nil identifier, no name, no addresses.
    pub fn empty(time: Timestamp) -> (n: NodeInfo)
        ensures
            n.id == 0,
            n.name is None,
            n.ipv4@.len() == 0,
            n.time == time,
    {
        NodeInfo { id: 0, name: None, ipv4: Vec::new(), time }
    }
}

/// A message of the wire protocol between nodes.
#[derive(Debug)]
pub enum NetMessage {
    /// Application data; an `ack` asks for a response acknowledging it.
    Message { payload: Message, ack: Option<u64> },
    /// The response to a message that asked for one.
    Ack { payload: Message, ack: u64 },
    /// The first message of an outgoing connection: who is calling.
    Handshake(NodeInfo),
    /// The answer to a handshake.
    HandshakeOk,
    /// Is this address alive?
    Probe,
    /// The answer to a probe.
    ProbeResp,
    /// Heartbeat from the calling side.
    Ping,
    /// The answer to a heartbeat.
    Pong,
}

impl NetMessage {
    /// Application data that asks for no response.
    pub fn new_message(payload: Message) -> (m: NetMessage)
        ensures
            m == (NetMessage::Message { payload, ack: None }),
    {
        NetMessage::Message { payload, ack: None }
    }

    /// Application data that asks for a response acknowledging `ack`.
    pub fn new_request(payload: Message, ack: u64) -> (m: NetMessage)
        ensures
            m == (NetMessage::Message { payload, ack: Some(ack) }),
    {
        NetMessage::Message { payload, ack: Some(ack) }
    }
}

} // verus!
