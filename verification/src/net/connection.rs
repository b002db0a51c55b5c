//! The protocol of one connection between two nodes: its state, what each
//! incoming wire message does to it and what the connection must then do.
use vstd::prelude::*;
use crate::net::{Message, NetMessage, NodeId, NodeInfo};

verus! {

/// The state of a connection.
#[derive(Debug, Clone, Copy, PartialEq, Eq, Structural)]
pub enum ConnState {
    /// Initial state.
    Disconnected,
    /// Established, handshake included.
    Connected,
    /// Handshake in progress; someone awaits its result.
    Connecting,
    /// Closed normally.
    Closed,
    /// Closed on a protocol violation or a stream error.
    Aborted,
    /// A probe was sent; someone awaits the response.
    AwaitingProbeResp,
}

/// Who opened the connection.
#[derive(Debug, Clone, Copy, PartialEq, Eq, Structural)]
pub enum ConnKind {
    /// Opened by this node.
    Outgoing,
    /// Opened by the remote node.
    Incoming,
}

/// What a connection must do after a step, in order.
#[derive(Debug)]
pub enum ConnAction {
    /// Send our handshake.
    SendHandshake,
    /// Send the answer to a handshake.
    SendHandshakeOk,
    /// Send a probe.
    SendProbe,
    /// Send the answer to a probe.
    SendProbeResp,
    /// Send the answer to a heartbeat.
    SendPong,
    /// Tell the server about the node that called.
    AddKnownNode(NodeInfo),
    /// Hand the outcome of the handshake to whoever awaits it.
    ConnectResult(bool),
    /// Hand the probe response to whoever awaits it.
    ProbeResponded,
    /// Record that the peer is alive now.
    Heartbeat,
    /// Hand application data to the server, with its sender and ack request.
    MessageReceived { payload: Message, sender: NodeId, ack: Option<u64> },
    /// Hand a response to the server, with the ack it answers.
    AckReceived { payload: Message, ack: u64 },
    /// Remove the connection from the server.
    Unregister,
    /// Close the underlying stream.
    CloseStream,
}

/// The protocol state of a connection.
#[derive(Debug, Clone, Copy, PartialEq, Eq, Structural)]
pub struct ConnectionCore {
    pub id: NodeId,
    pub kind: ConnKind,
    pub state: ConnState,
}

/// The outcome of closing a connection with `state`.
pub open spec fn closed_with(c: ConnectionCore, state: ConnState) -> (ConnectionCore, Seq<ConnAction>) {
    (ConnectionCore { state, ..c }, seq![ConnAction::Unregister, ConnAction::CloseStream])
}

/// The outcome of a protocol violation: a pending handshake fails, and the
/// connection is aborted.
pub open spec fn aborted(c: ConnectionCore) -> (ConnectionCore, Seq<ConnAction>) {
    let notify = if c.state == ConnState::Connecting {
        seq![ConnAction::ConnectResult(false)]
    } else {
        Seq::empty()
    };
    (ConnectionCore { state: ConnState::Aborted, ..c }, notify + closed_with(c, ConnState::Aborted).1)
}

/// What an incoming wire message does to a connection.
pub open spec fn on_message(c: ConnectionCore, msg: NetMessage) -> (ConnectionCore, Seq<ConnAction>) {
    match msg {
        NetMessage::Handshake(host) => {
            if c.kind != ConnKind::Incoming || c.state != ConnState::Disconnected || host.id == 0 {
                aborted(c)
            } else {
                (ConnectionCore { id: host.id, state: ConnState::Connected, ..c },
                 seq![ConnAction::AddKnownNode(host), ConnAction::SendHandshakeOk])
            }
        },
        NetMessage::HandshakeOk => {
            if c.kind != ConnKind::Outgoing || c.state != ConnState::Connecting {
                aborted(c)
            } else {
                (ConnectionCore { state: ConnState::Connected, ..c }, seq![ConnAction::ConnectResult(true)])
            }
        },
        NetMessage::Ping => {
            if c.state != ConnState::Connected || c.kind != ConnKind::Incoming {
                aborted(c)
            } else {
                (c, seq![ConnAction::Heartbeat, ConnAction::SendPong])
            }
        },
        NetMessage::Pong => {
            if c.state != ConnState::Connected || c.kind != ConnKind::Outgoing {
                aborted(c)
            } else {
                (c, seq![ConnAction::Heartbeat])
            }
        },
        NetMessage::Probe => {
            if c.state != ConnState::Disconnected {
                aborted(c)
            } else {
                (c, seq![ConnAction::SendProbeResp])
            }
        },
        NetMessage::ProbeResp => {
            if c.state == ConnState::AwaitingProbeResp {
                (ConnectionCore { state: ConnState::Disconnected, ..c }, seq![ConnAction::ProbeResponded])
            } else {
                aborted(ConnectionCore { state: ConnState::Disconnected, ..c })
            }
        },
        NetMessage::Message { payload, ack } => {
            if c.state != ConnState::Connected {
                aborted(c)
            } else {
                (c, seq![ConnAction::MessageReceived { payload, sender: c.id, ack }])
            }
        },
        NetMessage::Ack { payload, ack } => {
            if c.state != ConnState::Connected {
                aborted(c)
            } else {
                (c, seq![ConnAction::AckReceived { payload, ack }])
            }
        },
    }
}

impl ConnectionCore {
    /// A disconnected connection of the given kind to node `id`.
    pub fn new(id: NodeId, kind: ConnKind) -> (c: ConnectionCore)
        ensures
            c == (ConnectionCore { id, kind, state: ConnState::Disconnected }),
    {
        ConnectionCore { id, kind, state: ConnState::Disconnected }
    }

    /// The node at the other end.
    pub fn id(&self) -> (id: &NodeId)
        ensures
            *id == self.id,
    {
        &self.id
    }

    /// Whether this node opened the connection.
    pub fn is_outgoing(&self) -> (b: bool)
        ensures
            b == (self.kind == ConnKind::Outgoing),
    {
        self.kind == ConnKind::Outgoing
    }

    /// Whether the remote node opened the connection.
    pub fn is_incoming(&self) -> (b: bool)
        ensures
            b == (self.kind == ConnKind::Incoming),
    {
        self.kind == ConnKind::Incoming
    }

    /// Whether the connection is established.
    pub fn is_connected(&self) -> (b: bool)
        ensures
            b == (self.state == ConnState::Connected),
    {
        self.state == ConnState::Connected
    }

    /// Whether the handshake is in progress.
    pub fn is_connecting(&self) -> (b: bool)
        ensures
            b == (self.state == ConnState::Connecting),
    {
        self.state == ConnState::Connecting
    }

    /// Whether the connection is in its initial state.
    pub fn is_disconnected(&self) -> (b: bool)
        ensures
            b == (self.state == ConnState::Disconnected),
    {
        self.state == ConnState::Disconnected
    }

    fn close_with_state(&mut self, state: ConnState) -> (actions: Vec<ConnAction>)
        ensures
            (*final(self), actions@) == closed_with(*old(self), state),
    {
        self.state = state;
        let mut actions = Vec::new();
        actions.push(ConnAction::Unregister);
        actions.push(ConnAction::CloseStream);
        assert(actions@ =~= seq![ConnAction::Unregister, ConnAction::CloseStream]);
        actions
    }

    /// Closes the connection normally.
    pub fn close(&mut self) -> (actions: Vec<ConnAction>)
        ensures
            (*final(self), actions@) == closed_with(*old(self), ConnState::Closed),
    {
        self.close_with_state(ConnState::Closed)
    }

    /// Aborts the connection, as on a stream error.
    pub fn abort(&mut self) -> (actions: Vec<ConnAction>)
        ensures
            (*final(self), actions@) == closed_with(*old(self), ConnState::Aborted),
    {
        self.close_with_state(ConnState::Aborted)
    }

    fn abort_connection(&mut self) -> (actions: Vec<ConnAction>)
        ensures
            (*final(self), actions@) == aborted(*old(self)),
    {
        let mut actions = Vec::new();
        if self.state == ConnState::Connecting {
            actions.push(ConnAction::ConnectResult(false));
        }
        let ghost first = actions@;
        let mut rest = self.close_with_state(ConnState::Aborted);
        actions.append(&mut rest);
        assert(actions@ =~= aborted(*old(self)).1);
        actions
    }

    /// Starts the handshake; an outgoing connection sends its handshake.
    pub fn connect(&mut self) -> (actions: Vec<ConnAction>)
        ensures
            *final(self) == (ConnectionCore { state: ConnState::Connecting, ..*old(self) }),
            actions@ == if old(self).kind == ConnKind::Outgoing { seq![ConnAction::SendHandshake] } else { Seq::empty() },
    {
        self.state = ConnState::Connecting;
        let mut actions = Vec::new();
        if self.kind == ConnKind::Outgoing {
            actions.push(ConnAction::SendHandshake);
        }
        assert(actions@ =~= if old(self).kind == ConnKind::Outgoing { seq![ConnAction::SendHandshake] } else { Seq::empty() });
        actions
    }

    /// Sends a probe and awaits the response.
    pub fn probe(&mut self) -> (actions: Vec<ConnAction>)
        ensures
            *final(self) == (ConnectionCore { state: ConnState::AwaitingProbeResp, ..*old(self) }),
            actions@ == seq![ConnAction::SendProbe],
    {
        let mut actions = Vec::new();
        actions.push(ConnAction::SendProbe);
        self.state = ConnState::AwaitingProbeResp;
        assert(actions@ =~= seq![ConnAction::SendProbe]);
        actions
    }

    /// The idle timeout: a connection still in its initial state is aborted.
    pub fn idle_timeout(&mut self) -> (actions: Vec<ConnAction>)
        ensures
            old(self).state == ConnState::Disconnected ==> (*final(self), actions@) == closed_with(*old(self), ConnState::Aborted),
            old(self).state != ConnState::Disconnected ==> *final(self) == *old(self) && actions@.len() == 0,
    {
        if self.state == ConnState::Disconnected {
            self.abort()
        } else {
            Vec::new()
        }
    }

    fn single(a: ConnAction) -> (v: Vec<ConnAction>)
        ensures
            v@ == seq![a],
    {
        let mut v = Vec::new();
        v.push(a);
        assert(v@ =~= seq![a]);
        v
    }

    fn pair(a: ConnAction, b: ConnAction) -> (v: Vec<ConnAction>)
        ensures
            v@ == seq![a, b],
    {
        let mut v = Vec::new();
        v.push(a);
        v.push(b);
        assert(v@ =~= seq![a, b]);
        v
    }

    /// Handles an incoming wire message; a message that the protocol does not
    /// allow in the current state aborts the connection.
    pub fn handle(&mut self, msg: NetMessage) -> (actions: Vec<ConnAction>)
        ensures
            (*final(self), actions@) == on_message(*old(self), msg),
    {
        match msg {
            NetMessage::Handshake(host) => {
                if self.kind != ConnKind::Incoming || self.state != ConnState::Disconnected || host.id == 0 {
                    return self.abort_connection();
                }
                self.id = host.id;
                self.state = ConnState::Connected;
                Self::pair(ConnAction::AddKnownNode(host), ConnAction::SendHandshakeOk)
            },
            NetMessage::HandshakeOk => {
                if self.kind != ConnKind::Outgoing || self.state != ConnState::Connecting {
                    return self.abort_connection();
                }
                self.state = ConnState::Connected;
                Self::single(ConnAction::ConnectResult(true))
            },
            NetMessage::Ping => {
                if self.state != ConnState::Connected || self.kind != ConnKind::Incoming {
                    return self.abort_connection();
                }
                Self::pair(ConnAction::Heartbeat, ConnAction::SendPong)
            },
            NetMessage::Pong => {
                if self.state != ConnState::Connected || self.kind != ConnKind::Outgoing {
                    return self.abort_connection();
                }
                Self::single(ConnAction::Heartbeat)
            },
            NetMessage::Probe => {
                if self.state != ConnState::Disconnected {
                    return self.abort_connection();
                }
                Self::single(ConnAction::SendProbeResp)
            },
            NetMessage::ProbeResp => {
                let prev = self.state;
                self.state = ConnState::Disconnected;
                if prev == ConnState::AwaitingProbeResp {
                    return Self::single(ConnAction::ProbeResponded);
                }
                self.abort_connection()
            },
            NetMessage::Message { payload, ack } => {
                if self.state != ConnState::Connected {
                    return self.abort_connection();
                }
                Self::single(ConnAction::MessageReceived { payload, sender: self.id, ack })
            },
            NetMessage::Ack { payload, ack } => {
                if self.state != ConnState::Connected {
                    return self.abort_connection();
                }
                Self::single(ConnAction::AckReceived { payload, ack })
            },
        }
    }
}

/// Application data and responses pass only over established connections:
/// a step that hands data to the server starts from the connected state and
/// leaves it unchanged.
pub proof fn law_data_only_when_connected(c: ConnectionCore, msg: NetMessage)
    ensures
        ({
            let (c2, acts) = on_message(c, msg);
            (exists|i: int| 0 <= i < acts.len() && (acts[i] is MessageReceived || acts[i] is AckReceived))
                ==> c.state == ConnState::Connected && c2 == c
        }),
{
}

/// A protocol violation always ends the connection: whenever a step leaves
/// the connection aborted, its last actions remove it from the server and
/// close the stream.
pub proof fn law_violation_closes(c: ConnectionCore, msg: NetMessage)
    requires
        c.state != ConnState::Aborted,
    ensures
        ({
            let (c2, acts) = on_message(c, msg);
            c2.state == ConnState::Aborted ==> acts.len() >= 2
                && acts[acts.len() - 2] is Unregister
                && acts[acts.len() - 1] is CloseStream
        }),
{
}

/// A closed or aborted connection stays down: every further message leaves it aborted.
pub proof fn law_closed_stays_down(c: ConnectionCore, msg: NetMessage)
    requires
        c.state == ConnState::Closed || c.state == ConnState::Aborted,
    ensures
        on_message(c, msg).0.state == ConnState::Aborted,
{
}

/// A handshake received by a fresh incoming connection from a node with a
/// non-nil identifier establishes the connection to that node and announces it.
pub proof fn law_handshake_establishes(c: ConnectionCore, host: NodeInfo)
    requires
        c.kind == ConnKind::Incoming,
        c.state == ConnState::Disconnected,
        host.id != 0,
    ensures
        on_message(c, NetMessage::Handshake(host)).0 == (ConnectionCore { id: host.id, kind: ConnKind::Incoming, state: ConnState::Connected }),
        on_message(c, NetMessage::Handshake(host)).1 == seq![ConnAction::AddKnownNode(host), ConnAction::SendHandshakeOk],
{
}

/// An established connection, whichever side opened it, passes data and
/// responses on: an incoming message is handed to the server with the
/// connection's node as its sender, an incoming acknowledgement is handed to
/// the server as it came, and the connection stays as it is.
pub proof fn law_connected_passes_data(c: ConnectionCore, payload: Message, ack: u64, wants_ack: Option<u64>)
    requires
        c.state == ConnState::Connected,
    ensures
        on_message(c, NetMessage::Ack { payload, ack }).0 == c,
        on_message(c, NetMessage::Ack { payload, ack }).1 == seq![ConnAction::AckReceived { payload, ack }],
        on_message(c, NetMessage::Message { payload, ack: wants_ack }).0 == c,
        on_message(c, NetMessage::Message { payload, ack: wants_ack }).1
            == seq![ConnAction::MessageReceived { payload, sender: c.id, ack: wants_ack }],
{
}

/// The steps the protocol allows, each with its outcome: an outgoing
/// connection awaiting its handshake's answer becomes connected and reports
/// success; a heartbeat on an established incoming connection is answered and
/// noted, its answer on an established outgoing connection noted; a probe of
/// a fresh connection is answered; and the answer to our probe is handed on,
/// the connection back to its initial state.
pub proof fn law_allowed_steps(c: ConnectionCore)
    ensures
        c.kind == ConnKind::Outgoing && c.state == ConnState::Connecting ==> on_message(c, NetMessage::HandshakeOk)
            == (ConnectionCore { state: ConnState::Connected, ..c }, seq![ConnAction::ConnectResult(true)]),
        c.kind == ConnKind::Incoming && c.state == ConnState::Connected ==> on_message(c, NetMessage::Ping)
            == (c, seq![ConnAction::Heartbeat, ConnAction::SendPong]),
        c.kind == ConnKind::Outgoing && c.state == ConnState::Connected ==> on_message(c, NetMessage::Pong)
            == (c, seq![ConnAction::Heartbeat]),
        c.state == ConnState::Disconnected ==> on_message(c, NetMessage::Probe) == (c, seq![ConnAction::SendProbeResp]),
        c.state == ConnState::AwaitingProbeResp ==> on_message(c, NetMessage::ProbeResp)
            == (ConnectionCore { state: ConnState::Disconnected, ..c }, seq![ConnAction::ProbeResponded]),
{
}

} // verus!
