//! The server's bookkeeping: known nodes, reachable nodes, open connections,
//! pending connects and requests awaiting acknowledgement, and the decisions
//! the server takes on them.
use vstd::prelude::*;
use std::collections::{HashMap, HashSet};
use vstd::std_specs::iter::IteratorSpec;
use crate::net::{time_before, Message, NodeAddr, NodeId, NodeInfo};

verus! {

broadcast use vstd::std_specs::hash::group_hash_axioms;

/// The identifiers of a map's keys, each once.
pub fn key_list<V>(m: &HashMap<NodeId, V>) -> (ids: Vec<NodeId>)
    ensures
        ids@.to_set() == m@.dom(),
        ids@.no_duplicates(),
        ids@.len() == m@.dom().len(),
{
    let mut ids: Vec<NodeId> = Vec::new();
    for k in it: m.keys()
        invariant
            ids@ == it.seq().take(it.index() as int).unref(),
            it.seq().unref().to_set() == m@.dom(),
            it.seq().no_duplicates(),
            it.seq().len() == m@.dom().len(),
            it.index() == it.seq().len() ==> ids@ == it.seq().unref(),
        ensures
            ids@.to_set() == m@.dom(),
            ids@.no_duplicates(),
            ids@.len() == m@.dom().len(),
    {
        ids.push(*k);
        assert(it.seq().take(it.index() + 1).unref() =~= it.seq().take(it.index() as int).unref().push(*k));
        assert(it.seq().take(it.seq().len() as int) =~= it.seq());
    }
    ids
}

/// Where a message for a node goes.
#[derive(Debug, Clone, Copy, PartialEq, Eq, Structural)]
pub enum SendRoute {
    /// The node is not known: the send fails.
    UnknownNode,
    /// A connect to the node is under way: the message waits for it.
    AwaitConnect,
    /// The node was last reachable at this address: connect there.
    Connect(NodeAddr),
    /// No address of the node is known to answer: probe its addresses, then connect.
    ProbeThenConnect,
}

/// What the periodic probing round does with one known node.
#[derive(Debug, Clone, Copy, PartialEq, Eq, Structural)]
pub enum ProbeAction {
    /// Leave the node alone.
    Skip,
    /// Check that the address the node was reachable at still answers.
    CheckAddr(NodeAddr),
    /// Probe all of the node's addresses.
    ProbeAll,
}

/// What the server does with the answer its subscriber gave to a received message.
#[derive(Debug)]
pub enum ResponseAction {
    /// Send the answer back to the sender as the acknowledgement `ack`.
    SendAck { ack: u64, payload: Message },
    /// The sender asked for an answer and none was given.
    MissingResponse,
    /// An answer was given to a message that asked for none.
    UnexpectedResponse,
    /// Nothing was asked and nothing given.
    Nothing,
}

/// The response decision, as a value.
pub open spec fn response_action_spec(resp: Option<Message>, ack: Option<u64>) -> ResponseAction {
    match (resp, ack) {
        (Some(payload), Some(ack)) => ResponseAction::SendAck { ack, payload },
        (None, Some(_)) => ResponseAction::MissingResponse,
        (Some(_), None) => ResponseAction::UnexpectedResponse,
        (None, None) => ResponseAction::Nothing,
    }
}

/// Decides what to do with the subscriber's answer `resp` to a message that
/// asked for an acknowledgement when `ack` is present.
pub fn response_action(resp: Option<Message>, ack: Option<u64>) -> (a: ResponseAction)
    ensures
        a == response_action_spec(resp, ack),
{
    match (resp, ack) {
        (Some(payload), Some(ack)) => ResponseAction::SendAck { ack, payload },
        (None, Some(_)) => ResponseAction::MissingResponse,
        (Some(_), None) => ResponseAction::UnexpectedResponse,
        (None, None) => ResponseAction::Nothing,
    }
}

/// The server's bookkeeping, seen as maps and sets.
pub struct ServerBookView {
    pub this_node: NodeId,
    pub known: Map<NodeId, NodeInfo>,
    pub reachable: Map<NodeId, NodeAddr>,
    pub connections: Map<NodeId, u64>,
    pub connecting: Set<NodeId>,
    pub next_ack: u64,
    pub acks: Set<u64>,
}

/// The known nodes after learning of `node`: a node not known yet is added,
/// a known one is replaced only by a description made later.
pub open spec fn with_known_node(known: Map<NodeId, NodeInfo>, node: NodeInfo) -> Map<NodeId, NodeInfo> {
    if !known.contains_key(node.id) || time_before(known[node.id].time, node.time) {
        known.insert(node.id, node)
    } else {
        known
    }
}

/// The known nodes after learning of each of `nodes` in turn.
pub open spec fn with_known_nodes(known: Map<NodeId, NodeInfo>, nodes: Seq<NodeInfo>) -> Map<NodeId, NodeInfo>
    decreases nodes.len(),
{
    if nodes.len() == 0 {
        known
    } else {
        with_known_node(with_known_nodes(known, nodes.drop_last()), nodes.last())
    }
}

/// Where a message for `id` goes, given the bookkeeping `b`.
pub open spec fn send_route_spec(b: ServerBookView, id: NodeId) -> SendRoute {
    if !b.known.contains_key(id) {
        SendRoute::UnknownNode
    } else if b.connecting.contains(id) {
        SendRoute::AwaitConnect
    } else if b.reachable.contains_key(id) {
        SendRoute::Connect(b.reachable[id])
    } else {
        SendRoute::ProbeThenConnect
    }
}

/// What the probing round does with the known node `node`, filed under `id`.
pub open spec fn probe_action_spec(b: ServerBookView, id: NodeId, node: NodeInfo) -> ProbeAction {
    if id == b.this_node || node.ipv4@.len() == 0 || b.connections.contains_key(id) || b.connecting.contains(id) {
        ProbeAction::Skip
    } else if b.reachable.contains_key(id) {
        ProbeAction::CheckAddr(b.reachable[id])
    } else {
        ProbeAction::ProbeAll
    }
}

/// The bookkeeping of a running server.
pub struct ServerBook {
    this_node: NodeId,
    known_nodes: HashMap<NodeId, NodeInfo>,
    reachable_nodes: HashMap<NodeId, NodeAddr>,
    connections: HashMap<NodeId, u64>,
    connecting: HashSet<NodeId>,
    next_ack: u64,
    acks: HashSet<u64>,
}

impl View for ServerBook {
    type V = ServerBookView;

    closed spec fn view(&self) -> ServerBookView {
        ServerBookView {
            this_node: self.this_node,
            known: self.known_nodes@,
            reachable: self.reachable_nodes@,
            connections: self.connections@,
            connecting: self.connecting@,
            next_ack: self.next_ack,
            acks: self.acks@,
        }
    }
}

impl ServerBook {
    /// The invariant: this node is known, every open-connection count is
    /// positive, and every pending acknowledgement was handed out already.
    pub open spec fn wf(&self) -> bool {
        &&& self@.known.contains_key(self@.this_node)
        &&& forall|id: NodeId| #[trigger] self@.connections.contains_key(id) ==> self@.connections[id] > 0
        &&& forall|a: u64| #[trigger] self@.acks.contains(a) ==> a < self@.next_ack
    }

    /// The bookkeeping of a server that just started as `this_node`: it knows
    /// only itself.
    pub fn new(this_node: NodeInfo) -> (b: ServerBook)
        ensures
            b.wf(),
            b@.this_node == this_node.id,
            b@.known == Map::<NodeId, NodeInfo>::empty().insert(this_node.id, this_node),
            b@.reachable == Map::<NodeId, NodeAddr>::empty(),
            b@.connections == Map::<NodeId, u64>::empty(),
            b@.connecting == Set::<NodeId>::empty(),
            b@.next_ack == 0,
            b@.acks == Set::<u64>::empty(),
    {
        let id = this_node.id;
        let mut known_nodes: HashMap<NodeId, NodeInfo> = HashMap::new();
        known_nodes.insert(id, this_node);
        ServerBook {
            this_node: id,
            known_nodes,
            reachable_nodes: HashMap::new(),
            connections: HashMap::new(),
            connecting: HashSet::new(),
            next_ack: 0,
            acks: HashSet::new(),
        }
    }

    /// The identifier of this node.
    pub fn this_node(&self) -> (id: NodeId)
        ensures
            id == self@.this_node,
    {
        self.this_node
    }

    /// What is known of node `id`.
    pub fn known_node(&self, id: NodeId) -> (n: Option<&NodeInfo>)
        ensures
            match n {
                Some(n) => self@.known.contains_key(id) && *n == self@.known[id],
                None => !self@.known.contains_key(id),
            },
    {
        self.known_nodes.get(&id)
    }

    /// The identifiers of all known nodes, this one included, each once.
    pub fn known_node_ids(&self) -> (ids: Vec<NodeId>)
        ensures
            ids@.to_set() == self@.known.dom(),
            ids@.no_duplicates(),
    {
        key_list(&self.known_nodes)
    }

    /// The identifiers of the nodes found reachable, each once.
    pub fn reachable_node_ids(&self) -> (ids: Vec<NodeId>)
        ensures
            ids@.to_set() == self@.reachable.dom(),
            ids@.no_duplicates(),
    {
        key_list(&self.reachable_nodes)
    }

    /// The nodes a broadcast goes to: every known node but this one, each once.
    pub fn broadcast_targets(&self) -> (ids: Vec<NodeId>)
        ensures
            ids@.to_set() == self@.known.dom().remove(self@.this_node),
            ids@.no_duplicates(),
    {
        let all = key_list(&self.known_nodes);
        let mut ids: Vec<NodeId> = Vec::new();
        let mut i: usize = 0;
        while i < all.len()
            invariant
                i <= all@.len(),
                all@.no_duplicates(),
                all@.to_set() == self@.known.dom(),
                ids@.no_duplicates(),
                forall|x: NodeId| ids@.contains(x) <==> (all@.take(i as int).contains(x) && x != self@.this_node),
            decreases all@.len() - i,
        {
            let id = all[i];
            proof {
                assert(all@.take(i + 1) =~= all@.take(i as int).push(id));
                assert(!all@.take(i as int).contains(id)) by {
                    if all@.take(i as int).contains(id) {
                        let j = choose|j: int| 0 <= j < i && all@[j] == id;
                        assert(all@[j] == all@[i as int]);
                    }
                }
            }
            let ghost ids0 = ids@;
            if id != self.this_node {
                let ghost before = ids@;
                ids.push(id);
                proof {
                    assert(ids@ == before.push(id));
                    assert(!before.contains(id));
                    assert forall|a: int, b: int| 0 <= a < ids@.len() && 0 <= b < ids@.len() && a != b implies ids@[a] != ids@[b] by {
                        if a < before.len() && b < before.len() {
                            assert(before[a] != before[b]);
                        } else if a < before.len() {
                            assert(before[a] == ids@[a]);
                        } else {
                            assert(before[b] == ids@[b]);
                        }
                    }
                    assert forall|x: NodeId| ids@.contains(x) <==> (before.contains(x) || x == id) by {
                        if before.contains(x) {
                            let j = choose|j: int| 0 <= j < before.len() && before[j] == x;
                            assert(ids@[j] == x);
                        }
                        if x == id {
                            assert(ids@[before.len() as int] == x);
                        }
                        if ids@.contains(x) {
                            let j = choose|j: int| 0 <= j < ids@.len() && ids@[j] == x;
                            if j < before.len() {
                                assert(before[j] == x);
                            }
                        }
                    }
                }
            }
            proof {
                let ghost next = all@.take(i + 1);
                let ghost prev = all@.take(i as int);
                assert forall|x: NodeId| next.contains(x) <==> (prev.contains(x) || x == id) by {
                    if prev.contains(x) {
                        let j = choose|j: int| 0 <= j < prev.len() && prev[j] == x;
                        assert(next[j] == x);
                    }
                    if x == id {
                        assert(next[i as int] == x);
                    }
                    if next.contains(x) {
                        let j = choose|j: int| 0 <= j < next.len() && next[j] == x;
                        if j < i {
                            assert(prev[j] == x);
                        }
                    }
                }
            }
            proof {
                let ghost next = all@.take(i + 1);
                assert forall|x: NodeId| ids@.contains(x) <==> (next.contains(x) && x != self@.this_node) by {
                    assert(next.contains(x) <==> (all@.take(i as int).contains(x) || x == id));
                    assert(ids0.contains(x) <==> (all@.take(i as int).contains(x) && x != self@.this_node));
                    if id != self@.this_node {
                        assert(ids@.contains(x) <==> (ids0.contains(x) || x == id));
                    } else {
                        assert(ids@ == ids0);
                    }
                }
            }
            i = i + 1;
        }
        proof {
            assert(all@.take(all@.len() as int) =~= all@);
            assert(ids@.to_set() =~= self@.known.dom().remove(self@.this_node)) by {
                assert forall|x: NodeId| ids@.to_set().contains(x) <==> self@.known.dom().remove(self@.this_node).contains(x) by {
                    assert(all@.to_set().contains(x) <==> all@.contains(x));
                }
            }
        }
        ids
    }

    /// Learns of `node`: a node not known yet is added; a known one is
    /// replaced only by a description made later, so the newest stays.
    pub fn add_known_node(&mut self, node: NodeInfo)
        requires
            old(self).wf(),
        ensures
            final(self).wf(),
            final(self)@ == (ServerBookView { known: with_known_node(old(self)@.known, node), ..old(self)@ }),
    {
        let id = node.id;
        match self.known_nodes.remove(&id) {
            None => {
                self.known_nodes.insert(id, node);
            },
            Some(found) => {
                if found.time.is_before(&node.time) {
                    self.known_nodes.insert(id, node);
                } else {
                    self.known_nodes.insert(id, found);
                }
            },
        }
        proof {
            assert(self@.known =~= with_known_node(old(self)@.known, node));
        }
    }

    /// Learns of each of `nodes` in turn.
    pub fn add_known_nodes(&mut self, nodes: Vec<NodeInfo>)
        requires
            old(self).wf(),
        ensures
            final(self).wf(),
            final(self)@ == (ServerBookView { known: with_known_nodes(old(self)@.known, nodes@), ..old(self)@ }),
    {
        let ghost all = nodes@;
        let mut rest = nodes;
        let ghost mut done: Seq<NodeInfo> = Seq::empty();
        while rest.len() > 0
            invariant
                self.wf(),
                all == done + rest@,
                self@ == (ServerBookView { known: with_known_nodes(old(self)@.known, done), ..old(self)@ }),
            decreases rest@.len(),
        {
            let node = rest.remove(0);
            let ghost before = done;
            proof {
                done = done.push(node);
                assert(done.drop_last() =~= before);
                assert(all =~= done + rest@);
            }
            self.add_known_node(node);
        }
        proof {
            assert(done =~= all);
        }
    }

    /// Records that node `id` answers at `addr`; true when it was not
    /// reachable before, which is when subscribers are told.
    pub fn add_reachable_node(&mut self, id: NodeId, addr: NodeAddr) -> (newly: bool)
        requires
            old(self).wf(),
        ensures
            final(self).wf(),
            newly == !old(self)@.reachable.contains_key(id),
            final(self)@ == (ServerBookView { reachable: old(self)@.reachable.insert(id, addr), ..old(self)@ }),
    {
        let prev = self.reachable_nodes.insert(id, addr);
        prev.is_none()
    }

    /// Records that node `id` no longer answers; true when it was reachable
    /// before, which is when subscribers are told.
    pub fn remove_reachable_node(&mut self, id: NodeId) -> (was: bool)
        requires
            old(self).wf(),
        ensures
            final(self).wf(),
            was == old(self)@.reachable.contains_key(id),
            final(self)@ == (ServerBookView { reachable: old(self)@.reachable.remove(id), ..old(self)@ }),
    {
        let prev = self.reachable_nodes.remove(&id);
        prev.is_some()
    }

    /// Records a connection to node `id` that was just established: the
    /// connect under way, if any, is over. True when another connection to
    /// the node was open already.
    pub fn add_connection(&mut self, id: NodeId) -> (duplicate: bool)
        requires
            old(self).wf(),
            old(self)@.connections.contains_key(id) ==> old(self)@.connections[id] < u64::MAX,
        ensures
            final(self).wf(),
            duplicate == old(self)@.connections.contains_key(id),
            final(self)@ == (ServerBookView {
                connecting: old(self)@.connecting.remove(id),
                connections: old(self)@.connections.insert(
                    id,
                    if old(self)@.connections.contains_key(id) { (old(self)@.connections[id] + 1) as u64 } else { 1 },
                ),
                ..old(self)@
            }),
    {
        self.connecting.remove(&id);
        let n: u64 = match self.connections.get(&id) {
            Some(n) => *n,
            None => 0,
        };
        self.connections.insert(id, n + 1);
        n != 0
    }

    /// Records that a connection to node `id` closed: the connect under way,
    /// if any, is over, and the node's entry goes with its last connection.
    pub fn remove_connection(&mut self, id: NodeId)
        requires
            old(self).wf(),
        ensures
            final(self).wf(),
            final(self)@ == (ServerBookView {
                connecting: old(self)@.connecting.remove(id),
                connections: if !old(self)@.connections.contains_key(id) {
                    old(self)@.connections
                } else if old(self)@.connections[id] == 1 {
                    old(self)@.connections.remove(id)
                } else {
                    old(self)@.connections.insert(id, (old(self)@.connections[id] - 1) as u64)
                },
                ..old(self)@
            }),
    {
        self.connecting.remove(&id);
        match self.connections.get(&id) {
            None => {},
            Some(n) => {
                let n = *n;
                if n == 1 {
                    self.connections.remove(&id);
                } else {
                    self.connections.insert(id, n - 1);
                }
            },
        }
    }

    /// Starts a request: hands out the next acknowledgement number and
    /// records that an answer to it is awaited.
    pub fn begin_request(&mut self) -> (ack: u64)
        requires
            old(self).wf(),
            old(self)@.next_ack < u64::MAX,
        ensures
            final(self).wf(),
            ack == old(self)@.next_ack,
            !old(self)@.acks.contains(ack),
            final(self)@ == (ServerBookView {
                next_ack: (old(self)@.next_ack + 1) as u64,
                acks: old(self)@.acks.insert(ack),
                ..old(self)@
            }),
    {
        let ack = self.next_ack;
        self.next_ack = self.next_ack + 1;
        self.acks.insert(ack);
        ack
    }

    /// Stops awaiting an answer to `ack`; true when one was awaited, that
    /// is, when an answer that just arrived is expected.
    pub fn take_ack(&mut self, ack: u64) -> (awaited: bool)
        requires
            old(self).wf(),
        ensures
            final(self).wf(),
            awaited == old(self)@.acks.contains(ack),
            final(self)@ == (ServerBookView { acks: old(self)@.acks.remove(ack), ..old(self)@ }),
    {
        self.acks.remove(&ack)
    }

    /// The number of connections to node `id` that are open, if any is.
    pub fn connection_count(&self, id: NodeId) -> (n: Option<u64>)
        ensures
            n == (if self@.connections.contains_key(id) { Some(self@.connections[id]) } else { None::<u64> }),
    {
        match self.connections.get(&id) {
            Some(c) => Some(*c),
            None => None,
        }
    }

    /// Decides where a message for node `id` goes; when a connect is to be
    /// opened, it is recorded as under way.
    pub fn send_route(&mut self, id: NodeId) -> (r: SendRoute)
        requires
            old(self).wf(),
        ensures
            final(self).wf(),
            r == send_route_spec(old(self)@, id),
            final(self)@ == (match r {
                SendRoute::Connect(_) | SendRoute::ProbeThenConnect => ServerBookView {
                    connecting: old(self)@.connecting.insert(id),
                    ..old(self)@
                },
                _ => old(self)@,
            }),
    {
        if !self.known_nodes.contains_key(&id) {
            return SendRoute::UnknownNode;
        }
        if self.connecting.contains(&id) {
            return SendRoute::AwaitConnect;
        }
        let r = match self.reachable_nodes.get(&id) {
            Some(addr) => SendRoute::Connect(*addr),
            None => SendRoute::ProbeThenConnect,
        };
        self.connecting.insert(id);
        r
    }

    /// Decides what the probing round does with node `node`, filed under `id`.
    pub fn probe_action(&self, id: NodeId, node: &NodeInfo) -> (a: ProbeAction)
        ensures
            a == probe_action_spec(self@, id, *node),
    {
        if id == self.this_node || node.ipv4.len() == 0 || self.connections.contains_key(&id)
            || self.connecting.contains(&id) {
            return ProbeAction::Skip;
        }
        match self.reachable_nodes.get(&id) {
            Some(addr) => ProbeAction::CheckAddr(*addr),
            None => ProbeAction::ProbeAll,
        }
    }
}

/// Learning of a node never forgets one, and what is kept of the node is the
/// description made last: neither the one known before nor the one learnt
/// is newer.
pub proof fn law_known_node_newest(known: Map<NodeId, NodeInfo>, node: NodeInfo)
    ensures
        known.dom().subset_of(with_known_node(known, node).dom()),
        with_known_node(known, node).contains_key(node.id),
        !time_before(with_known_node(known, node)[node.id].time, node.time),
        known.contains_key(node.id) ==> !time_before(with_known_node(known, node)[node.id].time, known[node.id].time),
        forall|id: NodeId| id != node.id && #[trigger] known.contains_key(id) ==> with_known_node(known, node)[id] == known[id],
{
}

} // verus!
