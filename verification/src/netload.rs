//! Network load worker.
//!
//! The worker performs a broadcast-based peer discovery handshake on one
//! local network address, then — while running — sends a fixed-size
//! datagram to the discovered peer each quantum.  The sockets are the
//! embedder's; this module holds the verified decisions: what discovery
//! must report whatever came back, when the steady state may send, and
//! the consumer-side cache.  A worker whose discovery found no peer stays
//! alive, degrades to doing nothing, and still obeys every command.

use vstd::prelude::*;
use crate::control::Command;

verus! {

/// Well-known port the load worker binds on.
pub const LOAD_PORT: u16 = 5002;

/// Well-known port discovery broadcasts are sent to and answered from.
pub const DISCOVERY_PORT: u16 = 5003;

/// Size, in bytes, of the discovery datagram and of the steady-state
/// payload sent to the peer each quantum.
pub const PAYLOAD_LEN: usize = 1000;

/// First byte of a discovery request datagram.
pub const DISCOVERY_BYTE: u8 = 0x41;

/// A peer's socket address as plain values: an IP address in its
/// 16-octet form (IPv4 mapped into the low 4 octets) and a port.
#[derive(Clone, Copy, Debug)]
pub struct PeerAddr {
    pub octets: [u8; 16],
    pub port: u16,
}

/// Inbound command, consumer to network load worker.
#[derive(Clone, Copy, Debug, PartialEq, Eq, Structural)]
pub enum MessageToNetworkLoad {
    Start,
    Stop,
    Exit,
}

impl MessageToNetworkLoad {
    /// The discipline-neutral control command this carries.
    pub open spec fn as_command(self) -> Command {
        match self {
            MessageToNetworkLoad::Start => Command::Start,
            MessageToNetworkLoad::Stop => Command::Stop,
            MessageToNetworkLoad::Exit => Command::Exit,
        }
    }

    /// Translate to the shared control command.
    pub fn to_command(self) -> (c: Command)
        ensures
            c == self.as_command(),
    {
        match self {
            MessageToNetworkLoad::Start => Command::Start,
            MessageToNetworkLoad::Stop => Command::Stop,
            MessageToNetworkLoad::Exit => Command::Exit,
        }
    }
}

/// Outbound status, network load worker to consumer.
#[derive(Clone, Copy, Debug)]
pub enum MessageFromNetworkLoad {
    /// Discovery has been attempted, successfully or not.
    Ready(bool),
    Running(bool),
    /// The peer a discovery reply came from, if any.
    Server(Option<PeerAddr>),
    Done,
}

/// Translate a drained command batch to shared control commands.
pub fn netload_commands(cmds: &Vec<MessageToNetworkLoad>) -> (out: Vec<Command>)
    ensures
        out@ == cmds@.map_values(|m: MessageToNetworkLoad| m.as_command()),
{
    let mut out: Vec<Command> = Vec::new();
    let mut i: usize = 0;
    while i < cmds.len()
        invariant
            i <= cmds@.len(),
            out@ =~= cmds@.take(i as int).map_values(|m: MessageToNetworkLoad| m.as_command()),
        decreases cmds@.len() - i,
    {
        out.push(cmds[i].to_command());
        proof {
            assert(cmds@.take(i as int + 1) =~= cmds@.take(i as int).push(cmds@[i as int]));
            assert(cmds@.take(i as int + 1).map_values(|m: MessageToNetworkLoad| m.as_command())
                =~= cmds@.take(i as int).map_values(|m: MessageToNetworkLoad| m.as_command()).push(
                cmds@[i as int].as_command(),
            ));
        }
        i = i + 1;
    }
    proof {
        assert(cmds@.take(i as int) =~= cmds@);
    }
    out
}

/// Wrap `running` transition echoes in the network status type.
pub fn netload_running_statuses(echoes: &Vec<bool>) -> (out: Vec<MessageFromNetworkLoad>)
    ensures
        out@.len() == echoes@.len(),
        forall|j: int|
            0 <= j < echoes@.len() ==> #[trigger] out@[j] == MessageFromNetworkLoad::Running(
                echoes@[j],
            ),
{
    let mut out: Vec<MessageFromNetworkLoad> = Vec::new();
    let mut i: usize = 0;
    while i < echoes.len()
        invariant
            i <= echoes@.len(),
            out@.len() == i,
            forall|j: int|
                0 <= j < i ==> #[trigger] out@[j] == MessageFromNetworkLoad::Running(echoes@[j]),
        decreases echoes@.len() - i,
    {
        out.push(MessageFromNetworkLoad::Running(echoes[i]));
        i = i + 1;
    }
    out
}

/// The network load worker's state after discovery.
#[derive(Clone, Copy, Debug)]
pub struct NetWorkerState {
    pub running: bool,
    /// The discovered peer, if discovery got a reply.
    pub peer: Option<PeerAddr>,
}

/// What discovery must report, given the reply it got (or `None`: the
/// bind, the broadcast, or the receive failed or timed out).  A reply
/// announces the peer first; `Ready(true)` follows in every case, because
/// discovery was attempted regardless of success.
pub fn discovery_statuses(reply: Option<PeerAddr>) -> (out: (Vec<MessageFromNetworkLoad>,
    NetWorkerState))
    ensures
        out.1.running == false,
        out.1.peer == reply,
        reply is Some ==> out.0@.len() == 2 && out.0@[0]
            == MessageFromNetworkLoad::Server(reply) && out.0@[1]
            == MessageFromNetworkLoad::Ready(true),
        reply is None ==> out.0@.len() == 1 && out.0@[0] == MessageFromNetworkLoad::Ready(true),
{
    let mut msgs: Vec<MessageFromNetworkLoad> = Vec::new();
    if reply.is_some() {
        msgs.push(MessageFromNetworkLoad::Server(reply));
    }
    msgs.push(MessageFromNetworkLoad::Ready(true));
    (msgs, NetWorkerState { running: false, peer: reply })
}

/// What the steady state does in one quantum.
#[derive(Clone, Copy, Debug, PartialEq, Eq, Structural)]
pub enum NetQuantumAction {
    /// Send one fixed-size datagram to the discovered peer, fire and
    /// forget.
    SendPayload,
    /// Not running, or no peer was discovered: idle briefly.
    Idle,
}

/// Decide one steady-state quantum: the worker sends exactly when it is
/// running and a peer is known; with no peer it degrades to doing
/// nothing, but stays alive and keeps obeying commands.
pub fn net_quantum_action(st: &NetWorkerState) -> (a: NetQuantumAction)
    ensures
        a is SendPayload <==> (st.running && st.peer is Some),
        a is Idle <==> !(st.running && st.peer is Some),
{
    if st.running && st.peer.is_some() {
        NetQuantumAction::SendPayload
    } else {
        NetQuantumAction::Idle
    }
}

/// The consumer-side cache of a network load worker's last-known state.
#[derive(Clone, Copy, Debug)]
pub struct NetworkLoad {
    pub ready: bool,
    pub running: bool,
    pub done: bool,
    pub server: Option<PeerAddr>,
}

impl NetworkLoad {
    /// The cache of a freshly spawned worker.
    pub fn new() -> (t: Self)
        ensures
            t.ready == false && t.running == false && t.done == false && t.server is None,
    {
        NetworkLoad { ready: false, running: false, done: false, server: None }
    }

    /// The cache after applying one status.
    pub open spec fn apply_status(st: Self, msg: MessageFromNetworkLoad) -> Self {
        match msg {
            MessageFromNetworkLoad::Ready(l) => NetworkLoad { ready: l, ..st },
            MessageFromNetworkLoad::Running(r) => NetworkLoad { running: r, ..st },
            MessageFromNetworkLoad::Server(s) => NetworkLoad { server: s, ..st },
            MessageFromNetworkLoad::Done => NetworkLoad { done: true, ..st },
        }
    }

    /// The cache after applying a drained status batch in order.
    pub open spec fn state_after_statuses(st: Self, msgs: Seq<MessageFromNetworkLoad>) -> Self
        decreases msgs.len(),
    {
        if msgs.len() == 0 {
            st
        } else {
            Self::state_after_statuses(Self::apply_status(st, msgs[0]), msgs.skip(1))
        }
    }

    /// Fold a drained status batch into the cache.
    pub fn process_messages(&mut self, msgs: &Vec<MessageFromNetworkLoad>)
        ensures
            *final(self) == Self::state_after_statuses(*old(self), msgs@),
    {
        let mut i: usize = 0;
        proof {
            assert(msgs@.skip(0) =~= msgs@);
        }
        while i < msgs.len()
            invariant
                i <= msgs@.len(),
                Self::state_after_statuses(*old(self), msgs@) == Self::state_after_statuses(
                    *self,
                    msgs@.skip(i as int),
                ),
            decreases msgs@.len() - i,
        {
            proof {
                assert(msgs@.skip(i as int).skip(1) =~= msgs@.skip(i as int + 1));
                assert(msgs@.skip(i as int)[0] == msgs@[i as int]);
            }
            match msgs[i] {
                MessageFromNetworkLoad::Ready(l) => {
                    self.ready = l;
                },
                MessageFromNetworkLoad::Running(r) => {
                    self.running = r;
                },
                MessageFromNetworkLoad::Server(s) => {
                    self.server = s;
                },
                MessageFromNetworkLoad::Done => {
                    self.done = true;
                },
            }
            i = i + 1;
        }
    }
}

/// Once the terminal `Done` has been cached, no later status clears it.
pub proof fn lemma_netload_done_sticky(st: NetworkLoad, msgs: Seq<MessageFromNetworkLoad>)
    requires
        st.done,
    ensures
        NetworkLoad::state_after_statuses(st, msgs).done,
    decreases msgs.len(),
{
    if msgs.len() > 0 {
        lemma_netload_done_sticky(NetworkLoad::apply_status(st, msgs[0]), msgs.skip(1));
    }
}

} // verus!
