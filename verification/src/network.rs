//! Network listener.
//!
//! The listener is the answering side of the discovery handshake: while
//! running it owns a socket on the well-known port and a second socket on
//! the broadcast address, answers discovery broadcasts, and echoes every
//! datagram the load worker sends it back to the sender.  The sockets are
//! the embedder's; this module holds the verified decisions: the socket
//! lifecycle driven by `Start`/`Stop`, what to do each polling quantum,
//! which datagrams to answer, and the consumer-side cache.

use vstd::prelude::*;
use crate::control::{
    Command, commands_request_exit, echoes_of_commands, running_after_commands,
};
use crate::netload::DISCOVERY_BYTE;

verus! {

/// Inbound command, consumer to listener.
#[derive(Clone, Copy, Debug, PartialEq, Eq, Structural)]
pub enum MessageToNetworkListener {
    Start,
    Stop,
    Exit,
}

impl MessageToNetworkListener {
    /// The discipline-neutral control command this carries.
    pub open spec fn as_command(self) -> Command {
        match self {
            MessageToNetworkListener::Start => Command::Start,
            MessageToNetworkListener::Stop => Command::Stop,
            MessageToNetworkListener::Exit => Command::Exit,
        }
    }
}

/// Outbound status, listener to consumer.
#[derive(Clone, Copy, Debug, PartialEq, Eq, Structural)]
pub enum MessageFromNetworkListener {
    Listening(bool),
    Done,
}

/// The listener's own state: its control flag, and whether its sockets
/// are currently open.
#[derive(Clone, Copy, Debug, PartialEq, Eq, Structural)]
pub struct ListenerState {
    pub running: bool,
    pub sockets_open: bool,
}

/// Whether a `Stop` is drained before the first `Exit`: each one closes
/// the sockets, to be reopened on the next running quantum.
pub open spec fn stop_before_exit(cmds: Seq<Command>) -> bool
    decreases cmds.len(),
{
    if cmds.len() == 0 {
        false
    } else {
        match cmds[0] {
            Command::Stop => true,
            Command::Exit => false,
            Command::Start => stop_before_exit(cmds.skip(1)),
        }
    }
}

/// Result of draining one batch of queued listener commands.
pub struct ListenerDrainOutcome {
    pub state: ListenerState,
    /// The `Listening` transition echoes to send, in order.
    pub echoes: Vec<MessageFromNetworkListener>,
    pub exit: bool,
}

/// Drain one batch of queued commands.  The `running` flag follows the
/// shared control semantics; every drained `Stop` also closes the
/// sockets.
pub fn listener_drain(st: ListenerState, cmds: &Vec<MessageToNetworkListener>) -> (out:
    ListenerDrainOutcome)
    ensures
        ({
            let cs = cmds@.map_values(|m: MessageToNetworkListener| m.as_command());
            &&& out.state.running == running_after_commands(st.running, cs)
            &&& out.state.sockets_open == (st.sockets_open && !stop_before_exit(cs))
            &&& out.echoes@ == echoes_of_commands(cs).map_values(
                |b: bool| MessageFromNetworkListener::Listening(b),
            )
            &&& out.exit == commands_request_exit(cs)
        }),
{
    let ghost cs = cmds@.map_values(|m: MessageToNetworkListener| m.as_command());
    let mut cur = st;
    let mut echoes: Vec<MessageFromNetworkListener> = Vec::new();
    let mut i: usize = 0;
    proof {
        assert(cs.skip(0) =~= cs);
    }
    while i < cmds.len()
        invariant
            i <= cmds@.len(),
            cs == cmds@.map_values(|m: MessageToNetworkListener| m.as_command()),
            running_after_commands(st.running, cs) == running_after_commands(
                cur.running,
                cs.skip(i as int),
            ),
            (st.sockets_open && !stop_before_exit(cs)) == (cur.sockets_open && !stop_before_exit(
                cs.skip(i as int),
            )),
            echoes_of_commands(cs).map_values(|b: bool| MessageFromNetworkListener::Listening(b))
                =~= echoes@ + echoes_of_commands(cs.skip(i as int)).map_values(
                |b: bool| MessageFromNetworkListener::Listening(b),
            ),
            commands_request_exit(cs) == commands_request_exit(cs.skip(i as int)),
        decreases cmds@.len() - i,
    {
        proof {
            assert(cs.skip(i as int).skip(1) =~= cs.skip(i as int + 1));
            assert(cs.skip(i as int)[0] == cs[i as int]);
            assert(cs[i as int] == cmds@[i as int].as_command());
            assert(echoes_of_commands(cs.skip(i as int)).map_values(
                |b: bool| MessageFromNetworkListener::Listening(b),
            ) =~= (match cs[i as int] {
                Command::Start => seq![MessageFromNetworkListener::Listening(true)]
                    + echoes_of_commands(cs.skip(i as int + 1)).map_values(
                    |b: bool| MessageFromNetworkListener::Listening(b),
                ),
                Command::Stop => seq![MessageFromNetworkListener::Listening(false)]
                    + echoes_of_commands(cs.skip(i as int + 1)).map_values(
                    |b: bool| MessageFromNetworkListener::Listening(b),
                ),
                Command::Exit => Seq::<MessageFromNetworkListener>::empty(),
            }));
        }
        match cmds[i] {
            MessageToNetworkListener::Start => {
                cur = ListenerState { running: true, ..cur };
                echoes.push(MessageFromNetworkListener::Listening(true));
            },
            MessageToNetworkListener::Stop => {
                cur = ListenerState { running: false, sockets_open: false };
                echoes.push(MessageFromNetworkListener::Listening(false));
            },
            MessageToNetworkListener::Exit => {
                return ListenerDrainOutcome { state: cur, echoes, exit: true };
            },
        }
        i = i + 1;
    }
    proof {
        assert(cs.skip(i as int) =~= Seq::<Command>::empty());
        assert(echoes@ + echoes_of_commands(cs.skip(i as int)).map_values(
            |b: bool| MessageFromNetworkListener::Listening(b),
        ) =~= echoes@);
    }
    ListenerDrainOutcome { state: cur, echoes, exit: false }
}

/// What the listener does in one quantum.
#[derive(Clone, Copy, Debug, PartialEq, Eq, Structural)]
pub enum ListenerQuantumAction {
    /// Running without sockets: bind the well-known and broadcast
    /// sockets, non-blocking.
    OpenSockets,
    /// Running with sockets open: poll both for datagrams.
    Poll,
    /// Not running: idle briefly.
    Idle,
}

/// Decide one listener quantum.
pub fn listener_quantum_action(st: &ListenerState) -> (a: ListenerQuantumAction)
    ensures
        a is OpenSockets <==> (st.running && !st.sockets_open),
        a is Poll <==> (st.running && st.sockets_open),
        a is Idle <==> !st.running,
{
    if !st.running {
        ListenerQuantumAction::Idle
    } else if st.sockets_open {
        ListenerQuantumAction::Poll
    } else {
        ListenerQuantumAction::OpenSockets
    }
}

/// After `OpenSockets`, record whether both binds succeeded.
pub fn listener_sockets_opened(st: &mut ListenerState, opened: bool)
    ensures
        *final(st) == (ListenerState { sockets_open: opened, ..*old(st) }),
{
    st.sockets_open = opened;
}

/// Whether a datagram just received must be echoed back to its sender.
/// On the broadcast socket only discovery requests — datagrams opening
/// with the discovery byte — are answered; on the well-known socket every
/// datagram is echoed.
pub fn listener_should_echo(on_broadcast_socket: bool, first_byte: u8) -> (echo: bool)
    ensures
        echo <==> (!on_broadcast_socket || first_byte == DISCOVERY_BYTE),
{
    !on_broadcast_socket || first_byte == DISCOVERY_BYTE
}

/// The consumer-side cache of a listener's last-known state.
#[derive(Clone, Copy, Debug, PartialEq, Eq, Structural)]
pub struct NetworkListener {
    pub listening: bool,
    pub done: bool,
}

impl NetworkListener {
    /// The cache of a freshly spawned listener.
    pub fn new() -> (t: Self)
        ensures
            t == (NetworkListener { listening: false, done: false }),
    {
        NetworkListener { listening: false, done: false }
    }

    /// The cache after applying one status.
    pub open spec fn apply_status(st: Self, msg: MessageFromNetworkListener) -> Self {
        match msg {
            MessageFromNetworkListener::Listening(l) => NetworkListener { listening: l, ..st },
            MessageFromNetworkListener::Done => NetworkListener { done: true, ..st },
        }
    }

    /// The cache after applying a drained status batch in order.
    pub open spec fn state_after_statuses(st: Self, msgs: Seq<MessageFromNetworkListener>) -> Self
        decreases msgs.len(),
    {
        if msgs.len() == 0 {
            st
        } else {
            Self::state_after_statuses(Self::apply_status(st, msgs[0]), msgs.skip(1))
        }
    }

    /// Fold a drained status batch into the cache.
    pub fn process_messages(&mut self, msgs: &Vec<MessageFromNetworkListener>)
        ensures
            *final(self) == Self::state_after_statuses(*old(self), msgs@),
    {
        let mut i: usize = 0;
        proof {
            assert(msgs@.skip(0) =~= msgs@);
        }
        while i < msgs.len()
            invariant
                i <= msgs@.len(),
                Self::state_after_statuses(*old(self), msgs@) == Self::state_after_statuses(
                    *self,
                    msgs@.skip(i as int),
                ),
            decreases msgs@.len() - i,
        {
            proof {
                assert(msgs@.skip(i as int).skip(1) =~= msgs@.skip(i as int + 1));
                assert(msgs@.skip(i as int)[0] == msgs@[i as int]);
            }
            match msgs[i] {
                MessageFromNetworkListener::Listening(l) => {
                    self.listening = l;
                },
                MessageFromNetworkListener::Done => {
                    self.done = true;
                },
            }
            i = i + 1;
        }
    }
}

/// Once the terminal `Done` has been cached, no later status clears it.
pub proof fn lemma_listener_done_sticky(st: NetworkListener, msgs: Seq<MessageFromNetworkListener>)
    requires
        st.done,
    ensures
        NetworkListener::state_after_statuses(st, msgs).done,
    decreases msgs.len(),
{
    if msgs.len() > 0 {
        lemma_listener_done_sticky(NetworkListener::apply_status(st, msgs[0]), msgs.skip(1));
    }
}

} // verus!
