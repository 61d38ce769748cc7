use loadgen::control::{drain_commands, Command};
use loadgen::netload::{
    discovery_statuses, net_quantum_action, netload_commands, netload_running_statuses,
    MessageFromNetworkLoad, MessageToNetworkLoad, NetQuantumAction, NetWorkerState, NetworkLoad,
    PeerAddr, DISCOVERY_BYTE, DISCOVERY_PORT, LOAD_PORT, PAYLOAD_LEN,
};
use loadgen::network::{
    listener_drain, listener_quantum_action, listener_should_echo, listener_sockets_opened,
    ListenerQuantumAction, ListenerState, MessageFromNetworkListener, MessageToNetworkListener,
    NetworkListener,
};

fn peer() -> PeerAddr {
    let mut octets = [0u8; 16];
    octets[12] = 192;
    octets[13] = 168;
    octets[14] = 0;
    octets[15] = 7;
    PeerAddr { octets, port: DISCOVERY_PORT }
}

#[test]
fn protocol_constants() {
    assert_eq!(LOAD_PORT, 5002);
    assert_eq!(DISCOVERY_PORT, 5003);
    assert_eq!(DISCOVERY_BYTE, b'A');
    assert_eq!(PAYLOAD_LEN, 1000);
}

#[test]
fn discovery_without_peer_still_reports_ready() {
    // No reply: the worker is still Ready(true), has no server, stays
    // alive, and keeps obeying commands.
    let (msgs, st) = discovery_statuses(None);
    assert_eq!(msgs.len(), 1);
    assert!(matches!(msgs[0], MessageFromNetworkLoad::Ready(true)));
    assert!(st.peer.is_none());
    assert!(!st.running);

    // With no peer the steady state degrades to doing nothing...
    let started = NetWorkerState { running: true, ..st };
    assert_eq!(net_quantum_action(&started), NetQuantumAction::Idle);

    // ...but Stop and Exit still work.
    let cmds = netload_commands(&vec![
        MessageToNetworkLoad::Start,
        MessageToNetworkLoad::Stop,
        MessageToNetworkLoad::Exit,
    ]);
    let out = drain_commands(st.running, &cmds);
    assert!(out.exit);
    assert!(!out.running);
    assert_eq!(out.echoes, vec![true, false]);
}

#[test]
fn discovery_with_peer_announces_server_then_ready() {
    let (msgs, st) = discovery_statuses(Some(peer()));
    assert_eq!(msgs.len(), 2);
    match msgs[0] {
        MessageFromNetworkLoad::Server(Some(a)) => {
            assert_eq!(a.port, DISCOVERY_PORT);
            assert_eq!(a.octets[15], 7);
        },
        _ => panic!("expected the server announcement first"),
    }
    assert!(matches!(msgs[1], MessageFromNetworkLoad::Ready(true)));
    assert!(st.peer.is_some());
}

#[test]
fn steady_state_sends_only_while_running_with_peer() {
    let with_peer = NetWorkerState { running: true, peer: Some(peer()) };
    assert_eq!(net_quantum_action(&with_peer), NetQuantumAction::SendPayload);
    let stopped = NetWorkerState { running: false, peer: Some(peer()) };
    assert_eq!(net_quantum_action(&stopped), NetQuantumAction::Idle);
}

#[test]
fn netload_statuses_wrap_echoes() {
    let msgs = netload_running_statuses(&vec![true, false]);
    assert_eq!(msgs.len(), 2);
    assert!(matches!(msgs[0], MessageFromNetworkLoad::Running(true)));
    assert!(matches!(msgs[1], MessageFromNetworkLoad::Running(false)));
}

#[test]
fn netload_cache_folds_statuses_in_order() {
    let mut cache = NetworkLoad::new();
    assert!(!cache.ready && cache.server.is_none());
    let msgs = vec![
        MessageFromNetworkLoad::Server(Some(peer())),
        MessageFromNetworkLoad::Ready(true),
        MessageFromNetworkLoad::Running(true),
    ];
    cache.process_messages(&msgs);
    assert!(cache.ready);
    assert!(cache.running);
    assert!(!cache.done);
    let server = cache.server.expect("server cached");
    assert_eq!(server.port, DISCOVERY_PORT);
}

#[test]
fn netload_cache_done_is_terminal() {
    let mut cache = NetworkLoad::new();
    cache.process_messages(&vec![MessageFromNetworkLoad::Done]);
    assert!(cache.done);
    cache.process_messages(&vec![MessageFromNetworkLoad::Ready(true)]);
    assert!(cache.done);
}

#[test]
fn listener_stop_closes_its_sockets() {
    let open = ListenerState { running: true, sockets_open: true };
    let out = listener_drain(open, &vec![MessageToNetworkListener::Stop]);
    assert!(!out.state.running);
    assert!(!out.state.sockets_open);
    assert!(!out.exit);
    assert_eq!(out.echoes, vec![MessageFromNetworkListener::Listening(false)]);
}

#[test]
fn listener_reopens_sockets_after_restart() {
    let mut st = ListenerState { running: false, sockets_open: false };
    let out = listener_drain(st, &vec![MessageToNetworkListener::Start]);
    st = out.state;
    assert!(st.running);
    assert_eq!(listener_quantum_action(&st), ListenerQuantumAction::OpenSockets);
    listener_sockets_opened(&mut st, true);
    assert_eq!(listener_quantum_action(&st), ListenerQuantumAction::Poll);
    let stopped = listener_drain(st, &vec![MessageToNetworkListener::Stop]).state;
    assert_eq!(listener_quantum_action(&stopped), ListenerQuantumAction::Idle);
}

#[test]
fn listener_exit_stops_the_drain() {
    let st = ListenerState { running: true, sockets_open: true };
    let out = listener_drain(
        st,
        &vec![MessageToNetworkListener::Exit, MessageToNetworkListener::Stop],
    );
    assert!(out.exit);
    assert!(out.echoes.is_empty());
    // The Stop queued after Exit was never applied.
    assert!(out.state.sockets_open);
}

#[test]
fn listener_answers_discovery_and_echoes_traffic() {
    // On the broadcast socket only discovery requests are answered.
    assert!(listener_should_echo(true, DISCOVERY_BYTE));
    assert!(!listener_should_echo(true, 0x42));
    // On the well-known socket every datagram is echoed back.
    assert!(listener_should_echo(false, DISCOVERY_BYTE));
    assert!(listener_should_echo(false, 0));
}

#[test]
fn listener_cache_folds_statuses() {
    let mut cache = NetworkListener::new();
    cache.process_messages(&vec![
        MessageFromNetworkListener::Listening(true),
        MessageFromNetworkListener::Listening(false),
    ]);
    assert!(!cache.listening);
    assert!(!cache.done);
    cache.process_messages(&vec![MessageFromNetworkListener::Done]);
    assert!(cache.done);
}
