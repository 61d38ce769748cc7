use loadgen::control::{drain_commands, Command, IDLE_SLEEP_MS};
use loadgen::MessageToGui;

#[test]
fn start_stop_start_echoes_in_order() {
    // The worker ends up running and echoes every transition in command
    // order.
    let cmds = vec![Command::Start, Command::Stop, Command::Start];
    let out = drain_commands(false, &cmds);
    assert!(out.running);
    assert!(!out.exit);
    assert_eq!(out.echoes, vec![true, false, true]);
}

#[test]
fn drain_is_idempotent_on_repeated_start() {
    // Start while already running re-confirms the flag, nothing more.
    let out = drain_commands(true, &vec![Command::Start]);
    assert!(out.running);
    assert_eq!(out.echoes, vec![true]);
}

#[test]
fn exit_stops_the_drain() {
    // Commands queued after the Exit are never applied or echoed.
    let cmds = vec![Command::Start, Command::Exit, Command::Stop];
    let out = drain_commands(false, &cmds);
    assert!(out.exit);
    assert!(out.running);
    assert_eq!(out.echoes, vec![true]);
}

#[test]
fn empty_drain_changes_nothing() {
    let out = drain_commands(true, &Vec::new());
    assert!(out.running);
    assert!(!out.exit);
    assert!(out.echoes.is_empty());
}

#[test]
fn stop_echoes_false() {
    let out = drain_commands(true, &vec![Command::Stop]);
    assert!(!out.running);
    assert_eq!(out.echoes, vec![false]);
}

#[test]
fn idle_sleep_matches_the_polling_interval() {
    assert_eq!(IDLE_SLEEP_MS, 100);
}

#[test]
fn gui_request_names_the_cpu_stop() {
    let m = MessageToGui::StopAllCpu;
    assert!(matches!(m, MessageToGui::StopAllCpu));
}
