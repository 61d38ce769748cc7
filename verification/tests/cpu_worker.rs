use loadgen::cpu::{
    cpu_drain, cpu_quantum_outcome, cpu_should_work, CpuControl, CpuLoadThread, KernelOutcome,
    MessageFromCpuLoad, MessageToCpuLoad, KERNEL_OPS_PER_UNIT, SENTINEL_RATE,
};

const STOPPED: CpuControl = CpuControl { running: false, associated: false };

#[test]
fn associate_then_start() {
    let cmds = vec![MessageToCpuLoad::Associate(true), MessageToCpuLoad::Start];
    let out = cpu_drain(STOPPED, &cmds);
    assert!(out.state.running);
    assert!(out.state.associated);
    assert!(!out.exit);
    assert_eq!(
        out.echoes,
        vec![
            MessageFromCpuLoad::Associated(true),
            MessageFromCpuLoad::Running(true),
        ]
    );
}

#[test]
fn failed_association_is_echoed() {
    let out = cpu_drain(STOPPED, &vec![MessageToCpuLoad::Associate(false)]);
    assert!(!out.state.associated);
    assert_eq!(out.echoes, vec![MessageFromCpuLoad::Associated(false)]);
}

#[test]
fn cpu_obeys_full_command_sequence() {
    let cmds = vec![
        MessageToCpuLoad::Start,
        MessageToCpuLoad::Stop,
        MessageToCpuLoad::Exit,
    ];
    let out = cpu_drain(CpuControl { running: false, associated: true }, &cmds);
    assert!(out.exit);
    assert!(!out.state.running);
    assert_eq!(
        out.echoes,
        vec![
            MessageFromCpuLoad::Running(true),
            MessageFromCpuLoad::Running(false),
        ]
    );
}

#[test]
fn work_needs_running_and_association() {
    assert!(cpu_should_work(&CpuControl { running: true, associated: true }));
    assert!(!cpu_should_work(&CpuControl { running: true, associated: false }));
    assert!(!cpu_should_work(&CpuControl { running: false, associated: true }));
}

#[test]
fn unsupported_kernel_reports_the_sentinel() {
    // No accelerated kernel on this architecture: a fixed sentinel rate,
    // not a runtime failure, and the count is left alone.
    let r = cpu_quantum_outcome(5, KernelOutcome::Unsupported, 0, 1000);
    assert_eq!(r.performance, Some(SENTINEL_RATE));
    assert_eq!(r.n_next, 5);
    let r2 = cpu_quantum_outcome(123, KernelOutcome::Unsupported, 700, 1000);
    assert_eq!(r2.performance, Some(SENTINEL_RATE));
    assert_eq!(r2.n_next, 123);
}

#[test]
fn accelerated_quantum_reports_measured_rate() {
    // 1,000,000 units of 96 operations in 2000 ms: 48 Mops/s, and the
    // count halves toward the 1000 ms target.
    let r = cpu_quantum_outcome(
        1_000_000,
        KernelOutcome::Accelerated { ops_per_unit: KERNEL_OPS_PER_UNIT },
        2000,
        1000,
    );
    assert_eq!(r.performance, Some(48_000_000));
    assert_eq!(r.n_next, 500_000);
}

#[test]
fn accelerated_quantum_too_fast_reports_nothing() {
    let r = cpu_quantum_outcome(
        1_000_000,
        KernelOutcome::Accelerated { ops_per_unit: KERNEL_OPS_PER_UNIT },
        0,
        1000,
    );
    assert_eq!(r.performance, None);
    assert_eq!(r.n_next, 10_000_000);
}

#[test]
fn cpu_cache_folds_statuses_in_order() {
    let mut cache = CpuLoadThread::new();
    assert!(!cache.running && !cache.done && !cache.associated);
    assert_eq!(cache.performance, 0);
    let msgs = vec![
        MessageFromCpuLoad::Running(true),
        MessageFromCpuLoad::Performance(42),
        MessageFromCpuLoad::Associated(true),
        MessageFromCpuLoad::Performance(77),
    ];
    cache.process_messages(&msgs);
    assert!(cache.running);
    assert!(cache.associated);
    // The later performance figure supersedes the earlier one.
    assert_eq!(cache.performance, 77);
    assert!(!cache.done);
}

#[test]
fn cpu_cache_done_is_terminal() {
    let mut cache = CpuLoadThread::new();
    cache.process_messages(&vec![MessageFromCpuLoad::Done]);
    assert!(cache.done);
    cache.process_messages(&vec![MessageFromCpuLoad::Running(true)]);
    assert!(cache.done);
    assert!(cache.running);
}
