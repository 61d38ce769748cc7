use loadgen::control::{drain_commands, Command};
use loadgen::disk::{
    disk_commands, disk_running_statuses, open_attempt_action, scan_model_cycle, DiskLoad,
    MessageFromDiskLoad, MessageToDiskLoad, OpenAttemptAction, RawReadAction, RawReadState,
    ScanAction, ScanEvent, TreeDir, TreeEntry, TreeScanState, OPEN_RETRY_DELAY_MS,
};

#[test]
fn open_retries_until_success_or_exit() {
    // A failed open is retried on a fixed delay, never given up.
    assert_eq!(open_attempt_action(false, false), OpenAttemptAction::RetryAfterDelay);
    assert_eq!(open_attempt_action(true, false), OpenAttemptAction::Proceed);
    // Exit wins even over a successful open.
    assert_eq!(open_attempt_action(true, true), OpenAttemptAction::Abort);
    assert_eq!(open_attempt_action(false, true), OpenAttemptAction::Abort);
    assert_eq!(OPEN_RETRY_DELAY_MS, 100);
}

#[test]
fn raw_mode_wraps_without_error_and_keeps_reporting() {
    // End of stream is no error: the stream rewinds and performance
    // reports resume after the wrap.
    let mut st = RawReadState::new();
    assert_eq!(st.read_step(4096), RawReadAction::Advance);
    assert_eq!(st.read_step(0), RawReadAction::Rewind);
    assert_eq!(st.read_step(4096), RawReadAction::Advance);
    let report = st.take_report(1000);
    assert_eq!(report, MessageFromDiskLoad::Performance(8192));
    // The counter was reset by the report: it does not accumulate across
    // wraps.
    let report2 = st.take_report(1000);
    assert_eq!(report2, MessageFromDiskLoad::Performance(0));
}

#[test]
fn raw_mode_counter_saturates_instead_of_overflowing() {
    let mut st = RawReadState { since_report: u64::MAX - 10 };
    assert_eq!(st.read_step(100), RawReadAction::Advance);
    assert_eq!(st.since_report, u64::MAX);
    assert_eq!(st.read_step(100), RawReadAction::Advance);
    assert_eq!(st.since_report, u64::MAX);
}

#[test]
fn raw_report_scales_to_actual_elapsed_time() {
    let mut st = RawReadState::new();
    st.read_step(512_000);
    // Half a second of wall clock: bytes per second doubles the bytes.
    assert_eq!(st.take_report(500), MessageFromDiskLoad::Performance(1_024_000));
}

#[test]
fn tree_scan_cycle_over_empty_subdir_and_empty_file() {
    // A root holding one empty subdirectory and one 0-byte file: the
    // traversal completes a full cycle and restarts without getting
    // stuck.
    let mut st = TreeScanState::start();
    assert_eq!(st.depth, 1);
    assert!(!st.streaming);

    // Entry one: the empty subdirectory.
    assert_eq!(st.step(ScanEvent::Subdir), ScanAction::Descend);
    assert_eq!(st.depth, 2);
    assert_eq!(st.step(ScanEvent::DirExhausted), ScanAction::Pop);
    assert_eq!(st.depth, 1);

    // Entry two: the 0-byte file.
    assert_eq!(st.step(ScanEvent::FileFound), ScanAction::OpenFile);
    assert!(st.streaming);
    assert_eq!(st.step(ScanEvent::ReadBytes(0)), ScanAction::NextEntry);
    assert!(!st.streaming);

    // The root iterator empties: the cycle is complete and the scan
    // restarts from the root.
    assert_eq!(st.step(ScanEvent::DirExhausted), ScanAction::Restart);
    assert_eq!(st.depth, 1);
    assert!(!st.streaming);

    // The next cycle proceeds exactly like the first one.
    assert_eq!(st.step(ScanEvent::Subdir), ScanAction::Descend);
    assert_eq!(st.depth, 2);
}

#[test]
fn tree_scan_streams_and_reports_bytes() {
    let mut st = TreeScanState::start();
    st.step(ScanEvent::FileFound);
    assert_eq!(st.step(ScanEvent::ReadBytes(1000)), ScanAction::ReadMore);
    assert_eq!(st.step(ScanEvent::ReadBytes(500)), ScanAction::ReadMore);
    assert_eq!(st.since_report, 1500);
    assert_eq!(st.take_report(1000), MessageFromDiskLoad::Performance(1500));
    assert_eq!(st.since_report, 0);
    // The traversal position survives the report.
    assert!(st.streaming);
    assert_eq!(st.depth, 1);
}

#[test]
fn model_cycle_over_empty_subdir_and_empty_file() {
    // The same directory shape as the event-level scenario, as a model
    // tree: the cycle ends in a restart at the root, nothing streaming.
    let tree = TreeDir {
        entries: vec![
            TreeEntry::Sub(TreeDir { entries: vec![] }),
            TreeEntry::Blob(0),
        ],
    };
    let mut scan = TreeScanState::start();
    let action = scan_model_cycle(&mut scan, &tree);
    assert_eq!(action, ScanAction::Restart);
    assert_eq!(scan.depth, 1);
    assert!(!scan.streaming);
    assert_eq!(scan.since_report, 0);
}

#[test]
fn model_cycle_accounts_every_byte() {
    // A nested tree: the cycle streams every file once.
    let tree = TreeDir {
        entries: vec![
            TreeEntry::Blob(100),
            TreeEntry::Sub(TreeDir {
                entries: vec![
                    TreeEntry::Blob(200),
                    TreeEntry::Sub(TreeDir { entries: vec![TreeEntry::Blob(50)] }),
                ],
            }),
            TreeEntry::Blob(7),
        ],
    };
    let mut scan = TreeScanState::start();
    let action = scan_model_cycle(&mut scan, &tree);
    assert_eq!(action, ScanAction::Restart);
    assert_eq!(scan.since_report, 357);
    assert_eq!(scan.depth, 1);
    // A second cycle keeps accumulating until a report drains it.
    scan_model_cycle(&mut scan, &tree);
    assert_eq!(scan.since_report, 714);
    assert_eq!(scan.take_report(1000), MessageFromDiskLoad::Performance(714));
    assert_eq!(scan.since_report, 0);
}

#[test]
fn disk_commands_translate_one_to_one() {
    let cmds = vec![
        MessageToDiskLoad::Start,
        MessageToDiskLoad::Stop,
        MessageToDiskLoad::Exit,
    ];
    let translated = disk_commands(&cmds);
    assert_eq!(translated, vec![Command::Start, Command::Stop, Command::Exit]);
    let out = drain_commands(false, &translated);
    assert!(out.exit);
    let echoed = disk_running_statuses(&out.echoes);
    assert_eq!(
        echoed,
        vec![
            MessageFromDiskLoad::Running(true),
            MessageFromDiskLoad::Running(false),
        ]
    );
}

#[test]
fn disk_cache_folds_statuses_in_order() {
    let mut cache = DiskLoad::new();
    let msgs = vec![
        MessageFromDiskLoad::Running(true),
        MessageFromDiskLoad::Performance(512_000),
        MessageFromDiskLoad::Running(false),
    ];
    cache.process_messages(&msgs);
    assert!(!cache.running);
    assert_eq!(cache.performance, 512_000);
    assert!(!cache.done);
}

#[test]
fn disk_cache_done_is_terminal() {
    let mut cache = DiskLoad::new();
    cache.process_messages(&vec![MessageFromDiskLoad::Done]);
    assert!(cache.done);
    cache.process_messages(&vec![MessageFromDiskLoad::Running(true)]);
    assert!(cache.done);
}
