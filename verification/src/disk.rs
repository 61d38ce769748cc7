//! Disk load worker.
//!
//! The worker continuously reads from a storage target and reports bytes
//! processed per second.  It has two disciplines: a raw sequential read of
//! a device or file that seeks back to the start on end-of-stream, and a
//! depth-first scan that streams every file under a directory tree and
//! restarts the scan when it completes.  The reads themselves are the
//! embedder's; this module holds the verified decisions: the open-retry
//! policy, the wraparound and traversal state machines, the saturating
//! byte accounting, and the consumer-side cache.

use vstd::prelude::*;
use crate::calibrate::{clamp_u64, rate_of, rate_per_second, saturating_add};
use crate::control::Command;

verus! {

/// Delay between attempts to open the raw target, in milliseconds.
pub const OPEN_RETRY_DELAY_MS: u64 = 100;

/// Inbound command, consumer to disk worker.
#[derive(Clone, Copy, Debug, PartialEq, Eq, Structural)]
pub enum MessageToDiskLoad {
    Start,
    Stop,
    Exit,
}

impl MessageToDiskLoad {
    /// The discipline-neutral control command this carries.
    pub open spec fn as_command(self) -> Command {
        match self {
            MessageToDiskLoad::Start => Command::Start,
            MessageToDiskLoad::Stop => Command::Stop,
            MessageToDiskLoad::Exit => Command::Exit,
        }
    }

    /// Translate to the shared control command.
    pub fn to_command(self) -> (c: Command)
        ensures
            c == self.as_command(),
    {
        match self {
            MessageToDiskLoad::Start => Command::Start,
            MessageToDiskLoad::Stop => Command::Stop,
            MessageToDiskLoad::Exit => Command::Exit,
        }
    }
}

/// Outbound status, disk worker to consumer.
#[derive(Clone, Copy, Debug, PartialEq, Eq, Structural)]
pub enum MessageFromDiskLoad {
    Performance(u64),
    Running(bool),
    Done,
}

/// Translate a drained command batch to shared control commands.
pub fn disk_commands(cmds: &Vec<MessageToDiskLoad>) -> (out: Vec<Command>)
    ensures
        out@ == cmds@.map_values(|m: MessageToDiskLoad| m.as_command()),
{
    let mut out: Vec<Command> = Vec::new();
    let mut i: usize = 0;
    while i < cmds.len()
        invariant
            i <= cmds@.len(),
            out@ =~= cmds@.take(i as int).map_values(|m: MessageToDiskLoad| m.as_command()),
        decreases cmds@.len() - i,
    {
        out.push(cmds[i].to_command());
        proof {
            assert(cmds@.take(i as int + 1) =~= cmds@.take(i as int).push(cmds@[i as int]));
            assert(cmds@.take(i as int + 1).map_values(|m: MessageToDiskLoad| m.as_command())
                =~= cmds@.take(i as int).map_values(|m: MessageToDiskLoad| m.as_command()).push(
                cmds@[i as int].as_command(),
            ));
        }
        i = i + 1;
    }
    proof {
        assert(cmds@.take(i as int) =~= cmds@);
    }
    out
}

/// Wrap `running` transition echoes in the disk status type.
pub fn disk_running_statuses(echoes: &Vec<bool>) -> (out: Vec<MessageFromDiskLoad>)
    ensures
        out@ == echoes@.map_values(|b: bool| MessageFromDiskLoad::Running(b)),
{
    let mut out: Vec<MessageFromDiskLoad> = Vec::new();
    let mut i: usize = 0;
    while i < echoes.len()
        invariant
            i <= echoes@.len(),
            out@ =~= echoes@.take(i as int).map_values(|b: bool| MessageFromDiskLoad::Running(b)),
        decreases echoes@.len() - i,
    {
        out.push(MessageFromDiskLoad::Running(echoes[i]));
        proof {
            assert(echoes@.take(i as int + 1) =~= echoes@.take(i as int).push(echoes@[i as int]));
            assert(echoes@.take(i as int + 1).map_values(|b: bool| MessageFromDiskLoad::Running(b))
                =~= echoes@.take(i as int).map_values(|b: bool| MessageFromDiskLoad::Running(b))
                .push(MessageFromDiskLoad::Running(echoes@[i as int])));
        }
        i = i + 1;
    }
    proof {
        assert(echoes@.take(i as int) =~= echoes@);
    }
    out
}

/// What to do after one attempt to open the raw target.
#[derive(Clone, Copy, Debug, PartialEq, Eq, Structural)]
pub enum OpenAttemptAction {
    /// The target opened: begin reading.
    Proceed,
    /// The open failed: sleep `OPEN_RETRY_DELAY_MS` and try again.  The
    /// worker never gives up on its own.
    RetryAfterDelay,
    /// The worker was told to exit while still opening.
    Abort,
}

/// Decide the next step of the open-retry loop for the raw discipline.
pub fn open_attempt_action(opened: bool, exit_requested: bool) -> (a: OpenAttemptAction)
    ensures
        a is Abort <==> exit_requested,
        a is Proceed <==> (!exit_requested && opened),
        a is RetryAfterDelay <==> (!exit_requested && !opened),
{
    if exit_requested {
        OpenAttemptAction::Abort
    } else if opened {
        OpenAttemptAction::Proceed
    } else {
        OpenAttemptAction::RetryAfterDelay
    }
}

/// Byte accounting of the raw sequential-read discipline between two
/// performance reports.
#[derive(Clone, Copy, Debug, PartialEq, Eq, Structural)]
pub struct RawReadState {
    /// Bytes processed since the previous report; saturating, and reset
    /// by every report, so wraparound can run forever without overflow.
    pub since_report: u64,
}

/// What to do with the stream after one read.
#[derive(Clone, Copy, Debug, PartialEq, Eq, Structural)]
pub enum RawReadAction {
    /// Keep reading sequentially.
    Advance,
    /// End of stream: seek back to the start and keep reading.
    Rewind,
}

impl RawReadState {
    /// Fresh accounting at the start of the discipline or after a report.
    pub fn new() -> (st: Self)
        ensures
            st == (RawReadState { since_report: 0 }),
    {
        RawReadState { since_report: 0 }
    }

    /// Account one read of `bytes_read` bytes.  A zero-length read means
    /// end of data: it is no error, the stream rewinds and streaming
    /// continues.
    pub fn read_step(&mut self, bytes_read: u64) -> (a: RawReadAction)
        ensures
            bytes_read == 0 ==> a is Rewind && *final(self) == *old(self),
            bytes_read > 0 ==> a is Advance && final(self).since_report == clamp_u64(
                old(self).since_report + bytes_read,
            ),
    {
        if bytes_read == 0 {
            RawReadAction::Rewind
        } else {
            self.since_report = saturating_add(self.since_report, bytes_read);
            RawReadAction::Advance
        }
    }

    /// Emit the periodic performance status — bytes per second over the
    /// actually measured interval — and reset the counter.
    pub fn take_report(&mut self, elapsed_ms: u64) -> (m: MessageFromDiskLoad)
        requires
            1 <= elapsed_ms,
        ensures
            m == MessageFromDiskLoad::Performance(
                clamp_u64(rate_of(old(self).since_report as int, elapsed_ms as int)) as u64,
            ),
            final(self).since_report == 0,
    {
        let rate = rate_per_second(self.since_report, elapsed_ms);
        self.since_report = 0;
        MessageFromDiskLoad::Performance(rate)
    }
}

/// The tree-scan discipline's traversal position: how deep the stack of
/// open directory iterators is, and whether a file is being streamed.
#[derive(Clone, Copy, Debug, PartialEq, Eq, Structural)]
pub struct TreeScanState {
    /// Height of the directory-iterator stack; the root iterator keeps it
    /// at least 1 while scanning.
    pub depth: u64,
    /// Whether a file is currently open and being streamed.
    pub streaming: bool,
    /// Bytes streamed since the previous report, saturating.
    pub since_report: u64,
}

/// What the embedder observed at the traversal position.
#[derive(Clone, Copy, Debug, PartialEq, Eq, Structural)]
pub enum ScanEvent {
    /// The next directory entry is a subdirectory.
    Subdir,
    /// The next directory entry is a file.
    FileFound,
    /// The current directory iterator has no more entries.
    DirExhausted,
    /// The streamed file yielded this many bytes (zero: it is exhausted).
    ReadBytes(u64),
}

/// What the embedder must do next.
#[derive(Clone, Copy, Debug, PartialEq, Eq, Structural)]
pub enum ScanAction {
    /// Push an iterator for the subdirectory and continue there.
    Descend,
    /// Open the found file and begin streaming it.
    OpenFile,
    /// Pop the exhausted iterator and resume its parent.
    Pop,
    /// The root iterator is exhausted: the cycle is complete, restart the
    /// scan from the root.  The workload runs forever by design.
    Restart,
    /// Advance to the next entry of the current directory.
    NextEntry,
    /// Keep reading the streamed file.
    ReadMore,
}

impl TreeScanState {
    /// The position at the start of a scan cycle: only the root iterator
    /// open, no file streaming.
    pub fn start() -> (st: Self)
        ensures
            st == (TreeScanState { depth: 1, streaming: false, since_report: 0 }),
    {
        TreeScanState { depth: 1, streaming: false, since_report: 0 }
    }

    /// Whether the state is a traversal position at all.
    pub open spec fn wf(self) -> bool {
        self.depth >= 1
    }

    /// Advance the depth-first traversal by one observed event.  Entry
    /// events arrive while no file is streaming; read events while one
    /// is.  The scan restarts from the root, at depth 1, when the root
    /// iterator empties, so a full cycle never deadlocks.
    pub fn step(&mut self, ev: ScanEvent) -> (a: ScanAction)
        requires
            old(self).wf(),
            old(self).streaming <==> ev is ReadBytes,
            ev is Subdir ==> old(self).depth < u64::MAX,
        ensures
            final(self).wf(),
            ev is Subdir ==> a is Descend && *final(self) == (TreeScanState {
                depth: (old(self).depth + 1) as u64,
                ..*old(self)
            }),
            ev is FileFound ==> a is OpenFile && *final(self) == (TreeScanState {
                streaming: true,
                ..*old(self)
            }),
            ev is DirExhausted && old(self).depth > 1 ==> a is Pop && *final(self)
                == (TreeScanState { depth: (old(self).depth - 1) as u64, ..*old(self) }),
            ev is DirExhausted && old(self).depth == 1 ==> a is Restart && *final(self) == *old(
                self,
            ),
            forall|n: u64|
                ev == ScanEvent::ReadBytes(n) && n == 0 ==> a is NextEntry && *final(self)
                    == (TreeScanState { streaming: false, ..*old(self) }),
            forall|n: u64|
                ev == ScanEvent::ReadBytes(n) && n > 0 ==> a is ReadMore && *final(self)
                    == (TreeScanState {
                    since_report: clamp_u64(old(self).since_report + n) as u64,
                    ..*old(self)
                }),
    {
        match ev {
            ScanEvent::Subdir => {
                self.depth = self.depth + 1;
                ScanAction::Descend
            },
            ScanEvent::FileFound => {
                self.streaming = true;
                ScanAction::OpenFile
            },
            ScanEvent::DirExhausted => {
                if self.depth > 1 {
                    self.depth = self.depth - 1;
                    ScanAction::Pop
                } else {
                    ScanAction::Restart
                }
            },
            ScanEvent::ReadBytes(n) => {
                if n == 0 {
                    self.streaming = false;
                    ScanAction::NextEntry
                } else {
                    self.since_report = saturating_add(self.since_report, n);
                    ScanAction::ReadMore
                }
            },
        }
    }

    /// Emit the periodic performance status and reset the counter, as in
    /// the raw discipline.
    pub fn take_report(&mut self, elapsed_ms: u64) -> (m: MessageFromDiskLoad)
        requires
            1 <= elapsed_ms,
        ensures
            m == MessageFromDiskLoad::Performance(
                clamp_u64(rate_of(old(self).since_report as int, elapsed_ms as int)) as u64,
            ),
            *final(self) == (TreeScanState { since_report: 0, ..*old(self) }),
    {
        let rate = rate_per_second(self.since_report, elapsed_ms);
        self.since_report = 0;
        MessageFromDiskLoad::Performance(rate)
    }
}

/// One entry of a modeled directory tree: a file of so many bytes, or a
/// subdirectory with entries of its own.  The model states what a whole
/// scan cycle does to the traversal machine.
#[derive(Debug)]
pub enum TreeEntry {
    Blob(u64),
    Sub(TreeDir),
}

/// A modeled directory: the entries its iterator will yield, in order.
#[derive(Debug)]
pub struct TreeDir {
    pub entries: Vec<TreeEntry>,
}

/// Bytes held by one modeled entry, subdirectories included.
pub open spec fn entry_bytes(e: TreeEntry) -> nat
    decreases e,
{
    match e {
        TreeEntry::Blob(n) => n as nat,
        TreeEntry::Sub(d) => entries_bytes(d.entries@),
    }
}

/// Bytes held by a run of modeled entries.
pub open spec fn entries_bytes(es: Seq<TreeEntry>) -> nat
    decreases es,
{
    if es.len() == 0 {
        0
    } else {
        entry_bytes(es[0]) + entries_bytes(es.skip(1))
    }
}

/// Bytes held by a whole modeled directory tree.
pub open spec fn dir_bytes(d: TreeDir) -> nat {
    entries_bytes(d.entries@)
}

/// Levels of descent one modeled entry can cost the traversal.
pub open spec fn entry_height(e: TreeEntry) -> nat
    decreases e,
{
    match e {
        TreeEntry::Blob(_) => 0,
        TreeEntry::Sub(d) => 1 + entries_height(d.entries@),
    }
}

/// Levels of descent a run of modeled entries can cost.
pub open spec fn entries_height(es: Seq<TreeEntry>) -> nat
    decreases es,
{
    if es.len() == 0 {
        0
    } else if entry_height(es[0]) >= entries_height(es.skip(1)) {
        entry_height(es[0])
    } else {
        entries_height(es.skip(1))
    }
}

/// Levels of descent below a modeled directory.
pub open spec fn dir_height(d: TreeDir) -> nat {
    entries_height(d.entries@)
}

proof fn lemma_clamp_chain(a: int, x: int, y: int)
    requires
        0 <= a <= u64::MAX,
        0 <= x,
        0 <= y,
    ensures
        clamp_u64(clamp_u64(a + x) + y) == clamp_u64(a + x + y),
{
}

/// Stream every entry of a modeled directory through the traversal
/// machine, exactly as a real scan observes them: each file is opened and
/// read to exhaustion, each subdirectory is descended into, scanned, and
/// popped.  The traversal comes back to the directory it started in with
/// nothing left streaming, and every byte of the subtree accounted.
pub fn scan_model_entries(scan: &mut TreeScanState, dir: &TreeDir)
    requires
        old(scan).wf(),
        !old(scan).streaming,
        old(scan).depth + dir_height(*dir) <= u64::MAX,
    ensures
        final(scan).depth == old(scan).depth,
        !final(scan).streaming,
        final(scan).since_report == clamp_u64(
            old(scan).since_report + dir_bytes(*dir),
        ),
    decreases *dir,
{
    let ghost es = dir.entries@;
    let ghost depth0 = old(scan).depth;
    let ghost since0 = old(scan).since_report;
    let mut i: usize = 0;
    proof {
        assert(es.skip(0) =~= es);
    }
    while i < dir.entries.len()
        invariant
            i <= es.len(),
            es == dir.entries@,
            scan.wf(),
            !scan.streaming,
            scan.depth == depth0,
            depth0 + entries_height(es.skip(i as int)) <= u64::MAX,
            clamp_u64(scan.since_report + entries_bytes(es.skip(i as int))) == clamp_u64(
                since0 + entries_bytes(es),
            ),
        decreases es.len() - i,
    {
        proof {
            assert(es.skip(i as int).skip(1) =~= es.skip(i as int + 1));
            assert(es.skip(i as int)[0] == es[i as int]);
        }
        let ghost since_here = scan.since_report;
        match &dir.entries[i] {
            TreeEntry::Blob(n) => {
                scan.step(ScanEvent::FileFound);
                if *n > 0 {
                    scan.step(ScanEvent::ReadBytes(*n));
                }
                scan.step(ScanEvent::ReadBytes(0));
                proof {
                    assert(scan.since_report == clamp_u64(since_here + entry_bytes(es[i as int])));
                }
            },
            TreeEntry::Sub(child) => {
                proof {
                    assert(entry_height(es[i as int]) == 1 + dir_height(*child));
                    assert(entries_height(es.skip(i as int)) >= entry_height(es[i as int]));
                }
                scan.step(ScanEvent::Subdir);
                scan_model_entries(scan, child);
                scan.step(ScanEvent::DirExhausted);
                proof {
                    assert(scan.since_report == clamp_u64(since_here + entry_bytes(es[i as int])));
                }
            },
        }
        proof {
            lemma_clamp_chain(
                since_here as int,
                entry_bytes(es[i as int]) as int,
                entries_bytes(es.skip(i as int + 1)) as int,
            );
            assert(entries_height(es.skip(i as int + 1)) <= entries_height(es.skip(i as int)));
        }
        i = i + 1;
    }
    proof {
        assert(es.skip(i as int) =~= Seq::<TreeEntry>::empty());
    }
}

/// Law: one full scan cycle over any finite modeled directory tree
/// terminates, accounts every byte of the tree, and ends with the machine
/// ordering a restart from the root — at depth 1 with nothing streaming —
/// never a deadlock.
pub fn scan_model_cycle(scan: &mut TreeScanState, root: &TreeDir) -> (a: ScanAction)
    requires
        old(scan).depth == 1,
        !old(scan).streaming,
        1 + dir_height(*root) <= u64::MAX,
    ensures
        a is Restart,
        final(scan).depth == 1,
        !final(scan).streaming,
        final(scan).since_report == clamp_u64(
            old(scan).since_report + dir_bytes(*root),
        ),
{
    scan_model_entries(scan, root);
    scan.step(ScanEvent::DirExhausted)
}

/// The consumer-side cache of a disk worker's last-known state.
#[derive(Clone, Copy, Debug, PartialEq, Eq, Structural)]
pub struct DiskLoad {
    pub performance: u64,
    pub running: bool,
    pub done: bool,
}

impl DiskLoad {
    /// The cache of a freshly spawned worker.
    pub fn new() -> (t: Self)
        ensures
            t == (DiskLoad { performance: 0, running: false, done: false }),
    {
        DiskLoad { performance: 0, running: false, done: false }
    }

    /// The cache after applying one status.
    pub open spec fn apply_status(st: Self, msg: MessageFromDiskLoad) -> Self {
        match msg {
            MessageFromDiskLoad::Performance(v) => DiskLoad { performance: v, ..st },
            MessageFromDiskLoad::Running(r) => DiskLoad { running: r, ..st },
            MessageFromDiskLoad::Done => DiskLoad { done: true, ..st },
        }
    }

    /// The cache after applying a drained status batch in order.
    pub open spec fn state_after_statuses(st: Self, msgs: Seq<MessageFromDiskLoad>) -> Self
        decreases msgs.len(),
    {
        if msgs.len() == 0 {
            st
        } else {
            Self::state_after_statuses(Self::apply_status(st, msgs[0]), msgs.skip(1))
        }
    }

    /// Fold a drained status batch into the cache.
    pub fn process_messages(&mut self, msgs: &Vec<MessageFromDiskLoad>)
        ensures
            *final(self) == Self::state_after_statuses(*old(self), msgs@),
    {
        let mut i: usize = 0;
        proof {
            assert(msgs@.skip(0) =~= msgs@);
        }
        while i < msgs.len()
            invariant
                i <= msgs@.len(),
                Self::state_after_statuses(*old(self), msgs@) == Self::state_after_statuses(
                    *self,
                    msgs@.skip(i as int),
                ),
            decreases msgs@.len() - i,
        {
            proof {
                assert(msgs@.skip(i as int).skip(1) =~= msgs@.skip(i as int + 1));
                assert(msgs@.skip(i as int)[0] == msgs@[i as int]);
            }
            match msgs[i] {
                MessageFromDiskLoad::Performance(v) => {
                    self.performance = v;
                },
                MessageFromDiskLoad::Running(r) => {
                    self.running = r;
                },
                MessageFromDiskLoad::Done => {
                    self.done = true;
                },
            }
            i = i + 1;
        }
    }
}

proof fn lemma_disk_performance_unchanged(st: DiskLoad, msgs: Seq<MessageFromDiskLoad>)
    requires
        forall|j: int| 0 <= j < msgs.len() ==> !(#[trigger] msgs[j] is Performance),
    ensures
        DiskLoad::state_after_statuses(st, msgs).performance == st.performance,
    decreases msgs.len(),
{
    if msgs.len() > 0 {
        assert(forall|j: int|
            0 <= j < msgs.skip(1).len() ==> #[trigger] msgs.skip(1)[j] == msgs[j + 1]);
        lemma_disk_performance_unchanged(DiskLoad::apply_status(st, msgs[0]), msgs.skip(1));
    }
}

/// Law: statuses are monotonically informative — the cache holds the
/// payload of the latest `Performance` in the drained batch, whatever
/// stands before it.  The `Running` flag and the other discipline caches
/// fold the same way.
pub proof fn lemma_disk_cache_keeps_latest(st: DiskLoad, msgs: Seq<MessageFromDiskLoad>, i: int)
    requires
        0 <= i < msgs.len(),
        msgs[i] is Performance,
        forall|j: int| i < j < msgs.len() ==> !(#[trigger] msgs[j] is Performance),
    ensures
        DiskLoad::state_after_statuses(st, msgs).performance == msgs[i]->Performance_0,
    decreases msgs.len(),
{
    assert(forall|j: int|
        0 <= j < msgs.skip(1).len() ==> #[trigger] msgs.skip(1)[j] == msgs[j + 1]);
    if i == 0 {
        lemma_disk_performance_unchanged(DiskLoad::apply_status(st, msgs[0]), msgs.skip(1));
    } else {
        lemma_disk_cache_keeps_latest(DiskLoad::apply_status(st, msgs[0]), msgs.skip(1), i - 1);
    }
}

/// Once the terminal `Done` has been cached, no later status clears it.
pub proof fn lemma_disk_done_sticky(st: DiskLoad, msgs: Seq<MessageFromDiskLoad>)
    requires
        st.done,
    ensures
        DiskLoad::state_after_statuses(st, msgs).done,
    decreases msgs.len(),
{
    if msgs.len() > 0 {
        lemma_disk_done_sticky(DiskLoad::apply_status(st, msgs[0]), msgs.skip(1));
    }
}

} // verus!
