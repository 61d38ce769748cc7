//! CPU load worker.
//!
//! The worker runs a synthetic arithmetic kernel in a tight loop,
//! optionally pinned to one processing unit, and reports throughput in
//! synthetic operations per second.  The kernel itself, the clock, and the
//! topology binding call are the embedder's; this module holds the
//! verified decisions: the command drain with its `Associated` echoes, and
//! how one measured quantum turns into the next unit count and the
//! performance figure — including the sentinel reported when the
//! accelerated kernel is unavailable on this architecture.

use vstd::prelude::*;
use crate::calibrate::{
    calibrate, calibrated_count, clamp_u64, rate_of, rate_per_second, saturating_mul,
};

verus! {

/// Throughput figure reported when the accelerated kernel is unavailable.
/// It is a fixed sentinel, not a measurement: a real calibrated quantum
/// can never saturate the counter, so the consumer can tell the stub
/// apart from genuine throughput.
pub const SENTINEL_RATE: u64 = 0xffff_ffff_ffff_ffff;

/// Synthetic floating-point operations one kernel unit performs.
pub const KERNEL_OPS_PER_UNIT: u64 = 96;

/// Inbound command, consumer to CPU worker.  `Associate` asks the worker
/// to pin its thread to one processing unit; the embedder performs the
/// topology binding call when draining it, and the carried flag is that
/// call's success.
#[derive(Clone, Copy, Debug, PartialEq, Eq, Structural)]
pub enum MessageToCpuLoad {
    Associate(bool),
    Start,
    Stop,
    Exit,
}

/// Outbound status, CPU worker to consumer.
#[derive(Clone, Copy, Debug, PartialEq, Eq, Structural)]
pub enum MessageFromCpuLoad {
    Performance(u64),
    Associated(bool),
    Running(bool),
    Done,
}

/// The CPU worker's own control flags.
#[derive(Clone, Copy, Debug, PartialEq, Eq, Structural)]
pub struct CpuControl {
    pub running: bool,
    pub associated: bool,
}

/// The control flags after draining `cmds` in order.  Draining stops at
/// the first `Exit`.
pub open spec fn cpu_state_after(st: CpuControl, cmds: Seq<MessageToCpuLoad>) -> CpuControl
    decreases cmds.len(),
{
    if cmds.len() == 0 {
        st
    } else {
        match cmds[0] {
            MessageToCpuLoad::Associate(b) => cpu_state_after(
                CpuControl { associated: b, ..st },
                cmds.skip(1),
            ),
            MessageToCpuLoad::Start => cpu_state_after(CpuControl { running: true, ..st }, cmds.skip(1)),
            MessageToCpuLoad::Stop => cpu_state_after(CpuControl { running: false, ..st }, cmds.skip(1)),
            MessageToCpuLoad::Exit => st,
        }
    }
}

/// The statuses echoed while draining `cmds`: one per command processed
/// before the first `Exit`.
pub open spec fn cpu_echoes(cmds: Seq<MessageToCpuLoad>) -> Seq<MessageFromCpuLoad>
    decreases cmds.len(),
{
    if cmds.len() == 0 {
        Seq::empty()
    } else {
        match cmds[0] {
            MessageToCpuLoad::Associate(b) => seq![MessageFromCpuLoad::Associated(b)]
                + cpu_echoes(cmds.skip(1)),
            MessageToCpuLoad::Start => seq![MessageFromCpuLoad::Running(true)] + cpu_echoes(
                cmds.skip(1),
            ),
            MessageToCpuLoad::Stop => seq![MessageFromCpuLoad::Running(false)] + cpu_echoes(
                cmds.skip(1),
            ),
            MessageToCpuLoad::Exit => Seq::empty(),
        }
    }
}

/// Whether the batch asks the worker loop to terminate.
pub open spec fn cpu_exit_requested(cmds: Seq<MessageToCpuLoad>) -> bool
    decreases cmds.len(),
{
    if cmds.len() == 0 {
        false
    } else {
        cmds[0] is Exit || cpu_exit_requested(cmds.skip(1))
    }
}

/// Result of draining one batch of queued CPU commands.
pub struct CpuDrainOutcome {
    pub state: CpuControl,
    pub echoes: Vec<MessageFromCpuLoad>,
    pub exit: bool,
}

/// Drain one batch of queued commands, phase one of the worker loop.
pub fn cpu_drain(st: CpuControl, cmds: &Vec<MessageToCpuLoad>) -> (out: CpuDrainOutcome)
    ensures
        out.state == cpu_state_after(st, cmds@),
        out.echoes@ == cpu_echoes(cmds@),
        out.exit == cpu_exit_requested(cmds@),
{
    let mut cur = st;
    let mut echoes: Vec<MessageFromCpuLoad> = Vec::new();
    let mut i: usize = 0;
    proof {
        assert(cmds@.skip(0) =~= cmds@);
    }
    while i < cmds.len()
        invariant
            i <= cmds@.len(),
            cpu_state_after(st, cmds@) == cpu_state_after(cur, cmds@.skip(i as int)),
            cpu_echoes(cmds@) =~= echoes@ + cpu_echoes(cmds@.skip(i as int)),
            cpu_exit_requested(cmds@) == cpu_exit_requested(cmds@.skip(i as int)),
        decreases cmds@.len() - i,
    {
        proof {
            assert(cmds@.skip(i as int).skip(1) =~= cmds@.skip(i as int + 1));
            assert(cmds@.skip(i as int)[0] == cmds@[i as int]);
        }
        match cmds[i] {
            MessageToCpuLoad::Associate(b) => {
                cur = CpuControl { associated: b, ..cur };
                echoes.push(MessageFromCpuLoad::Associated(b));
            },
            MessageToCpuLoad::Start => {
                cur = CpuControl { running: true, ..cur };
                echoes.push(MessageFromCpuLoad::Running(true));
            },
            MessageToCpuLoad::Stop => {
                cur = CpuControl { running: false, ..cur };
                echoes.push(MessageFromCpuLoad::Running(false));
            },
            MessageToCpuLoad::Exit => {
                return CpuDrainOutcome { state: cur, echoes, exit: true };
            },
        }
        i = i + 1;
    }
    proof {
        assert(cmds@.skip(i as int) =~= Seq::<MessageToCpuLoad>::empty());
        assert(echoes@ + cpu_echoes(cmds@.skip(i as int)) =~= echoes@);
    }
    CpuDrainOutcome { state: cur, echoes, exit: false }
}

/// Whether the worker should run a kernel quantum this iteration: only
/// while running, and — as in the reference discipline — only once the
/// worker has been associated with a processing unit.
pub fn cpu_should_work(st: &CpuControl) -> (w: bool)
    ensures
        w == (st.running && st.associated),
{
    st.running && st.associated
}

/// What one synthetic-kernel invocation came back as, as observed by the
/// embedder: the accelerated kernel ran with its operations-per-unit
/// figure, or the architecture lacks it.
#[derive(Clone, Copy, Debug, PartialEq, Eq, Structural)]
pub enum KernelOutcome {
    Accelerated { ops_per_unit: u64 },
    Unsupported,
}

/// What the worker concludes from one measured quantum.
#[derive(Clone, Copy, Debug, PartialEq, Eq, Structural)]
pub struct QuantumReport {
    /// Unit count to request next quantum.
    pub n_next: u64,
    /// Performance status to emit, if the quantum yielded one.
    pub performance: Option<u64>,
}

/// Turn one measured quantum into the next unit count and the performance
/// figure.  `n` is the unit count just executed and `d_ms` the measured
/// duration (zero: it rounded to under a millisecond, too short to trust,
/// so the count grows and no rate is reported).  An unsupported kernel
/// reports the fixed sentinel and leaves the count alone.
pub fn cpu_quantum_outcome(n: u64, kernel: KernelOutcome, d_ms: u64, t_ms: u64) -> (r:
    QuantumReport)
    requires
        1 <= t_ms,
    ensures
        kernel is Unsupported ==> r == (QuantumReport {
            n_next: n,
            performance: Some(SENTINEL_RATE),
        }),
        kernel is Accelerated ==> r.n_next == clamp_u64(
            calibrated_count(n as int, d_ms as int, t_ms as int),
        ),
        kernel is Accelerated && d_ms == 0 ==> r.performance is None,
        forall|ops: u64|
            kernel == (KernelOutcome::Accelerated { ops_per_unit: ops }) && 1 <= d_ms
                ==> r.performance == Some(
                clamp_u64(rate_of(clamp_u64(n as int * ops as int), d_ms as int)) as u64,
            ),
{
    match kernel {
        KernelOutcome::Unsupported => QuantumReport { n_next: n, performance: Some(SENTINEL_RATE) },
        KernelOutcome::Accelerated { ops_per_unit } => {
            let n_next = calibrate(n, d_ms, t_ms);
            if d_ms == 0 {
                QuantumReport { n_next, performance: None }
            } else {
                let work = saturating_mul(n, ops_per_unit);
                QuantumReport { n_next, performance: Some(rate_per_second(work, d_ms)) }
            }
        },
    }
}

/// The consumer-side cache of a CPU worker's last-known state, kept fresh
/// by draining the worker's status queue.
#[derive(Clone, Copy, Debug, PartialEq, Eq, Structural)]
pub struct CpuLoadThread {
    pub performance: u64,
    pub associated: bool,
    pub running: bool,
    pub done: bool,
}

impl CpuLoadThread {
    /// The cache of a freshly spawned worker: stopped, unassociated,
    /// nothing measured yet.
    pub fn new() -> (t: Self)
        ensures
            t == (CpuLoadThread { performance: 0, associated: false, running: false, done: false }),
    {
        CpuLoadThread { performance: 0, associated: false, running: false, done: false }
    }

    /// The cache after applying one status.
    pub open spec fn apply_status(st: Self, msg: MessageFromCpuLoad) -> Self {
        match msg {
            MessageFromCpuLoad::Performance(v) => CpuLoadThread { performance: v, ..st },
            MessageFromCpuLoad::Associated(a) => CpuLoadThread { associated: a, ..st },
            MessageFromCpuLoad::Running(r) => CpuLoadThread { running: r, ..st },
            MessageFromCpuLoad::Done => CpuLoadThread { done: true, ..st },
        }
    }

    /// The cache after applying a drained status batch in order: a later
    /// status supersedes the earlier cached value.
    pub open spec fn state_after_statuses(st: Self, msgs: Seq<MessageFromCpuLoad>) -> Self
        decreases msgs.len(),
    {
        if msgs.len() == 0 {
            st
        } else {
            Self::state_after_statuses(Self::apply_status(st, msgs[0]), msgs.skip(1))
        }
    }

    /// Fold a drained status batch into the cache.
    pub fn process_messages(&mut self, msgs: &Vec<MessageFromCpuLoad>)
        ensures
            *final(self) == Self::state_after_statuses(*old(self), msgs@),
    {
        let mut i: usize = 0;
        proof {
            assert(msgs@.skip(0) =~= msgs@);
        }
        while i < msgs.len()
            invariant
                i <= msgs@.len(),
                Self::state_after_statuses(*old(self), msgs@) == Self::state_after_statuses(
                    *self,
                    msgs@.skip(i as int),
                ),
            decreases msgs@.len() - i,
        {
            proof {
                assert(msgs@.skip(i as int).skip(1) =~= msgs@.skip(i as int + 1));
                assert(msgs@.skip(i as int)[0] == msgs@[i as int]);
            }
            match msgs[i] {
                MessageFromCpuLoad::Performance(v) => {
                    self.performance = v;
                },
                MessageFromCpuLoad::Associated(a) => {
                    self.associated = a;
                },
                MessageFromCpuLoad::Running(r) => {
                    self.running = r;
                },
                MessageFromCpuLoad::Done => {
                    self.done = true;
                },
            }
            i = i + 1;
        }
    }
}

/// Once the terminal `Done` has been cached, no later status clears it.
pub proof fn lemma_cpu_done_sticky(st: CpuLoadThread, msgs: Seq<MessageFromCpuLoad>)
    requires
        st.done,
    ensures
        CpuLoadThread::state_after_statuses(st, msgs).done,
    decreases msgs.len(),
{
    if msgs.len() > 0 {
        lemma_cpu_done_sticky(CpuLoadThread::apply_status(st, msgs[0]), msgs.skip(1));
    }
}

} // verus!
