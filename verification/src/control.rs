//! Shared worker control protocol.
//!
//! Every worker runs as a background loop with two phases per iteration:
//! it first drains all currently queued inbound commands, updating its
//! `running` flag and echoing a status for each transition, then performs
//! one quantum of work if running, or idles briefly if not.  `Exit` ends
//! the loop; on every termination path the worker emits one final `Done`.
//!
//! This module gives that protocol its semantics: the effect of draining a
//! command batch, and a trace model of a whole worker run, over which the
//! ordering and termination laws are proved.  The model assumes the
//! consumer keeps its end of the status queue open; if a status send fails
//! the embedder shuts the worker down quietly instead.

use vstd::prelude::*;

verus! {

/// How long a worker sleeps per iteration while not running, in
/// milliseconds, to avoid busy-spinning on its command queue.
pub const IDLE_SLEEP_MS: u64 = 100;

/// Inbound control command, consumer to worker.
#[derive(Clone, Copy, Debug, PartialEq, Eq, Structural)]
pub enum Command {
    Start,
    Stop,
    Exit,
}

/// Observable status notice, worker to consumer, in its discipline-neutral
/// shape: a `running` transition echo, a performance report, or the
/// terminal `Done`.
#[derive(Clone, Copy, Debug, PartialEq, Eq, Structural)]
pub enum Notice {
    Running(bool),
    Report(u64),
    Done,
}

/// The `running` flag after draining `cmds` in order, starting from `r0`.
/// Draining stops at the first `Exit`; commands after it are not applied.
pub open spec fn running_after_commands(r0: bool, cmds: Seq<Command>) -> bool
    decreases cmds.len(),
{
    if cmds.len() == 0 {
        r0
    } else {
        match cmds[0] {
            Command::Start => running_after_commands(true, cmds.skip(1)),
            Command::Stop => running_after_commands(false, cmds.skip(1)),
            Command::Exit => r0,
        }
    }
}

/// The sequence of `running` values echoed while draining `cmds`: one echo
/// per `Start` or `Stop` processed before the first `Exit`.
pub open spec fn echoes_of_commands(cmds: Seq<Command>) -> Seq<bool>
    decreases cmds.len(),
{
    if cmds.len() == 0 {
        Seq::empty()
    } else {
        match cmds[0] {
            Command::Start => seq![true] + echoes_of_commands(cmds.skip(1)),
            Command::Stop => seq![false] + echoes_of_commands(cmds.skip(1)),
            Command::Exit => Seq::empty(),
        }
    }
}

/// Whether the batch contains an `Exit`, i.e. whether draining it ends the
/// worker loop.
pub open spec fn commands_request_exit(cmds: Seq<Command>) -> bool
    decreases cmds.len(),
{
    if cmds.len() == 0 {
        false
    } else {
        cmds[0] is Exit || commands_request_exit(cmds.skip(1))
    }
}

/// Result of draining one batch of queued commands.
pub struct DrainOutcome {
    /// The `running` flag after the batch.
    pub running: bool,
    /// The `running` transition echoes to send, in order.
    pub echoes: Vec<bool>,
    /// Whether an `Exit` was drained, ending the worker loop.
    pub exit: bool,
}

/// Drain one batch of queued commands, as phase one of a loop iteration.
pub fn drain_commands(running0: bool, cmds: &Vec<Command>) -> (out: DrainOutcome)
    ensures
        out.running == running_after_commands(running0, cmds@),
        out.echoes@ == echoes_of_commands(cmds@),
        out.exit == commands_request_exit(cmds@),
{
    let mut running = running0;
    let mut echoes: Vec<bool> = Vec::new();
    let mut i: usize = 0;
    proof {
        assert(cmds@.skip(0) =~= cmds@);
    }
    while i < cmds.len()
        invariant
            i <= cmds@.len(),
            running_after_commands(running0, cmds@) == running_after_commands(
                running,
                cmds@.skip(i as int),
            ),
            echoes_of_commands(cmds@) =~= echoes@ + echoes_of_commands(cmds@.skip(i as int)),
            commands_request_exit(cmds@) == commands_request_exit(cmds@.skip(i as int)),
        decreases cmds@.len() - i,
    {
        proof {
            assert(cmds@.skip(i as int).skip(1) =~= cmds@.skip(i as int + 1));
            assert(cmds@.skip(i as int)[0] == cmds@[i as int]);
        }
        match cmds[i] {
            Command::Start => {
                running = true;
                echoes.push(true);
            },
            Command::Stop => {
                running = false;
                echoes.push(false);
            },
            Command::Exit => {
                return DrainOutcome { running, echoes, exit: true };
            },
        }
        i = i + 1;
    }
    proof {
        assert(cmds@.skip(i as int) =~= Seq::<Command>::empty());
        assert(echoes@ + echoes_of_commands(cmds@.skip(i as int)) =~= echoes@);
    }
    DrainOutcome { running, echoes, exit: false }
}

/// The inputs of one loop iteration: the commands found queued, and the
/// measured report value of the quantum, if one ran and produced a usable
/// measurement.
pub struct LoopIteration {
    pub cmds: Seq<Command>,
    pub measured: Option<u64>,
}

/// The echo notices produced by draining one command batch.
pub open spec fn echo_notices(cmds: Seq<Command>) -> Seq<Notice> {
    echoes_of_commands(cmds).map_values(|b: bool| Notice::Running(b))
}

/// The status trace a worker emits over a run of loop iterations that
/// starts with `running == r0`.  Each iteration echoes its drained
/// transitions, then reports its quantum only while running; the iteration
/// whose batch requests `Exit` is the last, and the one terminal `Done`
/// follows it.  A run whose inputs are exhausted without an `Exit` is
/// still live and has emitted no `Done`.
pub open spec fn worker_notices(r0: bool, iters: Seq<LoopIteration>) -> Seq<Notice>
    decreases iters.len(),
{
    if iters.len() == 0 {
        Seq::empty()
    } else {
        let it = iters[0];
        if commands_request_exit(it.cmds) {
            echo_notices(it.cmds) + seq![Notice::Done]
        } else {
            let r1 = running_after_commands(r0, it.cmds);
            let reports: Seq<Notice> = match it.measured {
                Option::Some(v) => if r1 {
                    seq![Notice::Report(v)]
                } else {
                    Seq::empty()
                },
                Option::None => Seq::empty(),
            };
            echo_notices(it.cmds) + reports + worker_notices(r1, iters.skip(1))
        }
    }
}

/// The `running` flag at the end of a run, folding each iteration's drain.
pub open spec fn running_after_run(r0: bool, iters: Seq<LoopIteration>) -> bool
    decreases iters.len(),
{
    if iters.len() == 0 {
        r0
    } else {
        running_after_run(running_after_commands(r0, iters[0].cmds), iters.skip(1))
    }
}

/// Whether some iteration of the run drains an `Exit`.
pub open spec fn some_iteration_exits(iters: Seq<LoopIteration>) -> bool {
    exists|i: int| 0 <= i < iters.len() && commands_request_exit(iters[i].cmds)
}

/// Every command drained over the whole run, in order.
pub open spec fn all_commands(iters: Seq<LoopIteration>) -> Seq<Command>
    decreases iters.len(),
{
    if iters.len() == 0 {
        Seq::empty()
    } else {
        iters[0].cmds + all_commands(iters.skip(1))
    }
}

/// The subsequence of `Running` notices of a trace, order kept.
pub open spec fn running_projection(t: Seq<Notice>) -> Seq<Notice>
    decreases t.len(),
{
    if t.len() == 0 {
        Seq::empty()
    } else if t[0] is Running {
        seq![t[0]] + running_projection(t.skip(1))
    } else {
        running_projection(t.skip(1))
    }
}

proof fn lemma_echo_notices_all_running(cmds: Seq<Command>)
    ensures
        forall|j: int| 0 <= j < echo_notices(cmds).len() ==> #[trigger] echo_notices(cmds)[j] is Running,
{
    assert forall|j: int| 0 <= j < echo_notices(cmds).len() implies #[trigger] echo_notices(
        cmds,
    )[j] is Running by {
        assert(echo_notices(cmds)[j] == Notice::Running(echoes_of_commands(cmds)[j]));
    }
}

/// Law: a worker that is told to exit emits exactly one terminal `Done`:
/// its trace ends with `Done`, and no earlier notice is a `Done`.
pub proof fn lemma_done_is_terminal(r0: bool, iters: Seq<LoopIteration>)
    requires
        some_iteration_exits(iters),
    ensures
        ({
            let t = worker_notices(r0, iters);
            &&& t.len() >= 1
            &&& t.last() == Notice::Done
            &&& forall|j: int| 0 <= j < t.len() - 1 ==> #[trigger] t[j] != Notice::Done
        }),
    decreases iters.len(),
{
    let t = worker_notices(r0, iters);
    let it = iters[0];
    let e = echo_notices(it.cmds);
    lemma_echo_notices_all_running(it.cmds);
    if commands_request_exit(it.cmds) {
        assert(t =~= e + seq![Notice::Done]);
        assert(t.last() == Notice::Done);
        assert forall|j: int| 0 <= j < t.len() - 1 implies #[trigger] t[j] != Notice::Done by {
            assert(t[j] == e[j]);
        }
    } else {
        let r1 = running_after_commands(r0, it.cmds);
        let reports: Seq<Notice> = match it.measured {
            Option::Some(v) => if r1 {
                seq![Notice::Report(v)]
            } else {
                Seq::empty()
            },
            Option::None => Seq::empty(),
        };
        let rest = worker_notices(r1, iters.skip(1));
        assert(t == e + reports + rest);
        let i = choose|i: int| 0 <= i < iters.len() && commands_request_exit(iters[i].cmds);
        assert(i != 0);
        assert(iters.skip(1)[i - 1] == iters[i]);
        assert(some_iteration_exits(iters.skip(1)));
        lemma_done_is_terminal(r1, iters.skip(1));
        assert(rest.len() >= 1);
        assert(t.len() == e.len() + reports.len() + rest.len());
        assert(t.last() == rest.last());
        assert forall|j: int| 0 <= j < t.len() - 1 implies #[trigger] t[j] != Notice::Done by {
            if j < e.len() {
                assert(t[j] == e[j]);
            } else if j < e.len() + reports.len() {
                assert(t[j] == reports[j - e.len()]);
                assert(reports[j - e.len()] is Report);
            } else {
                assert(t[j] == rest[j - e.len() - reports.len()]);
                assert(j - e.len() - reports.len() < rest.len() - 1);
            }
        }
    }
}

proof fn lemma_stopped_stays_stopped(cmds: Seq<Command>)
    requires
        forall|j: int| 0 <= j < cmds.len() ==> !(#[trigger] cmds[j] is Start),
    ensures
        running_after_commands(false, cmds) == false,
    decreases cmds.len(),
{
    if cmds.len() > 0 {
        assert(forall|j: int|
            0 <= j < cmds.skip(1).len() ==> #[trigger] cmds.skip(1)[j] == cmds[j + 1]);
        if !(cmds[0] is Exit) {
            lemma_stopped_stays_stopped(cmds.skip(1));
        }
    }
}

/// Law: performance is measured only while running.  A worker that
/// starts stopped and is never sent `Start` emits no `Report` over any
/// run, whatever else it is sent.
pub proof fn lemma_no_report_while_stopped(iters: Seq<LoopIteration>)
    requires
        forall|i: int, j: int|
            0 <= i < iters.len() && 0 <= j < iters[i].cmds.len() ==> !(
            #[trigger] iters[i].cmds[j] is Start),
    ensures
        forall|k: int|
            0 <= k < worker_notices(false, iters).len() ==> !(#[trigger] worker_notices(
                false,
                iters,
            )[k] is Report),
    decreases iters.len(),
{
    if iters.len() > 0 {
        let it = iters[0];
        let t = worker_notices(false, iters);
        let e = echo_notices(it.cmds);
        lemma_echo_notices_all_running(it.cmds);
        if commands_request_exit(it.cmds) {
            assert forall|k: int| 0 <= k < t.len() implies !(#[trigger] t[k] is Report) by {
                if k < e.len() {
                    assert(t[k] == e[k]);
                } else {
                    assert(t[k] == Notice::Done);
                }
            }
        } else {
            lemma_stopped_stays_stopped(it.cmds);
            let rest = worker_notices(false, iters.skip(1));
            assert(t == e + Seq::<Notice>::empty() + rest);
            assert forall|i: int, j: int|
                0 <= i < iters.skip(1).len() && 0 <= j < iters.skip(1)[i].cmds.len() implies !(
            #[trigger] iters.skip(1)[i].cmds[j] is Start) by {
                assert(iters.skip(1)[i] == iters[i + 1]);
            }
            lemma_no_report_while_stopped(iters.skip(1));
            assert forall|k: int| 0 <= k < t.len() implies !(#[trigger] t[k] is Report) by {
                if k < e.len() {
                    assert(t[k] == e[k]);
                } else {
                    assert(t[k] == rest[k - e.len()]);
                }
            }
        }
    }
}

/// Law: the `running` flag moves only in response to `Start` or `Stop`:
/// a drain without either leaves it exactly where it was.
pub proof fn lemma_running_needs_a_transition(r0: bool, cmds: Seq<Command>)
    requires
        forall|i: int|
            0 <= i < cmds.len() ==> !(#[trigger] cmds[i] is Start) && !(cmds[i] is Stop),
    ensures
        running_after_commands(r0, cmds) == r0,
{
    if cmds.len() > 0 {
        assert(cmds[0] is Exit);
    }
}

proof fn lemma_running_after_concat(r0: bool, a: Seq<Command>, b: Seq<Command>)
    requires
        !commands_request_exit(a),
    ensures
        running_after_commands(r0, a + b) == running_after_commands(
            running_after_commands(r0, a),
            b,
        ),
    decreases a.len(),
{
    if a.len() == 0 {
        assert(a + b =~= b);
    } else {
        assert((a + b).skip(1) =~= a.skip(1) + b);
        assert((a + b)[0] == a[0]);
        match a[0] {
            Command::Start => lemma_running_after_concat(true, a.skip(1), b),
            Command::Stop => lemma_running_after_concat(false, a.skip(1), b),
            Command::Exit => assert(false),
        }
    }
}

proof fn lemma_echoes_concat(a: Seq<Command>, b: Seq<Command>)
    requires
        !commands_request_exit(a),
    ensures
        echoes_of_commands(a + b) == echoes_of_commands(a) + echoes_of_commands(b),
    decreases a.len(),
{
    if a.len() == 0 {
        assert(a + b =~= b);
        assert(echoes_of_commands(a) + echoes_of_commands(b) =~= echoes_of_commands(b));
    } else {
        assert((a + b).skip(1) =~= a.skip(1) + b);
        assert((a + b)[0] == a[0]);
        lemma_echoes_concat(a.skip(1), b);
        match a[0] {
            Command::Start => {
                assert(echoes_of_commands(a + b) =~= echoes_of_commands(a) + echoes_of_commands(
                    b,
                ));
            },
            Command::Stop => {
                assert(echoes_of_commands(a + b) =~= echoes_of_commands(a) + echoes_of_commands(
                    b,
                ));
            },
            Command::Exit => assert(false),
        }
    }
}

proof fn lemma_projection_concat(x: Seq<Notice>, y: Seq<Notice>)
    ensures
        running_projection(x + y) == running_projection(x) + running_projection(y),
    decreases x.len(),
{
    if x.len() == 0 {
        assert(x + y =~= y);
        assert(running_projection(x) + running_projection(y) =~= running_projection(y));
    } else {
        assert((x + y).skip(1) =~= x.skip(1) + y);
        assert((x + y)[0] == x[0]);
        lemma_projection_concat(x.skip(1), y);
        assert(running_projection(x + y) =~= running_projection(x) + running_projection(y));
    }
}

proof fn lemma_projection_fixes_echoes(e: Seq<Notice>)
    requires
        forall|j: int| 0 <= j < e.len() ==> #[trigger] e[j] is Running,
    ensures
        running_projection(e) == e,
    decreases e.len(),
{
    if e.len() > 0 {
        assert(forall|j: int|
            0 <= j < e.skip(1).len() ==> #[trigger] e.skip(1)[j] == e[j + 1]);
        lemma_projection_fixes_echoes(e.skip(1));
        assert(running_projection(e) =~= e);
    }
}

/// Law: a worker that is not told to exit emits `Running` echoes for
/// exactly the commands drained over the whole run, one per `Start` or
/// `Stop` and in command order, however performance reports interleave
/// them; and its final `running` flag is the one the concatenated command
/// stream dictates.
pub proof fn lemma_echoes_preserve_command_order(r0: bool, iters: Seq<LoopIteration>)
    requires
        !some_iteration_exits(iters),
    ensures
        running_projection(worker_notices(r0, iters)) == echo_notices(all_commands(iters)),
        running_after_run(r0, iters) == running_after_commands(r0, all_commands(iters)),
    decreases iters.len(),
{
    if iters.len() == 0 {
        assert(echoes_of_commands(all_commands(iters)).map_values(|b: bool| Notice::Running(b))
            =~= Seq::<Notice>::empty());
    } else {
        let it = iters[0];
        assert(!commands_request_exit(it.cmds));
        let r1 = running_after_commands(r0, it.cmds);
        let e = echo_notices(it.cmds);
        let reports: Seq<Notice> = match it.measured {
            Option::Some(v) => if r1 {
                seq![Notice::Report(v)]
            } else {
                Seq::empty()
            },
            Option::None => Seq::empty(),
        };
        let rest = worker_notices(r1, iters.skip(1));
        assert(worker_notices(r0, iters) == e + reports + rest);
        assert forall|i: int|
            0 <= i < iters.skip(1).len() implies !commands_request_exit(
            #[trigger] iters.skip(1)[i].cmds,
        ) by {
            assert(iters.skip(1)[i] == iters[i + 1]);
        }
        lemma_echoes_preserve_command_order(r1, iters.skip(1));
        lemma_projection_concat(e + reports, rest);
        lemma_projection_concat(e, reports);
        assert((e + reports) + rest =~= e + reports + rest);
        lemma_echo_notices_all_running(it.cmds);
        lemma_projection_fixes_echoes(e);
        reveal_with_fuel(running_projection, 3);
        if reports.len() != 0 {
            assert(reports[0] is Report);
            assert(reports.skip(1) =~= Seq::<Notice>::empty());
        }
        assert(running_projection(reports) =~= Seq::<Notice>::empty());
        lemma_echoes_concat(it.cmds, all_commands(iters.skip(1)));
        assert(echo_notices(it.cmds + all_commands(iters.skip(1))) =~= e + echo_notices(
            all_commands(iters.skip(1)),
        ));
        assert(running_projection(worker_notices(r0, iters)) =~= echo_notices(
            all_commands(iters),
        ));
        lemma_running_after_concat(r0, it.cmds, all_commands(iters.skip(1)));
    }
}

/// Law: sending `Start`, then `Stop`, then `Start`, however the consumer
/// spreads them over loop iterations of a live worker, leaves the worker
/// running and produces exactly the echoes `Running(true)`,
/// `Running(false)`, `Running(true)`, in that order, whatever performance
/// reports interleave them.
pub proof fn lemma_start_stop_start(r0: bool, iters: Seq<LoopIteration>)
    requires
        !some_iteration_exits(iters),
        all_commands(iters) == seq![Command::Start, Command::Stop, Command::Start],
    ensures
        running_projection(worker_notices(r0, iters)) == seq![
            Notice::Running(true),
            Notice::Running(false),
            Notice::Running(true),
        ],
        running_after_run(r0, iters) == true,
{
    lemma_echoes_preserve_command_order(r0, iters);
    let cs = seq![Command::Start, Command::Stop, Command::Start];
    reveal_with_fuel(echoes_of_commands, 5);
    reveal_with_fuel(running_after_commands, 5);
    assert(cs.skip(1) =~= seq![Command::Stop, Command::Start]);
    assert(cs.skip(1).skip(1) =~= seq![Command::Start]);
    assert(cs.skip(1).skip(1).skip(1) =~= Seq::<Command>::empty());
    assert(echoes_of_commands(cs) =~= seq![true, false, true]);
    assert(running_after_commands(r0, cs) == true);
    assert(echo_notices(cs) =~= seq![
        Notice::Running(true),
        Notice::Running(false),
        Notice::Running(true),
    ]);
}

} // verus!
