use vstd::prelude::*;

verus! {

/// Resource budget of one user worker, fixed when the worker is created.
#[derive(Clone, Copy, Debug, PartialEq, Eq, Structural)]
pub struct SupervisorLimits {
    /// CPU time after which the CPU timer raises an alarm (ms).
    pub cpu_time_threshold_ms: u64,
    /// Minimum spacing between two counted CPU bursts (ms).
    pub cpu_burst_interval_ms: u64,
    /// Number of CPU bursts tolerated; one more terminates the worker.
    pub max_cpu_bursts: u64,
    /// Wall-clock lifetime of the worker (ms).
    pub worker_timeout_ms: u64,
    /// Factor applied to the heap cap when the engine nears it.
    pub low_memory_multiplier: u64,
}

/// Why the supervisor forced a worker to stop.
#[derive(Clone, Copy, Debug, PartialEq, Eq, Structural)]
pub enum TerminationReason {
    CpuTimeLimit,
    WallClockTimeLimit,
    MemoryLimit,
}

/// The terminal states of a supervisor.
#[derive(Clone, Copy, Debug, PartialEq, Eq, Structural)]
pub enum SupervisorOutcome {
    /// The engine was terminated for the given reason.
    Terminated(TerminationReason),
    /// The worker went away before any limit was reached.
    Dropped,
}

/// What a supervisor can observe while its worker runs.
#[derive(Clone, Copy, Debug, PartialEq, Eq, Structural)]
pub enum SupervisorSignal {
    /// The CPU timer fired; `now_ms` is a monotonic timestamp.
    CpuAlarm { now_ms: u64 },
    /// The wall-clock deadline expired.
    WallClockDeadline,
    /// The engine reported that its heap is near the soft cap.
    MemoryPressure,
    /// Every signal source of the worker has been dropped.
    Dropped,
}

/// What the caller must do after a signal was handled.
#[derive(Clone, Copy, Debug, PartialEq, Eq, Structural)]
pub enum SupervisorAction {
    /// Keep waiting for the next signal.
    Wait,
    /// Terminate the engine once and emit this termination event.
    Terminate(TerminationReason),
    /// Stop supervising without terminating anything.
    Stop,
    /// The supervisor has already finished; the signal has no effect.
    Ignore,
}

/// Bookkeeping of one supervisor: the CPU burst counter, the time of the
/// last counted burst and, once reached, the terminal state.
#[derive(Clone, Copy, Debug)]
pub struct Supervisor {
    pub limits: SupervisorLimits,
    pub bursts: u64,
    pub last_burst_ms: u64,
    pub outcome: Option<SupervisorOutcome>,
}

/// Time elapsed from `since` to `now`, zero if the clock reads earlier.
pub open spec fn elapsed_ms(since: u64, now: u64) -> nat {
    if now > since {
        (now - since) as nat
    } else {
        0
    }
}

/// The burst counter after one more counted burst.
pub open spec fn bumped(bursts: u64) -> u64 {
    if bursts < u64::MAX {
        (bursts + 1) as u64
    } else {
        bursts
    }
}

pub open spec fn is_finished(s: Supervisor) -> bool {
    s.outcome is Some
}

/// Whether an action ends supervision (a termination or a stop).
pub open spec fn is_final_action(a: SupervisorAction) -> bool {
    a is Terminate || a is Stop
}

/// One transition of the supervisor: the state after `sig` and the action.
pub open spec fn step_spec(s: Supervisor, sig: SupervisorSignal) -> (Supervisor, SupervisorAction) {
    if is_finished(s) {
        (s, SupervisorAction::Ignore)
    } else {
        match sig {
            SupervisorSignal::CpuAlarm { now_ms } => {
                let counted = elapsed_ms(s.last_burst_ms, now_ms) > s.limits.cpu_burst_interval_ms;
                let bursts = if counted { bumped(s.bursts) } else { s.bursts };
                let last = if counted { now_ms } else { s.last_burst_ms };
                if bursts > s.limits.max_cpu_bursts {
                    (
                        Supervisor {
                            bursts,
                            last_burst_ms: last,
                            outcome: Some(
                                SupervisorOutcome::Terminated(TerminationReason::CpuTimeLimit),
                            ),
                            ..s
                        },
                        SupervisorAction::Terminate(TerminationReason::CpuTimeLimit),
                    )
                } else {
                    (Supervisor { bursts, last_burst_ms: last, ..s }, SupervisorAction::Wait)
                }
            },
            SupervisorSignal::WallClockDeadline => (
                Supervisor {
                    outcome: Some(
                        SupervisorOutcome::Terminated(TerminationReason::WallClockTimeLimit),
                    ),
                    ..s
                },
                SupervisorAction::Terminate(TerminationReason::WallClockTimeLimit),
            ),
            SupervisorSignal::MemoryPressure => (
                Supervisor {
                    outcome: Some(SupervisorOutcome::Terminated(TerminationReason::MemoryLimit)),
                    ..s
                },
                SupervisorAction::Terminate(TerminationReason::MemoryLimit),
            ),
            SupervisorSignal::Dropped => (
                Supervisor { outcome: Some(SupervisorOutcome::Dropped), ..s },
                SupervisorAction::Stop,
            ),
        }
    }
}

/// The state after a whole sequence of signals.
pub open spec fn run_state(s: Supervisor, sigs: Seq<SupervisorSignal>) -> Supervisor
    decreases sigs.len(),
{
    if sigs.len() == 0 {
        s
    } else {
        run_state(step_spec(s, sigs[0]).0, sigs.drop_first())
    }
}

/// The actions produced by a whole sequence of signals, in order.
pub open spec fn run_actions(s: Supervisor, sigs: Seq<SupervisorSignal>) -> Seq<SupervisorAction>
    decreases sigs.len(),
{
    if sigs.len() == 0 {
        Seq::empty()
    } else {
        let (n, a) = step_spec(s, sigs[0]);
        seq![a] + run_actions(n, sigs.drop_first())
    }
}

/// Number of actions in `acts` that end supervision.
pub open spec fn final_count(acts: Seq<SupervisorAction>) -> nat
    decreases acts.len(),
{
    if acts.len() == 0 {
        0
    } else {
        (if is_final_action(acts[0]) { 1nat } else { 0nat }) + final_count(acts.drop_first())
    }
}

/// Whether a signal ends supervision by itself, whatever the counters hold.
pub open spec fn is_decisive(sig: SupervisorSignal) -> bool {
    !(sig is CpuAlarm)
}

/// A finished supervisor ignores every further signal and stays as it is.
pub proof fn lemma_finished_ignores(s: Supervisor, sigs: Seq<SupervisorSignal>)
    requires
        is_finished(s),
    ensures
        run_state(s, sigs) == s,
        final_count(run_actions(s, sigs)) == 0,
    decreases sigs.len(),
{
    if sigs.len() > 0 {
        lemma_finished_ignores(s, sigs.drop_first());
        let acts = run_actions(s, sigs);
        assert(acts.drop_first() =~= run_actions(s, sigs.drop_first()));
    }
}

/// Exactly-once termination: whatever signals reach a running supervisor,
/// and in whatever order, at most one action terminates or stops it, and
/// there is one exactly when it has reached a terminal state. A wall-clock
/// deadline, a memory notification or a drop among the signals always
/// brings it there.
pub proof fn lemma_exactly_once_termination(s: Supervisor, sigs: Seq<SupervisorSignal>)
    requires
        !is_finished(s),
    ensures
        final_count(run_actions(s, sigs)) <= 1,
        final_count(run_actions(s, sigs)) == 1 <==> is_finished(run_state(s, sigs)),
        (exists|i: int| 0 <= i < sigs.len() && is_decisive(#[trigger] sigs[i])) ==> final_count(
            run_actions(s, sigs),
        ) == 1,
    decreases sigs.len(),
{
    if sigs.len() > 0 {
        let (n, a) = step_spec(s, sigs[0]);
        let rest = sigs.drop_first();
        let acts = run_actions(s, sigs);
        assert(acts[0] == a);
        assert(acts.drop_first() =~= run_actions(n, rest));
        if is_finished(n) {
            lemma_finished_ignores(n, rest);
            assert(is_final_action(a));
        } else {
            lemma_exactly_once_termination(n, rest);
            assert(!is_final_action(a));
            assert(!is_decisive(sigs[0]));
            if exists|i: int| 0 <= i < sigs.len() && is_decisive(#[trigger] sigs[i]) {
                let i = choose|i: int| 0 <= i < sigs.len() && is_decisive(#[trigger] sigs[i]);
                assert(i > 0);
                assert(rest[i - 1] == sigs[i]);
            }
        }
    }
}

/// Grace window of the near-heap-limit callback: with a multiplier above one
/// the cap handed back is strictly larger than the usage reported, the first
/// memory notification terminates the engine with a memory-limit event, and
/// a second notification has no further effect.
pub proof fn lemma_heap_grace_window(s: Supervisor, current: nat, multiplier: nat)
    requires
        !is_finished(s),
        current > 0,
        multiplier > 1,
    ensures
        crate::heap::grace_cap(current, multiplier) > current,
        step_spec(s, SupervisorSignal::MemoryPressure).1 == SupervisorAction::Terminate(
            TerminationReason::MemoryLimit,
        ),
        step_spec(step_spec(s, SupervisorSignal::MemoryPressure).0, SupervisorSignal::MemoryPressure).1
            == SupervisorAction::Ignore,
{
    assert(current * multiplier > current) by (nonlinear_arith)
        requires
            current > 0,
            multiplier > 1,
    ;
}

impl Supervisor {
    /// A running supervisor for a worker started at `start_ms`.
    pub fn new(limits: SupervisorLimits, start_ms: u64) -> (r: Supervisor)
        ensures
            r.limits == limits,
            r.bursts == 0,
            r.last_burst_ms == start_ms,
            r.outcome is None,
    {
        Supervisor { limits, bursts: 0, last_burst_ms: start_ms, outcome: None }
    }

    pub fn is_finished(&self) -> (r: bool)
        ensures
            r == is_finished(*self),
    {
        self.outcome.is_some()
    }

    /// Handles one signal: counts CPU bursts, decides on termination, and
    /// ignores every signal once a terminal state has been reached.
    pub fn step(&mut self, sig: SupervisorSignal) -> (r: SupervisorAction)
        ensures
            (*final(self), r) == step_spec(*old(self), sig),
    {
        if self.outcome.is_some() {
            return SupervisorAction::Ignore;
        }
        match sig {
            SupervisorSignal::CpuAlarm { now_ms } => {
                let elapsed: u64 = if now_ms > self.last_burst_ms {
                    now_ms - self.last_burst_ms
                } else {
                    0
                };
                if elapsed > self.limits.cpu_burst_interval_ms {
                    if self.bursts < u64::MAX {
                        self.bursts = self.bursts + 1;
                    }
                    self.last_burst_ms = now_ms;
                }
                if self.bursts > self.limits.max_cpu_bursts {
                    self.outcome = Some(
                        SupervisorOutcome::Terminated(TerminationReason::CpuTimeLimit),
                    );
                    SupervisorAction::Terminate(TerminationReason::CpuTimeLimit)
                } else {
                    SupervisorAction::Wait
                }
            },
            SupervisorSignal::WallClockDeadline => {
                self.outcome = Some(
                    SupervisorOutcome::Terminated(TerminationReason::WallClockTimeLimit),
                );
                SupervisorAction::Terminate(TerminationReason::WallClockTimeLimit)
            },
            SupervisorSignal::MemoryPressure => {
                self.outcome = Some(SupervisorOutcome::Terminated(TerminationReason::MemoryLimit));
                SupervisorAction::Terminate(TerminationReason::MemoryLimit)
            },
            SupervisorSignal::Dropped => {
                self.outcome = Some(SupervisorOutcome::Dropped);
                SupervisorAction::Stop
            },
        }
    }
}

} // verus!
