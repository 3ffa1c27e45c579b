use vstd::prelude::*;
use crate::supervisor::TerminationReason;

verus! {

/// The phases of a worker's life.
#[derive(Clone, Copy, Debug, PartialEq, Eq, Structural)]
pub enum WorkerPhase {
    Booting,
    Ready,
    Terminated,
}

/// Why a request did not get a response from its worker.
#[derive(Clone, Copy, Debug, PartialEq, Eq, Structural)]
pub enum RequestFailure {
    /// The worker never finished booting.
    BootFailed,
    /// The worker was shut down on request.
    ShutDown,
    /// The supervisor forced the worker to stop.
    Terminated(TerminationReason),
}

/// The life of one worker as its intake sees it: the phase, the requests
/// handed to the worker and not yet answered (by id), and what ended it.
pub struct WorkerLifecycle {
    pub phase: WorkerPhase,
    pub pending: Vec<u64>,
    pub ended_by: Option<RequestFailure>,
}

impl WorkerLifecycle {
    /// The worker is terminated exactly when it records what ended it, and a
    /// terminated worker holds no request.
    pub open spec fn wf(&self) -> bool {
        &&& (self.phase == WorkerPhase::Terminated) == (self.ended_by is Some)
        &&& self.phase == WorkerPhase::Terminated ==> self.pending@.len() == 0
    }

    /// A worker that is booting and holds no request.
    pub fn new() -> (r: WorkerLifecycle)
        ensures
            r.wf(),
            r.phase == WorkerPhase::Booting,
            r.pending@ == Seq::<u64>::empty(),
            r.ended_by is None,
    {
        WorkerLifecycle { phase: WorkerPhase::Booting, pending: Vec::new(), ended_by: None }
    }

    /// Records the outcome of the boot. A booting worker becomes ready, or
    /// ends with `BootFailed` and hands back every request it held; in any
    /// other phase nothing changes.
    pub fn boot_finished(&mut self, booted: bool) -> (failed: Vec<u64>)
        requires
            old(self).wf(),
        ensures
            final(self).wf(),
            old(self).phase == WorkerPhase::Booting && booted ==> {
                &&& final(self).phase == WorkerPhase::Ready
                &&& final(self).pending@ == old(self).pending@
                &&& final(self).ended_by is None
                &&& failed@.len() == 0
            },
            old(self).phase == WorkerPhase::Booting && !booted ==> {
                &&& final(self).phase == WorkerPhase::Terminated
                &&& final(self).ended_by == Some(RequestFailure::BootFailed)
                &&& failed@ == old(self).pending@
            },
            old(self).phase != WorkerPhase::Booting ==> {
                &&& final(self).phase == old(self).phase
                &&& final(self).pending@ == old(self).pending@
                &&& final(self).ended_by == old(self).ended_by
                &&& failed@.len() == 0
            },
    {
        if self.phase != WorkerPhase::Booting {
            return Vec::new();
        }
        if booted {
            self.phase = WorkerPhase::Ready;
            Vec::new()
        } else {
            self.end(RequestFailure::BootFailed)
        }
    }

    /// Takes in a request. A worker that is not terminated holds it until it
    /// is answered; a terminated one refuses it with what ended it.
    pub fn submit(&mut self, id: u64) -> (r: Result<(), RequestFailure>)
        requires
            old(self).wf(),
        ensures
            final(self).wf(),
            final(self).phase == old(self).phase,
            final(self).ended_by == old(self).ended_by,
            match old(self).ended_by {
                None => r is Ok && final(self).pending@ == old(self).pending@.push(id),
                Some(cause) => r == Err::<(), RequestFailure>(cause) && final(self).pending@
                    == old(self).pending@,
            },
    {
        match self.ended_by {
            None => {
                self.pending.push(id);
                Ok(())
            },
            Some(cause) => Err(cause),
        }
    }

    /// Records that request `id` was answered: its first occurrence among the
    /// pending requests is dropped. Returns whether it was pending.
    pub fn complete(&mut self, id: u64) -> (found: bool)
        requires
            old(self).wf(),
        ensures
            final(self).wf(),
            final(self).phase == old(self).phase,
            final(self).ended_by == old(self).ended_by,
            found == old(self).pending@.contains(id),
            !found ==> final(self).pending@ == old(self).pending@,
            found ==> exists|i: int|
                0 <= i < old(self).pending@.len() && old(self).pending@[i] == id && (forall|j: int|
                    0 <= j < i ==> old(self).pending@[j] != id) && final(self).pending@
                    == old(self).pending@.remove(i),
    {
        let mut i: usize = 0;
        while i < self.pending.len()
            invariant
                self.pending@ == old(self).pending@,
                self.phase == old(self).phase,
                self.ended_by == old(self).ended_by,
                old(self).wf(),
                i <= self.pending@.len(),
                forall|j: int| 0 <= j < i ==> self.pending@[j] != id,
            decreases self.pending@.len() - i,
        {
            if self.pending[i] == id {
                let ghost before = self.pending@;
                self.pending.remove(i);
                assert(before[i as int] == id);
                return true;
            }
            i = i + 1;
        }
        false
    }

    /// Ends the worker: a worker not yet terminated becomes terminated by
    /// `cause` and hands back every request it held, each to be answered
    /// with that failure. Ending a terminated worker again changes nothing
    /// and hands back nothing.
    pub fn end(&mut self, cause: RequestFailure) -> (failed: Vec<u64>)
        requires
            old(self).wf(),
        ensures
            final(self).wf(),
            final(self).phase == WorkerPhase::Terminated,
            final(self).pending@.len() == 0,
            old(self).ended_by is None ==> final(self).ended_by == Some(cause) && failed@ == old(
                self,
            ).pending@,
            old(self).ended_by is Some ==> final(self).ended_by == old(self).ended_by && failed@.len()
                == 0,
    {
        if self.ended_by.is_some() {
            return Vec::new();
        }
        self.phase = WorkerPhase::Terminated;
        self.ended_by = Some(cause);
        let mut failed: Vec<u64> = Vec::new();
        std::mem::swap(&mut failed, &mut self.pending);
        failed
    }
}

} // verus!
