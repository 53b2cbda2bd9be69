//! The search controller's orchestration state machine.
//!
//! One controller instance accounts for one search: a phase, the total
//! candidate count fixed when enumeration ends, how many tasks have begun
//! and finished, and how many candidates still wait in the queue. The
//! worker pool itself runs outside; each worker drives its controller
//! transitions under the owner's lock. Every transition is total: an
//! event that the current phase does not admit leaves the state
//! unchanged, so no interleaving of worker events can corrupt the
//! counters.
//!
//! A fresh search must use a fresh controller (and fresh queue and
//! channels): state is never reused across searches, so a stale reference
//! from a cancelled search cannot corrupt a new one.

use vstd::prelude::*;

verus! {

/// Phase of one search's lifecycle.
#[derive(Clone, Copy, PartialEq, Eq, Structural, Debug)]
pub enum SearchPhase {
    /// No search underway.
    Idle,
    /// Candidate files are being enumerated.
    Enumerating,
    /// Workers are scanning.
    Running,
    /// Every task finished naturally.
    Completed,
    /// The search was cancelled; the queue was drained.
    Cancelled,
}

/// An event a worker (or the owner) raises against a running search.
#[derive(Clone, Copy, PartialEq, Eq, Structural, Debug)]
pub enum ControllerEvent {
    /// A task starts and tries to pop one candidate from the queue.
    BeginTask,
    /// A task signals completion, whether or not it popped a candidate.
    FinishTask,
    /// The owner cancels the search.
    Cancel,
}

/// Bookkeeping for one search.
pub struct SearchController {
    /// Lifecycle phase.
    pub phase: SearchPhase,
    /// Candidate count, fixed when enumeration finishes.
    pub total: u64,
    /// Tasks that have begun; never exceeds `total`.
    pub started: u64,
    /// Tasks that have signalled completion; never exceeds `started`.
    pub completed: u64,
    /// Candidates still waiting in the queue.
    pub pending: u64,
}

impl SearchController {
    /// The counters a controller maintains across every transition.
    pub open spec fn wf(self) -> bool {
        &&& self.completed <= self.started <= self.total
        &&& self.pending <= self.total - self.started
        &&& (self.phase is Idle || self.phase is Enumerating) ==> (self.total == 0
            && self.started == 0 && self.completed == 0 && self.pending == 0)
        &&& (self.phase is Cancelled ==> self.pending == 0)
        &&& (self.phase is Completed ==> self.completed == self.total && self.pending == 0)
    }

    /// The state a controller is created in.
    pub open spec fn initial() -> SearchController {
        SearchController {
            phase: SearchPhase::Idle,
            total: 0,
            started: 0,
            completed: 0,
            pending: 0,
        }
    }

    /// Creates the controller for one fresh search.
    pub fn new() -> (r: SearchController)
        ensures
            r == SearchController::initial(),
            r.wf(),
    {
        SearchController {
            phase: SearchPhase::Idle,
            total: 0,
            started: 0,
            completed: 0,
            pending: 0,
        }
    }

    /// Enumeration begins: only an idle controller moves.
    pub open spec fn spec_start_enumeration(s: SearchController) -> SearchController {
        if s.phase is Idle {
            SearchController { phase: SearchPhase::Enumerating, ..s }
        } else {
            s
        }
    }

    /// Enumeration begins.
    pub fn start_enumeration(&mut self)
        ensures
            *final (self) == SearchController::spec_start_enumeration(*old(self)),
            old(self).wf() ==> final (self).wf(),
    {
        if self.phase == SearchPhase::Idle {
            self.phase = SearchPhase::Enumerating;
        }
    }

    /// Enumeration ends with `total` candidates queued. With none there
    /// is nothing to run and the search completes at once.
    pub open spec fn spec_finish_enumeration(s: SearchController, total: u64) -> SearchController {
        if s.phase is Enumerating {
            SearchController {
                phase: if total == 0 {
                    SearchPhase::Completed
                } else {
                    SearchPhase::Running
                },
                total,
                started: 0,
                completed: 0,
                pending: total,
            }
        } else {
            s
        }
    }

    /// Enumeration ends with `total` candidates queued.
    pub fn finish_enumeration(&mut self, total: u64)
        ensures
            *final (self) == SearchController::spec_finish_enumeration(*old(self), total),
            old(self).wf() ==> final (self).wf(),
    {
        if self.phase == SearchPhase::Enumerating {
            self.phase = if total == 0 {
                SearchPhase::Completed
            } else {
                SearchPhase::Running
            };
            self.total = total;
            self.started = 0;
            self.completed = 0;
            self.pending = total;
        }
    }

    /// A task begins and tries to pop one candidate; the pop succeeds
    /// exactly when the queue is non-empty. A task can begin while
    /// cancelled — it then finds the queue drained.
    pub open spec fn spec_begin_task(s: SearchController) -> (SearchController, bool) {
        if (s.phase is Running || s.phase is Cancelled) && s.started < s.total {
            if s.pending > 0 {
                (
                    SearchController {
                        started: (s.started + 1) as u64,
                        pending: (s.pending - 1) as u64,
                        ..s
                    },
                    true,
                )
            } else {
                (SearchController { started: (s.started + 1) as u64, ..s }, false)
            }
        } else {
            (s, false)
        }
    }

    /// A task begins; returns whether it popped a candidate.
    pub fn begin_task(&mut self) -> (popped: bool)
        ensures
            *final (self) == SearchController::spec_begin_task(*old(self)).0,
            popped == SearchController::spec_begin_task(*old(self)).1,
            old(self).wf() ==> final (self).wf(),
    {
        let active = self.phase == SearchPhase::Running || self.phase == SearchPhase::Cancelled;
        if active && self.started < self.total {
            self.started = self.started + 1;
            if self.pending > 0 {
                self.pending = self.pending - 1;
                true
            } else {
                false
            }
        } else {
            false
        }
    }

    /// A task signals completion, whether or not its pop succeeded.
    pub open spec fn spec_finish_task(s: SearchController) -> SearchController {
        if (s.phase is Running || s.phase is Cancelled) && s.completed < s.started {
            SearchController { completed: (s.completed + 1) as u64, ..s }
        } else {
            s
        }
    }

    /// A task signals completion.
    pub fn finish_task(&mut self)
        ensures
            *final (self) == SearchController::spec_finish_task(*old(self)),
            old(self).wf() ==> final (self).wf(),
    {
        let active = self.phase == SearchPhase::Running || self.phase == SearchPhase::Cancelled;
        if active && self.completed < self.started {
            self.completed = self.completed + 1;
        }
    }

    /// Cancellation drains the queue, so no new scan can begin; tasks
    /// already underway still finish and are still counted.
    pub open spec fn spec_cancel(s: SearchController) -> SearchController {
        if s.phase is Running {
            SearchController { phase: SearchPhase::Cancelled, pending: 0, ..s }
        } else {
            s
        }
    }

    /// Cancels a running search.
    pub fn cancel(&mut self)
        ensures
            *final (self) == SearchController::spec_cancel(*old(self)),
            old(self).wf() ==> final (self).wf(),
    {
        if self.phase == SearchPhase::Running {
            self.phase = SearchPhase::Cancelled;
            self.pending = 0;
        }
    }

    /// The owner observes that every task has begun and finished, and
    /// marks the search completed.
    pub open spec fn spec_observe_completion(s: SearchController) -> SearchController {
        if s.phase is Running && s.started == s.total && s.completed == s.total {
            SearchController { phase: SearchPhase::Completed, ..s }
        } else {
            s
        }
    }

    /// Marks a fully drained running search completed.
    pub fn observe_completion(&mut self)
        ensures
            *final (self) == SearchController::spec_observe_completion(*old(self)),
            old(self).wf() ==> final (self).wf(),
    {
        if self.phase == SearchPhase::Running && self.started == self.total && self.completed
            == self.total {
            self.phase = SearchPhase::Completed;
        }
    }

    /// Whether every task has signalled completion.
    pub fn all_tasks_done(&self) -> (r: bool)
        ensures
            r == (self.completed == self.total),
    {
        self.completed == self.total
    }

    /// The progress counters: tasks finished so far, and the total.
    pub fn progress(&self) -> (r: (u64, u64))
        ensures
            r.0 == self.completed,
            r.1 == self.total,
    {
        (self.completed, self.total)
    }
}

/// One worker event applied to a controller state.
pub open spec fn spec_step(s: SearchController, e: ControllerEvent) -> SearchController {
    match e {
        ControllerEvent::BeginTask => SearchController::spec_begin_task(s).0,
        ControllerEvent::FinishTask => SearchController::spec_finish_task(s),
        ControllerEvent::Cancel => SearchController::spec_cancel(s),
    }
}

/// A whole sequence of worker events applied in order.
pub open spec fn run_events(s: SearchController, es: Seq<ControllerEvent>) -> SearchController
    decreases es.len(),
{
    if es.len() == 0 {
        s
    } else {
        run_events(spec_step(s, es[0]), es.skip(1))
    }
}

/// Every transition keeps the counters well-formed.
pub proof fn lemma_step_preserves_wf(s: SearchController, e: ControllerEvent)
    requires
        s.wf(),
    ensures
        spec_step(s, e).wf(),
{
}

/// Law (cancellation safety): once a search is cancelled, whatever the
/// workers still do — beginning leftover tasks, finishing scans in
/// flight, cancelling again — the queue stays drained, the phase stays
/// cancelled, the candidate count stands, and progress never exceeds it.
pub proof fn lemma_cancellation_safety(s: SearchController, es: Seq<ControllerEvent>)
    requires
        s.wf(),
        s.phase is Cancelled,
    ensures
        run_events(s, es).wf(),
        run_events(s, es).phase is Cancelled,
        run_events(s, es).pending == 0,
        run_events(s, es).total == s.total,
        run_events(s, es).completed <= s.total,
    decreases es.len(),
{
    if es.len() == 0 {
    } else {
        lemma_step_preserves_wf(s, es[0]);
        lemma_cancellation_safety(spec_step(s, es[0]), es.skip(1));
    }
}

/// No event of the sequence is a cancellation.
pub open spec fn no_cancel(es: Seq<ControllerEvent>) -> bool {
    forall|i: int| 0 <= i < es.len() ==> !((#[trigger] es[i]) is Cancel)
}

/// The events arrive in an order the search actually admits: a task only
/// begins while tasks remain, only finishes after it began, and a
/// cancellation only hits a running search.
pub open spec fn feasible_from(s: SearchController, es: Seq<ControllerEvent>) -> bool
    decreases es.len(),
{
    if es.len() == 0 {
        true
    } else {
        (match es[0] {
            ControllerEvent::BeginTask => s.started < s.total,
            ControllerEvent::FinishTask => s.completed < s.started,
            ControllerEvent::Cancel => s.phase is Running,
        }) && feasible_from(spec_step(s, es[0]), es.skip(1))
    }
}

/// How many tasks begin over the course of the events.
pub open spec fn count_begins(es: Seq<ControllerEvent>) -> int
    decreases es.len(),
{
    if es.len() == 0 {
        0
    } else {
        (if es[0] is BeginTask {
            1int
        } else {
            0int
        }) + count_begins(es.skip(1))
    }
}

/// How many tasks finish over the course of the events.
pub open spec fn count_finishes(es: Seq<ControllerEvent>) -> int
    decreases es.len(),
{
    if es.len() == 0 {
        0
    } else {
        (if es[0] is FinishTask {
            1int
        } else {
            0int
        }) + count_finishes(es.skip(1))
    }
}

/// Law (progress accounting, general form): while a search runs without
/// cancellation, each begin and each finish counts exactly once: after
/// any admissible interleaving the started and completed counters have
/// grown by exactly the number of begin and finish events.
pub proof fn lemma_progress_accounting(s: SearchController, es: Seq<ControllerEvent>)
    requires
        s.wf(),
        s.phase is Running,
        no_cancel(es),
        feasible_from(s, es),
    ensures
        run_events(s, es).wf(),
        run_events(s, es).phase is Running,
        run_events(s, es).total == s.total,
        run_events(s, es).started == s.started + count_begins(es),
        run_events(s, es).completed == s.completed + count_finishes(es),
    decreases es.len(),
{
    if es.len() == 0 {
    } else {
        assert(!(es[0] is Cancel));
        lemma_step_preserves_wf(s, es[0]);
        assert(forall|i: int|
            0 <= i < es.skip(1).len() ==> es.skip(1)[i] == es[i + 1]);
        lemma_progress_accounting(spec_step(s, es[0]), es.skip(1));
    }
}

/// Law (progress accounting): for a search over `total` candidates with
/// zero cancellation, once all `total` tasks have begun and finished the
/// completed count reads exactly `total`.
pub proof fn lemma_search_completes(s: SearchController, es: Seq<ControllerEvent>)
    requires
        s.wf(),
        s.phase is Running,
        s.started == 0,
        s.completed == 0,
        no_cancel(es),
        feasible_from(s, es),
        count_begins(es) == s.total,
        count_finishes(es) == s.total,
    ensures
        run_events(s, es).completed == s.total,
        run_events(s, es).total == s.total,
{
    lemma_progress_accounting(s, es);
}

} // verus!
