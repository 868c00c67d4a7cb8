//! The task registry: a map from task name to lifecycle state that owns the
//! start/stop/list semantics. Callers serialize name-scoped operations (the
//! surrounding server holds it behind an exclusive lock), so each method is a
//! single atomic transition of the whole map.

use vstd::prelude::*;
use crate::kvmap::{AssocMap, lemma_map_of_contains, lemma_map_of_dom_len, lemma_map_of_index};
use crate::task::{
    is_terminal, outcome_state, spec_state_name, RunnerOutcome, StartOutcome, StopOutcome,
    TaskState,
};

verus! {

/// What `start` does to the registry's map: reject a running name without
/// side effects, otherwise register the name and promote it to `Running`.
pub open spec fn start_transition(m: Map<Seq<char>, TaskState>, n: Seq<char>) -> (Map<
    Seq<char>,
    TaskState,
>, StartOutcome) {
    if m.contains_key(n) && m[n] == TaskState::Running {
        (m, StartOutcome::AlreadyRunning)
    } else {
        (m.insert(n, TaskState::Running), StartOutcome::Started)
    }
}

/// What `stop_process` does: unknown names report `NotFound`, names not
/// running report `AlreadyStopped`, and a running name becomes `Stopped` but
/// stays listed.
pub open spec fn stop_transition(m: Map<Seq<char>, TaskState>, n: Seq<char>) -> (Map<
    Seq<char>,
    TaskState,
>, StopOutcome) {
    if !m.contains_key(n) {
        (m, StopOutcome::NotFound)
    } else if m[n] != TaskState::Running {
        (m, StopOutcome::AlreadyStopped)
    } else {
        (m.insert(n, TaskState::Stopped), StopOutcome::Stopped)
    }
}

/// What the completion callback does: a running task reaches the terminal
/// state its runner reports; any other state ignores the late callback.
pub open spec fn completion_transition(
    m: Map<Seq<char>, TaskState>,
    n: Seq<char>,
    outcome: RunnerOutcome,
) -> Map<Seq<char>, TaskState> {
    if m.contains_key(n) && m[n] == TaskState::Running {
        m.insert(n, outcome_state(outcome))
    } else {
        m
    }
}

/// The registry's state: task names and their lifecycle states. At most one
/// live task per name, because the map holds one state per name and only
/// `start` on a non-running name makes a task live.
pub struct TaskManager {
    pub tasks: AssocMap<TaskState>,
}

impl View for TaskManager {
    type V = Map<Seq<char>, TaskState>;

    open spec fn view(&self) -> Map<Seq<char>, TaskState> {
        self.tasks@
    }
}

impl TaskManager {
    /// Well-formed: one entry per name.
    pub open spec fn wf(&self) -> bool {
        self.tasks.wf()
    }

    /// An empty registry.
    pub fn new() -> (r: TaskManager)
        ensures
            r@ == Map::<Seq<char>, TaskState>::empty(),
            r.wf(),
    {
        TaskManager { tasks: AssocMap::new() }
    }

    /// The current state of `name`, if the registry knows it.
    pub fn state_of(&self, name: &str) -> (r: Option<TaskState>)
        requires
            self.wf(),
        ensures
            match r {
                Some(s) => self@.contains_key(name@) && s == self@[name@],
                None => !self@.contains_key(name@),
            },
    {
        match self.tasks.get(name) {
            Some(s) => Some(*s),
            None => None,
        }
    }

    /// Atomic check-and-insert: reports `AlreadyRunning` for a name whose
    /// task is running, without side effects; otherwise registers the name
    /// (replacing any terminal task) and promotes it to `Running`. On
    /// `Started` the caller hands the target to a freshly spawned runner.
    pub fn start(&mut self, name: &str) -> (r: StartOutcome)
        requires
            old(self).wf(),
        ensures
            final(self).wf(),
            final(self)@ == start_transition(old(self)@, name@).0,
            r == start_transition(old(self)@, name@).1,
    {
        let current = self.state_of(name);
        let is_running = match current {
            Some(s) => s == TaskState::Running,
            None => false,
        };
        if is_running {
            StartOutcome::AlreadyRunning
        } else {
            let ghost m0 = self@;
            self.tasks.insert(name, TaskState::Pending);
            self.tasks.insert(name, TaskState::Running);
            proof {
                assert(self@ =~= m0.insert(name@, TaskState::Running));
            }
            StartOutcome::Started
        }
    }

    /// Marks a running task `Stopped` and keeps it listed; the caller then
    /// signals the runner's cancellation token and awaits it outside the
    /// registry's lock. Unknown names report `NotFound`; names whose task is
    /// not running report `AlreadyStopped`.
    pub fn stop_process(&mut self, name: &str) -> (r: StopOutcome)
        requires
            old(self).wf(),
        ensures
            final(self).wf(),
            final(self)@ == stop_transition(old(self)@, name@).0,
            r == stop_transition(old(self)@, name@).1,
    {
        let current = self.state_of(name);
        match current {
            None => StopOutcome::NotFound,
            Some(s) => {
                if s == TaskState::Running {
                    self.tasks.insert(name, TaskState::Stopped);
                    StopOutcome::Stopped
                } else {
                    StopOutcome::AlreadyStopped
                }
            },
        }
    }

    /// Completion callback, invoked when a runner exits on its own: a running
    /// task reaches the reported terminal state; a task already terminal
    /// (for instance stopped moments earlier) is left exactly as it is.
    pub fn on_completion(&mut self, name: &str, outcome: RunnerOutcome)
        requires
            old(self).wf(),
        ensures
            final(self).wf(),
            final(self)@ == completion_transition(old(self)@, name@, outcome),
    {
        let current = self.state_of(name);
        let is_running = match current {
            Some(s) => s == TaskState::Running,
            None => false,
        };
        if is_running {
            let state = match outcome {
                RunnerOutcome::Succeeded => TaskState::Completed,
                RunnerOutcome::Failed => TaskState::Failed,
                RunnerOutcome::Cancelled => TaskState::Stopped,
            };
            self.tasks.insert(name, state);
        }
    }

    /// A consistent snapshot of every known task name and the display name
    /// of its state, in registration order.
    pub fn list_tasks(&self) -> (r: Vec<(String, String)>)
        requires
            self.wf(),
        ensures
            r@.len() == self.tasks.kv().len(),
            r@.len() == self@.dom().len(),
            self@.dom().finite(),
            forall|i: int|
                0 <= i < r@.len() ==> {
                    &&& (#[trigger] r@[i]).0@ == self.tasks.kv()[i].0@
                    &&& r@[i].1@ == spec_state_name(self.tasks.kv()[i].1)
                    &&& self@.contains_key(r@[i].0@)
                    &&& self@[r@[i].0@] == self.tasks.kv()[i].1
                },
            forall|k: Seq<char>| #[trigger]
                self@.contains_key(k) ==> exists|i: int| 0 <= i < r@.len() && r@[i].0@ == k,
    {
        proof {
            lemma_map_of_dom_len(self.tasks.kv());
        }
        let n = self.tasks.size();
        let mut r: Vec<(String, String)> = Vec::new();
        let mut i: usize = 0;
        while i < n
            invariant
                i <= n,
                n == self.tasks.kv().len(),
                self.wf(),
                r@.len() == i,
                forall|j: int|
                    0 <= j < i ==> {
                        &&& (#[trigger] r@[j]).0@ == self.tasks.kv()[j].0@
                        &&& r@[j].1@ == spec_state_name(self.tasks.kv()[j].1)
                        &&& self@.contains_key(r@[j].0@)
                        &&& self@[r@[j].0@] == self.tasks.kv()[j].1
                    },
            decreases n - i,
        {
            let pair = self.tasks.entry(i);
            proof {
                lemma_map_of_index(self.tasks.kv(), i as int);
            }
            let name = pair.0.clone();
            let state_name = pair.1.name_string();
            r.push((name, state_name));
            i = i + 1;
        }
        proof {
            assert forall|k: Seq<char>| #[trigger]
                self@.contains_key(k) implies exists|i2: int|
                0 <= i2 < r@.len() && r@[i2].0@ == k by {
                lemma_map_of_contains(self.tasks.kv(), k);
                let w = choose|i2: int|
                    0 <= i2 < self.tasks.kv().len() && self.tasks.kv()[i2].0@ == k;
                assert(r@[w].0@ == k);
            }
        }
        r
    }
}

/// Law: two `start` calls for one name, serialized by the registry's lock in
/// either order, never both report `Started`; once one reports `Started` the
/// other reports `AlreadyRunning`, and on a name that was not running the
/// pair is exactly one `Started` followed by one `AlreadyRunning`.
pub proof fn lemma_start_exclusive(m: Map<Seq<char>, TaskState>, n: Seq<char>)
    ensures
        ({
            let (m1, r1) = start_transition(m, n);
            let (m2, r2) = start_transition(m1, n);
            &&& !(r1 == StartOutcome::Started && r2 == StartOutcome::Started)
            &&& (r1 == StartOutcome::Started ==> r2 == StartOutcome::AlreadyRunning)
            &&& (!(m.contains_key(n) && m[n] == TaskState::Running) ==> r1
                == StartOutcome::Started && r2 == StartOutcome::AlreadyRunning)
        }),
{
}

/// Law: `stop` on a name never started reports `NotFound`, and `stop` on a
/// name already in a terminal state reports `AlreadyStopped`; neither call
/// changes the registry.
pub proof fn lemma_stop_without_live_task(m: Map<Seq<char>, TaskState>, n: Seq<char>)
    ensures
        !m.contains_key(n) ==> stop_transition(m, n) == (m, StopOutcome::NotFound),
        m.contains_key(n) && is_terminal(m[n]) ==> stop_transition(m, n) == (
            m,
            StopOutcome::AlreadyStopped,
        ),
{
}

/// Law: after `stop` reports `Stopped`, the name stays in state `Stopped`
/// through any further stop or completion event and through a `start` of any
/// other name; only a fresh `start` of the same name leaves the state.
pub proof fn lemma_stopped_until_restart(
    m: Map<Seq<char>, TaskState>,
    n: Seq<char>,
    n2: Seq<char>,
    outcome: RunnerOutcome,
)
    requires
        m.contains_key(n),
        m[n] == TaskState::Running,
    ensures
        ({
            let (m1, r1) = stop_transition(m, n);
            &&& r1 == StopOutcome::Stopped
            &&& m1.contains_key(n) && m1[n] == TaskState::Stopped
            &&& stop_transition(m1, n2).0[n] == TaskState::Stopped
            &&& completion_transition(m1, n2, outcome)[n] == TaskState::Stopped
            &&& n2 != n ==> start_transition(m1, n2).0[n] == TaskState::Stopped
        }),
{
}

/// Law: a terminal state is stable. A late completion callback leaves the
/// registry untouched, and `stop` reports `AlreadyStopped` without a change.
pub proof fn lemma_terminal_state_stable(
    m: Map<Seq<char>, TaskState>,
    n: Seq<char>,
    outcome: RunnerOutcome,
)
    requires
        m.contains_key(n),
        is_terminal(m[n]),
    ensures
        completion_transition(m, n, outcome) == m,
        stop_transition(m, n) == (m, StopOutcome::AlreadyStopped),
{
}

/// Law: when a runner's natural exit races a `stop` for a running name, the
/// transition observed first by the registry wins and the later event never
/// regresses the recorded state.
pub proof fn lemma_stop_completion_race(
    m: Map<Seq<char>, TaskState>,
    n: Seq<char>,
    outcome: RunnerOutcome,
)
    requires
        m.contains_key(n),
        m[n] == TaskState::Running,
    ensures
        completion_transition(stop_transition(m, n).0, n, outcome)[n] == TaskState::Stopped,
        stop_transition(completion_transition(m, n, outcome), n).0[n] == outcome_state(outcome),
        stop_transition(completion_transition(m, n, outcome), n).1 == StopOutcome::AlreadyStopped,
{
    assert(is_terminal(outcome_state(outcome)));
}

} // verus!
