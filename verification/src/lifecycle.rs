//! Task lifecycle.
//!
//! Each task runs through the machine `running → (waiting_for_permission
//! → running)* → {completed | error | stopping → stopped}`. The manager
//! owns the visible task set, keyed by identifier; the observed state
//! sequence of every task is kept alongside it and is always a path
//! through the machine. Stopping is cooperative: a task blocked on a
//! permission prompt is cancelled only once the prompt resolves.

use vstd::prelude::*;
use crate::assoc::AssocMap;
use crate::permissions::PromptEvaluation;
use crate::types::{PermissionPrompt, PermissionsResponse, PromptModel};

verus! {

/// The observable state of a task.
#[derive(Debug, Clone, Copy, PartialEq, Eq, Structural)]
pub enum TaskState {
    Running,
    WaitingForPermission,
    Stopping,
    Stopped,
    Completed,
    Error,
}

/// A terminal task never changes state again; it can only be removed.
pub open spec fn is_terminal(s: TaskState) -> bool {
    s is Completed || s is Error || s is Stopped
}

/// A live task owns an execution context.
pub open spec fn is_live(s: TaskState) -> bool {
    !is_terminal(s)
}

/// The legal single transitions of the task state machine.
pub open spec fn valid_step(a: TaskState, b: TaskState) -> bool {
    ||| (a is Running && (b is WaitingForPermission || b is Completed || b is Error
        || b is Stopping))
    ||| (a is WaitingForPermission && b is Running)
    ||| (a is Stopping && b is Stopped)
}

/// A legal observed state sequence: it starts at `Running` and each
/// neighbouring pair is a legal transition.
pub open spec fn is_valid_path(h: Seq<TaskState>) -> bool {
    h.len() >= 1 && h[0] is Running && (forall|i: int|
        0 <= i < h.len() - 1 ==> valid_step(h[i], #[trigger] h[i + 1]))
}

/// Extending a legal sequence by a legal transition keeps it legal.
pub proof fn lemma_path_push(h: Seq<TaskState>, s: TaskState)
    requires
        is_valid_path(h),
        valid_step(h.last(), s),
    ensures
        is_valid_path(h.push(s)),
{
    let g = h.push(s);
    assert forall|i: int| 0 <= i < g.len() - 1 implies valid_step(g[i], #[trigger] g[i + 1]) by {
        if i < h.len() - 1 {
            assert(g[i] == h[i] && g[i + 1] == h[i + 1]);
        } else {
            assert(g[i] == h.last() && g[i + 1] == s);
        }
    }
}

/// On a legal sequence, `Stopped` is only ever entered from `Stopping`:
/// no path skips `Stopping` en route to `Stopped`.
pub proof fn lemma_stopped_follows_stopping(h: Seq<TaskState>, i: int)
    requires
        is_valid_path(h),
        0 < i < h.len(),
        h[i] is Stopped,
    ensures
        h[i - 1] is Stopping,
{
    assert(valid_step(h[i - 1], h[(i - 1) + 1]));
}

/// The views of a sequence of prompts.
pub open spec fn prompts_of(s: Seq<PermissionPrompt>) -> Seq<PromptModel> {
    s.map_values(|p: PermissionPrompt| p@)
}

/// One host-visible unit of requested script execution.
pub struct Task {
    pub state: TaskState,
    pub error: Option<String>,
    pub return_value: String,
    pub current_prompt: Option<PermissionPrompt>,
    pub permission_history: Vec<PermissionPrompt>,
    pub cancel_requested: bool,
    pub states: Ghost<Seq<TaskState>>,
}

/// The mathematical shape of a task.
pub struct TaskModel {
    pub state: TaskState,
    pub error: Option<Seq<char>>,
    pub return_value: Seq<char>,
    pub current_prompt: Option<PromptModel>,
    pub permission_history: Seq<PromptModel>,
    pub cancel_requested: bool,
    /// The task's observed state sequence, oldest first.
    pub states: Seq<TaskState>,
}

impl View for Task {
    type V = TaskModel;

    open spec fn view(&self) -> TaskModel {
        TaskModel {
            state: self.state,
            error: match self.error {
                Some(e) => Some(e@),
                None => None,
            },
            return_value: self.return_value@,
            current_prompt: match self.current_prompt {
                Some(p) => Some(p@),
                None => None,
            },
            permission_history: prompts_of(self.permission_history@),
            cancel_requested: self.cancel_requested,
            states: self.states@,
        }
    }
}

/// A task model that is internally coherent: its state sequence is a
/// legal path ending at its state, an error message is present exactly
/// in the error state, and a prompt is outstanding exactly while waiting.
pub open spec fn task_wf(m: TaskModel) -> bool {
    &&& m.states.len() >= 1
    &&& m.states.last() == m.state
    &&& is_valid_path(m.states)
    &&& (m.state is Error <==> m.error is Some)
    &&& (m.current_prompt is Some <==> m.state is WaitingForPermission)
}

/// The model of a task that was just started.
pub open spec fn fresh_task_model() -> TaskModel {
    TaskModel {
        state: TaskState::Running,
        error: None,
        return_value: Seq::empty(),
        current_prompt: None,
        permission_history: Seq::empty(),
        cancel_requested: false,
        states: seq![TaskState::Running],
    }
}

/// Why a start request was rejected.
#[derive(Debug, Clone, PartialEq, Eq, Structural)]
pub enum LifecycleError {
    /// The identifier already has a live execution context.
    TaskAlreadyRunning,
}

/// What a stop request asks of the embedder. Stop always succeeds.
#[derive(Debug, Clone, Copy, PartialEq, Eq, Structural)]
pub enum StopAction {
    /// No task has this identifier: nothing to do.
    NoTask,
    /// The task had already finished: it was reclaimed.
    Reclaimed,
    /// The task was running: send its cancellation signal and, once the
    /// thread joins, report it stopped.
    SignalCancel,
    /// The task is blocked on a permission prompt: cancellation takes
    /// effect when the prompt resolves.
    DeferredCancel,
    /// A stop was already under way.
    AlreadyStopping,
}

/// Whether a task in state `s` is live.
pub fn state_is_live(s: TaskState) -> (r: bool)
    ensures
        r == is_live(s),
{
    match s {
        TaskState::Running => true,
        TaskState::WaitingForPermission => true,
        TaskState::Stopping => true,
        TaskState::Stopped => false,
        TaskState::Completed => false,
        TaskState::Error => false,
    }
}

/// Owns the visible task set and enforces the state machine.
pub struct TaskManager {
    tasks: AssocMap<Task>,
}

impl View for TaskManager {
    type V = Map<Seq<char>, TaskModel>;

    closed spec fn view(&self) -> Map<Seq<char>, TaskModel> {
        self.tasks@
    }
}

impl TaskManager {
    #[verifier::type_invariant]
    spec fn wf(self) -> bool {
        forall|k: Seq<char>| #[trigger]
            self.tasks@.contains_key(k) ==> task_wf(self.tasks@[k])
    }

    /// A manager with no tasks.
    pub fn new() -> (r: Self)
        ensures
            r@ == Map::<Seq<char>, TaskModel>::empty(),
    {
        TaskManager { tasks: AssocMap::new() }
    }

    /// Starts a task under `id`: rejected while `id` has a live
    /// execution context; otherwise any finished task under `id` is
    /// replaced by a fresh running one, and the embedder spawns its
    /// execution thread.
    pub fn start(&mut self, id: &str) -> (r: Result<(), LifecycleError>)
        ensures
            old(self)@.contains_key(id@) && is_live(old(self)@[id@].state) ==> r == Err::<
                (),
                LifecycleError,
            >(LifecycleError::TaskAlreadyRunning) && final(self)@ == old(self)@,
            !(old(self)@.contains_key(id@) && is_live(old(self)@[id@].state)) ==> r == Ok::<
                (),
                LifecycleError,
            >(()) && final(self)@ == old(self)@.insert(id@, fresh_task_model()),
    {
        proof {
            use_type_invariant(&*self);
        }
        let already_live = match self.tasks.get(id) {
            Some(t) => state_is_live(t.state),
            None => false,
        };
        if already_live {
            return Err(LifecycleError::TaskAlreadyRunning);
        }
        let ghost initial_states: Seq<TaskState> = seq![TaskState::Running];
        let task = Task {
            state: TaskState::Running,
            error: None,
            return_value: String::new(),
            current_prompt: None,
            permission_history: Vec::new(),
            cancel_requested: false,
            states: Ghost(initial_states),
        };
        proof {
            assert(prompts_of(task.permission_history@) =~= Seq::<PromptModel>::empty());
            assert(task@ == fresh_task_model());
            assert(task_wf(task@));
        }
        let mut tasks = AssocMap::new();
        std::mem::swap(&mut tasks, &mut self.tasks);
        tasks.insert(id.to_owned(), task);
        self.tasks = tasks;
        Ok(())
    }

    /// The task under `id`, if any. Every task the manager hands out is
    /// coherent; in particular its observed state sequence is a legal
    /// path through the machine, ending at its current state.
    pub fn query(&self, id: &str) -> (r: Option<&Task>)
        ensures
            match r {
                Some(t) => self@.contains_key(id@) && t@ == self@[id@] && task_wf(t@)
                    && is_valid_path(t@.states) && t@.states.last() == t@.state,
                None => !self@.contains_key(id@),
            },
    {
        proof {
            use_type_invariant(&*self);
        }
        self.tasks.get(id)
    }

    /// Records that the execution context of `id` finished normally with
    /// `return_value`. Only a running task completes; anything else is
    /// left untouched.
    pub fn mark_completed(&mut self, id: &str, return_value: String) -> (r: bool)
        ensures
            old(self)@.contains_key(id@) && old(self)@[id@].state is Running ==> r && final(self)@
                == old(self)@.insert(id@, (TaskModel {
                state: TaskState::Completed,
                error: None,
                return_value: return_value@,
                states: old(self)@[id@].states.push(TaskState::Completed),
                ..old(self)@[id@]
            })),
            !(old(self)@.contains_key(id@) && old(self)@[id@].state is Running) ==> !r && final(self)@ == old(self)@,
    {
        proof {
            use_type_invariant(&*self);
        }
        let mut tasks = AssocMap::new();
        std::mem::swap(&mut tasks, &mut self.tasks);
        let r = match tasks.take(id) {
            Some(mut task) => {
                match task.state {
                    TaskState::Running => {
                        proof {
                            lemma_path_push(task.states@, TaskState::Completed);
                        }
                        task.state = TaskState::Completed;
                        task.error = None;
                        task.return_value = return_value;
                        task.states = Ghost(task.states@.push(TaskState::Completed));
                        tasks.insert(id.to_owned(), task);
                        true
                    },
                    _ => {
                        tasks.insert(id.to_owned(), task);
                        proof {
                            assert(tasks@ =~= old(self)@);
                        }
                        false
                    },
                }
            },
            None => false,
        };
        self.tasks = tasks;
        r
    }

    /// Records that the execution context of `id` failed with `message`:
    /// a module-evaluation failure and an event-loop failure both land
    /// here. Only a running task errors; anything else is left untouched.
    pub fn mark_error(&mut self, id: &str, message: String) -> (r: bool)
        ensures
            old(self)@.contains_key(id@) && old(self)@[id@].state is Running ==> r && final(self)@
                == old(self)@.insert(id@, (TaskModel {
                state: TaskState::Error,
                error: Some(message@),
                states: old(self)@[id@].states.push(TaskState::Error),
                ..old(self)@[id@]
            })),
            !(old(self)@.contains_key(id@) && old(self)@[id@].state is Running) ==> !r && final(self)@ == old(self)@,
    {
        proof {
            use_type_invariant(&*self);
        }
        let mut tasks = AssocMap::new();
        std::mem::swap(&mut tasks, &mut self.tasks);
        let r = match tasks.take(id) {
            Some(mut task) => {
                match task.state {
                    TaskState::Running => {
                        proof {
                            lemma_path_push(task.states@, TaskState::Error);
                        }
                        task.state = TaskState::Error;
                        task.error = Some(message);
                        task.states = Ghost(task.states@.push(TaskState::Error));
                        tasks.insert(id.to_owned(), task);
                        true
                    },
                    _ => {
                        tasks.insert(id.to_owned(), task);
                        proof {
                            assert(tasks@ =~= old(self)@);
                        }
                        false
                    },
                }
            },
            None => false,
        };
        self.tasks = tasks;
        r
    }

    /// Requests that the task under `id` stop. Always succeeds: a
    /// missing task is a no-op, a finished one is reclaimed, a running
    /// one turns to `Stopping` and gets its cancellation signal, and one
    /// blocked on a prompt is cancelled once the prompt resolves.
    pub fn stop(&mut self, id: &str) -> (r: StopAction)
        ensures
            !old(self)@.contains_key(id@) ==> r == StopAction::NoTask && final(self)@ == old(self)@,
            old(self)@.contains_key(id@) && is_terminal(old(self)@[id@].state) ==> r
                == StopAction::Reclaimed && final(self)@ == old(self)@.remove(id@),
            old(self)@.contains_key(id@) && old(self)@[id@].state is Running ==> r
                == StopAction::SignalCancel && final(self)@ == old(self)@.insert(id@, (TaskModel {
                state: TaskState::Stopping,
                cancel_requested: true,
                states: old(self)@[id@].states.push(TaskState::Stopping),
                ..old(self)@[id@]
            })),
            old(self)@.contains_key(id@) && old(self)@[id@].state is WaitingForPermission ==> r
                == StopAction::DeferredCancel && final(self)@ == old(self)@.insert(id@, (TaskModel {
                cancel_requested: true,
                ..old(self)@[id@]
            })),
            old(self)@.contains_key(id@) && old(self)@[id@].state is Stopping ==> r
                == StopAction::AlreadyStopping && final(self)@ == old(self)@,
    {
        proof {
            use_type_invariant(&*self);
        }
        let mut tasks = AssocMap::new();
        std::mem::swap(&mut tasks, &mut self.tasks);
        let r = match tasks.take(id) {
            Some(mut task) => {
                match task.state {
                    TaskState::Running => {
                        proof {
                            lemma_path_push(task.states@, TaskState::Stopping);
                        }
                        task.state = TaskState::Stopping;
                        task.cancel_requested = true;
                        task.states = Ghost(task.states@.push(TaskState::Stopping));
                        tasks.insert(id.to_owned(), task);
                        StopAction::SignalCancel
                    },
                    TaskState::WaitingForPermission => {
                        task.cancel_requested = true;
                        tasks.insert(id.to_owned(), task);
                        StopAction::DeferredCancel
                    },
                    TaskState::Stopping => {
                        tasks.insert(id.to_owned(), task);
                        proof {
                            assert(tasks@ =~= old(self)@);
                        }
                        StopAction::AlreadyStopping
                    },
                    _ => {
                        StopAction::Reclaimed
                    },
                }
            },
            None => StopAction::NoTask,
        };
        self.tasks = tasks;
        r
    }

    /// Records that the stopping task under `id` joined its thread.
    pub fn mark_stopped(&mut self, id: &str) -> (r: bool)
        ensures
            old(self)@.contains_key(id@) && old(self)@[id@].state is Stopping ==> r && final(self)@
                == old(self)@.insert(id@, (TaskModel {
                state: TaskState::Stopped,
                states: old(self)@[id@].states.push(TaskState::Stopped),
                ..old(self)@[id@]
            })),
            !(old(self)@.contains_key(id@) && old(self)@[id@].state is Stopping) ==> !r && final(self)@ == old(self)@,
    {
        proof {
            use_type_invariant(&*self);
        }
        let mut tasks = AssocMap::new();
        std::mem::swap(&mut tasks, &mut self.tasks);
        let r = match tasks.take(id) {
            Some(mut task) => {
                match task.state {
                    TaskState::Stopping => {
                        proof {
                            lemma_path_push(task.states@, TaskState::Stopped);
                        }
                        task.state = TaskState::Stopped;
                        task.states = Ghost(task.states@.push(TaskState::Stopped));
                        tasks.insert(id.to_owned(), task);
                        true
                    },
                    _ => {
                        tasks.insert(id.to_owned(), task);
                        proof {
                            assert(tasks@ =~= old(self)@);
                        }
                        false
                    },
                }
            },
            None => false,
        };
        self.tasks = tasks;
        r
    }

    /// Applies what the mediation subsystem decided for a capability
    /// check raised by the task under `id`. An oversize prompt was
    /// denied outright: the task is untouched — it never enters
    /// `WaitingForPermission`. An emitted prompt puts the running task
    /// into `WaitingForPermission`, records it as outstanding, and is
    /// handed back for the embedder to show the operator.
    pub fn apply_prompt_evaluation(&mut self, id: &str, evaluation: PromptEvaluation) -> (emit:
        Option<PermissionPrompt>)
        ensures
            evaluation is OversizeDenied ==> emit is None && final(self)@ == old(self)@,
            evaluation matches PromptEvaluation::Emit(p) ==> (old(self)@.contains_key(id@) && old(
                self,
            )@[id@].state is Running ==> (emit matches Some(q) && q@ == p@ && final(self)@ == old(
                self,
            )@.insert(id@, (TaskModel {
                state: TaskState::WaitingForPermission,
                current_prompt: Some(p@),
                states: old(self)@[id@].states.push(TaskState::WaitingForPermission),
                ..old(self)@[id@]
            })))),
            evaluation is Emit && !(old(self)@.contains_key(id@) && old(self)@[id@].state
                is Running) ==> emit is None && final(self)@ == old(self)@,
    {
        proof {
            use_type_invariant(&*self);
        }
        let prompt = match evaluation {
            PromptEvaluation::OversizeDenied(_) => {
                return None;
            },
            PromptEvaluation::Emit(p) => p,
        };
        let mut tasks = AssocMap::new();
        std::mem::swap(&mut tasks, &mut self.tasks);
        let emit = match tasks.take(id) {
            Some(mut task) => {
                match task.state {
                    TaskState::Running => {
                        proof {
                            lemma_path_push(task.states@, TaskState::WaitingForPermission);
                        }
                        let out = PermissionPrompt {
                            message: prompt.message.clone(),
                            name: prompt.name.clone(),
                            api_name: match &prompt.api_name {
                                Some(a) => Some(a.clone()),
                                None => None,
                            },
                            is_unary: prompt.is_unary,
                            response: prompt.response,
                            stack: clone_strings(&prompt.stack),
                        };
                        proof {
                            assert(out@ == prompt@);
                        }
                        task.state = TaskState::WaitingForPermission;
                        task.current_prompt = Some(prompt);
                        task.states = Ghost(
                            task.states@.push(TaskState::WaitingForPermission),
                        );
                        tasks.insert(id.to_owned(), task);
                        Some(out)
                    },
                    _ => {
                        tasks.insert(id.to_owned(), task);
                        proof {
                            assert(tasks@ =~= old(self)@);
                        }
                        None
                    },
                }
            },
            None => None,
        };
        self.tasks = tasks;
        emit
    }

    /// Resolves the outstanding prompt of the task under `id` with the
    /// operator's response: the answered prompt moves to the task's
    /// history, the task resumes, and a deferred cancellation now takes
    /// effect. A task that is not waiting is left untouched.
    pub fn resolve_prompt(&mut self, id: &str, response: PermissionsResponse) -> (r: bool)
        ensures
            (old(self)@.contains_key(id@) && old(self)@[id@].state is WaitingForPermission && !old(self)@[id@].cancel_requested) ==> r && final(self)@ == old(self)@.insert(id@, (TaskModel {
                state: TaskState::Running,
                current_prompt: None,
                permission_history: old(self)@[id@].permission_history.push(
                    answered_prompt(old(self)@[id@].current_prompt->Some_0, response),
                ),
                states: old(self)@[id@].states.push(TaskState::Running),
                ..old(self)@[id@]
            })),
            (old(self)@.contains_key(id@) && old(self)@[id@].state is WaitingForPermission && old(self)@[id@].cancel_requested) ==> r && final(self)@ == old(self)@.insert(id@, (TaskModel {
                state: TaskState::Stopping,
                current_prompt: None,
                permission_history: old(self)@[id@].permission_history.push(
                    answered_prompt(old(self)@[id@].current_prompt->Some_0, response),
                ),
                states: old(self)@[id@].states.push(TaskState::Running).push(TaskState::Stopping),
                ..old(self)@[id@]
            })),
            !(old(self)@.contains_key(id@) && old(self)@[id@].state is WaitingForPermission) ==> !r
                && final(self)@ == old(self)@,
    {
        proof {
            use_type_invariant(&*self);
        }
        let mut tasks = AssocMap::new();
        std::mem::swap(&mut tasks, &mut self.tasks);
        let r = match tasks.take(id) {
            Some(mut task) => {
                match task.state {
                    TaskState::WaitingForPermission => {
                        let mut taken: Option<PermissionPrompt> = None;
                        std::mem::swap(&mut taken, &mut task.current_prompt);
                        match taken {
                            Some(mut p) => {
                                p.response = Some(response);
                                proof {
                                    assert(prompts_of(task.permission_history@.push(p)) =~= prompts_of(
                                        task.permission_history@,
                                    ).push(p@));
                                }
                                task.permission_history.push(p);
                            },
                            None => {
                                proof {
                                    // a waiting task always has an
                                    // outstanding prompt
                                    assert(false);
                                }
                            },
                        }
                        proof {
                            lemma_path_push(task.states@, TaskState::Running);
                        }
                        task.states = Ghost(task.states@.push(TaskState::Running));
                        if task.cancel_requested {
                            proof {
                                lemma_path_push(task.states@, TaskState::Stopping);
                            }
                            task.state = TaskState::Stopping;
                            task.states = Ghost(task.states@.push(TaskState::Stopping));
                        } else {
                            task.state = TaskState::Running;
                        }
                        tasks.insert(id.to_owned(), task);
                        true
                    },
                    _ => {
                        tasks.insert(id.to_owned(), task);
                        proof {
                            assert(tasks@ =~= old(self)@);
                        }
                        false
                    },
                }
            },
            None => false,
        };
        self.tasks = tasks;
        r
    }

    /// Removes every task that has finished; running, waiting and
    /// stopping tasks stay.
    pub fn clear_completed(&mut self)
        ensures
            final(self)@ == live_part(old(self)@),
    {
        proof {
            use_type_invariant(&*self);
        }
        let keys = self.tasks.keys();
        let n = keys.len();
        let mut tasks = AssocMap::new();
        std::mem::swap(&mut tasks, &mut self.tasks);
        let mut i: usize = 0;
        while i < n
            invariant
                i <= n,
                n == keys@.len(),
                forall|k: Seq<char>| #[trigger]
                    tasks@.contains_key(k) ==> old(self)@.contains_key(k) && tasks@[k] == old(self)@[k],
                forall|k: Seq<char>|
                    old(self)@.contains_key(k) && is_live(old(self)@[k].state)
                        ==> #[trigger] tasks@.contains_key(k),
                forall|k: Seq<char>| #[trigger]
                    tasks@.contains_key(k) && !is_live(old(self)@[k].state) ==> exists|j: int|
                        i <= j < n && keys@[j]@ == k,
            decreases n - i,
        {
            let key = &keys[i];
            let terminal = match tasks.get(key.as_str()) {
                Some(t) => !state_is_live(t.state),
                None => false,
            };
            if terminal {
                tasks.remove(key.as_str());
            }
            proof {
                assert forall|k: Seq<char>| #[trigger]
                    tasks@.contains_key(k) && !is_live(old(self)@[k].state) implies exists|j: int|
                    i + 1 <= j < n && keys@[j]@ == k by {
                    let j = choose|j: int| i <= j < n && keys@[j]@ == k;
                    assert(keys@[j]@ == k);
                    assert(j != i);
                }
            }
            i += 1;
        }
        proof {
            assert forall|k: Seq<char>| #[trigger]
                old(self)@.contains_key(k) && is_live(old(self)@[k].state) implies tasks@.contains_key(
                k,
            ) && tasks@[k] == old(self)@[k] by {}
            assert(tasks@ =~= live_part(old(self)@));
        }
        self.tasks = tasks;
    }
}

/// A prompt with the operator's answer filled in.
pub open spec fn answered_prompt(p: PromptModel, response: PermissionsResponse) -> PromptModel {
    PromptModel { response: Some(response), ..p }
}

/// The tasks of `m` that still own an execution context.
pub open spec fn live_part(m: Map<Seq<char>, TaskModel>) -> Map<Seq<char>, TaskModel> {
    m.restrict(m.dom().filter(|k: Seq<char>| is_live(m[k].state)))
}

/// A copy of a string vector.
fn clone_strings(v: &Vec<String>) -> (r: Vec<String>)
    ensures
        crate::strutil::views_of(r@) == crate::strutil::views_of(v@),
        r@.len() == v@.len(),
{
    let n = v.len();
    let mut out: Vec<String> = Vec::new();
    let mut i: usize = 0;
    while i < n
        invariant
            i <= n,
            n == v@.len(),
            out@.len() == i,
            forall|j: int| 0 <= j < i ==> #[trigger] out@[j]@ == v@[j]@,
        decreases n - i,
    {
        out.push(v[i].clone());
        i += 1;
    }
    proof {
        assert(crate::strutil::views_of(out@) =~= crate::strutil::views_of(v@));
    }
    out
}

/// Law: a started task is live, so by `start`'s contract an immediate
/// second `start` with the same identifier — before the first run
/// finishes — is rejected with `TaskAlreadyRunning` and changes nothing:
/// no two concurrent contexts ever share an identifier.
pub proof fn lemma_second_start_rejected(m: Map<Seq<char>, TaskModel>, id: Seq<char>)
    ensures
        is_live(fresh_task_model().state),
        m.insert(id, fresh_task_model()).contains_key(id),
        m.insert(id, fresh_task_model())[id] == fresh_task_model(),
{
}


} // verus!
