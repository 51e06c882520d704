//! The lifecycle of the AI sidecar: the engine process and the model it serves.
//!
//! The engine moves `Stopped | Disabled | Error -> Starting -> Running`, and may always fall
//! back to `Stopped`, `Disabled` or `Error`. The model moves `Unloaded | Error -> Loading -> Ready`
//! and may always fall back to `Unloaded` or `Error`. Whenever the engine moves to a status other
//! than `Running` (`Starting` included), the model is reset to `Unloaded`.
use vstd::prelude::*;

verus! {

/// Status of the AI engine (the sidecar process).
#[derive(Debug, Clone, Copy, PartialEq, Eq, Structural)]
pub enum EngineStatus {
    Disabled,
    Stopped,
    Starting,
    Running,
    Error,
}

/// Status of the model loaded into the AI engine.
#[derive(Debug, Clone, Copy, PartialEq, Eq, Structural)]
pub enum ModelStatus {
    Unloaded,
    Loading,
    Ready,
    Error,
}

/// The integer that stands for an engine status when it is stored or exchanged.
pub open spec fn engine_repr(s: EngineStatus) -> int {
    match s {
        EngineStatus::Disabled => -1,
        EngineStatus::Stopped => 0,
        EngineStatus::Starting => 1,
        EngineStatus::Running => 2,
        EngineStatus::Error => 3,
    }
}

/// The integer that stands for a model status when it is stored or exchanged.
pub open spec fn model_repr(s: ModelStatus) -> int {
    match s {
        ModelStatus::Unloaded => 0,
        ModelStatus::Loading => 1,
        ModelStatus::Ready => 2,
        ModelStatus::Error => 3,
    }
}

impl EngineStatus {
    /// The status's integer representation (`Disabled` is -1, `Stopped` 0, `Starting` 1,
    /// `Running` 2, `Error` 3).
    pub fn to_repr(self) -> (r: i32)
        ensures
            r == engine_repr(self),
    {
        match self {
            EngineStatus::Disabled => -1,
            EngineStatus::Stopped => 0,
            EngineStatus::Starting => 1,
            EngineStatus::Running => 2,
            EngineStatus::Error => 3,
        }
    }

    /// The status whose representation is `raw`, if there is one.
    pub fn from_repr(raw: i32) -> (r: Option<EngineStatus>)
        ensures
            r matches Some(s) ==> engine_repr(s) == raw,
            r is None <==> !(-1 <= raw <= 3),
    {
        if raw == -1 {
            Some(EngineStatus::Disabled)
        } else if raw == 0 {
            Some(EngineStatus::Stopped)
        } else if raw == 1 {
            Some(EngineStatus::Starting)
        } else if raw == 2 {
            Some(EngineStatus::Running)
        } else if raw == 3 {
            Some(EngineStatus::Error)
        } else {
            None
        }
    }

    /// The default engine status, `Stopped`.
    pub fn default_status() -> (s: EngineStatus)
        ensures
            s == EngineStatus::Stopped,
    {
        EngineStatus::Stopped
    }
}

impl ModelStatus {
    /// The status's integer representation (`Unloaded` 0, `Loading` 1, `Ready` 2, `Error` 3).
    pub fn to_repr(self) -> (r: i32)
        ensures
            r == model_repr(self),
    {
        match self {
            ModelStatus::Unloaded => 0,
            ModelStatus::Loading => 1,
            ModelStatus::Ready => 2,
            ModelStatus::Error => 3,
        }
    }

    /// The status whose representation is `raw`, if there is one.
    pub fn from_repr(raw: i32) -> (r: Option<ModelStatus>)
        ensures
            r matches Some(s) ==> model_repr(s) == raw,
            r is None <==> !(0 <= raw <= 3),
    {
        if raw == 0 {
            Some(ModelStatus::Unloaded)
        } else if raw == 1 {
            Some(ModelStatus::Loading)
        } else if raw == 2 {
            Some(ModelStatus::Ready)
        } else if raw == 3 {
            Some(ModelStatus::Error)
        } else {
            None
        }
    }

    /// The default model status, `Unloaded`.
    pub fn default_status() -> (s: ModelStatus)
        ensures
            s == ModelStatus::Unloaded,
    {
        ModelStatus::Unloaded
    }
}

/// Whether the engine may move from `from` to `to`.
pub open spec fn engine_transition_allowed(from: EngineStatus, to: EngineStatus) -> bool {
    &&& from != to
    &&& match to {
        EngineStatus::Stopped | EngineStatus::Disabled | EngineStatus::Error => true,
        EngineStatus::Starting => from == EngineStatus::Stopped || from == EngineStatus::Disabled
            || from == EngineStatus::Error,
        EngineStatus::Running => from == EngineStatus::Starting,
    }
}

/// Whether the model may move from `from` to `to`.
pub open spec fn model_transition_allowed(from: ModelStatus, to: ModelStatus) -> bool {
    &&& from != to
    &&& match to {
        ModelStatus::Unloaded | ModelStatus::Error => true,
        ModelStatus::Loading => from == ModelStatus::Unloaded || from == ModelStatus::Error,
        ModelStatus::Ready => from == ModelStatus::Loading,
    }
}

/// The abstract state of the lifecycle.
pub struct AiLifecycleState {
    pub engine: EngineStatus,
    pub model: ModelStatus,
    pub pid: u32,
}

/// The state after a request to move the model to `to`, and whether it moved.
pub open spec fn model_step(s: AiLifecycleState, to: ModelStatus) -> (AiLifecycleState, bool) {
    if model_transition_allowed(s.model, to) {
        (AiLifecycleState { model: to, ..s }, true)
    } else {
        (s, false)
    }
}

/// The state after a request to move the engine to `to`, and whether it moved. A move to any
/// status other than `Running` also unloads the model.
pub open spec fn engine_step(s: AiLifecycleState, to: EngineStatus) -> (AiLifecycleState, bool) {
    if engine_transition_allowed(s.engine, to) {
        let moved = AiLifecycleState { engine: to, ..s };
        if to == EngineStatus::Running {
            (moved, true)
        } else {
            (model_step(moved, ModelStatus::Unloaded).0, true)
        }
    } else {
        (s, false)
    }
}

/// Self-contained AI lifecycle state machine.
pub struct AiStateMachine {
    engine: EngineStatus,
    model: ModelStatus,
    pid: u32,
}

impl View for AiStateMachine {
    type V = AiLifecycleState;

    closed spec fn view(&self) -> AiLifecycleState {
        AiLifecycleState { engine: self.engine, model: self.model, pid: self.pid }
    }
}

impl AiStateMachine {
    /// A machine whose engine is `initial_engine`, whose model is unloaded and whose pid is 0.
    pub fn new(initial_engine: EngineStatus) -> (m: AiStateMachine)
        ensures
            m@ == (AiLifecycleState {
                engine: initial_engine,
                model: ModelStatus::Unloaded,
                pid: 0,
            }),
    {
        AiStateMachine { engine: initial_engine, model: ModelStatus::Unloaded, pid: 0 }
    }

    /// Moves the engine to `to` if that move is allowed; returns whether it moved. A move to any
    /// status other than `Running` (`Starting` included) resets the model to `Unloaded`.
    pub fn transition_engine(&mut self, to: EngineStatus) -> (moved: bool)
        ensures
            (final(self)@, moved) == engine_step(old(self)@, to),
            moved <==> engine_transition_allowed(old(self)@.engine, to),
            moved ==> final(self)@.engine == to,
            moved && to != EngineStatus::Running ==> final(self)@.model == ModelStatus::Unloaded,
            moved && to == EngineStatus::Running ==> final(self)@.model == old(self)@.model,
            final(self)@.pid == old(self)@.pid,
    {
        let current = self.engine;
        if current == to {
            return false;
        }
        let valid = match to {
            EngineStatus::Stopped | EngineStatus::Disabled | EngineStatus::Error => true,
            EngineStatus::Starting => match current {
                EngineStatus::Stopped | EngineStatus::Disabled | EngineStatus::Error => true,
                _ => false,
            },
            EngineStatus::Running => current == EngineStatus::Starting,
        };
        if !valid {
            return false;
        }
        self.engine = to;
        match to {
            EngineStatus::Running => {},
            _ => {
                self.transition_model(ModelStatus::Unloaded);
            },
        }
        true
    }

    /// Moves the model to `to` if that move is allowed; returns whether it moved.
    pub fn transition_model(&mut self, to: ModelStatus) -> (moved: bool)
        ensures
            (final(self)@, moved) == model_step(old(self)@, to),
            moved <==> model_transition_allowed(old(self)@.model, to),
    {
        let current = self.model;
        if current == to {
            return false;
        }
        let valid = match to {
            ModelStatus::Unloaded | ModelStatus::Error => true,
            ModelStatus::Loading => current == ModelStatus::Unloaded || current == ModelStatus::Error,
            ModelStatus::Ready => current == ModelStatus::Loading,
        };
        if !valid {
            return false;
        }
        self.model = to;
        true
    }

    /// The engine's status.
    pub fn engine(&self) -> (s: EngineStatus)
        ensures
            s == self@.engine,
    {
        self.engine
    }

    /// The model's status.
    pub fn model(&self) -> (s: ModelStatus)
        ensures
            s == self@.model,
    {
        self.model
    }

    /// The pid of the engine process (0 when none was recorded).
    pub fn pid(&self) -> (p: u32)
        ensures
            p == self@.pid,
    {
        self.pid
    }

    /// Records the pid of the engine process; nothing else changes.
    pub fn set_pid(&mut self, pid: u32)
        ensures
            final(self)@ == (AiLifecycleState { pid, ..old(self)@ }),
    {
        self.pid = pid;
    }
}

/// A second request for the same engine status is refused and changes nothing.
pub proof fn lemma_engine_transition_not_repeated(s: AiLifecycleState, to: EngineStatus)
    ensures
        engine_step(engine_step(s, to).0, to) == (engine_step(s, to).0, false),
{
}

/// A second request for the same model status is refused and changes nothing.
pub proof fn lemma_model_transition_not_repeated(s: AiLifecycleState, to: ModelStatus)
    ensures
        model_step(model_step(s, to).0, to) == (model_step(s, to).0, false),
{
}

/// Every move of the engine to a status other than `Running`, `Starting` included, leaves the
/// model `Unloaded`.
pub proof fn lemma_non_running_move_unloads_model(s: AiLifecycleState, to: EngineStatus)
    requires
        engine_step(s, to).1,
        to != EngineStatus::Running,
    ensures
        engine_step(s, to).0.model == ModelStatus::Unloaded,
{
}

/// When the engine leaves `Running`, the model is `Unloaded` afterwards.
pub proof fn lemma_leaving_running_unloads_model(s: AiLifecycleState, to: EngineStatus)
    requires
        s.engine == EngineStatus::Running,
        engine_step(s, to).0.engine != EngineStatus::Running,
    ensures
        engine_step(s, to).0.model == ModelStatus::Unloaded,
{
}

/// The engine becomes `Running` only from `Starting`, and the model becomes `Ready` only from
/// `Loading`, whatever sequence of requests is made.
pub proof fn lemma_running_and_ready_only_after_starting_and_loading(
    s: AiLifecycleState,
    e: EngineStatus,
    m: ModelStatus,
)
    ensures
        engine_step(s, e).0.engine == EngineStatus::Running && s.engine != EngineStatus::Running
            ==> s.engine == EngineStatus::Starting,
        model_step(s, m).0.model == ModelStatus::Ready && s.model != ModelStatus::Ready
            ==> s.model == ModelStatus::Loading,
        engine_step(s, e).0.model == ModelStatus::Ready && s.model != ModelStatus::Ready
            ==> false,
{
}

/// No engine or model transition changes the recorded pid.
pub proof fn lemma_transitions_keep_pid(s: AiLifecycleState, e: EngineStatus, m: ModelStatus)
    ensures
        engine_step(s, e).0.pid == s.pid,
        model_step(s, m).0.pid == s.pid,
{
}

} // verus!
