//! The application's state: its settings, its transient flags and tasks, the AI lifecycle, and
//! whether a change is waiting to be announced to the user interface.
use vstd::prelude::*;
use crate::ai_config::{AiConfig, same_ai_config, opt_string_copy, opt_string_view};
use crate::ai_lifecycle::{
    AiStateMachine, AiLifecycleState, EngineStatus, ModelStatus, engine_step, model_step,
};
use crate::path_utils::opt_text;
use crate::tasks::{
    BackgroundTask, TaskBoard, TaskView, finish_message, finish_message_spec, lists_tasks_of,
    newest_first, tasks_view,
};

verus! {

/// The persisted settings of the application.
#[derive(Clone, Debug)]
pub struct AppConfig {
    pub active_workspace_id: Option<String>,
    pub ai_config: AiConfig,
    pub logging_enabled: bool,
    pub setup_completed: bool,
}

/// Two settings agree on every value.
pub open spec fn same_app_config(a: AppConfig, b: AppConfig) -> bool {
    &&& opt_string_view(a.active_workspace_id) == opt_string_view(b.active_workspace_id)
    &&& same_ai_config(a.ai_config, b.ai_config)
    &&& a.logging_enabled == b.logging_enabled
    &&& a.setup_completed == b.setup_completed
}

impl AppConfig {
    /// The default settings: no active workspace, default AI settings, logging on, setup not
    /// completed.
    pub fn default_config() -> (c: AppConfig)
        ensures
            c.active_workspace_id is None,
            same_ai_config(c.ai_config, AiConfig::default_spec()),
            c.logging_enabled,
            !c.setup_completed,
    {
        AppConfig {
            active_workspace_id: None,
            ai_config: AiConfig::default_config(),
            logging_enabled: true,
            setup_completed: false,
        }
    }

    /// A copy of the settings.
    pub fn duplicate(&self) -> (c: AppConfig)
        ensures
            same_app_config(c, *self),
    {
        AppConfig {
            active_workspace_id: opt_string_copy(&self.active_workspace_id),
            ai_config: self.ai_config.duplicate(),
            logging_enabled: self.logging_enabled,
            setup_completed: self.setup_completed,
        }
    }

    /// The settings with another active workspace (or none).
    pub fn with_active_workspace(&self, id: Option<String>) -> (c: AppConfig)
        ensures
            opt_string_view(c.active_workspace_id) == opt_string_view(id),
            same_ai_config(c.ai_config, self.ai_config),
            c.logging_enabled == self.logging_enabled,
            c.setup_completed == self.setup_completed,
    {
        AppConfig {
            active_workspace_id: id,
            ai_config: self.ai_config.duplicate(),
            logging_enabled: self.logging_enabled,
            setup_completed: self.setup_completed,
        }
    }
}

impl Default for AppConfig {
    fn default() -> (c: AppConfig)
        ensures
            c.active_workspace_id is None,
            same_ai_config(c.ai_config, AiConfig::default_spec()),
            c.logging_enabled,
            !c.setup_completed,
    {
        AppConfig::default_config()
    }
}

/// Everything the user interface shows of the application's state.
#[derive(Clone, Debug)]
pub struct AppStatus {
    pub active_workspace_id: Option<String>,
    pub ai_config: AiConfig,
    pub logging_enabled: bool,
    pub setup_completed: bool,
    pub active_tasks: Vec<BackgroundTask>,
    pub is_scanning: bool,
    pub ai_engine_status: EngineStatus,
    pub ai_model_status: ModelStatus,
    pub pid: u32,
}

/// The state that lives only while the application runs.
pub struct TransientState {
    pub ai: AiStateMachine,
    pub is_scanning: bool,
    pub is_ai_worker_running: bool,
    pub cancel_pulse: bool,
    pub active_tasks: TaskBoard,
}

impl TransientState {
    /// Nothing scanning, no worker, no tasks; the engine in `initial_engine_status`.
    pub fn new(cancel_pulse: bool, initial_engine_status: EngineStatus) -> (t: TransientState)
        ensures
            t.ai@ == (AiLifecycleState {
                engine: initial_engine_status,
                model: ModelStatus::Unloaded,
                pid: 0,
            }),
            !t.is_scanning,
            !t.is_ai_worker_running,
            t.cancel_pulse == cancel_pulse,
            t.active_tasks@ == Map::<Seq<char>, TaskView>::empty(),
    {
        TransientState {
            ai: AiStateMachine::new(initial_engine_status),
            is_scanning: false,
            is_ai_worker_running: false,
            cancel_pulse,
            active_tasks: TaskBoard::new(),
        }
    }

    /// Marks a scan as running; returns whether none was running before.
    pub fn store_scanning(&mut self) -> (changed: bool)
        ensures
            changed == !old(self).is_scanning,
            final(self).is_scanning,
            final(self).ai == old(self).ai,
            final(self).is_ai_worker_running == old(self).is_ai_worker_running,
            final(self).cancel_pulse == old(self).cancel_pulse,
            final(self).active_tasks == old(self).active_tasks,
    {
        let was = self.is_scanning;
        self.is_scanning = true;
        !was
    }

    /// Marks the scan as finished; returns whether one was running.
    pub fn store_not_scanning(&mut self) -> (changed: bool)
        ensures
            changed == old(self).is_scanning,
            !final(self).is_scanning,
            final(self).ai == old(self).ai,
            final(self).is_ai_worker_running == old(self).is_ai_worker_running,
            final(self).cancel_pulse == old(self).cancel_pulse,
            final(self).active_tasks == old(self).active_tasks,
    {
        let was = self.is_scanning;
        self.is_scanning = false;
        was
    }

    /// Requests an engine transition; returns whether it happened.
    pub fn store_engine_status(&mut self, status: EngineStatus) -> (moved: bool)
        ensures
            (final(self).ai@, moved) == engine_step(old(self).ai@, status),
            final(self).is_scanning == old(self).is_scanning,
            final(self).is_ai_worker_running == old(self).is_ai_worker_running,
            final(self).cancel_pulse == old(self).cancel_pulse,
            final(self).active_tasks == old(self).active_tasks,
    {
        self.ai.transition_engine(status)
    }

    /// Requests a model transition; returns whether it happened.
    pub fn store_model_status(&mut self, status: ModelStatus) -> (moved: bool)
        ensures
            (final(self).ai@, moved) == model_step(old(self).ai@, status),
            final(self).is_scanning == old(self).is_scanning,
            final(self).is_ai_worker_running == old(self).is_ai_worker_running,
            final(self).cancel_pulse == old(self).cancel_pulse,
            final(self).active_tasks == old(self).active_tasks,
    {
        self.ai.transition_model(status)
    }

    /// Whether a scan is running.
    pub fn is_scanning(&self) -> (r: bool)
        ensures
            r == self.is_scanning,
    {
        self.is_scanning
    }

    /// The engine's status.
    pub fn engine_status(&self) -> (s: EngineStatus)
        ensures
            s == self.ai@.engine,
    {
        self.ai.engine()
    }

    /// The model's status.
    pub fn model_status(&self) -> (s: ModelStatus)
        ensures
            s == self.ai@.model,
    {
        self.ai.model()
    }

    /// The engine process's pid.
    pub fn pid(&self) -> (p: u32)
        ensures
            p == self.ai@.pid,
    {
        self.ai.pid()
    }

    /// Records the engine process's pid.
    pub fn store_pid(&mut self, pid: u32)
        ensures
            final(self).ai@ == (AiLifecycleState { pid, ..old(self).ai@ }),
            final(self).is_scanning == old(self).is_scanning,
            final(self).is_ai_worker_running == old(self).is_ai_worker_running,
            final(self).cancel_pulse == old(self).cancel_pulse,
            final(self).active_tasks == old(self).active_tasks,
    {
        self.ai.set_pid(pid);
    }

    /// Whether the AI maintenance worker runs.
    pub fn is_ai_worker_running(&self) -> (r: bool)
        ensures
            r == self.is_ai_worker_running,
    {
        self.is_ai_worker_running
    }

    /// Claims the single slot of the AI maintenance worker; returns whether this call got it
    /// (no worker was running).
    pub fn claim_ai_worker_slot(&mut self) -> (claimed: bool)
        ensures
            (claimed, final(self).is_ai_worker_running) == claim_step(
                old(self).is_ai_worker_running,
            ),
            final(self).ai == old(self).ai,
            final(self).is_scanning == old(self).is_scanning,
            final(self).cancel_pulse == old(self).cancel_pulse,
            final(self).active_tasks == old(self).active_tasks,
    {
        let was = self.is_ai_worker_running;
        self.is_ai_worker_running = true;
        !was
    }

    /// Frees the slot of the AI maintenance worker, when the worker stops.
    pub fn release_ai_worker_slot(&mut self)
        ensures
            !final(self).is_ai_worker_running,
            final(self).ai == old(self).ai,
            final(self).is_scanning == old(self).is_scanning,
            final(self).cancel_pulse == old(self).cancel_pulse,
            final(self).active_tasks == old(self).active_tasks,
    {
        self.is_ai_worker_running = false;
    }

    /// Whether the background loops were asked to stop.
    pub fn is_pulse_cancelled(&self) -> (r: bool)
        ensures
            r == self.cancel_pulse,
    {
        self.cancel_pulse
    }
}

/// Claiming the worker slot: whether the claim succeeds, and whether the slot is then taken.
pub open spec fn claim_step(running: bool) -> (bool, bool) {
    (!running, true)
}

/// At most one maintenance worker runs: once the slot was claimed, whatever it was before, a
/// second claim fails.
pub proof fn lemma_second_claim_fails(running: bool)
    ensures
        !claim_step(claim_step(running).1).0,
{
}

/// Finishing a task that was just started, under an id no running task had, leaves the running
/// tasks as they were.
pub proof fn lemma_finish_after_start_restores(
    tasks: Map<Seq<char>, TaskView>,
    id: Seq<char>,
    t: TaskView,
)
    requires
        !tasks.contains_key(id),
    ensures
        tasks.insert(id, t).remove(id) == tasks,
{
    assert(tasks.insert(id, t).remove(id) =~= tasks);
}

/// Starting a task again under the same id replaces it: only the latest progress stays.
pub proof fn lemma_update_replaces(
    tasks: Map<Seq<char>, TaskView>,
    id: Seq<char>,
    t1: TaskView,
    t2: TaskView,
)
    ensures
        tasks.insert(id, t1).insert(id, t2) == tasks.insert(id, t2),
{
    assert(tasks.insert(id, t1).insert(id, t2) =~= tasks.insert(id, t2));
}

impl AiConfig {
    /// The default AI settings, as a specification.
    pub open spec fn default_spec() -> AiConfig {
        AiConfig {
            enabled: false,
            mode: crate::ai_config::AiMode::Auto,
            venv_path: None,
            model: crate::ai_config::ModelId::Siglip2So400m,
            hardware: crate::ai_config::HardwareType::Auto,
            cuda_version: crate::ai_config::CudaVersion::V12_4,
            python_version: crate::ai_config::PythonVersion::Auto,
            link_mode: crate::ai_config::UvLinkMode::Copy,
            use_appdata_models: true,
        }
    }
}

/// The payload announced when a task finishes.
#[derive(Clone, Debug)]
pub struct TaskFinished {
    pub id: String,
    pub status: String,
    pub message: Option<String>,
}

/// `std::time::SystemTime`, a reading of the system clock.
#[verifier::external_type_specification]
#[verifier::external_body]
pub struct ExSystemTime(std::time::SystemTime);

/// Calls `std::time::SystemTime::now`: the system clock's current reading. It depends on the
/// clock; nothing is stated of it.
#[verifier::external_body]
fn system_now() -> std::time::SystemTime {
    std::time::SystemTime::now()
}

/// Calls `SystemTime::duration_since` with the Unix epoch: the whole seconds from the epoch to
/// the reading (`Duration::as_secs`), or nothing when the reading is before the epoch. It
/// depends on the reading, which is opaque here; nothing more is stated.
#[verifier::external_body]
fn seconds_since_epoch(t: std::time::SystemTime) -> Option<u64> {
    t.duration_since(std::time::UNIX_EPOCH).ok().map(|d| d.as_secs())
}

/// A timestamp from the seconds since the epoch that the clock gave: those seconds, capped at
/// the largest `i64`; a clock that reads before the epoch gives the epoch itself, 0.
pub fn timestamp_from_seconds(secs: Option<u64>) -> (t: i64)
    ensures
        secs matches Some(s) ==> t == if s <= i64::MAX as u64 {
            s as i64
        } else {
            i64::MAX
        },
        secs is None ==> t == 0,
{
    match secs {
        Some(s) => if s <= i64::MAX as u64 {
            s as i64
        } else {
            i64::MAX
        },
        None => 0,
    }
}

/// The current time in seconds since the Unix epoch (0 when the clock reads before it).
fn now_timestamp() -> (t: i64)
    ensures
        t >= 0,
{
    let reading = system_now();
    timestamp_from_seconds(seconds_since_epoch(reading))
}

/// The application's state, and whether a change waits to be announced.
pub struct StateManager {
    pub transient: TransientState,
    pub dirty: bool,
    pub config: AppConfig,
}

impl StateManager {
    /// Whether a change waits to be announced.
    pub open spec fn spec_dirty(&self) -> bool {
        self.dirty
    }

    /// The settings held in memory.
    pub open spec fn spec_config(&self) -> AppConfig {
        self.config
    }

    /// The state for the loaded settings: the engine is `Stopped` when the AI is enabled, else
    /// `Disabled`; a first announcement is pending.
    pub fn new(initial_config: AppConfig) -> (m: StateManager)
        ensures
            m.spec_dirty(),
            same_app_config(m.spec_config(), initial_config),
            m.transient.ai@.engine == (if initial_config.ai_config.enabled {
                EngineStatus::Stopped
            } else {
                EngineStatus::Disabled
            }),
            m.transient.ai@.model == ModelStatus::Unloaded,
            !m.transient.is_scanning,
            !m.transient.is_ai_worker_running,
            !m.transient.cancel_pulse,
            m.transient.active_tasks@ == Map::<Seq<char>, TaskView>::empty(),
    {
        let engine_status = if initial_config.ai_config.enabled {
            EngineStatus::Stopped
        } else {
            EngineStatus::Disabled
        };
        let config = initial_config.duplicate();
        StateManager {
            transient: TransientState::new(false, engine_status),
            dirty: true,
            config,
        }
    }

    /// A copy of the settings.
    pub fn config(&self) -> (c: AppConfig)
        ensures
            same_app_config(c, self.spec_config()),
    {
        self.config.duplicate()
    }

    /// Installs settings that were saved; a change is then pending.
    pub fn replace_config(&mut self, new_config: AppConfig)
        ensures
            final(self).spec_dirty(),
            final(self).spec_config() == new_config,
            final(self).transient == old(self).transient,
    {
        self.config = new_config;
        self.dirty = true;
    }

    /// Takes the pending-change flag: returns it and clears it.
    pub fn take_dirty(&mut self) -> (was: bool)
        ensures
            was == old(self).spec_dirty(),
            !final(self).spec_dirty(),
            final(self).spec_config() == old(self).spec_config(),
            final(self).transient == old(self).transient,
    {
        let was = self.dirty;
        self.dirty = false;
        was
    }

    /// The status shown to the user: the settings, the tasks newest first, the scan flag and the
    /// AI lifecycle.
    pub fn get_app_status(&self) -> (st: AppStatus)
        ensures
            opt_string_view(st.active_workspace_id) == opt_string_view(
                self.spec_config().active_workspace_id,
            ),
            same_ai_config(st.ai_config, self.spec_config().ai_config),
            st.logging_enabled == self.spec_config().logging_enabled,
            st.setup_completed == self.spec_config().setup_completed,
            newest_first(tasks_view(st.active_tasks@)),
            tasks_view(st.active_tasks@).to_multiset()
                == self.transient.active_tasks.values_multiset(),
            lists_tasks_of(tasks_view(st.active_tasks@), self.transient.active_tasks@),
            st.is_scanning == self.transient.is_scanning,
            st.ai_engine_status == self.transient.ai@.engine,
            st.ai_model_status == self.transient.ai@.model,
            st.pid == self.transient.ai@.pid,
    {
        let config = self.config();
        let tasks = self.get_active_tasks();
        AppStatus {
            active_workspace_id: config.active_workspace_id,
            ai_config: config.ai_config,
            logging_enabled: config.logging_enabled,
            setup_completed: config.setup_completed,
            active_tasks: tasks,
            is_scanning: self.is_scanning(),
            ai_engine_status: self.engine_status(),
            ai_model_status: self.model_status(),
            pid: self.pid(),
        }
    }

    /// Records the progress of a task at the given time, replacing any task with the same id; a
    /// change is then pending.
    pub fn update_task_at(
        &mut self,
        id: &str,
        task_type: &str,
        status: &str,
        message: Option<&str>,
        progress: i64,
        total: i64,
        updated_at: i64,
    )
        ensures
            final(self).transient.active_tasks@ == old(self).transient.active_tasks@.insert(
                id@,
                TaskView {
                    id: id@,
                    task_type: task_type@,
                    status: status@,
                    message: match message {
                        Some(m) => Some(m@),
                        None => None,
                    },
                    progress,
                    total,
                    updated_at,
                },
            ),
            final(self).spec_dirty(),
            final(self).spec_config() == old(self).spec_config(),
            final(self).transient.ai == old(self).transient.ai,
            final(self).transient.is_scanning == old(self).transient.is_scanning,
    {
        let task = BackgroundTask {
            id: id.to_string(),
            task_type: task_type.to_string(),
            status: status.to_string(),
            message: match message {
                Some(m) => Some(m.to_string()),
                None => None,
            },
            progress,
            total,
            updated_at,
        };
        self.transient.active_tasks.upsert(task);
        self.dirty = true;
    }

    /// Records the progress of a task, stamped with the current time.
    pub fn update_task(
        &mut self,
        id: &str,
        task_type: &str,
        status: &str,
        message: Option<&str>,
        progress: i64,
        total: i64,
    )
        ensures
            final(self).transient.active_tasks@.contains_key(id@),
            final(self).transient.active_tasks@ == old(self).transient.active_tasks@.insert(
                id@,
                final(self).transient.active_tasks@[id@],
            ),
            ({
                let t = final(self).transient.active_tasks@[id@];
                &&& t.id == id@
                &&& t.task_type == task_type@
                &&& t.status == status@
                &&& t.message == match message {
                    Some(m) => Some(m@),
                    None => None,
                }
                &&& t.progress == progress
                &&& t.total == total
            }),
            final(self).spec_dirty(),
            final(self).spec_config() == old(self).spec_config(),
            final(self).transient.ai == old(self).transient.ai,
            final(self).transient.is_scanning == old(self).transient.is_scanning,
    {
        let now = now_timestamp();
        self.update_task_at(id, task_type, status, message, progress, total, now);
    }

    /// Removes a finished task and returns what to announce: its id, its final status, and the
    /// given message, else "<Task Type> completed" when the task was running. A change is then
    /// pending.
    pub fn finish_task(&mut self, id: &str, status: &str, message: Option<&str>) -> (ev: TaskFinished)
        ensures
            final(self).transient.active_tasks@ == old(self).transient.active_tasks@.remove(id@),
            ev.id@ == id@,
            ev.status@ == status@,
            opt_text(ev.message) == finish_message_spec(
                match message {
                    Some(m) => Some(m@),
                    None => None,
                },
                if old(self).transient.active_tasks@.contains_key(id@) {
                    Some(old(self).transient.active_tasks@[id@])
                } else {
                    None
                },
            ),
            final(self).spec_dirty(),
            final(self).spec_config() == old(self).spec_config(),
            final(self).transient.ai == old(self).transient.ai,
            final(self).transient.is_scanning == old(self).transient.is_scanning,
    {
        let removed = self.transient.active_tasks.remove(id);
        let display_message = finish_message(message, &removed);
        self.dirty = true;
        TaskFinished { id: id.to_string(), status: status.to_string(), message: display_message }
    }

    /// Forgets every task (those left over from an earlier session); a change is then pending.
    pub fn heal_tasks(&mut self)
        ensures
            final(self).transient.active_tasks@ == Map::<Seq<char>, TaskView>::empty(),
            final(self).spec_dirty(),
            final(self).spec_config() == old(self).spec_config(),
            final(self).transient.ai == old(self).transient.ai,
            final(self).transient.is_scanning == old(self).transient.is_scanning,
    {
        self.transient.active_tasks.clear();
        self.dirty = true;
    }

    /// The running tasks, newest first.
    pub fn get_active_tasks(&self) -> (r: Vec<BackgroundTask>)
        ensures
            newest_first(tasks_view(r@)),
            tasks_view(r@).to_multiset() == self.transient.active_tasks.values_multiset(),
            lists_tasks_of(tasks_view(r@), self.transient.active_tasks@),
    {
        self.transient.active_tasks.newest_first()
    }

    /// Asks the background loops to stop.
    pub fn stop_pulse(&mut self)
        ensures
            final(self).transient.cancel_pulse,
            final(self).transient.ai == old(self).transient.ai,
            final(self).transient.is_scanning == old(self).transient.is_scanning,
            final(self).transient.active_tasks == old(self).transient.active_tasks,
            final(self).spec_dirty() == old(self).spec_dirty(),
            final(self).spec_config() == old(self).spec_config(),
    {
        self.transient.cancel_pulse = true;
    }

    /// Starts or ends a scan; a change is pending when the flag changed.
    pub fn set_scanning(&mut self, scanning: bool)
        ensures
            final(self).transient.is_scanning == scanning,
            final(self).spec_dirty() == (old(self).spec_dirty() || old(
                self,
            ).transient.is_scanning != scanning),
            final(self).transient.ai == old(self).transient.ai,
            final(self).transient.active_tasks == old(self).transient.active_tasks,
            final(self).spec_config() == old(self).spec_config(),
    {
        let changed = if scanning {
            self.transient.store_scanning()
        } else {
            self.transient.store_not_scanning()
        };
        if changed {
            self.dirty = true;
        }
    }

    /// Requests an engine transition; a change is pending when it happened.
    pub fn set_engine_status(&mut self, status: EngineStatus)
        ensures
            final(self).transient.ai@ == engine_step(old(self).transient.ai@, status).0,
            final(self).spec_dirty() == (old(self).spec_dirty() || engine_step(
                old(self).transient.ai@,
                status,
            ).1),
            final(self).transient.is_scanning == old(self).transient.is_scanning,
            final(self).transient.active_tasks == old(self).transient.active_tasks,
            final(self).spec_config() == old(self).spec_config(),
    {
        if self.transient.store_engine_status(status) {
            self.dirty = true;
        }
    }

    /// Requests a model transition; a change is pending when it happened.
    pub fn set_model_status(&mut self, status: ModelStatus)
        ensures
            final(self).transient.ai@ == model_step(old(self).transient.ai@, status).0,
            final(self).spec_dirty() == (old(self).spec_dirty() || model_step(
                old(self).transient.ai@,
                status,
            ).1),
            final(self).transient.is_scanning == old(self).transient.is_scanning,
            final(self).transient.active_tasks == old(self).transient.active_tasks,
            final(self).spec_config() == old(self).spec_config(),
    {
        if self.transient.store_model_status(status) {
            self.dirty = true;
        }
    }

    /// Records the engine process's pid; a change is then pending.
    pub fn set_pid(&mut self, pid: u32)
        ensures
            final(self).transient.ai@ == (AiLifecycleState { pid, ..old(self).transient.ai@ }),
            final(self).spec_dirty(),
            final(self).transient.is_scanning == old(self).transient.is_scanning,
            final(self).transient.active_tasks == old(self).transient.active_tasks,
            final(self).spec_config() == old(self).spec_config(),
    {
        self.transient.store_pid(pid);
        self.dirty = true;
    }

    /// Whether a scan is running.
    pub fn is_scanning(&self) -> (r: bool)
        ensures
            r == self.transient.is_scanning,
    {
        self.transient.is_scanning()
    }

    /// The engine's status.
    pub fn engine_status(&self) -> (s: EngineStatus)
        ensures
            s == self.transient.ai@.engine,
    {
        self.transient.engine_status()
    }

    /// The model's status.
    pub fn model_status(&self) -> (s: ModelStatus)
        ensures
            s == self.transient.ai@.model,
    {
        self.transient.model_status()
    }

    /// The engine process's pid.
    pub fn pid(&self) -> (p: u32)
        ensures
            p == self.transient.ai@.pid,
    {
        self.transient.pid()
    }

    /// Whether the AI maintenance worker runs.
    pub fn is_ai_worker_running(&self) -> (r: bool)
        ensures
            r == self.transient.is_ai_worker_running,
    {
        self.transient.is_ai_worker_running()
    }

    /// Claims the AI maintenance worker's slot; returns whether this call got it.
    pub fn claim_ai_worker_slot(&mut self) -> (claimed: bool)
        ensures
            (claimed, final(self).transient.is_ai_worker_running) == claim_step(
                old(self).transient.is_ai_worker_running,
            ),
            final(self).transient.ai == old(self).transient.ai,
            final(self).transient.active_tasks == old(self).transient.active_tasks,
            final(self).spec_dirty() == old(self).spec_dirty(),
            final(self).spec_config() == old(self).spec_config(),
    {
        self.transient.claim_ai_worker_slot()
    }

    /// Whether the background loops were asked to stop.
    pub fn is_pulse_cancelled(&self) -> (r: bool)
        ensures
            r == self.transient.cancel_pulse,
    {
        self.transient.is_pulse_cancelled()
    }
}

} // verus!
