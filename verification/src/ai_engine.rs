//! The decisions around the AI engine: starting the sidecar process and loading its model, as
//! they change the application's state.
use vstd::prelude::*;
use crate::ai_config::{
    AiConfig, hardware_device_text, model_hf_id_text, model_label_text, same_ai_config,
};
use crate::ai_lifecycle::{AiLifecycleState, EngineStatus, ModelStatus, engine_step, model_step};
use crate::error::{AppError, AppResult};
use crate::sidecar::{
    EngineStartDecision, engine_disabled_error, engine_start_decision, engine_start_spec,
    engine_timeout_error,
};
use crate::ai_config::{PythonStatus, opt_string_view};
use crate::state_manager::{AppStatus, StateManager};

verus! {

/// A reply of the engine to a command, as read from its output.
#[derive(Debug, Clone)]
pub enum PythonResponse {
    /// The command succeeded; counts and a message may come with it.
    Success { added: Option<u32>, removed: Option<u32>, done: Option<u32>, message: Option<String> },
    /// The command progresses: `done` of `total` items are handled.
    Progress { done: u32, total: u32 },
    /// The command failed with this message.
    Error { message: String },
    /// Any other reply.
    Other,
}

/// Whether the engine process runs with settings equal to `current`.
pub open spec fn running_config_matches(running: Option<AiConfig>, current: AiConfig) -> bool {
    match running {
        Some(c) => same_ai_config(c, current),
        None => false,
    }
}

/// The engine status that a start decision moves to, if any.
pub open spec fn start_target(d: EngineStartDecision) -> Option<EngineStatus> {
    match d {
        EngineStartDecision::RefuseDisabled => Some(EngineStatus::Disabled),
        EngineStartDecision::AlreadyStarting => None,
        EngineStartDecision::ReuseRunning => Some(EngineStatus::Running),
        EngineStartDecision::Restart => Some(EngineStatus::Starting),
    }
}

/// The lifecycle after an optional request to move the engine.
pub open spec fn after_engine_request(s: AiLifecycleState, to: Option<EngineStatus>) -> (
    AiLifecycleState,
    bool,
) {
    match to {
        Some(t) => engine_step(s, t),
        None => (s, false),
    }
}

/// Whether `running` holds settings equal to `current`.
fn config_matches(running: &Option<AiConfig>, current: &AiConfig) -> (r: bool)
    ensures
        r == running_config_matches(*running, *current),
{
    match running {
        Some(c) => c.same_as(current),
        None => false,
    }
}

/// The first step of making sure the engine runs: decides from the settings, the engine's
/// status, whether a process is alive and the settings it was started with, and records the
/// engine status that the decision leads to (`Disabled`, `Running` or `Starting`; none when
/// another caller is starting it).
pub fn begin_engine_start(manager: &mut StateManager, alive: bool, running: &Option<AiConfig>) -> (d:
    EngineStartDecision)
    ensures
        d == engine_start_spec(
            old(manager).spec_config().ai_config.enabled,
            old(manager).transient.ai@.engine,
            alive,
            running_config_matches(*running, old(manager).spec_config().ai_config),
        ),
        final(manager).transient.ai@ == after_engine_request(
            old(manager).transient.ai@,
            start_target(d),
        ).0,
        final(manager).spec_dirty() == (old(manager).spec_dirty() || after_engine_request(
            old(manager).transient.ai@,
            start_target(d),
        ).1),
        final(manager).spec_config() == old(manager).spec_config(),
        final(manager).transient.active_tasks == old(manager).transient.active_tasks,
        final(manager).transient.is_scanning == old(manager).transient.is_scanning,
{
    let matches = config_matches(running, &manager.config.ai_config);
    let d = engine_start_decision(
        manager.config.ai_config.enabled,
        manager.engine_status(),
        alive,
        matches,
    );
    match d {
        EngineStartDecision::RefuseDisabled => manager.set_engine_status(EngineStatus::Disabled),
        EngineStartDecision::AlreadyStarting => {},
        EngineStartDecision::ReuseRunning => manager.set_engine_status(EngineStatus::Running),
        EngineStartDecision::Restart => manager.set_engine_status(EngineStatus::Starting),
    }
    d
}

/// The result of a start decision for the caller: the error for a disabled AI, success for the
/// others (a restart then goes on to launch a process).
pub fn engine_start_result(d: EngineStartDecision) -> (r: AppResult<()>)
    ensures
        d == EngineStartDecision::RefuseDisabled ==> (r matches Err(AppError::Anyhow(m)) && m@
            == "AI feature is disabled in settings."@),
        d != EngineStartDecision::RefuseDisabled ==> r is Ok,
{
    match d {
        EngineStartDecision::RefuseDisabled => Err(engine_disabled_error()),
        _ => Ok(()),
    }
}

/// The last step of starting the engine: when the process announced it was ready in time, its
/// pid is recorded and the engine is `Running`; otherwise the engine is in `Error` and the
/// time-out is reported.
pub fn finish_engine_launch(manager: &mut StateManager, ready: bool, pid: u32) -> (r: AppResult<()>)
    ensures
        ready ==> r is Ok && final(manager).transient.ai@ == engine_step(
            AiLifecycleState { pid, ..old(manager).transient.ai@ },
            EngineStatus::Running,
        ).0,
        ready ==> final(manager).spec_dirty(),
        !ready ==> (r matches Err(AppError::Anyhow(m)) && m@
            == "Sidecar failed to initialize within 30 seconds"@),
        !ready ==> final(manager).transient.ai@ == engine_step(
            old(manager).transient.ai@,
            EngineStatus::Error,
        ).0,
        final(manager).spec_config() == old(manager).spec_config(),
        final(manager).transient.active_tasks == old(manager).transient.active_tasks,
        final(manager).transient.is_scanning == old(manager).transient.is_scanning,
{
    if ready {
        manager.set_pid(pid);
        manager.set_engine_status(EngineStatus::Running);
        Ok(())
    } else {
        manager.set_engine_status(EngineStatus::Error);
        Err(engine_timeout_error())
    }
}

/// Whether the model must be loaded: refused when the AI is disabled, not needed when the model
/// is ready or loading, needed otherwise.
pub fn begin_model_load(manager: &StateManager) -> (r: AppResult<bool>)
    ensures
        !manager.spec_config().ai_config.enabled ==> (r matches Err(AppError::AiError(m)) && m@
            == "AI is currently disabled in settings."@),
        manager.spec_config().ai_config.enabled ==> r == Ok::<bool, AppError>(
            manager.transient.ai@.model != ModelStatus::Ready && manager.transient.ai@.model
                != ModelStatus::Loading,
        ),
{
    if !manager.config.ai_config.enabled {
        return Err(AppError::AiError("AI is currently disabled in settings.".to_string()));
    }
    let status = manager.model_status();
    Ok(status != ModelStatus::Ready && status != ModelStatus::Loading)
}

/// What the `load_model` command carries: the model's Hugging Face id, the device and the
/// patch budget.
#[derive(Debug, Clone)]
pub struct LoadModelRequest {
    pub model_id: String,
    pub device: String,
    pub max_patches: u32,
}

/// The `load_model` command for the settings: the model's id, the device of the hardware
/// (`auto`, `cuda`, `dml` or `cpu`) and 256 patches.
pub fn load_model_request(config: &AiConfig) -> (r: LoadModelRequest)
    ensures
        r.model_id@ == model_hf_id_text(config.model),
        r.device@ == hardware_device_text(config.hardware),
        r.max_patches == 256,
{
    LoadModelRequest {
        model_id: config.model.hf_model_id().to_string(),
        device: config.hardware.device().to_string(),
        max_patches: 256,
    }
}

/// The log line shown when loading starts: `>>> Loading Model: <label>...`.
pub fn loading_message(config: &AiConfig) -> (s: String)
    ensures
        s@ == ">>> Loading Model: "@ + model_label_text(config.model) + "..."@,
{
    let mut s = ">>> Loading Model: ".to_string();
    s.append(config.model.label());
    s.append("...");
    s
}

/// The model status a reply to `load_model` leads to: `Ready` for success, else `Error`.
pub open spec fn model_after_load(resp: PythonResponse) -> ModelStatus {
    match resp {
        PythonResponse::Success { .. } => ModelStatus::Ready,
        _ => ModelStatus::Error,
    }
}

/// The last step of loading the model: a success makes the model `Ready`; an error reply makes
/// it `Error` and is reported with its message; any other reply makes it `Error` and is
/// reported as unexpected.
pub fn finish_model_load(manager: &mut StateManager, resp: &PythonResponse) -> (r: AppResult<()>)
    ensures
        final(manager).transient.ai@ == model_step(
            old(manager).transient.ai@,
            model_after_load(*resp),
        ).0,
        final(manager).spec_dirty() == (old(manager).spec_dirty() || model_step(
            old(manager).transient.ai@,
            model_after_load(*resp),
        ).1),
        resp is Success ==> r is Ok,
        resp matches PythonResponse::Error { message } ==> (r matches Err(AppError::AiError(m))
            && m@ == message@),
        (resp is Progress || resp is Other) ==> (r matches Err(AppError::AiError(m)) && m@
            == "Unexpected response during model load"@),
        final(manager).spec_config() == old(manager).spec_config(),
        final(manager).transient.active_tasks == old(manager).transient.active_tasks,
        final(manager).transient.is_scanning == old(manager).transient.is_scanning,
{
    match resp {
        PythonResponse::Success { .. } => {
            manager.set_model_status(ModelStatus::Ready);
            Ok(())
        },
        PythonResponse::Error { message } => {
            manager.set_model_status(ModelStatus::Error);
            Err(AppError::AiError(message.clone()))
        },
        _ => {
            manager.set_model_status(ModelStatus::Error);
            Err(AppError::AiError("Unexpected response during model load".to_string()))
        },
    }
}

/// What the user interface shows of the AI runtime: whether the Python environment and the
/// model files are there, whether the engine runs and whether the model is loaded.
#[derive(Clone, Debug)]
pub struct AiRuntimeStatus {
    pub python_ready: bool,
    pub model_ready: bool,
    pub is_running: bool,
    pub is_loaded: bool,
}

/// The runtime status from the environment probe and the application's status.
pub fn ai_runtime_status(python: &PythonStatus, status: &AppStatus) -> (r: AiRuntimeStatus)
    ensures
        r.python_ready == python.venv_ready,
        r.model_ready == python.model_ready,
        r.is_running == (status.ai_engine_status == EngineStatus::Running),
        r.is_loaded == (status.ai_model_status == ModelStatus::Ready),
{
    AiRuntimeStatus {
        python_ready: python.venv_ready,
        model_ready: python.model_ready,
        is_running: status.ai_engine_status == EngineStatus::Running,
        is_loaded: status.ai_model_status == ModelStatus::Ready,
    }
}

/// Turns the AI on or off in the settings. Turning it off stops the engine and then marks it
/// `Disabled`; turning it on marks it `Stopped`, ready to start.
pub fn apply_ai_enabled(manager: &mut StateManager, enabled: bool)
    ensures
        final(manager).spec_config().ai_config.enabled == enabled,
        same_ai_config(
            final(manager).spec_config().ai_config,
            AiConfig { enabled, ..old(manager).spec_config().ai_config },
        ),
        opt_string_view(final(manager).spec_config().active_workspace_id) == opt_string_view(
            old(manager).spec_config().active_workspace_id,
        ),
        final(manager).spec_config().logging_enabled == old(manager).spec_config().logging_enabled,
        final(manager).spec_config().setup_completed == old(manager).spec_config().setup_completed,
        final(manager).spec_dirty(),
        !enabled ==> final(manager).transient.ai@ == engine_step(
            engine_step(old(manager).transient.ai@, EngineStatus::Stopped).0,
            EngineStatus::Disabled,
        ).0,
        enabled ==> final(manager).transient.ai@ == engine_step(
            old(manager).transient.ai@,
            EngineStatus::Stopped,
        ).0,
        final(manager).transient.active_tasks == old(manager).transient.active_tasks,
        final(manager).transient.is_scanning == old(manager).transient.is_scanning,
{
    let mut config = manager.config();
    config.ai_config.enabled = enabled;
    manager.replace_config(config);
    if !enabled {
        manager.set_engine_status(EngineStatus::Stopped);
        manager.set_engine_status(EngineStatus::Disabled);
    } else {
        manager.set_engine_status(EngineStatus::Stopped);
    }
}

/// The error when the engine did not encode a query: its own message, or `Failed to encode
/// text` when it gave none.
pub fn encode_failure(message: Option<&str>) -> (e: AppError)
    ensures
        message matches Some(m) ==> (e matches AppError::AiError(t) && t@ == m@),
        message is None ==> (e matches AppError::AiError(t) && t@ == "Failed to encode text"@),
{
    match message {
        Some(m) => AppError::AiError(m.to_string()),
        None => AppError::AiError("Failed to encode text".to_string()),
    }
}

/// The error when the engine is busy with another command.
pub fn engine_busy_error() -> (e: AppError)
    ensures
        e matches AppError::AiError(t) && t@ == "AI engine is currently busy. Please wait a moment."@,
{
    AppError::AiError("AI engine is currently busy. Please wait a moment.".to_string())
}

/// The error when the `uv` tool cannot be run.
pub fn uv_missing_error() -> (e: AppError)
    ensures
        e matches AppError::AiError(m) && m@
            == "The 'uv' tool was not found on your system. Please install it from https://astral.sh/uv to continue."@,
{
    AppError::AiError(
        "The 'uv' tool was not found on your system. Please install it from https://astral.sh/uv to continue."
            .to_string(),
    )
}

/// The log line announcing where the environment is created.
pub fn venv_setup_message(venv_dir: &str) -> (s: String)
    ensures
        s@ == "Creating/Updating virtual environment in "@ + venv_dir@ + "..."@,
{
    let mut s = "Creating/Updating virtual environment in ".to_string();
    s.append(venv_dir);
    s.append("...");
    s
}

/// The outcome of the environment setup: a failed setup process is reported first, then a
/// missing interpreter afterwards; otherwise the setup succeeded.
pub fn setup_result(process_succeeded: bool, venv_ready: bool) -> (r: AppResult<()>)
    ensures
        !process_succeeded ==> (r matches Err(AppError::AiError(m)) && m@
            == "AI environment setup failed. Check the logs above for details."@),
        process_succeeded && !venv_ready ==> (r matches Err(AppError::AiError(m)) && m@
            == "Venv health check failed after setup."@),
        process_succeeded && venv_ready ==> r is Ok,
{
    if !process_succeeded {
        return Err(
            AppError::AiError(
                "AI environment setup failed. Check the logs above for details.".to_string(),
            ),
        );
    }
    if !venv_ready {
        return Err(AppError::AiError("Venv health check failed after setup.".to_string()));
    }
    Ok(())
}

} // verus!
