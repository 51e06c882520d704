use pinlocal::ai_config::{
    AiConfig, AiMode, CudaVersion, HardwareType, ModelId, PythonEnvLocation, PythonStatus,
    PythonVersion, UvLinkMode, python_env_location, python_exe_components, setup_command_args,
};
use pinlocal::ai_engine::{
    PythonResponse, ai_runtime_status, apply_ai_enabled, begin_engine_start, begin_model_load,
    engine_start_result, finish_engine_launch, finish_model_load, load_model_request,
    loading_message, setup_result, uv_missing_error, venv_setup_message,
};
use pinlocal::ai_lifecycle::{AiStateMachine, EngineStatus, ModelStatus};
use pinlocal::boards::{
    DELETE_CHUNK, chunk_ids, create_board, delete_boards_sql, orphaned_boards,
};
use pinlocal::embeddings::{
    ai_db_file_name, board_names_sql, group_by_key_exec, image_boards_sql, needs_inventory_sync,
    numbered_placeholders, present_boards_sql, select_missing,
};
use pinlocal::error::{AppError, not_found};
use pinlocal::images::{
    Image, boards_sql, clean_images, explorer_target, image_query, is_within_roots, order_column,
    order_direction, placeholders, storage_stats_sql,
};
use pinlocal::indexing::{
    IndexNext, WorkerGate, apply_index_reply, begin_board_indexing, boards_to_sync,
    complete_indexing, fail_board_indexing, worker_gate,
};
use pinlocal::inventory::plan_inventory_sync;
use pinlocal::path_utils::{WorkspacePath, file_extension, filter_alphanumeric, to_lower_hex};
use pinlocal::reconcile::{
    FoundImage, ImageDbMetadata, ImageWrite, MissingImageAction, ReconcilerActor, board_name_from,
    boards_to_mark_missing, diff_images, found_image_filename, image_file_name,
    needs_thumbnail_nudge, plan_missing_images,
};
use pinlocal::schema::needs_migration;
use pinlocal::scan::{begin_scan, end_scan, scan_complete_progress, scan_folder_progress};
use pinlocal::ai_engine::{encode_failure, engine_busy_error};
use pinlocal::search::{like_prefix, match_results, resolve_results_sql, search_boards_sql};
use pinlocal::sidecar::{
    EngineStartDecision, SidecarLine, classify_line, classify_text, engine_start_decision,
    feed_bytes, status_after_launch, trim, trim_start_matches,
};
use pinlocal::state_manager::{AppConfig, StateManager, timestamp_from_seconds};
use pinlocal::tasks::{BackgroundTask, TaskBoard, finish_message};
use pinlocal::thumbnails::{BatchStep, ThumbnailSession, destination_allowed, plan_thumbnail, thumb_path_for, thumbnail_rel};
use pinlocal::watcher::WatcherActor;
use pinlocal::workspaces::{
    random_source_error,
    Workspace, WorkspaceRow, add_board_id, add_boards_to_workspace, config_dto,
    folder_board_name, group_workspace_rows, is_switch, needs_reopen, remove_board_from_workspace,
    remove_board_id, rename_workspace, resolve_target_workspace, status_board_ids,
    workspace_name_from, workspace_status_from, ADJECTIVES, NOUNS,
};

fn ws(id: &str, name: &str, boards: Vec<i32>) -> Workspace {
    Workspace { id: id.to_string(), name: name.to_string(), board_ids: boards, folder_paths: vec![] }
}

fn enabled_manager() -> StateManager {
    let mut cfg = AppConfig::default_config();
    cfg.ai_config.enabled = true;
    StateManager::new(cfg)
}

// ---------- AI configuration ----------

#[test]
fn model_labels_ids_and_dimensions() {
    assert_eq!(ModelId::Siglip2So400m.label(), "SigLIP 2 SO400M (Highest Accuracy)");
    assert_eq!(ModelId::Siglip2Base.hf_model_id(), "google/siglip2-base-patch16-naflex");
    assert_eq!(ModelId::Siglip2So400m.dimension(), 1152);
    assert_eq!(ModelId::Siglip2Base.dimension(), 768);
}

#[test]
fn enum_texts() {
    assert_eq!(CudaVersion::V12_4.as_str(), "12.4");
    assert_eq!(CudaVersion::V12_4.as_tag(), "cu124");
    assert_eq!(PythonVersion::V3_11.as_str(), "3.11");
    assert_eq!(UvLinkMode::Hardlink.as_arg(), "hardlink");
    assert_eq!(HardwareType::Amd.device(), "dml");
    assert_eq!(HardwareType::Nvidia.setup_arg(), "nvidia");
}

#[test]
fn ai_config_defaults() {
    let c = AiConfig::default();
    assert!(!c.enabled);
    assert_eq!(c.mode, AiMode::Auto);
    assert!(c.venv_path.is_none());
    assert_eq!(c.model, ModelId::Siglip2So400m);
    assert_eq!(c.cuda_version, CudaVersion::V12_4);
    assert!(c.use_appdata_models);
}

#[test]
fn python_environment_location() {
    let mut c = AiConfig::default_config();
    assert!(matches!(python_env_location(&c), PythonEnvLocation::Managed));
    c.mode = AiMode::Manual;
    assert!(matches!(python_env_location(&c), PythonEnvLocation::Unset));
    c.venv_path = Some("/venv".to_string());
    match python_env_location(&c) {
        PythonEnvLocation::UserVenv(p) => assert_eq!(p, "/venv"),
        _ => panic!("expected the user's environment"),
    }
    assert_eq!(python_exe_components(true), ("Scripts", "python.exe"));
    assert_eq!(python_exe_components(false), ("bin", "python"));
}

#[test]
fn python_status_from_probe() {
    let st = PythonStatus::from_probe("/venv/bin/python".to_string(), true);
    assert!(st.venv_ready && st.model_ready);
    assert_eq!(st.python_path.as_deref(), Some("/venv/bin/python"));
    let st = PythonStatus::from_probe("/venv/bin/python".to_string(), false);
    assert!(!st.venv_ready && st.python_path.is_none());
}

#[test]
fn setup_arguments() {
    let mut c = AiConfig::default_config();
    let args = setup_command_args(&c, "setup.py", "/env");
    assert_eq!(
        args,
        vec!["run", "setup.py", "--venv", "/env", "--hardware", "auto", "--cuda", "cu124", "--link-mode", "copy"]
    );
    c.python_version = PythonVersion::V3_12;
    c.hardware = HardwareType::Nvidia;
    let args = setup_command_args(&c, "setup.py", "/env");
    assert_eq!(&args[0..3], &["run", "--python", "3.12"]);
    assert_eq!(args[7], "nvidia");
}

// ---------- AI lifecycle ----------

#[test]
fn engine_lifecycle_transitions() {
    let mut m = AiStateMachine::new(EngineStatus::Stopped);
    assert!(!m.transition_engine(EngineStatus::Running));
    assert!(m.transition_engine(EngineStatus::Starting));
    assert!(!m.transition_engine(EngineStatus::Starting));
    assert!(m.transition_engine(EngineStatus::Running));
    assert!(m.transition_model(ModelStatus::Loading));
    assert!(m.transition_model(ModelStatus::Ready));
    m.set_pid(42);
    assert!(m.transition_engine(EngineStatus::Stopped));
    assert_eq!(m.model(), ModelStatus::Unloaded);
    assert_eq!(m.pid(), 42);
}

#[test]
fn status_representations() {
    assert_eq!(EngineStatus::Disabled.to_repr(), -1);
    assert_eq!(EngineStatus::Error.to_repr(), 3);
    assert_eq!(EngineStatus::from_repr(2), Some(EngineStatus::Running));
    assert_eq!(EngineStatus::from_repr(9), None);
    assert_eq!(ModelStatus::from_repr(1), Some(ModelStatus::Loading));
}

// ---------- engine start and model load ----------

#[test]
fn engine_start_decisions() {
    assert_eq!(engine_start_decision(false, EngineStatus::Running, true, true), EngineStartDecision::RefuseDisabled);
    assert_eq!(engine_start_decision(true, EngineStatus::Starting, false, false), EngineStartDecision::AlreadyStarting);
    assert_eq!(engine_start_decision(true, EngineStatus::Running, true, true), EngineStartDecision::ReuseRunning);
    assert_eq!(engine_start_decision(true, EngineStatus::Running, true, false), EngineStartDecision::Restart);
    assert_eq!(status_after_launch(true), EngineStatus::Running);
    assert_eq!(status_after_launch(false), EngineStatus::Error);
}

#[test]
fn engine_start_on_state() {
    let mut m = StateManager::new(AppConfig::default_config());
    let d = begin_engine_start(&mut m, false, &None);
    assert_eq!(d, EngineStartDecision::RefuseDisabled);
    assert_eq!(m.engine_status(), EngineStatus::Disabled);
    match engine_start_result(d) {
        Err(AppError::Anyhow(msg)) => assert_eq!(msg, "AI feature is disabled in settings."),
        _ => panic!("expected the disabled error"),
    }

    let mut m = enabled_manager();
    let running = Some(m.config().ai_config);
    let d = begin_engine_start(&mut m, false, &running);
    assert_eq!(d, EngineStartDecision::Restart);
    assert_eq!(m.engine_status(), EngineStatus::Starting);
    assert!(finish_engine_launch(&mut m, true, 77).is_ok());
    assert_eq!(m.engine_status(), EngineStatus::Running);
    assert_eq!(m.pid(), 77);
    let d = begin_engine_start(&mut m, true, &running);
    assert_eq!(d, EngineStartDecision::ReuseRunning);
}

#[test]
fn engine_launch_timeout() {
    let mut m = enabled_manager();
    begin_engine_start(&mut m, false, &None);
    match finish_engine_launch(&mut m, false, 1) {
        Err(AppError::Anyhow(msg)) => assert_eq!(msg, "Sidecar failed to initialize within 30 seconds"),
        _ => panic!("expected the time-out"),
    }
    assert_eq!(m.engine_status(), EngineStatus::Error);
}

#[test]
fn model_load_flow() {
    let m = StateManager::new(AppConfig::default_config());
    match begin_model_load(&m) {
        Err(AppError::AiError(msg)) => assert_eq!(msg, "AI is currently disabled in settings."),
        _ => panic!("expected the disabled error"),
    }
    let mut m = enabled_manager();
    assert_eq!(begin_model_load(&m).ok(), Some(true));
    m.set_model_status(ModelStatus::Loading);
    assert_eq!(begin_model_load(&m).ok(), Some(false));
    let ok = PythonResponse::Success { added: None, removed: None, done: None, message: None };
    assert!(finish_model_load(&mut m, &ok).is_ok());
    assert_eq!(m.model_status(), ModelStatus::Ready);
    assert_eq!(begin_model_load(&m).ok(), Some(false));
}

#[test]
fn model_load_errors() {
    let mut m = enabled_manager();
    m.set_model_status(ModelStatus::Loading);
    let err = PythonResponse::Error { message: "out of memory".to_string() };
    match finish_model_load(&mut m, &err) {
        Err(AppError::AiError(msg)) => assert_eq!(msg, "out of memory"),
        _ => panic!("expected the engine's error"),
    }
    assert_eq!(m.model_status(), ModelStatus::Error);
    m.set_model_status(ModelStatus::Loading);
    match finish_model_load(&mut m, &PythonResponse::Progress { done: 1, total: 2 }) {
        Err(AppError::AiError(msg)) => assert_eq!(msg, "Unexpected response during model load"),
        _ => panic!("expected the unexpected-reply error"),
    }
}

#[test]
fn load_model_command() {
    let mut c = AiConfig::default_config();
    c.hardware = HardwareType::Cpu;
    let r = load_model_request(&c);
    assert_eq!(r.model_id, "google/siglip2-so400m-patch16-naflex");
    assert_eq!(r.device, "cpu");
    assert_eq!(r.max_patches, 256);
    assert_eq!(loading_message(&c), ">>> Loading Model: SigLIP 2 SO400M (Highest Accuracy)...");
}

#[test]
fn ai_enable_toggle() {
    let mut m = enabled_manager();
    apply_ai_enabled(&mut m, false);
    assert!(!m.config().ai_config.enabled);
    assert_eq!(m.engine_status(), EngineStatus::Disabled);
    apply_ai_enabled(&mut m, true);
    assert!(m.config().ai_config.enabled);
    assert_eq!(m.engine_status(), EngineStatus::Stopped);
}

#[test]
fn runtime_status_and_setup() {
    let mut m = enabled_manager();
    m.set_engine_status(EngineStatus::Starting);
    m.set_engine_status(EngineStatus::Running);
    let py = PythonStatus::from_probe("p".to_string(), true);
    let st = ai_runtime_status(&py, &m.get_app_status());
    assert!(st.python_ready && st.is_running && !st.is_loaded);
    assert!(setup_result(true, true).is_ok());
    match setup_result(false, true) {
        Err(AppError::AiError(msg)) => assert_eq!(msg, "AI environment setup failed. Check the logs above for details."),
        _ => panic!(),
    }
    match setup_result(true, false) {
        Err(AppError::AiError(msg)) => assert_eq!(msg, "Venv health check failed after setup."),
        _ => panic!(),
    }
    assert!(matches!(uv_missing_error(), AppError::AiError(_)));
    assert_eq!(venv_setup_message("/env"), "Creating/Updating virtual environment in /env...");
}

// ---------- sidecar output ----------

#[test]
fn stream_is_cut_into_lines() {
    let mut buf = Vec::new();
    let mut lines: Vec<Vec<u8>> = Vec::new();
    feed_bytes(&mut buf, b"REA", &mut lines);
    assert!(lines.is_empty());
    feed_bytes(&mut buf, b"DY\r\n\n{\"a\":1}\npart", &mut lines);
    assert_eq!(lines, vec![b"READY".to_vec(), b"{\"a\":1}".to_vec()]);
    assert_eq!(buf, b"part".to_vec());
}

#[test]
fn chunked_and_whole_reads_agree() {
    let data = b"one\ntwo\r\nthree";
    let mut b1 = Vec::new();
    let mut l1: Vec<Vec<u8>> = Vec::new();
    feed_bytes(&mut b1, data, &mut l1);
    let mut b2 = Vec::new();
    let mut l2: Vec<Vec<u8>> = Vec::new();
    feed_bytes(&mut b2, &data[..5], &mut l2);
    feed_bytes(&mut b2, &data[5..], &mut l2);
    assert_eq!(l1, l2);
    assert_eq!(b1, b2);
}

#[test]
fn sidecar_lines_are_classified() {
    assert!(matches!(classify_line(b"  READY  "), SidecarLine::Ready));
    match classify_line(b" {\"status\":\"ok\"}") {
        SidecarLine::Response(s) => assert_eq!(s, " {\"status\":\"ok\"}"),
        _ => panic!(),
    }
    match classify_line(b"[LOG][LOG]  loading weights ") {
        SidecarLine::Log(s) => assert_eq!(s, "loading weights"),
        _ => panic!(),
    }
    match classify_line(b"Traceback: ERROR happened") {
        SidecarLine::Critical(s) => assert_eq!(s, "CRITICAL: Traceback: ERROR happened"),
        _ => panic!(),
    }
    assert!(matches!(classify_line(b"hello"), SidecarLine::Ignored));
    assert!(matches!(classify_text("x".to_string(), "READY".to_string()), SidecarLine::Ready));
    assert_eq!(trim_start_matches("abababc", "ab"), "c");
    assert_eq!(trim_start_matches("abc", ""), "abc");
}

// ---------- indexing and worker ----------

#[test]
fn index_replies() {
    let mut m = enabled_manager();
    begin_board_indexing(&mut m, "/boards/a");
    let t = &m.get_active_tasks()[0];
    assert_eq!(t.id, "ai-index");
    assert_eq!(t.message.as_deref(), Some("Indexing board: /boards/a"));

    let out = apply_index_reply(&mut m, &PythonResponse::Progress { done: 3, total: 9 }, 5, false);
    assert!(matches!(out.next, IndexNext::ReadMore));
    assert_eq!(out.total_indexed, 5);
    let t = &m.get_active_tasks()[0];
    assert_eq!((t.progress, t.total), (3, 9));
    assert_eq!(t.message.as_deref(), Some("Indexing images..."));

    let ok = PythonResponse::Success { added: None, removed: None, done: Some(4), message: None };
    let out = apply_index_reply(&mut m, &ok, 5, true);
    assert!(matches!(out.next, IndexNext::BoardDone));
    assert_eq!(out.total_indexed, 9);

    let out = apply_index_reply(&mut m, &PythonResponse::Other, 9, true);
    assert!(matches!(out.next, IndexNext::Cancelled));
    assert_eq!(out.finished.unwrap().status, "cancelled");
    assert!(m.get_active_tasks().is_empty());
}

#[test]
fn index_error_reply() {
    let mut m = enabled_manager();
    begin_board_indexing(&mut m, "/b");
    let out = apply_index_reply(&mut m, &PythonResponse::Error { message: "boom".to_string() }, 0, false);
    match out.next {
        IndexNext::Failed(AppError::AiError(msg)) => assert_eq!(msg, "boom"),
        _ => panic!(),
    }
    let ev = out.finished.unwrap();
    assert_eq!((ev.status.as_str(), ev.message.as_deref()), ("error", Some("boom")));
    begin_board_indexing(&mut m, "/b");
    let ev = fail_board_indexing(&mut m);
    assert_eq!(ev.message.as_deref(), Some("AI inventory sync failed"));
    begin_board_indexing(&mut m, "/b");
    let ev = complete_indexing(&mut m);
    assert_eq!(ev.status, "completed");
    assert_eq!(ev.message.as_deref(), Some("Indexing completed"));
}

#[test]
fn worker_gate_and_pending_boards() {
    assert_eq!(worker_gate(true, true, true), WorkerGate::Stop);
    assert_eq!(worker_gate(false, false, true), WorkerGate::Idle);
    assert_eq!(worker_gate(false, true, false), WorkerGate::Idle);
    assert_eq!(worker_gate(false, true, true), WorkerGate::Proceed);
    let pending = vec![(1, "a".to_string()), (2, "b".to_string()), (3, "c".to_string())];
    let r = boards_to_sync(pending, &vec![3, 1]);
    assert_eq!(r, vec![(1, "a".to_string()), (3, "c".to_string())]);
}

#[test]
fn worker_slot_is_claimed_once() {
    let mut m = StateManager::new(AppConfig::default_config());
    assert!(m.claim_ai_worker_slot());
    assert!(!m.claim_ai_worker_slot());
}

// ---------- tasks ----------

fn task(id: &str, t: &str, at: i64) -> BackgroundTask {
    BackgroundTask {
        id: id.to_string(),
        task_type: t.to_string(),
        status: "running".to_string(),
        message: None,
        progress: 0,
        total: 0,
        updated_at: at,
    }
}

#[test]
fn task_board_orders_newest_first() {
    let mut b = TaskBoard::new();
    b.upsert(task("a", "scan", 1));
    b.upsert(task("b", "scan", 3));
    b.upsert(task("c", "scan", 2));
    let ids: Vec<String> = b.newest_first().into_iter().map(|t| t.id).collect();
    assert_eq!(ids, vec!["b", "c", "a"]);
    b.upsert(task("a", "scan", 9));
    assert_eq!(b.newest_first()[0].id, "a");
    assert_eq!(b.newest_first().len(), 3);
    assert!(b.remove("c").is_some());
    assert!(b.remove("c").is_none());
    b.clear();
    assert!(b.newest_first().is_empty());
}

#[test]
fn finish_messages() {
    assert_eq!(finish_message(Some("done"), &None), Some("done".to_string()));
    assert_eq!(finish_message(None, &Some(task("x", "thumb_gen", 0))), Some("Thumb Gen completed".to_string()));
    assert_eq!(finish_message(None, &None), None);
}

#[test]
fn finish_after_start_restores_tasks() {
    let mut m = StateManager::new(AppConfig::default_config());
    m.update_task("t1", "scan", "running", None, 0, 1);
    m.update_task("t2", "delete", "running", Some("x"), 1, 2);
    m.finish_task("t2", "completed", None);
    let tasks = m.get_active_tasks();
    assert_eq!(tasks.len(), 1);
    assert_eq!(tasks[0].id, "t1");
}

#[test]
fn state_manager_flags() {
    let mut m = StateManager::new(AppConfig::default_config());
    assert!(m.take_dirty());
    assert!(!m.take_dirty());
    m.set_scanning(true);
    assert!(m.is_scanning());
    assert!(m.take_dirty());
    m.set_scanning(true);
    assert!(!m.take_dirty());
    assert!(!m.is_pulse_cancelled());
    m.stop_pulse();
    assert!(m.is_pulse_cancelled());
    assert_eq!(m.engine_status(), EngineStatus::Disabled);
}

// ---------- paths ----------

#[test]
fn folder_id_uses_name_and_hash() {
    let id = WorkspacePath::folder_id("/tmp/My Photos-2024");
    let h = xxhash_rust::xxh3::xxh3_64("/tmp/my photos-2024".as_bytes());
    assert_eq!(id, format!("MyPhotos2024_{:x}", h));
    let id = WorkspacePath::folder_id("/");
    assert!(id.starts_with("folder_"));
    assert_eq!(WorkspacePath::folder_id_from("", 255), "folder_ff");
    assert_eq!(to_lower_hex(0), "0");
    assert_eq!(to_lower_hex(0xdead_beef), "deadbeef");
}

#[test]
fn folder_id_from_name_and_normalized_path() {
    let h = xxhash_rust::xxh3::xxh3_64("/x/a b".as_bytes());
    let id = WorkspacePath::folder_id_of_parts(&Some("A b!".to_string()), "/x/a b");
    assert_eq!(id, format!("Ab_{:x}", h));
    assert_eq!(id, WorkspacePath::folder_id_of_parts(&Some("A b!".to_string()), "/x/a b"));
    let id = WorkspacePath::folder_id_of_parts(&None, "/");
    assert_eq!(id, format!("folder_{:x}", xxhash_rust::xxh3::xxh3_64(b"/")));
    assert_eq!(WorkspacePath::folder_id("/x/Pics"), WorkspacePath::folder_id("/x/Pics"));
    assert_eq!(WorkspacePath::folder_id("/X/Pics"), WorkspacePath::folder_id("/x/Pics"));
}

#[test]
fn normalize_and_sanitize() {
    assert_eq!(WorkspacePath::normalize("/Users/Ann/Pics\\Sub"), "/users/ann/pics/sub");
    assert_eq!(WorkspacePath::sanitize_name("/a/b c_d!"), "bcd");
    assert_eq!(filter_alphanumeric("a-b_c 1"), "abc1");
}

#[test]
fn image_detection() {
    assert!(WorkspacePath::is_image("/a/b/PHOTO.JPG"));
    assert!(WorkspacePath::is_image("x.webp"));
    assert!(!WorkspacePath::is_image("notes.txt"));
    assert!(!WorkspacePath::is_image("/a/b/noext"));
    assert_eq!(file_extension("a.tar.gz"), Some("gz".to_string()));
    assert_eq!(file_extension("noext"), None);
}

#[test]
fn watcher_ignores_hidden_and_tool_folders() {
    assert!(WatcherActor::should_ignore("/p/.git/index"));
    assert!(WatcherActor::should_ignore("/p/Node_Modules/x.png"));
    assert!(WatcherActor::should_ignore("/p/.hidden.png"));
    assert!(WatcherActor::should_ignore("/p/.DS_Store"));
    assert!(!WatcherActor::should_ignore("/p/photo.png"));
    assert!(WatcherActor::needs_reconcile(&vec![true, false]));
    assert!(!WatcherActor::needs_reconcile(&vec![true, true]));
}

// ---------- workspaces ----------

#[test]
fn workspace_rows_are_grouped() {
    let rows = vec![
        WorkspaceRow { id: "w1".into(), name: "One".into(), board_id: Some(1), path: Some("/a".into()) },
        WorkspaceRow { id: "w2".into(), name: "Two".into(), board_id: None, path: None },
        WorkspaceRow { id: "w1".into(), name: "One".into(), board_id: Some(2), path: None },
    ];
    let ws = group_workspace_rows(&rows);
    assert_eq!(ws.len(), 2);
    assert_eq!(ws[0].board_ids, vec![1, 2]);
    assert_eq!(ws[0].folder_paths, vec!["/a".to_string()]);
    assert!(ws[1].board_ids.is_empty());
}

#[test]
fn board_id_edits() {
    let mut ids = vec![1, 2];
    assert!(add_board_id(&mut ids, 3));
    assert!(!add_board_id(&mut ids, 3));
    assert!(remove_board_id(&mut ids, 3));
    assert_eq!(ids, vec![1, 2]);
    assert!(!remove_board_id(&mut ids, 9));
}

#[test]
fn workspace_commands() {
    let list = vec![ws("a", "A", vec![1]), ws("b", "B", vec![2, 3])];
    assert_eq!(resolve_target_workspace(None, Some("b".into())).ok(), Some("b".to_string()));
    assert!(matches!(resolve_target_workspace(None, None), Err(AppError::NotFound(_))));
    let r = rename_workspace(&list, "b", "New".to_string()).ok().unwrap();
    assert_eq!((r.name.as_str(), r.board_ids.clone()), ("New", vec![2, 3]));
    match rename_workspace(&list, "z", "N".to_string()) {
        Err(AppError::NotFound(m)) => assert_eq!(m, "Workspace not found"),
        _ => panic!(),
    }
    assert!(is_switch(&Some("a".into()), "b"));
    assert!(!is_switch(&Some("a".into()), "a"));
    let (w, added) = add_boards_to_workspace(&list, "a", &vec![1, 5, 5]).unwrap();
    assert_eq!((w.board_ids, added), (vec![1, 5], 1));
    assert_eq!(remove_board_from_workspace(&list, "b", 2).unwrap().board_ids, vec![3]);
    assert!(remove_board_from_workspace(&list, "b", 7).is_none());
    assert!(needs_reopen(true, &Some("a".into()), "a"));
    assert!(!needs_reopen(true, &Some("b".into()), "a"));
    assert_eq!(status_board_ids(&Some("b".into()), &list), Some(vec![2, 3]));
    assert_eq!(status_board_ids(&None, &list), None);
    assert_eq!(workspace_status_from(true, 7).total_images, 7);
    assert_eq!(folder_board_name(None), "Untitled Board");
}

#[test]
fn workspace_names() {
    assert_eq!(workspace_name_from("Golden", "Vault"), "Golden Vault");
    let w = Workspace::new(None, vec![], vec![]).unwrap();
    assert_eq!(w.id.len(), 36);
    let mut parts = w.name.split(' ');
    assert!(ADJECTIVES.contains(&parts.next().unwrap()));
    assert!(NOUNS.contains(&parts.next().unwrap()));
    let w2 = Workspace::new(Some("Mine".into()), vec![1], vec![]).unwrap();
    assert_eq!(&w2.id[14..15], "4");
    let name = Workspace::generate_random_name().unwrap();
    assert!(ADJECTIVES.contains(&name.split(' ').next().unwrap()));
    assert_eq!(w2.name, "Mine");
    assert_ne!(w.id, w2.id);
}

#[test]
fn config_view() {
    let cfg = AppConfig::default_config();
    let d = config_dto(cfg, vec![ws("a", "A", vec![])], vec![]);
    assert!(d.active.is_none());
    assert_eq!(d.workspaces.len(), 1);
    assert!(d.logging_enabled);
}

// ---------- images and boards ----------

fn image(status: &str, thumb: Option<&str>) -> Image {
    Image {
        id: 1,
        filename: "a.png".into(),
        path: "/a.png".into(),
        board_id: 1,
        board_name: "b".into(),
        thumb_path: thumb.map(|s| s.to_string()),
        thumbnail_status: status.into(),
        width: 0,
        height: 0,
        size_bytes: 0,
        mtime: 0,
        created_at: 0,
        is_missing: false,
    }
}

#[test]
fn image_clean_resolves_thumbnails() {
    let base = Some("C:\\Data".to_string());
    let img = image("ready", Some("cache/t.webp")).clean(&base);
    assert_eq!(img.thumb_path.as_deref(), Some("C:/Data/cache/t.webp"));
    let img = image("ready", Some("/abs/t.webp")).clean(&base);
    assert_eq!(img.thumb_path.as_deref(), Some("/abs/t.webp"));
    let img = image("pending", Some("cache/t.webp")).clean(&base);
    assert!(img.thumb_path.is_none());
    let once = image("ready", Some("cache/t.webp")).clean(&Some("/d".into()));
    let twice = once.clone().clean(&Some("/d".into()));
    assert_eq!(once.thumb_path, twice.thumb_path);
    let all = clean_images(vec![image("ready", Some("x")), image("failed", Some("y"))], &Some("/d".into()));
    assert_eq!(all[0].thumb_path.as_deref(), Some("/d/x"));
    assert!(all[1].thumb_path.is_none());
}

#[test]
fn image_listing_queries() {
    assert_eq!(placeholders(3), "?,?,?");
    assert_eq!(order_column(&Some("name".into())), "i.filename");
    assert_eq!(order_direction(&Some("asc".into())), "ASC");
    assert_eq!(order_direction(&None), "DESC");
    let q = image_query(None, &Some(vec![4, 5]), 3, 10, &None, &None).unwrap();
    assert_eq!(q.offset, 20);
    assert_eq!(q.params, vec![4, 5]);
    assert_eq!(q.count_sql, "SELECT COUNT(*) FROM images i WHERE i.board_id IN (?,?)");
    assert!(q.select_sql.ends_with("WHERE i.board_id IN (?,?) ORDER BY i.mtime DESC LIMIT ? OFFSET ?"));
    assert!(image_query(None, &Some(vec![]), 1, 10, &None, &None).is_none());
    let q = image_query(Some(7), &Some(vec![]), 1, 10, &None, &None).unwrap();
    assert_eq!(q.params, vec![7]);
    assert!(storage_stats_sql(&vec![1]).ends_with(" AND board_id IN (?)"));
    assert_eq!(boards_sql(&Some(vec![])), None);
}

#[test]
fn explorer_access() {
    let roots = vec!["c:/pics".to_string()];
    assert!(is_within_roots("c:/pics", &roots));
    assert!(is_within_roots("c:/pics/a.png", &roots));
    assert!(!is_within_roots("c:/pics2/a.png", &roots));
    assert_eq!(explorer_target("c:/pics/a.png", &roots, true).ok(), Some("c:\\pics\\a.png".to_string()));
    match explorer_target("d:/x.png", &roots, true) {
        Err(AppError::WorkspaceError(m)) => assert_eq!(m, "Access denied: File is outside of workspace roots"),
        _ => panic!(),
    }
    match explorer_target("c:/pics/a.png", &roots, false) {
        Err(AppError::WorkspaceError(m)) => assert_eq!(m, "Only supported on Windows"),
        _ => panic!(),
    }
}

#[test]
fn orphaned_boards_and_chunks() {
    let list = vec![ws("a", "A", vec![1]), ws("b", "B", vec![3])];
    let boards = vec![(1, "/1".to_string()), (2, "/2".to_string()), (3, "/3".to_string()), (4, "/4".to_string())];
    let (ids, paths) = orphaned_boards(&list, &boards);
    assert_eq!(ids, vec![2, 4]);
    assert_eq!(paths, vec!["/2".to_string(), "/4".to_string()]);
    let ids: Vec<i32> = (0..2000).collect();
    let chunks = chunk_ids(&ids, DELETE_CHUNK);
    assert_eq!(chunks.iter().map(|c| c.len()).collect::<Vec<_>>(), vec![999, 999, 2]);
    assert_eq!(chunks.concat(), ids);
    assert_eq!(delete_boards_sql(2), "DELETE FROM boards WHERE id IN (?,?)");
    match create_board() {
        Err(AppError::WorkspaceError(m)) => assert_eq!(m, "Please use 'Add Folder' to create new boards"),
        _ => panic!(),
    }
}

// ---------- embedding stores and search ----------

#[test]
fn embedding_store_names_and_queries() {
    let name = ai_db_file_name("/data/Board");
    assert_eq!(name, format!("{}.db", WorkspacePath::folder_id("/data/Board")));
    assert!(needs_inventory_sync(0, 0, true));
    assert!(!needs_inventory_sync(0, 0, false));
    assert_eq!(numbered_placeholders(0), "");
    assert_eq!(numbered_placeholders(11), "?1,?2,?3,?4,?5,?6,?7,?8,?9,?10,?11");
    assert!(image_boards_sql(2).ends_with("WHERE i.path IN (?1,?2)"));
    assert_eq!(board_names_sql(1), "SELECT name, path FROM boards WHERE id IN (?)");
    assert_eq!(present_boards_sql(2), "SELECT id, path FROM boards WHERE id IN (?,?) AND is_missing = 0");
}

#[test]
fn images_grouped_by_board() {
    let rows = vec![
        ("i1".to_string(), "b1".to_string()),
        ("i2".to_string(), "b2".to_string()),
        ("i3".to_string(), "b1".to_string()),
    ];
    let g = group_by_key_exec(&rows);
    assert_eq!(g, vec![
        ("b1".to_string(), vec!["i1".to_string(), "i3".to_string()]),
        ("b2".to_string(), vec!["i2".to_string()]),
    ]);
    let missing = select_missing(&vec!["a".into(), "b".into(), "c".into()], &vec![true, false, false]);
    assert_eq!(missing, vec!["b".to_string(), "c".to_string()]);
}

#[test]
fn inventory_sync_plan() {
    let existing = vec![("a".to_string(), 1i64), ("b".to_string(), 5), ("c".to_string(), 5)];
    let added = vec![("a".to_string(), 2i64), ("b".to_string(), 5), ("d".to_string(), 7)];
    let plan = plan_inventory_sync(&existing, &added, &vec![], true);
    assert_eq!(plan.deletes, vec!["c".to_string()]);
    assert_eq!(plan.inserts, vec![("d".to_string(), 7)]);
    assert_eq!(plan.updates, vec![("a".to_string(), 2)]);
    let plan = plan_inventory_sync(&existing, &added, &vec!["b".to_string()], false);
    assert_eq!(plan.deletes, vec!["b".to_string()]);
}

#[test]
fn inventory_sync_counts() {
    let existing = vec![("a".to_string(), 1i64), ("b".to_string(), 5), ("c".to_string(), 5)];
    let added = vec![("d".to_string(), 1i64), ("e".to_string(), 2), ("d".to_string(), 3)];
    let plan = plan_inventory_sync(&existing, &added, &vec![], true);
    assert_eq!(plan.inserts.len(), 2);
    assert_eq!(plan.deletes.len(), 3);
    assert!(plan.inserts.contains(&("d".to_string(), 3)));
    let plan = plan_inventory_sync(&existing, &added, &vec!["x".to_string(), "a".to_string(), "x".to_string()], false);
    assert_eq!(plan.deletes.len(), 2);
    assert_eq!(plan.inserts.len(), 2);
    assert!(plan.updates.is_empty());
}

#[test]
fn search_queries_and_matching() {
    assert_eq!(
        search_boards_sql(2),
        "SELECT id, path FROM boards WHERE is_missing = 0 AND (?1 IS NULL OR id = ?1) AND (path LIKE ? OR path LIKE ?)"
    );
    assert!(!search_boards_sql(0).contains("LIKE"));
    assert_eq!(like_prefix("/r"), "/r%");
    assert!(resolve_results_sql(2).ends_with("WHERE i.path IN (?1,?2) AND (?3 IS NULL OR i.board_id = ?3)"));
    let results = vec!["x".to_string(), "y".to_string(), "z".to_string()];
    let images = vec!["z".to_string(), "x".to_string(), "z".to_string()];
    assert_eq!(match_results(&results, &images), vec![(0, 1), (2, 2)]);
}

// ---------- scans ----------

#[test]
fn scan_diff() {
    let board_ids = vec![("/b".to_string(), 9)];
    let existing = vec![
        ("/b/same.png".to_string(), ImageDbMetadata { id: 1, mtime: 5, size: 10, thumb_status: "ready".into(), thumb_path: None }),
        ("/b/changed.png".to_string(), ImageDbMetadata { id: 2, mtime: 5, size: 10, thumb_status: "ready".into(), thumb_path: None }),
        ("/b/gone.png".to_string(), ImageDbMetadata { id: 3, mtime: 5, size: 10, thumb_status: "ready".into(), thumb_path: Some("t/g.webp".into()) }),
    ];
    let found = vec![
        FoundImage { path: "/b/same.png".into(), board_abs_path: "/b".into(), mtime: 5, size: 10, filename: "same.png".into() },
        FoundImage { path: "/b/changed.png".into(), board_abs_path: "/b".into(), mtime: 6, size: 10, filename: "changed.png".into() },
        FoundImage { path: "/b/New.png".into(), board_abs_path: "/b".into(), mtime: 1, size: 2, filename: "New.png".into() },
    ];
    let d = diff_images(board_ids, existing, &found);
    assert_eq!(d.new_pending, 2);
    assert!(matches!(d.writes[0], ImageWrite::MarkPresent { id: 1 }));
    assert!(matches!(d.writes[1], ImageWrite::UpdateModified { id: 2, mtime: 6, size: 10, board_id: 9 }));
    match &d.writes[2] {
        ImageWrite::Insert { path, board_id, .. } => {
            assert_eq!(path, "/b/new.png");
            assert_eq!(*board_id, 9);
        }
        _ => panic!(),
    }
    assert_eq!(d.remaining.len(), 1);
    let (actions, thumbs) = plan_missing_images(&d.remaining, &vec!["/b".to_string()]);
    assert_eq!(actions, vec![MissingImageAction::Delete(3)]);
    assert_eq!(thumbs, vec!["t/g.webp".to_string()]);
    let (actions, _) = plan_missing_images(&d.remaining, &vec![]);
    assert_eq!(actions, vec![MissingImageAction::MarkMissing(3)]);
    assert!(needs_thumbnail_nudge(d.new_pending));
}

#[test]
fn scan_boards() {
    let boards = ReconcilerActor::discover_boards(&vec!["/x/A".to_string(), "/x/B".to_string()], &vec![true, false]);
    assert_eq!(boards, vec![("/x/a".to_string(), "A".to_string())]);
    let missing = boards_to_mark_missing(&vec![(1, "/x/a".to_string()), (2, "/x/b".to_string())], &vec!["/x/a".to_string()]);
    assert_eq!(missing, vec![2]);
    assert_eq!(ReconcilerActor::board_name("/x/Holiday"), "Holiday");
    assert_eq!(board_name_from(None), "Source Folder");
    assert_eq!(found_image_filename(None), "unknown");
    assert_eq!(image_file_name("/x/a/Pic.PNG"), "Pic.PNG");
    assert_eq!(image_file_name("/"), "unknown");
}

// ---------- thumbnails ----------

#[test]
fn thumbnail_targets() {
    let t = plan_thumbnail("/b/sub/pic.jpg", "/b", "b_1");
    assert_eq!(t.rel, "sub/pic.jpg");
    assert_eq!(t.rel_webp, "sub/pic.webp");
    assert_eq!(t.thumb_path, "cache/thumbnails/b_1/sub/pic.webp");
    let t = plan_thumbnail("/elsewhere/pic.png", "/b", "b_1");
    assert_eq!(t.thumb_path, "cache/thumbnails/b_1/pic.webp");
    assert_eq!(thumb_path_for("id", "a\\b.webp"), "cache/thumbnails/id/a/b.webp");
}

#[test]
fn thumbnail_relative_path_choice() {
    assert_eq!(thumbnail_rel(Some("a/b.png".to_string()), Some("b.png".to_string())), "a/b.png");
    assert_eq!(thumbnail_rel(None, Some("b.png".to_string())), "b.png");
    assert_eq!(thumbnail_rel(None, None), "");
    let t = plan_thumbnail("b/pic.jpg", "b", "x");
    assert_eq!(t.rel, "pic.jpg");
    assert_eq!(t.thumb_path, "cache/thumbnails/x/pic.webp");
    assert_eq!(plan_thumbnail("b", "b", "x").rel, "");
}

#[test]
fn thumbnail_session_progress() {
    let mut s = ThumbnailSession::new();
    assert_eq!(s.start(10, 5), Some((10, 15)));
    assert_eq!(s.on_batch(3), BatchStep::Process);
    assert_eq!(s.progress(), Some((13, 15)));
    assert_eq!(s.on_batch(0), BatchStep::Finish { completed: true });
    let mut s = ThumbnailSession::new();
    assert_eq!(s.start(4, 0), None);
    assert_eq!(s.on_batch(0), BatchStep::Finish { completed: false });
}

// ---------- misc ----------

#[test]
fn migration_and_errors() {
    assert!(needs_migration(0));
    assert!(!needs_migration(1));
    assert_eq!(not_found("x").message(), "x");
}

#[test]
fn scan_task_lifecycle() {
    let mut m = StateManager::new(AppConfig::default_config());
    begin_scan(&mut m);
    assert!(m.is_scanning());
    assert_eq!(m.get_active_tasks()[0].message.as_deref(), Some("Scanning library..."));
    scan_folder_progress(&mut m, 1, 12);
    let t = &m.get_active_tasks()[0];
    assert_eq!(t.message.as_deref(), Some("Scanning folder 2 of 12..."));
    assert_eq!((t.progress, t.total), (2, 12));
    scan_complete_progress(&mut m, 12);
    assert_eq!(m.get_active_tasks()[0].message.as_deref(), Some("Scan complete"));
    let ev = end_scan(&mut m, false);
    assert_eq!((ev.status.as_str(), ev.message.as_deref()), ("failed", Some("Reconciliation failed")));
    assert!(!m.is_scanning());
    assert!(m.get_active_tasks().is_empty());
    begin_scan(&mut m);
    let ev = end_scan(&mut m, true);
    assert_eq!(ev.message.as_deref(), Some("Scan completed"));
}

#[test]
fn engine_messages() {
    match encode_failure(Some("bad query")) {
        AppError::AiError(m) => assert_eq!(m, "bad query"),
        _ => panic!(),
    }
    match encode_failure(None) {
        AppError::AiError(m) => assert_eq!(m, "Failed to encode text"),
        _ => panic!(),
    }
    assert!(matches!(engine_busy_error(), AppError::AiError(_)));
}

#[test]
fn unchanged_rescan_writes_nothing_new() {
    let meta = |id: i32| ImageDbMetadata { id, mtime: 3, size: 4, thumb_status: "ready".into(), thumb_path: None };
    let existing = vec![("/b/a.png".to_string(), meta(1)), ("/b/c.png".to_string(), meta(2))];
    let found = vec![
        FoundImage { path: "/b/A.png".into(), board_abs_path: "/b".into(), mtime: 3, size: 4, filename: "A.png".into() },
        FoundImage { path: "/b/c.png".into(), board_abs_path: "/b".into(), mtime: 3, size: 4, filename: "c.png".into() },
    ];
    let d = diff_images(vec![("/b".to_string(), 1)], existing, &found);
    assert_eq!(d.new_pending, 0);
    assert!(d.writes.iter().all(|w| matches!(w, ImageWrite::MarkPresent { .. })));
    assert!(d.remaining.is_empty());
}

#[test]
fn wrapped_calls_behave() {
    match classify_line(b"{\xff}") {
        SidecarLine::Response(s) => assert_eq!(s, "{\u{FFFD}}"),
        _ => panic!(),
    }
    assert!(destination_allowed("/a/b/c.webp", "/a/b"));
    assert!(!destination_allowed("/a/bc/x.webp", "/a/b"));
    let mut m = StateManager::new(AppConfig::default_config());
    m.update_task("t", "scan", "running", None, 0, 0);
    assert!(m.get_active_tasks()[0].updated_at > 1_600_000_000);
}

#[test]
fn destination_component_facts() {
    assert!(destination_allowed("cache/x", "cache/x"));
    assert!(destination_allowed("cache/x.webp", "cache"));
    assert!(!destination_allowed("cachex", "cache"));
}

#[test]
fn starting_the_engine_unloads_the_model() {
    let mut sm = AiStateMachine::new(EngineStatus::Stopped);
    assert!(sm.transition_model(ModelStatus::Loading));
    assert!(sm.transition_engine(EngineStatus::Starting));
    assert_eq!(sm.engine(), EngineStatus::Starting);
    assert_eq!(sm.model(), ModelStatus::Unloaded);
}

#[test]
fn trim_removes_unicode_white_space() {
    assert_eq!(trim("\u{3000} a b\t\n\u{85}"), "a b");
    assert_eq!(trim(" \u{a0}\u{2028} "), "");
    assert_eq!(trim("x\u{200b}"), "x\u{200b}");
    assert_eq!(trim(""), "");
    for s in ["  mixed\u{2003}text\r\n", "\u{feff}bom ", "\u{1680}ogham\u{205f}"] {
        assert_eq!(trim(s), s.trim());
    }
}

#[test]
fn path_helpers_on_slash_paths() {
    let h = xxhash_rust::xxh3::xxh3_64(b"/home/u/my pics!");
    assert_eq!(WorkspacePath::folder_id("/home/u/My Pics!"), format!("MyPics_{:x}", h));
    let h = xxhash_rust::xxh3::xxh3_64(b"/tmp/!!!");
    assert_eq!(WorkspacePath::folder_id("/tmp/!!!"), format!("folder_{:x}", h));
    assert_eq!(WorkspacePath::folder_id("/tmp/!!!"), WorkspacePath::folder_id("/tmp/!!!"));
    assert_eq!(WorkspacePath::sanitize_name("/home/u/My Pics!"), "MyPics");
    assert!(WorkspacePath::is_image("/p/Holiday.JPeG"));
    assert!(!WorkspacePath::is_image("/p/.png"));
    assert!(!WorkspacePath::is_image("/p/a.png.zip"));
    assert!(!WorkspacePath::is_image("/p/scan.tif"));
    assert!(!WatcherActor::should_ignore("/home/u/pics/cat.png"));
    assert!(WatcherActor::should_ignore("/home/u/pics/.cat.png"));
    assert!(WatcherActor::should_ignore("/home/u/Node_Modules/a.png"));
    let t = plan_thumbnail("/b/sub/pic.tar.jpg", "/b", "id");
    assert_eq!(t.rel, "sub/pic.tar.jpg");
    assert_eq!(t.rel_webp, "sub/pic.tar.webp");
    assert_eq!(plan_thumbnail("/b/.hidden", "/b", "id").rel_webp, ".hidden.webp");
    assert!(!destination_allowed("/r/y/f.webp", "/r/x"));
    assert!(destination_allowed("/r/x/sub/f.webp", "/r/x"));
    assert!(!destination_allowed("r/x/f.webp", "/r/x"));
}

#[test]
fn clock_and_random_source_fallbacks() {
    assert_eq!(timestamp_from_seconds(None), 0);
    assert_eq!(timestamp_from_seconds(Some(1_700_000_000)), 1_700_000_000);
    assert_eq!(timestamp_from_seconds(Some(u64::MAX)), i64::MAX);
    match random_source_error() {
        AppError::Internal(m) => assert_eq!(m, "the system random source failed"),
        _ => panic!(),
    }
}
