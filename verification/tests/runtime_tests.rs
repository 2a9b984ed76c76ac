use std::collections::HashSet;

use novelgraph::domain::{LocalLlmDownloadState, LocalLlmModelSelection};
use novelgraph::local_runtime::{
    api_error_from_runtime, eq_ignore_ascii_case, failed_download_state, finished_download_state,
    is_download_busy, local_presets, preset_by_id, preset_entries, preset_id_for_file,
    queued_download_state, refresh_process_state, sort_models_by_display_name,
    LocalRuntimeError, ProcessPoll, ProcessStatus,
};

#[test]
fn preset_catalog_has_unique_ids_and_filenames() {
    let presets = local_presets();
    let ids = presets.iter().map(|preset| preset.id).collect::<HashSet<_>>();
    let filenames = presets.iter().map(|preset| preset.filename).collect::<HashSet<_>>();

    assert_eq!(ids.len(), presets.len());
    assert_eq!(filenames.len(), presets.len());
}

#[test]
fn runtime_errors_map_to_api_errors() {
    let cases = [
        (LocalRuntimeError::SelectionCancelled, 400, "invalid_request", "no model file was selected"),
        (
            LocalRuntimeError::UnknownPreset("x".to_string()),
            400,
            "invalid_request",
            "unknown model preset: x",
        ),
        (
            LocalRuntimeError::DownloadAlreadyRunning,
            409,
            "local_llm_download_busy",
            "another model download is already running",
        ),
        (
            LocalRuntimeError::StartFailed("boom".to_string()),
            424,
            "local_llm_runtime_unavailable",
            "failed to start llama-server: boom",
        ),
        (
            LocalRuntimeError::Io("disk full".to_string()),
            500,
            "local_llm_runtime_error",
            "disk full",
        ),
    ];
    for (error, status, code, message) in cases {
        let api = api_error_from_runtime(&error);
        assert_eq!(api.status, status);
        assert_eq!(api.code, code);
        assert_eq!(api.message, message);
    }
}

#[test]
fn finds_presets_by_id_and_file_name() {
    assert_eq!(preset_by_id("qwen2.5-1.5b-q4-k-m").unwrap().filename, "Qwen2.5-1.5B-Instruct-Q4_K_M.gguf");
    assert!(preset_by_id("missing").is_none());
    assert_eq!(
        preset_id_for_file("QWEN2.5-1.5B-INSTRUCT-Q4_K_M.GGUF"),
        Some("qwen2.5-1.5b-q4-k-m".to_string())
    );
    assert_eq!(preset_id_for_file("other.gguf"), None);
    assert!(eq_ignore_ascii_case("Ab", "aB"));
    assert!(!eq_ignore_ascii_case("Ab", "aBc"));
    assert!(!eq_ignore_ascii_case("Đ", "đ"));
}

fn download(status: &str) -> LocalLlmDownloadState {
    LocalLlmDownloadState {
        preset_id: "p".to_string(),
        preset_name: "P".to_string(),
        filename: "p.gguf".to_string(),
        target_path: "/m/p.gguf".to_string(),
        status: status.to_string(),
        bytes_downloaded: 42,
        total_bytes: Some(100),
        auto_activate: true,
        error_message: None,
    }
}

#[test]
fn download_records() {
    assert!(is_download_busy(&Some(download("queued"))));
    assert!(is_download_busy(&Some(download("downloading"))));
    assert!(!is_download_busy(&Some(download("failed"))));
    assert!(!is_download_busy(&None));

    let preset = local_presets()[0];
    let queued = queued_download_state(&preset, "/m/t.gguf");
    assert_eq!(queued.status, "queued");
    assert_eq!(queued.bytes_downloaded, 0);

    let done = finished_download_state(&preset, "/m/t.gguf", &Some(download("downloaded")), None);
    assert_eq!(done.status, "completed");
    assert_eq!(done.bytes_downloaded, 42);
    assert_eq!(done.total_bytes, Some(100));

    let partial = finished_download_state(&preset, "/m/t.gguf", &None, Some("bad".to_string()));
    assert_eq!(partial.status, "completed_with_error");
    assert_eq!(partial.bytes_downloaded, 0);

    let failed = failed_download_state(&preset, "/m/t.gguf", &Some(download("downloading")), "net".to_string());
    assert_eq!(failed.status, "failed");
    assert_eq!(failed.error_message, Some("net".to_string()));
}

fn model(name: &str, preset: Option<&str>, exists: bool) -> LocalLlmModelSelection {
    LocalLlmModelSelection {
        source_kind: "managed".to_string(),
        display_name: name.to_string(),
        path: format!("/m/{name}.gguf"),
        preset_id: preset.map(str::to_string),
        size_bytes: None,
        exists,
    }
}

#[test]
fn preset_entries_mark_installed_and_active() {
    let downloaded = vec![
        model("tiny", Some("tinyllama-1.1b-q4-k-m"), true),
        model("qwen", Some("qwen2.5-1.5b-q4-k-m"), false),
    ];
    let selected = Some(model("qwen", Some("qwen2.5-1.5b-q4-k-m"), false));
    let entries = preset_entries(&downloaded, &selected);
    assert_eq!(entries.len(), 3);
    assert!(entries[0].installed && !entries[0].active);
    assert!(!entries[1].installed && entries[1].active);
    assert!(!entries[2].installed && !entries[2].active);
}

#[test]
fn sorts_found_models_by_name() {
    let sorted = sort_models_by_display_name(vec![
        model("b", None, true),
        model("a2", None, true),
        model("a", None, true),
        model("B", None, true),
    ]);
    let names = sorted.iter().map(|m| m.display_name.as_str()).collect::<Vec<_>>();
    assert_eq!(names, vec!["B", "a", "a2", "b"]);
}

#[test]
fn process_poll_updates_status() {
    let mut status = ProcessStatus { server_running: true, server_pid: Some(7), last_error: None };
    assert!(!refresh_process_state(&mut status, ProcessPoll::Exited("exit status: 1".to_string())));
    assert!(!status.server_running);
    assert_eq!(status.last_error, Some("llama-server exited with status exit status: 1".to_string()));

    assert!(refresh_process_state(&mut status, ProcessPoll::Running(Some(9))));
    assert!(status.server_running);
    assert_eq!(status.server_pid, Some(9));

    assert!(!refresh_process_state(&mut status, ProcessPoll::NoProcess));
    assert_eq!(status.server_pid, None);
}
