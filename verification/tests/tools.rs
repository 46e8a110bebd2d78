use grok_tools::sessions::{
    ListSessionsTool, MessageSessionInput, MessageSessionStatus, MessageSessionTool,
    ReadSessionInput, ReadSessionTool, SessionBusResource,
};
use grok_tools::tool::{ToolErrorKind, ToolKind, ToolNamespace};
use grok_tools::view_image::{
    unsupported_image_error, FileEvent, ReadFailure, ReadFileOutput, ViewImageTool,
};
use grok_tools::virtual_tasks::{
    KillOutcome, TaskKind, TaskSnapshot, VirtualTaskTerminalBackend, WaitStart,
};
use grok_tools::x_search::{XSearchInput, XSearchTool};

#[test]
fn mod_tool_name_and_description() {
    let m = XSearchTool.metadata();
    assert_eq!(m.id, "x_search");
    assert!(m.description.contains("X (Twitter)"));
}

#[test]
fn tool_is_read_only_web_search_kind() {
    assert!(XSearchTool.metadata().read_only);
    assert_eq!(XSearchTool.metadata().kind, ToolKind::WebSearch);
}

#[test]
fn x_search_answers_with_what_was_found() {
    let input = XSearchInput { query: "q".into() };
    let out = XSearchTool.answer(&input, Ok(("text".into(), vec!["u".into()]))).unwrap();
    assert_eq!((out.query.as_str(), out.content.as_str()), ("q", "text"));
    assert_eq!(out.citations, vec!["u".to_string()]);
    assert!(out.allowed_domains.is_none() && out.pre_formatted.is_none());
    let err = XSearchTool.answer(&input, Err("down".into())).unwrap_err();
    assert_eq!(err.kind, ToolErrorKind::Execution);
    assert_eq!(err.message, "down");
}

#[test]
fn session_tool_ids_and_kind_are_stable() {
    for (id, actual) in [
        ("list_sessions", ListSessionsTool.metadata()),
        ("read_session", ReadSessionTool.metadata()),
        ("message_session", MessageSessionTool.metadata()),
    ] {
        assert_eq!(actual.id, id);
    }
    assert_eq!(MessageSessionTool.metadata().kind, ToolKind::AgentCollaboration);
}

#[test]
fn message_status_serializes_snake_case() {
    let out = MessageSessionTool.answer("s-1".into(), MessageSessionStatus::UnknownSession);
    assert_eq!(out.target_session_id, "s-1");
    assert_eq!(out.status.as_str(), "unknown_session");
    assert_eq!(MessageSessionStatus::Accepted.as_str(), "accepted");
    assert_eq!(MessageSessionStatus::Rejected.as_str(), "rejected");
}

#[test]
fn sessions_are_read_within_bounds() {
    let ask = |id: &str, n: Option<usize>, bus: bool| {
        ReadSessionTool.prepare(&ReadSessionInput { session_id: id.into(), max_updates: n }, bus)
    };
    assert_eq!(ask(" s ", None, true).unwrap(), ("s".to_string(), 30));
    assert_eq!(ask("s", Some(0), true).unwrap().1, 1);
    assert_eq!(ask("s", Some(999), true).unwrap().1, 200);
    assert_eq!(ask(" ", None, true).unwrap_err().message, "session_id must not be empty");
    assert_eq!(ask("s", None, false).unwrap_err().code, "missing_resource");
    assert!(ListSessionsTool.prepare(true).is_ok());
    assert_eq!(ListSessionsTool.prepare(false).unwrap_err().code, "missing_resource");
    let bus = SessionBusResource::new("me".into(), "proj".into());
    assert_eq!((bus.self_session_id(), bus.self_project()), ("me", "proj"));
}

#[test]
fn session_messages_are_trimmed_and_bounded() {
    let ask = |id: &str, text: &str, bus: bool| {
        MessageSessionTool.prepare(&MessageSessionInput { session_id: id.into(), message: text.into() }, bus)
    };
    assert_eq!(ask(" s ", " hi ", true).unwrap(), ("s".to_string(), "hi".to_string()));
    assert_eq!(ask("", "hi", true).unwrap_err().message, "session_id must not be empty");
    assert_eq!(ask("s", " ", true).unwrap_err().message, "message must not be empty");
    let long = "é".repeat(16_385);
    assert_eq!(ask("s", &long, true).unwrap_err().message, "message exceeds the 32768-byte limit");
    assert!(ask("s", &"é".repeat(16_384), true).is_ok());
    assert_eq!(ask("s", "hi", false).unwrap_err().code, "missing_resource");
}

#[test]
fn metadata_is_read_only_grok_build() {
    let m = ViewImageTool.metadata();
    assert_eq!(m.kind, ToolKind::Read);
    assert_eq!(m.namespace, ToolNamespace::GrokBuild);
    assert!(m.read_only);
}

#[test]
fn unsupported_image_error_reports_empty_file() {
    let msg = unsupported_image_error("/tmp/ob_list.png", b"", None);
    assert!(msg.contains("empty (0 bytes)"), "{msg}");
    assert!(msg.contains("/tmp/ob_list.png"), "{msg}");
}

#[test]
fn unsupported_image_error_reports_detected_type() {
    let pdf = b"%PDF-1.7 some bytes";
    let msg = unsupported_image_error("/tmp/doc.pdf", pdf, Some("application/pdf"));
    assert!(msg.contains("Detected type: application/pdf"), "{msg}");
    assert!(msg.contains(&format!("{} bytes", pdf.len())), "{msg}");
}

#[test]
fn unsupported_image_error_reports_unrecognized_contents() {
    let msg = unsupported_image_error("/tmp/note.txt", b"hello world", None);
    assert!(msg.contains("Unrecognized file contents (11 bytes)"), "{msg}");
}

#[test]
fn files_are_shown_or_refused() {
    let tool = ViewImageTool;
    let fail = |failure| FileEvent::Failed { failure, error: "io".into() };
    assert!(matches!(tool.answer(FileEvent::Ignored, "d", "p"), ReadFileOutput::FileReadError(t)
        if t == "Error: d is ignored by .gitignore and cannot be read."));
    assert!(matches!(tool.answer(fail(ReadFailure::NotFound), "d", "p"), ReadFileOutput::FileNotFound(t)
        if t == "Error: d does not exist."));
    assert!(matches!(tool.answer(fail(ReadFailure::IsADirectory), "d", "p"), ReadFileOutput::IsADirectory(t)
        if t == "Error: d is a directory, not a file."));
    assert!(matches!(tool.answer(fail(ReadFailure::PermissionDenied), "d", "p"), ReadFileOutput::PermissionDenied(t)
        if t == "Permission denied: d"));
    assert!(matches!(tool.answer(fail(ReadFailure::Other), "d", "p"), ReadFileOutput::FileReadError(t)
        if t == "Failed to read file: d, io"));
    let read = |mime: Option<&str>, is_image| FileEvent::Read {
        bytes: vec![1, 2],
        detected: mime.map(String::from),
        is_image,
    };
    match tool.answer(read(Some("image/png"), true), "d", "p") {
        ReadFileOutput::ImageContent { bytes, mime_type } => {
            assert_eq!(bytes, vec![1, 2]);
            assert_eq!(mime_type, "image/png");
        }
        other => panic!("{other:?}"),
    }
    assert!(matches!(tool.answer(read(Some("text/plain"), false), "d", "p"), ReadFileOutput::FileReadError(t)
        if t.contains("Error: p is not") && t.contains("text/plain (2 bytes)")));
    assert!(matches!(tool.answer(read(None, false), "d", "p"), ReadFileOutput::FileReadError(t)
        if t.contains("Unrecognized file contents (2 bytes)")));
}

fn snapshot(task_id: &str) -> TaskSnapshot {
    TaskSnapshot {
        task_id: task_id.to_string(),
        command: "workflow test".to_string(),
        display_command: None,
        cwd: "/tmp".to_string(),
        start_time: 1,
        end_time: None,
        output: String::new(),
        output_file: "/tmp/progress.log".to_string(),
        truncated: false,
        exit_code: None,
        signal: None,
        completed: false,
        kind: TaskKind::Bash,
        block_waited: false,
        explicitly_killed: false,
        owner_session_id: Some("session-1".to_string()),
    }
}

#[test]
fn virtual_task_round_trip_get_complete_wait() {
    let mut backend = VirtualTaskTerminalBackend::new();
    backend.register_virtual_task(snapshot("run-1"));
    assert!(!backend.tasks[0].cancelled);
    let running = backend.get_task("run-1").expect("visible");
    assert!(!running.completed);
    assert_eq!(backend.list_tasks(vec![]).len(), 1);
    let done = backend
        .complete_virtual_task("run-1", "final output".into(), Some(0), 9)
        .expect("completes");
    assert!(done.completed);
    assert_eq!(done.output, "final output");
    assert_eq!(done.exit_code, Some(0));
    assert_eq!(done.end_time, Some(9));
    assert!(!done.block_waited, "no waiter consumed it");
    match backend.begin_wait("run-1") {
        WaitStart::Ended(waited) => {
            assert!(waited.completed);
            assert!(waited.block_waited);
        }
        other => panic!("{other:?}"),
    }
}

#[test]
fn kill_fires_cancellation_and_reports_killed() {
    let mut backend = VirtualTaskTerminalBackend::new();
    backend.register_virtual_task(snapshot("run-2"));
    assert_eq!(backend.kill_task("run-2"), Some(KillOutcome::Killed));
    assert!(backend.tasks[0].cancelled);
    let done = backend.complete_virtual_task("run-2", "partial".into(), Some(130), 2).expect("completes");
    assert!(done.explicitly_killed);
    assert_eq!(backend.kill_task("run-2"), Some(KillOutcome::AlreadyExited));
}

#[test]
fn blocking_wait_wakes_on_completion() {
    let mut backend = VirtualTaskTerminalBackend::new();
    backend.register_virtual_task(snapshot("run-3"));
    assert!(matches!(backend.begin_wait("run-3"), WaitStart::Running));
    assert!(!backend.end_wait("run-3", true).unwrap().completed);
    backend.complete_virtual_task("run-3", "done".into(), Some(0), 3).expect("completes");
    let snapshot = backend.end_wait("run-3", false).expect("snapshot");
    assert!(snapshot.completed && snapshot.block_waited);
    assert_eq!(snapshot.output, "done");
}

#[test]
fn unknown_ids_delegate_to_inner() {
    let mut backend = VirtualTaskTerminalBackend::new();
    assert!(backend.get_task("nope").is_none());
    assert!(backend.kill_task("nope").is_none());
    assert!(backend.complete_virtual_task("nope", String::new(), None, 1).is_none());
    assert!(matches!(backend.begin_wait("nope"), WaitStart::Unknown));
    assert!(backend.end_wait("nope", false).is_none());
    assert_eq!(backend.list_tasks(vec![snapshot("inner")]).len(), 1);
}

#[test]
fn owner_scoped_kill_sweep_hits_virtual_tasks() {
    let mut backend = VirtualTaskTerminalBackend::new();
    backend.register_virtual_task(snapshot("run-4"));
    let mut other = snapshot("run-5");
    other.owner_session_id = None;
    backend.register_virtual_task(other);
    backend.kill_all_background_tasks_by_owner("session-1");
    assert!(backend.get_task("run-4").expect("visible").explicitly_killed);
    assert!(!backend.get_task("run-5").expect("visible").explicitly_killed);
    backend.kill_all_background_tasks();
    assert!(backend.get_task("run-5").expect("visible").explicitly_killed);
    backend.register_virtual_task(snapshot("run-5"));
    assert!(!backend.get_task("run-5").expect("replaced").explicitly_killed);
    assert_eq!(backend.tasks.len(), 2);
}
