use grok_tools::context::history::{HistoryItem, WindowFile};
use grok_tools::context::notes::{note_key, Note};
use grok_tools::context::reply::{ContextInput, ContextReply, FileRow, NotesFile};
use grok_tools::context::store::{ContextManagementStore, Manifest, SnapshotStep};
use grok_tools::context::tools::{
    tool_configs, tool_names, ContextTool, EmptyInput, ReadItemInput, ReadNoteInput, SearchInput,
    SearchNotesInput, WriteNoteInput,
};
use std::collections::HashMap;

/// The files of a store, in memory.
#[derive(Default)]
struct Disk {
    windows: HashMap<String, Vec<HistoryItem>>,
    notes: Vec<Note>,
}

impl Disk {
    fn file(&self, id: &str) -> WindowFile {
        match self.windows.get(id) {
            Some(items) => WindowFile::Items(items.clone()),
            None => WindowFile::Missing,
        }
    }

    fn operate(
        &mut self,
        store: &mut ContextManagementStore,
        operation: &str,
        input: &ContextInput,
    ) -> Result<ContextReply, String> {
        let files = store.manifest.windows.iter().map(|id| self.file(id)).collect();
        let step = store.operate(operation, input, &files, NotesFile::Notes(self.notes.clone()));
        if let Some(notes) = step.saved {
            self.notes = notes;
        }
        step.reply
    }

    fn snapshot(&mut self, store: &mut ContextManagementStore, items: &[HistoryItem]) -> Result<(), String> {
        let previous = self.file(&store.window_id());
        match store.snapshot(items, &previous)? {
            SnapshotStep::Unchanged => {}
            SnapshotStep::Write { .. } => {
                self.windows.insert(store.window_id(), items.to_vec());
            }
            SnapshotStep::Rotate { next, .. } => {
                store.adopt(next);
                self.windows.insert(store.window_id(), items.to_vec());
            }
        }
        Ok(())
    }
}

fn item(role: &str, content: &str) -> HistoryItem {
    HistoryItem { role: role.into(), content: content.into(), tool_name: None }
}

fn write(path: &str, text: &str) -> ContextInput {
    WriteNoteInput { path: path.into(), text: text.into() }.into_context()
}

fn read(path: &str) -> ContextInput {
    ContextInput { path: Some(path.into()), ..Default::default() }
}

fn copy(m: &Manifest) -> Manifest {
    Manifest { current: m.current.clone(), windows: m.windows.clone() }
}

fn enabled() -> ContextManagementStore {
    let mut store = ContextManagementStore::open(None).unwrap();
    store.set_enabled(true);
    store
}

fn note_text(reply: ContextReply) -> String {
    match reply {
        ContextReply::Text { text, .. } => text,
        other => panic!("expected a text, got {other:?}"),
    }
}

#[test]
fn context_tools_are_registered_with_bounded_operation_schemas() {
    let names = tool_names();
    let configs = tool_configs();
    assert_eq!(configs.len(), 11);
    for (config, name) in configs.iter().zip(names.iter()) {
        assert_eq!(config.id, *name);
        assert!(config.read_only);
    }
    assert_eq!(names[0], "new_context");
    assert_eq!(names[10], "notes_write_file");
}

#[test]
fn note_tool_dispatch_requires_live_resource_and_keeps_values_private() {
    let mut disk = Disk::default();
    let mut store = enabled();
    disk.operate(&mut store, ContextTool::NotesWrite.name(), &write("checkpoint", "saved task")).unwrap();
    assert!(disk.operate(&mut store, ContextTool::NotesReadFile.name(), &read("checkpoint")).is_ok());
    store.hide_call("note-read");
    store.set_enabled(false);
    assert!(store.call_is_hidden("note-read"));
    assert!(!store.call_is_hidden("other"));
    let refused = disk.operate(&mut store, "notes_read_file", &read("checkpoint"));
    assert!(refused.is_err());
    let err = ContextTool::NotesReadFile.answer(Some(refused)).unwrap_err();
    assert_eq!(err.code, "context_management");
    let err = ContextTool::NotesReadFile.answer(None).unwrap_err();
    assert_eq!(err.code, "unavailable");
}

#[test]
fn history_and_notes_survive_rotation_resume_and_divergence() {
    let mut disk = Disk::default();
    let mut store = enabled();
    let first = store.window_id();
    let items = vec![item("user", "Preserve my original task")];
    disk.snapshot(&mut store, &items).unwrap();
    disk.operate(&mut store, "notes_write_file", &write("checkpoint", "Working on original task")).unwrap();
    disk.operate(&mut store, "new_context", &EmptyInput {}.into_context()).unwrap();
    assert!(store.pending());
    let next = store.rotate().unwrap();
    store.adopt(next);
    assert!(!store.pending());
    assert_ne!(store.window_id(), first);

    let mut resumed = ContextManagementStore::open(Some(copy(&store.manifest))).unwrap();
    resumed.set_enabled(true);
    let search = ContextInput { query: Some("original".into()), ..Default::default() };
    match disk.operate(&mut resumed, "history_search_contents", &search).unwrap() {
        ContextReply::Items { rows, truncated } => {
            assert_eq!(rows[0].window_id, first);
            assert_eq!(rows[0].item_id, format!("{first}:0"));
            assert!(!truncated);
        }
        other => panic!("{other:?}"),
    }
    let note = disk.operate(&mut resumed, "notes_read_file", &read("checkpoint")).unwrap();
    assert_eq!(note_text(note), "Working on original task");
    disk.snapshot(&mut resumed, &items).unwrap();
    let before = resumed.window_id();
    disk.snapshot(&mut resumed, &[]).unwrap();
    assert_ne!(resumed.window_id(), before);
    assert!(disk.windows.contains_key(&first));
}

#[test]
fn context_tools_fail_closed_and_virtual_paths_cannot_escape() {
    let mut disk = Disk::default();
    let mut store = ContextManagementStore::open(None).unwrap();
    assert!(disk.operate(&mut store, "new_context", &ContextInput::default()).is_err());
    store.set_enabled(true);
    let generation = store.generation();
    let window = store.window_id();
    store.begin_turn();
    assert!(store.snapshot_for_generation(generation, &[], &WindowFile::Missing).is_err());
    assert!(store.rotate_for_generation(generation).is_err());
    assert_eq!(store.window_id(), window);
    for path in ["../secret", "a/../../secret", "C:\\secret", "/etc/passwd", "a//b", ""] {
        assert!(disk.operate(&mut store, "notes_write_file", &write(path, "test")).is_err());
    }
    disk.operate(&mut store, "new_context", &ContextInput::default()).unwrap();
    store.set_enabled(false);
    assert!(!store.pending());
    assert!(disk.operate(&mut store, "notes_list_files_by_prefix", &ContextInput::default()).is_err());
}

#[test]
fn stores_open_only_with_good_manifests() {
    let fresh = ContextManagementStore::open(None).unwrap();
    assert_eq!(fresh.manifest.windows.len(), 1);
    assert!(fresh.window_path(&fresh.window_id()).unwrap().starts_with("windows/"));
    assert_eq!(fresh.window_path("x").unwrap_err(), "Unknown context window");
    let bad = Manifest { current: "a".into(), windows: vec!["a".into()] };
    assert_eq!(ContextManagementStore::open(Some(bad)).unwrap_err(), "Invalid context window manifest");
    let id = fresh.window_id();
    let stray = Manifest { current: "other".into(), windows: vec![id] };
    assert!(ContextManagementStore::open(Some(stray)).is_err());
}

#[test]
fn reminders_are_claimed_once_for_each_window() {
    let mut store = enabled();
    assert!(store.claim_reminder());
    assert!(!store.claim_reminder());
    assert!(store.claim_fallback());
    assert!(!store.claim_fallback());
    let next = store.rotate().unwrap();
    store.adopt(next);
    assert!(store.claim_reminder());
    assert!(store.claim_fallback());
    store.set_remaining(77);
    assert_eq!(store.remaining(), 77);
    store.cancel_pending();
    assert!(!store.pending() && store.enabled());
}

#[test]
fn snapshots_extend_a_window_or_start_another() {
    let mut disk = Disk::default();
    let mut store = enabled();
    disk.snapshot(&mut store, &[item("user", "a")]).unwrap();
    let id = store.window_id();
    disk.snapshot(&mut store, &[item("user", "a"), item("assistant", "b")]).unwrap();
    assert_eq!(store.window_id(), id);
    assert_eq!(disk.windows[&id].len(), 2);
    let same = store.snapshot(&disk.windows[&id].clone(), &disk.file(&id)).unwrap();
    assert!(matches!(same, SnapshotStep::Unchanged));
    disk.snapshot(&mut store, &[item("user", "other")]).unwrap();
    assert_ne!(store.window_id(), id);
    assert_eq!(disk.windows[&id].len(), 2);
    let broken = store.snapshot(&[], &WindowFile::Broken("cut".into())).unwrap_err();
    assert_eq!(broken, "cut");
}

#[test]
fn notes_are_appended_read_by_line_and_listed() {
    let mut disk = Disk::default();
    let mut store = enabled();
    disk.operate(&mut store, "notes_write_file", &write("/root/notes/b", "one\ntwo\nthree")).unwrap();
    disk.operate(&mut store, "notes_append_to_file", &write("b", "\nfour")).unwrap();
    disk.operate(&mut store, "notes_append_to_file", &write("a", "first")).unwrap();
    assert_eq!(disk.notes.iter().map(|n| n.path.as_str()).collect::<Vec<_>>(), ["a", "b"]);
    let mut ask = |start: Option<i64>, stop: Option<i64>| {
        let input = ReadNoteInput {
            path: "b".into(),
            start_line: start,
            stop_line: stop,
            offset_chars: None,
            limit_chars: None,
        };
        match disk.operate(&mut store, "notes_read_file", &input.into_context()).unwrap() {
            ContextReply::Text { text, start_line, total_lines, .. } => (text, start_line, total_lines),
            other => panic!("{other:?}"),
        }
    };
    assert_eq!(ask(None, None), ("one\ntwo\nthree\nfour".to_string(), 1, 4));
    assert_eq!(ask(Some(2), Some(3)), ("two\nthree".to_string(), 2, 4));
    assert_eq!(ask(Some(-2), None), ("three\nfour".to_string(), 3, 4));
    assert_eq!(ask(Some(1), Some(-4)), ("one".to_string(), 1, 4));
    assert_eq!(ask(Some(3), Some(1)), ("".to_string(), 3, 4));
    assert_eq!(ask(Some(0), None), ("".to_string(), 5, 4));
    let list = ContextInput { prefix: Some("/root/notes/".into()), ..Default::default() };
    match disk.operate(&mut store, "notes_list_files_by_prefix", &list).unwrap() {
        ContextReply::Files { rows, .. } => {
            assert_eq!(rows, vec![
                FileRow::Listed { path: "a".into(), bytes: 5 },
                FileRow::Listed { path: "b".into(), bytes: 18 },
            ]);
        }
        other => panic!("{other:?}"),
    }
    let search = SearchNotesInput {
        query: "t".into(),
        path_prefix: None,
        max_files: None,
        max_matches_per_file: Some(1),
    };
    match disk.operate(&mut store, "notes_search_contents", &search.into_context()).unwrap() {
        ContextReply::Files { rows, .. } => match &rows[1] {
            FileRow::Matched { path, matches } => {
                assert_eq!(path, "b");
                assert_eq!(matches.len(), 1);
                assert_eq!((matches[0].line, matches[0].text.as_str()), (2, "two"));
            }
            other => panic!("{other:?}"),
        },
        other => panic!("{other:?}"),
    }
    let digest = store.note_digest(&NotesFile::Notes(disk.notes.clone())).unwrap();
    assert_eq!(digest, "\n[a]\nfirst\n\n[b]\none\ntwo\nthree\nfour\n");
}

#[test]
fn notes_are_bounded() {
    let mut disk = Disk::default();
    let mut store = enabled();
    let big = "x".repeat(1_000_001);
    let err = disk.operate(&mut store, "notes_write_file", &write("big", &big)).unwrap_err();
    assert_eq!(err, "Notes are limited to 1000000 UTF-8 bytes per file");
    let full = "y".repeat(1_000_000);
    for i in 0..16 {
        disk.operate(&mut store, "notes_write_file", &write(&format!("n{i}"), &full)).unwrap();
    }
    let err = disk.operate(&mut store, "notes_write_file", &write("last", "z")).unwrap_err();
    assert_eq!(err, "Session notes exceed 16000000 bytes");
    assert_eq!(disk.notes.len(), 16);
    let digest = store.note_digest(&NotesFile::Notes(disk.notes.clone())).unwrap();
    assert_eq!(digest.chars().count(), 16_000);
}

#[test]
fn missing_arguments_and_unknown_operations_are_refused() {
    let mut disk = Disk::default();
    let mut store = enabled();
    let none = ContextInput::default();
    let mut fail = |op: &str, input: &ContextInput| disk.operate(&mut store, op, input).unwrap_err();
    assert_eq!(fail("notes_write_file", &none), "path is required");
    assert_eq!(fail("notes_write_file", &read("a")), "text is required");
    assert_eq!(fail("notes_read_file", &none), "path is required");
    assert_eq!(fail("notes_read_file", &read("a")), "Note not found");
    assert_eq!(fail("notes_drop", &none), "Unknown notes operation");
    assert_eq!(fail("drop", &none), "Unknown context operation");
    let other = ContextInput { agent_name: Some("/root/x".into()), ..Default::default() };
    assert_eq!(fail("new_context", &other), "History and notes are local to this session");
    let err = store.operate("notes_read_file", &read("a"), &vec![WindowFile::Missing], NotesFile::Broken("io".into()));
    assert_eq!(err.reply.unwrap_err(), "io");
    assert_eq!(store.note_digest(&NotesFile::Broken("io".into())).unwrap_err(), "io");
}

#[test]
fn history_is_told_recent_first_within_limits() {
    let mut disk = Disk::default();
    let mut store = enabled();
    let tool = HistoryItem { role: "tool".into(), content: "out".into(), tool_name: Some("read".into()) };
    disk.snapshot(&mut store, &[item("user", "abcdef"), tool, item("user", "xyz")]).unwrap();
    let window = store.window_id();
    let mut rows = |op: &str, input: ContextInput| match disk.operate(&mut store, op, &input).unwrap() {
        ContextReply::Items { rows, .. } => rows,
        ContextReply::NoItems => vec![],
        other => panic!("{other:?}"),
    };
    let all = rows("history_list_items", ContextInput::default());
    assert_eq!(all.iter().map(|r| r.content.as_str()).collect::<Vec<_>>(), ["xyz", "out", "abcdef"]);
    let old = ContextInput { recent_first: Some(false), limit: Some(1), ..Default::default() };
    assert_eq!(rows("history_list_items", old)[0].content, "abcdef");
    let part = ReadItemInput {
        window_id: window.clone(),
        item_id: format!("{window}:0"),
        offset_chars: Some(2),
        limit_chars: Some(3),
    };
    assert_eq!(rows("history_read_item", part.into_context())[0].content, "cde");
    let named = ContextInput { tool_name: Some("read".into()), ..Default::default() };
    assert_eq!(rows("history_list_items", named).len(), 1);
    let found = SearchInput {
        query: "y".into(),
        window_id: None,
        role: Some("user".into()),
        tool_name: None,
        limit: None,
        recent_first: None,
        max_chars_per_item: None,
    };
    assert_eq!(rows("history_search_contents", found.into_context()).len(), 1);
    let stray = ContextInput { window_id: Some("nope".into()), ..Default::default() };
    assert!(rows("history_list_items", stray).is_empty());
    match disk.operate(&mut store, "history_list_windows", &ContextInput::default()).unwrap() {
        ContextReply::Windows(list) => {
            assert_eq!(list.len(), 1);
            assert_eq!(list[0].item_count, 3);
            assert!(list[0].current);
        }
        other => panic!("{other:?}"),
    }
}

#[test]
fn large_answers_are_truncated() {
    let mut disk = Disk::default();
    let mut store = enabled();
    let items: Vec<HistoryItem> = (0..20).map(|i| item("user", &format!("{i}{}", "q".repeat(9_000)))).collect();
    disk.snapshot(&mut store, &items).unwrap();
    let ask = ContextInput { limit_chars: Some(8_000), ..Default::default() };
    match disk.operate(&mut store, "history_list_items", &ask).unwrap() {
        ContextReply::Items { rows, truncated } => {
            assert!(truncated);
            assert_eq!(rows.len(), 7);
        }
        other => panic!("{other:?}"),
    }
}

#[test]
fn unreadable_windows_stop_a_search_only_when_reached() {
    let mut store = enabled();
    let next = store.rotate().unwrap();
    store.adopt(next);
    let files = vec![WindowFile::Broken("bad file".into()), WindowFile::Items(vec![item("user", "a")])];
    let one = ContextInput { limit: Some(1), ..Default::default() };
    let step = store.operate("history_list_items", &one, &files, NotesFile::Notes(vec![]));
    assert!(matches!(step.reply, Ok(ContextReply::Items { .. })));
    let all = ContextInput::default();
    let step = store.operate("history_list_items", &all, &files, NotesFile::Notes(vec![]));
    assert_eq!(step.reply.unwrap_err(), "bad file");
    let step = store.operate("history_list_windows", &all, &files, NotesFile::Notes(vec![]));
    match step.reply.unwrap() {
        ContextReply::Windows(rows) => assert_eq!(rows[1].item_count, 0),
        other => panic!("{other:?}"),
    }
}

#[test]
fn answers_are_printed_as_json() {
    let read = |r: ContextReply| serde_json::from_str::<serde_json::Value>(&r.to_json().text).unwrap();
    let v = read(ContextReply::Accepted);
    assert_eq!(v["accepted"], true);
    assert_eq!(v["starts_after_current_tool_batch"], true);
    assert_eq!(read(ContextReply::Remaining(5))["tokens_left"], 5);
    assert_eq!(read(ContextReply::NoItems)["items"].as_array().unwrap().len(), 0);
    let v = read(ContextReply::Saved { path: "a\"b".into() });
    assert_eq!(v["path"], "a\"b");
    let v = read(ContextReply::Text { path: "p".into(), text: "é".into(), start_line: 2, total_lines: 9 });
    assert_eq!(v["text"], "é");
    assert_eq!(v["start_line"], 2);
    assert_eq!(v["total_lines"], 9);
    let v = read(ContextReply::Files { rows: vec![FileRow::Listed { path: "p".into(), bytes: 3 }], truncated: true });
    assert_eq!(v["files"][0]["bytes"], 3);
    assert_eq!(v["truncated"], true);
}

#[test]
fn note_paths_are_relative_and_plain() {
    assert_eq!(note_key("/root/notes/a/b.md").unwrap(), "a/b.md");
    assert_eq!(note_key("a").unwrap(), "a");
    assert!(note_key("a\u{7}b").is_err());
    assert!(note_key("./a").is_err());
    assert!(note_key(&"x".repeat(513)).is_err());
    assert!(note_key(&"x".repeat(512)).is_ok());
}

#[test]
fn a_new_window_has_the_id_that_was_drawn() {
    let store = ContextManagementStore::open(None).unwrap();
    let first = store.window_id();
    let id = "67e55044-10b1-426f-9247-bb680e5fe0c8".to_string();
    let next = store.rotated_to(id.clone());
    assert_eq!(next.current, id);
    assert_eq!(next.windows, vec![first.clone(), id]);
    assert_ne!(store.rotate().unwrap().current, first);
    let id = "67e55044-10b1-426f-9247-bb680e5fe0c8".to_string();
    let archived = WindowFile::Items(vec![item("user", "a")]);
    match store.snapshot_to(store.generation(), &[item("user", "b")], &archived, id.clone()) {
        Ok(SnapshotStep::Rotate { next, path }) => {
            assert_eq!(next.current, id);
            assert_eq!(path, format!("windows/{id}.json"));
        }
        other => panic!("{other:?}"),
    }
    let fresh = Manifest::starting(id.clone());
    assert_eq!((fresh.current, fresh.windows), (id.clone(), vec![id]));
}
