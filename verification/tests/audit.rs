//! The log of file accesses.
use aishell::audit::{escape, record_file_io, show_log, LogEntry, LogRow};
use aishell::context::{ContextStore, Parameter};
use aishell::file_tools::{FileIoEvent, FileIoOperation, FileIoOutcome};

fn row(operation: &str, detail: &str) -> LogRow {
    LogRow {
        created_at: 9,
        request: "do it".into(),
        operation: operation.into(),
        path: Some("a".into()),
        offset: None,
        succeeded: true,
        detail: detail.into(),
    }
}

#[test]
fn control_characters_are_escaped() {
    assert_eq!(escape("plain text · é"), "plain text · é");
    assert_eq!(escape("a\x1b[31mb\n\u{9b}"), "a\\u{1B}[31mb\\u{A}\\u{9B}");
}

#[test]
fn logs_are_shown_entry_by_entry() {
    assert_eq!(
        show_log(&vec![], "directory /w"),
        "🧠 File I/O log · directory /w\n○ No file accesses yet.\n"
    );
    let read = LogEntry::from_row(LogRow { offset: Some("7".into()), ..row("read", "x\x07y") });
    let denied = LogEntry::from_row(LogRow {
        path: None,
        succeeded: false,
        ..row("write", "path cannot be empty")
    });
    let entries = vec![read.unwrap(), denied.unwrap()];
    let shown = show_log(&entries, "directory /w\x1b");
    assert_eq!(
        shown,
        "🧠 File I/O log · directory /w\\u{1B}\n\
         \n─ 1 · 9 · read · a · offset 7\n💬 You · do it\n✓ Content · x\\u{7}y\n\
         \n─ 2 · 9 · write · no path\n💬 You · do it\n✗ Denied · path cannot be empty\n"
    );
    assert!(shown.chars().all(|c| c == '\n' || !c.is_control()));
}

#[test]
fn unknown_operations_in_the_log_are_reported() {
    assert_eq!(
        LogEntry::from_row(row("remove", "")).unwrap_err().message(),
        "file I/O log contains an unknown operation \"remove\""
    );
}

#[test]
fn accesses_are_recorded_with_everything_known() {
    let store = ContextStore::of_scope("s".into(), "d".into(), "/".into(), 1);
    let event = FileIoEvent {
        operation: FileIoOperation::Write,
        path: None,
        offset: None,
        outcome: FileIoOutcome::Failed { reason: "denied".into() },
    };
    let statements = record_file_io(&store, "write it", &event);
    assert_eq!(statements.len(), 2);
    assert_eq!(
        statements[1].parameters,
        vec![
            Parameter::Text("s".into()),
            Parameter::Text("write it".into()),
            Parameter::Text("write".into()),
            Parameter::Null,
            Parameter::Null,
            Parameter::Integer(0),
            Parameter::Text("denied".into()),
        ]
    );
}
