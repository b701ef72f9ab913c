//! Private files.
use aishell::secure_fs::{
    atomic_write_file, atomic_write_private, create_private_file, ensure_private_directory,
    temporary_file_name, verify_private_file, DirectoryStep, FileTask, Metadata, Purpose,
    TaskEvent, TaskPhase,
};

fn missing() -> Metadata {
    Metadata::Missing("No such file or directory (os error 2)".into())
}

fn done() -> TaskEvent {
    TaskEvent::Done(Ok(()))
}

fn failed(reason: &str) -> TaskEvent {
    TaskEvent::Done(Err(reason.into()))
}

fn error_of(task: &FileTask) -> String {
    match task.phase() {
        TaskPhase::Finished(Some(error)) => error.message().to_owned(),
        _ => panic!("the task has not failed"),
    }
}

fn replacement() -> FileTask {
    atomic_write_private("/c/config.toml", Some("/c".into()), "/c/.tmp", "configuration").unwrap()
}

#[test]
fn private_files_give_nothing_to_others() {
    let path = "/c/config.toml";
    assert!(
        verify_private_file(path, "configuration", &Metadata::File { mode: Some(0o100600) }).is_ok()
    );
    assert!(verify_private_file(path, "configuration", &Metadata::File { mode: None }).is_ok());
    let readable = verify_private_file(
        path,
        "configuration",
        &Metadata::File { mode: Some(0o100640) },
    );
    assert_eq!(
        readable.unwrap_err().message(),
        "configuration /c/config.toml has insecure permissions 640; run `chmod 600 /c/config.toml`"
    );
    let executable = verify_private_file(
        path,
        "configuration",
        &Metadata::File { mode: Some(0o100001) },
    );
    assert!(executable.unwrap_err().message().contains("insecure permissions 001"));
}

#[test]
fn only_regular_files_are_private_files() {
    let path = "/c/config.toml";
    assert_eq!(
        verify_private_file(path, "configuration", &Metadata::Link).unwrap_err().message(),
        "refusing to read configuration through a link or reparse point at /c/config.toml"
    );
    assert_eq!(
        verify_private_file(path, "configuration", &Metadata::Directory).unwrap_err().message(),
        "configuration /c/config.toml is not a regular file"
    );
    assert!(verify_private_file(path, "configuration", &Metadata::Other).is_err());
    assert_eq!(
        verify_private_file(path, "configuration", &missing()).unwrap_err().message(),
        "could not inspect configuration at /c/config.toml: No such file or directory (os error 2)"
    );
    assert!(verify_private_file(path, "configuration", &Metadata::Unknown("x".into())).is_err());
}

#[test]
fn private_directories_are_created_or_secured() {
    assert_eq!(ensure_private_directory("/c", &missing()).unwrap(), DirectoryStep::Create);
    assert_eq!(
        ensure_private_directory("/c", &Metadata::Directory).unwrap(),
        DirectoryStep::Secure
    );
    assert_eq!(
        ensure_private_directory("/c", &Metadata::Link).unwrap_err().message(),
        "/c is not a private directory"
    );
    assert!(ensure_private_directory("/c", &Metadata::File { mode: None }).is_err());
    assert_eq!(
        ensure_private_directory("/c", &Metadata::Unknown("denied".into())).unwrap_err().message(),
        "could not inspect /c: denied"
    );
}

#[test]
fn temporary_files_are_hidden_and_unique() {
    assert_eq!(
        temporary_file_name(&Some("config.toml".into()), 42, 1_700_000_000_000_000_000_000),
        ".config.toml.42.1700000000000000000000.tmp"
    );
    assert_eq!(temporary_file_name(&None, 7, 0), ".private-file.7.0.tmp");
}

#[test]
fn a_new_private_file_is_written_in_order() {
    let mut task = replacement();
    assert_eq!(task.purpose(), Purpose::ReplacePrivate);
    for (phase, event) in [
        (TaskPhase::InspectDirectory, TaskEvent::Found(missing())),
        (TaskPhase::CreateDirectory, done()),
        (TaskPhase::SecureDirectory, done()),
        (TaskPhase::InspectFile, TaskEvent::Found(missing())),
        (TaskPhase::CreateTemporary, done()),
        (TaskPhase::WriteTemporary, done()),
        (TaskPhase::FlushTemporary, done()),
        (TaskPhase::Replace, done()),
        (TaskPhase::FlushDirectory, done()),
    ] {
        assert_eq!(*task.phase(), phase);
        task = task.step(event);
    }
    assert_eq!(*task.phase(), TaskPhase::Finished(None));
}

#[test]
fn an_insecure_file_is_not_replaced() {
    let task = replacement()
        .step(TaskEvent::Found(Metadata::Directory))
        .step(done())
        .step(TaskEvent::Found(Metadata::File { mode: Some(0o644) }));
    assert!(error_of(&task).contains("insecure permissions 644"));
    let link = replacement()
        .step(TaskEvent::Found(Metadata::Directory))
        .step(done())
        .step(TaskEvent::Found(Metadata::Link));
    assert!(error_of(&link).contains("through a link"));
}

#[test]
fn failures_remove_the_temporary_file_and_are_reported() {
    for (steps, expected) in [
        (0, "could not create temporary file at /c/.tmp: disk full"),
        (1, "could not write temporary file: disk full"),
        (2, "could not flush temporary file: disk full"),
        (3, "could not replace configuration at /c/config.toml: disk full"),
        (4, "could not flush /c: disk full"),
    ] {
        let mut task = replacement()
            .step(TaskEvent::Found(Metadata::Directory))
            .step(done())
            .step(TaskEvent::Found(Metadata::File { mode: Some(0o600) }));
        for _ in 0..steps {
            task = task.step(done());
        }
        task = task.step(failed("disk full"));
        assert!(matches!(task.phase(), TaskPhase::RemoveTemporary(_)));
        task = task.step(failed("already gone"));
        assert_eq!(error_of(&task), expected);
    }
}

#[test]
fn directories_that_cannot_be_prepared_are_reported() {
    let created = replacement().step(TaskEvent::Found(missing())).step(failed("denied"));
    assert_eq!(error_of(&created), "could not create /c: denied");
    let secured = replacement().step(TaskEvent::Found(Metadata::Directory)).step(failed("denied"));
    assert_eq!(error_of(&secured), "could not secure /c: denied");
}

#[test]
fn private_files_are_created_where_there_are_none() {
    let begin = || create_private_file("/s/history", Some("/s".into()), "context database").unwrap();
    let created = begin()
        .step(TaskEvent::Found(Metadata::Directory))
        .step(done())
        .step(TaskEvent::Found(missing()));
    assert_eq!(*created.phase(), TaskPhase::CreateFile);
    assert_eq!(*created.step(done()).phase(), TaskPhase::Finished(None));
    let kept = begin()
        .step(TaskEvent::Found(Metadata::Directory))
        .step(done())
        .step(TaskEvent::Found(Metadata::File { mode: Some(0o600) }));
    assert_eq!(*kept.phase(), TaskPhase::Finished(None));
    let refused = begin()
        .step(TaskEvent::Found(Metadata::Directory))
        .step(done())
        .step(TaskEvent::Found(missing()))
        .step(failed("exists"));
    assert_eq!(
        error_of(&refused),
        "could not create context database at /s/history: exists"
    );
    assert_eq!(
        create_private_file("history", None, "context database").unwrap_err().message(),
        "the private file path has no parent directory"
    );
}

#[test]
fn other_files_are_replaced_without_securing_their_directory() {
    let task = atomic_write_file("/w/a", Some("/w".into()), "/w/.a.tmp", "workspace file").unwrap();
    assert_eq!(*task.phase(), TaskPhase::CreateTemporary);
    assert_eq!(task.purpose(), Purpose::Replace);
}

#[test]
fn events_that_were_not_asked_for_change_nothing() {
    let task = replacement();
    assert_eq!(*task.step(done()).phase(), TaskPhase::InspectDirectory);
}
