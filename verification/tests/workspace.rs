//! The file tools of a model, on a small file system in memory.
use aishell::file_tools::{
    default_read_bytes, failed_event, operation_of_tool, record_failure, validate_relative_path,
    FileIoEvent, FileIoOperation, FileIoOutcome, FileToolExecution, ReadFileArguments,
    WriteFileArguments,
};
use aishell::paths::Platform;
use aishell::workspace::{
    Begun, Entry, FileCall, FileEvent, OpenedFile, ParsedArguments, Phase, ReadBytes, RootFacts,
    ToolRun, WorkspaceFiles,
};
use serde_json::Value;

#[derive(Clone)]
enum Node {
    File(Vec<u8>),
    Directory,
    Link(Vec<&'static str>),
}

struct Disk {
    nodes: Vec<(Vec<String>, Node)>,
    written: Vec<(String, bool)>,
}

fn path(text: &str) -> Vec<String> {
    text.split('/').filter(|part| !part.is_empty()).map(str::to_owned).collect()
}

fn root() -> Vec<String> {
    path("tmp/work")
}

fn bytes(path: &[String]) -> Vec<Vec<u8>> {
    path.iter().map(|part| part.clone().into_bytes()).collect()
}

fn texts(path: &[Vec<u8>]) -> Vec<String> {
    path.iter().map(|part| String::from_utf8(part.clone()).unwrap()).collect()
}

impl Disk {
    fn new() -> Disk {
        let nodes = vec![
            (path("tmp"), Node::Directory),
            (path("tmp/work"), Node::Directory),
            (path("tmp/workshop"), Node::Directory),
            (path("outside"), Node::Directory),
            (path("outside/secret"), Node::File(b"secret".to_vec())),
        ];
        Disk { nodes, written: Vec::new() }
    }

    fn add(&mut self, name: &str, node: Node) {
        let mut full = root();
        full.extend(path(name));
        self.nodes.push((full, node));
    }

    fn get(&self, full: &[String]) -> Option<Node> {
        self.nodes.iter().find(|(name, _)| name == full).map(|(_, node)| node.clone())
    }

    fn resolve(&self, full: &[String]) -> Option<Vec<String>> {
        for n in 1..=full.len() {
            if let Some(Node::Link(target)) = self.get(&full[..n]) {
                let mut next: Vec<String> = target.iter().map(|part| (*part).to_owned()).collect();
                next.extend_from_slice(&full[n..]);
                return self.resolve(&next);
            }
        }
        self.get(full).map(|_| full.to_vec())
    }

    fn entry(&self, full: &[String]) -> Entry {
        match self.get(full) {
            None => Entry::Missing,
            Some(Node::Link(_)) => Entry::Link,
            Some(Node::File(_)) => Entry::File,
            Some(Node::Directory) => Entry::Other,
        }
    }

    fn content(&self, full: &[String]) -> Vec<u8> {
        match self.get(full) {
            Some(Node::File(content)) => content,
            _ => Vec::new(),
        }
    }

    fn carry_out(&mut self, run: &ToolRun, opened: &mut Vec<String>) -> FileEvent {
        let mut full = root();
        full.extend_from_slice(run.relative());
        let resolved = |found: Option<Vec<String>>| {
            FileEvent::Resolved(found.map(|found| bytes(&found)).ok_or("not found".to_owned()))
        };
        match run.phase() {
            Phase::Checking { next } => FileEvent::Inspected(self.entry(&full[..root().len() + next + 1])),
            Phase::Resolving => resolved(self.resolve(&full)),
            Phase::Opening { path } => {
                *opened = texts(path);
                let is_file = matches!(self.get(opened), Some(Node::File(_)));
                let length = self.content(opened).len() as u64;
                FileEvent::Opened(OpenedFile::Opened { is_file, length })
            }
            Phase::Reading { .. } => {
                let FileCall::Read { offset, max_bytes } = run.call() else {
                    panic!("a write is not read");
                };
                let content = self.content(opened);
                let start = *offset as usize;
                let end = content.len().min(start + max_bytes);
                FileEvent::Read(ReadBytes::Bytes(content[start..end].to_vec()))
            }
            Phase::InspectingTarget => FileEvent::Inspected(self.entry(&full)),
            Phase::ResolvingTarget { .. } => resolved(self.resolve(&full)),
            Phase::ResolvingParent => resolved(self.resolve(&full[..full.len() - 1])),
            Phase::Writing { target, modify } => {
                let FileCall::Write { content } = run.call() else {
                    panic!("a read is not written");
                };
                let target = texts(target);
                self.nodes.retain(|(name, _)| *name != target);
                self.nodes.push((target.clone(), Node::File(content.clone().into_bytes())));
                self.written.push((target.join("/"), *modify));
                FileEvent::Wrote(Ok(()))
            }
            Phase::Finished(_) => panic!("nothing is left to be done"),
        }
    }
}

fn files() -> WorkspaceFiles {
    let facts = RootFacts {
        path: bytes(&root()),
        shown: "/tmp/work".into(),
        has_parent: true,
        is_directory: true,
    };
    WorkspaceFiles::new("/tmp/work", Some(facts), Platform::Unix).unwrap()
}

fn parse_read(arguments: &str) -> Result<ReadFileArguments, String> {
    let value = serde_json::from_str::<Value>(arguments).map_err(|error| error.to_string())?;
    Ok(ReadFileArguments {
        path: value["path"].as_str().ok_or("path must be a string")?.to_owned(),
        offset: value["offset"].as_u64().unwrap_or(0),
        max_bytes: value["max_bytes"].as_u64().map_or(default_read_bytes(), |n| n as usize),
    })
}

fn parse_write(arguments: &str) -> Result<WriteFileArguments, String> {
    let value = serde_json::from_str::<Value>(arguments).map_err(|error| error.to_string())?;
    Ok(WriteFileArguments {
        path: value["path"].as_str().ok_or("path must be a string")?.to_owned(),
        content: value["content"].as_str().ok_or("content must be a string")?.to_owned(),
    })
}

fn execute(disk: &mut Disk, name: &str, arguments: &str) -> FileToolExecution {
    let parsed = match operation_of_tool(name) {
        Some(FileIoOperation::Read) => ParsedArguments::Read(parse_read(arguments)),
        Some(_) => ParsedArguments::Write(parse_write(arguments)),
        None => ParsedArguments::Unknown,
    };
    let mut opened = Vec::new();
    let files = files();
    let begun = files.execute(name, arguments.to_owned(), parsed);
    match begun {
        Begun::Refused(execution) => execution,
        Begun::Running(mut run) => {
            for _ in 0..100 {
                if let Phase::Finished(execution) = run.phase() {
                    return execution.clone();
                }
                let event = disk.carry_out(&run, &mut opened);
                run.step(event);
            }
            panic!("the call does not end");
        }
    }
}

fn result(execution: &FileToolExecution) -> Value {
    serde_json::from_str(&execution.response).unwrap()
}

fn reason(execution: FileToolExecution) -> String {
    match execution.audit.unwrap().outcome {
        FileIoOutcome::Failed { reason } => reason,
        FileIoOutcome::Succeeded { .. } => panic!("the call succeeded"),
    }
}

#[test]
fn reads_bounded_utf8_chunks() {
    let mut disk = Disk::new();
    disk.add("script.sh", Node::File("echo café\necho done\n".into()));

    let first_execution =
        execute(&mut disk, "read_file", r#"{"path":"script.sh","max_bytes":9}"#);
    let first = result(&first_execution);
    assert_eq!(first["ok"], true);
    assert_eq!(first["content"], "echo caf");
    assert_eq!(first["next_offset"], 8);
    assert_eq!(first["eof"], false);
    assert_eq!(first_execution.audit.unwrap().operation, FileIoOperation::Read);

    let second_execution = execute(
        &mut disk,
        "read_file",
        r#"{"path":"script.sh","offset":8,"max_bytes":32}"#,
    );
    let second = result(&second_execution);
    assert_eq!(second["content"], "é\necho done\n");
    assert_eq!(second["eof"], true);
    assert_eq!(second_execution.audit.unwrap().offset, Some(8));
}

#[test]
fn answers_to_reads_are_exact() {
    let mut disk = Disk::new();
    disk.add("a\"b", Node::File(b"x\ty".to_vec()));
    let execution = execute(&mut disk, "read_file", r#"{"path":"./a\"b"}"#);
    assert_eq!(
        execution.response,
        r#"{"content":"x\ty","eof":true,"next_offset":3,"offset":0,"ok":true,"path":"a\"b"}"#
    );
    assert_eq!(
        execution.audit.unwrap(),
        FileIoEvent {
            operation: FileIoOperation::Read,
            path: Some("a\"b".into()),
            offset: Some(0),
            outcome: FileIoOutcome::Succeeded { content: "x\ty".into() },
        }
    );
}

#[test]
fn writes_atomically_and_preserves_existing_permissions() {
    let mut disk = Disk::new();
    disk.add("script.sh", Node::File(b"old\n".to_vec()));

    let execution = execute(
        &mut disk,
        "write_file",
        r##"{"path":"script.sh","content":"#!/bin/sh\necho new\n"}"##,
    );
    let written = result(&execution);
    assert_eq!(written["ok"], true);
    assert_eq!(disk.content(&path("tmp/work/script.sh")), b"#!/bin/sh\necho new\n");
    let audit = execution.audit.unwrap();
    assert_eq!(audit.operation, FileIoOperation::Modify);
    assert_eq!(audit.path.as_deref(), Some("script.sh"));
    assert_eq!(
        audit.outcome,
        FileIoOutcome::Succeeded { content: "#!/bin/sh\necho new\n".into() }
    );
    assert_eq!(disk.written, vec![("tmp/work/script.sh".to_owned(), true)]);
}

#[test]
fn creates_files_at_the_workspace_root_and_in_existing_subdirectories() {
    let mut disk = Disk::new();
    disk.add("scripts", Node::Directory);

    let root_creation = execute(
        &mut disk,
        "write_file",
        r##"{"path":"run.sh","content":"#!/bin/sh\n"}"##,
    );
    assert_eq!(result(&root_creation)["ok"], true);
    assert_eq!(disk.content(&path("tmp/work/run.sh")), b"#!/bin/sh\n");

    let creation = execute(
        &mut disk,
        "write_file",
        r#"{"path":"scripts/new.sh","content":"echo hello\n"}"#,
    );
    assert_eq!(result(&creation)["ok"], true);
    assert_eq!(
        creation.response,
        r#"{"bytes_written":11,"ok":true,"path":"scripts/new.sh"}"#
    );
    assert_eq!(creation.audit.unwrap().operation, FileIoOperation::Write);
    assert_eq!(disk.content(&path("tmp/work/scripts/new.sh")), b"echo hello\n");
    let denied = execute(
        &mut disk,
        "write_file",
        r#"{"path":"missing/new.sh","content":"nope"}"#,
    );
    assert_eq!(result(&denied)["ok"], false);
    let audit = denied.audit.unwrap();
    assert_eq!(audit.path.as_deref(), Some("missing/new.sh"));
    assert!(matches!(audit.outcome, FileIoOutcome::Failed { .. }));
}

#[test]
fn rejects_absolute_paths_and_parent_traversal() {
    let mut disk = Disk::new();

    for arguments in [
        r#"{"path":"../outside","content":"nope"}"#,
        r#"{"path":"/tmp/outside","content":"nope"}"#,
    ] {
        let execution = execute(&mut disk, "write_file", arguments);
        assert_eq!(result(&execution)["ok"], false);
        let audit = execution.audit.unwrap();
        assert_eq!(audit.operation, FileIoOperation::Write);
        let FileIoOutcome::Failed { reason } = audit.outcome else {
            panic!("denied write was logged as successful");
        };
        assert!(reason.contains("path must be relative") || reason.contains("parent"));
    }
}

#[test]
fn logs_malformed_read_failures_without_inventing_a_path() {
    let mut disk = Disk::new();

    let execution = execute(&mut disk, "read_file", r#"{"path":42}"#);
    assert_eq!(result(&execution)["ok"], false);
    let audit = execution.audit.unwrap();
    assert_eq!(audit.operation, FileIoOperation::Read);
    assert_eq!(audit.path, None);
    let FileIoOutcome::Failed { reason } = audit.outcome else {
        panic!("malformed read was logged as successful");
    };
    assert!(reason.contains("invalid read_file arguments"));
}

#[test]
fn rejects_symlink_reads_and_writes_that_escape_the_workspace() {
    let mut disk = Disk::new();
    disk.add("outside", Node::Link(vec!["outside"]));

    let read = execute(&mut disk, "read_file", r#"{"path":"outside/secret"}"#);
    assert_eq!(result(&read)["ok"], false);
    assert_eq!(reason(read), "path cannot traverse symbolic links");
    let write = execute(&mut disk, "write_file", r#"{"path":"outside/new","content":"nope"}"#);
    assert_eq!(result(&write)["ok"], false);
    assert!(disk.written.is_empty());
}

#[test]
fn links_at_the_end_are_followed_only_below_the_workspace() {
    let mut disk = Disk::new();
    disk.add("real", Node::File(b"text".to_vec()));
    disk.add("inner", Node::Link(vec!["tmp", "work", "real"]));
    disk.add("outer", Node::Link(vec!["outside", "secret"]));
    disk.add("near", Node::Link(vec!["tmp", "workshop"]));
    let inner = execute(&mut disk, "read_file", r#"{"path":"inner"}"#);
    assert_eq!(result(&inner)["content"], "text");
    let outer = execute(&mut disk, "read_file", r#"{"path":"outer"}"#);
    assert_eq!(reason(outer), "outer resolves outside the current working directory");
    let near = execute(&mut disk, "read_file", r#"{"path":"near"}"#);
    assert_eq!(reason(near), "near resolves outside the current working directory");
    let written = execute(&mut disk, "write_file", r#"{"path":"inner","content":"x"}"#);
    assert_eq!(reason(written), "refusing to write through the symbolic link inner");
}

#[test]
fn rejects_filesystem_roots_as_the_tool_scope() {
    let facts = RootFacts {
        path: Vec::new(),
        shown: "/".into(),
        has_parent: false,
        is_directory: true,
    };
    let refused = WorkspaceFiles::new("/", Some(facts), Platform::Unix);
    assert!(refused.is_err());
    assert_eq!(
        refused.unwrap_err().message(),
        "file tools cannot use a filesystem root as their working directory"
    );
}

#[test]
fn roots_must_be_directories() {
    assert_eq!(
        WorkspaceFiles::new("/gone", None, Platform::Unix).unwrap_err().message(),
        "could not resolve file tool root /gone"
    );
    let facts = RootFacts {
        path: bytes(&path("a/file")),
        shown: "/a/file".into(),
        has_parent: true,
        is_directory: false,
    };
    assert_eq!(
        WorkspaceFiles::new("/a/file", Some(facts), Platform::Unix).unwrap_err().message(),
        "file tool root /a/file is not a directory"
    );
}

#[test]
fn limits_of_the_tools_are_kept() {
    let mut disk = Disk::new();
    disk.add("a", Node::File(b"abc".to_vec()));
    disk.add("d", Node::Directory);
    assert_eq!(
        reason(execute(&mut disk, "read_file", r#"{"path":"a","max_bytes":0}"#)),
        "max_bytes must be between 1 and 32768"
    );
    assert_eq!(
        reason(execute(&mut disk, "read_file", r#"{"path":"a","max_bytes":32769}"#)),
        "max_bytes must be between 1 and 32768"
    );
    assert_eq!(
        reason(execute(&mut disk, "read_file", r#"{"path":"a","offset":4}"#)),
        "offset 4 is beyond the 3 byte file a"
    );
    let end = execute(&mut disk, "read_file", r#"{"path":"a","offset":3}"#);
    assert_eq!(result(&end)["eof"], true);
    assert_eq!(
        reason(execute(&mut disk, "read_file", r#"{"path":"d"}"#)),
        "d is not a regular file"
    );
    assert_eq!(
        reason(execute(&mut disk, "write_file", r#"{"path":"d","content":""}"#)),
        "d is not a regular file"
    );
    let large = format!(r#"{{"path":"b","content":"{}"}}"#, "x".repeat(65537));
    assert_eq!(
        reason(execute(&mut disk, "write_file", &large)),
        "content exceeds the 65536 byte write limit"
    );
    assert_eq!(
        reason(execute(&mut disk, "read_file", r#"{"path":"gone"}"#)),
        "could not resolve gone: not found"
    );
    assert_eq!(
        reason(execute(&mut disk, "write_file", r#"{"path":"gone/b","content":"x"}"#)),
        "parent directory for gone/b does not exist: not found"
    );
}

#[test]
fn files_that_are_no_text_are_refused() {
    let mut disk = Disk::new();
    disk.add("binary", Node::File(vec![b'a', 0xff, b'b']));
    let execution = execute(&mut disk, "read_file", r#"{"path":"binary"}"#);
    assert_eq!(execution.response, r#"{"error":"file is not valid UTF-8","ok":false}"#);
}

#[test]
fn unknown_tools_are_answered_and_not_recorded() {
    let mut disk = Disk::new();
    let execution = execute(&mut disk, "remove_file", "{}");
    assert_eq!(
        execution.response,
        r#"{"error":"unknown file tool \"remove_file\"","ok":false}"#
    );
    assert_eq!(execution.audit, None);
}

fn begin_read(files: &WorkspaceFiles) -> ToolRun<'_> {
    let arguments = ReadFileArguments { path: "d/a".into(), offset: 0, max_bytes: 4 };
    match files.execute("read_file", "{}".into(), ParsedArguments::Read(Ok(arguments))) {
        Begun::Running(run) => run,
        Begun::Refused(_) => panic!("the call was refused"),
    }
}

fn ended(run: &ToolRun) -> String {
    match run.phase() {
        Phase::Finished(execution) => reason(execution.clone()),
        _ => panic!("the call has not ended"),
    }
}

#[test]
fn failures_of_the_file_system_are_reported() {
    let files = files();
    let mut run = begin_read(&files);
    run.step(FileEvent::Inspected(Entry::Unknown("denied".into())));
    assert_eq!(ended(&run), "could not inspect /tmp/work/d: denied");

    let opened = |event: OpenedFile| {
        let mut run = begin_read(&files);
        run.step(FileEvent::Inspected(Entry::Missing));
        run.step(FileEvent::Resolved(Ok(bytes(&path("tmp/work/d/a")))));
        run.step(FileEvent::Opened(event));
        run
    };
    assert_eq!(ended(&opened(OpenedFile::NotOpened("denied".into()))), "could not open d/a: denied");
    assert_eq!(
        ended(&opened(OpenedFile::NotInspected("denied".into()))),
        "could not inspect d/a: denied"
    );
    let reading = || opened(OpenedFile::Opened { is_file: true, length: 9 });
    let mut run = reading();
    run.step(FileEvent::Read(ReadBytes::NotSought("denied".into())));
    assert_eq!(ended(&run), "could not seek d/a: denied");
    let mut run = reading();
    run.step(FileEvent::Read(ReadBytes::NotRead("denied".into())));
    assert_eq!(ended(&run), "could not read d/a: denied");
    let mut run = reading();
    run.step(FileEvent::Wrote(Ok(())));
    assert!(matches!(run.phase(), Phase::Reading { length: 9 }));
}

#[test]
fn failures_of_writes_are_reported() {
    let files = files();
    let begin = || {
        let arguments = WriteFileArguments { path: "a".into(), content: "x".into() };
        let parsed = ParsedArguments::Write(Ok(arguments));
        match files.execute("write_file", r#"{"path":"a"}"#.into(), parsed) {
            Begun::Running(run) => run,
            Begun::Refused(_) => panic!("the call was refused"),
        }
    };
    let mut run = begin();
    run.step(FileEvent::Inspected(Entry::Missing));
    run.step(FileEvent::Inspected(Entry::Unknown("denied".into())));
    assert_eq!(ended(&run), "could not inspect a: denied");
    let mut run = begin();
    run.step(FileEvent::Inspected(Entry::File));
    run.step(FileEvent::Inspected(Entry::File));
    run.step(FileEvent::Resolved(Err("gone".into())));
    assert_eq!(ended(&run), "could not resolve a: gone");
    let mut run = begin();
    run.step(FileEvent::Inspected(Entry::Missing));
    run.step(FileEvent::Inspected(Entry::Missing));
    run.step(FileEvent::Resolved(Ok(bytes(&path("outside")))));
    assert_eq!(ended(&run), "a resolves outside the current working directory");
    let mut run = begin();
    run.step(FileEvent::Inspected(Entry::Missing));
    run.step(FileEvent::Inspected(Entry::Missing));
    run.step(FileEvent::Resolved(Ok(bytes(&root()))));
    run.step(FileEvent::Wrote(Err("could not write temporary file: disk full".into())));
    assert_eq!(ended(&run), "could not write temporary file: disk full");
}

#[test]
fn relative_paths_are_taken_apart() {
    let parts = |input: &str| validate_relative_path(input, Platform::Unix);
    assert_eq!(parts("a/b").unwrap(), vec!["a", "b"]);
    assert_eq!(parts("./a//./b/").unwrap(), vec!["a", "b"]);
    assert_eq!(parts("a\\b").unwrap(), vec!["a\\b"]);
    assert_eq!(parts("").unwrap_err().message(), "path cannot be empty");
    assert_eq!(parts(&"a".repeat(4097)).unwrap_err().message(), "path exceeds 4096 bytes");
    assert_eq!(
        parts("/a").unwrap_err().message(),
        "path must be relative to the current working directory"
    );
    assert_eq!(
        parts("a/../b").unwrap_err().message(),
        "path cannot contain parent or root components"
    );
    assert_eq!(
        parts("./.").unwrap_err().message(),
        "path must name a file below the current working directory"
    );
    assert_eq!(parts("..a/...").unwrap(), vec!["..a", "..."]);
}

#[test]
fn windows_paths_are_taken_apart() {
    let parts = |input: &str| validate_relative_path(input, Platform::Windows);
    assert_eq!(parts("a\\b/c").unwrap(), vec!["a", "b", "c"]);
    for absolute in [
        "C:\\a",
        "c:/a",
        "\\\\server\\share",
        "//server/share",
        "//server/share/a",
        "\\\\.\\",
        "//./COM1",
        "\\\\?\\",
        "//?/a",
    ] {
        assert_eq!(
            parts(absolute).unwrap_err().message(),
            "path must be relative to the current working directory"
        );
    }
    for odd in [
        "\\a",
        "/a",
        "C:a",
        "a\\..\\b",
        "//x",
        "\\\\server\\",
        "//server//share",
        "///a",
        "//",
        "//?/",
    ] {
        assert_eq!(
            parts(odd).unwrap_err().message(),
            "path cannot contain parent or root components"
        );
    }
}

#[test]
fn drives_take_the_place_of_what_stands_before_them() {
    let parts = |input: &str| validate_relative_path(input, Platform::Windows).unwrap();
    assert_eq!(parts("a\\C:b\\d"), ["C:", "b", "d"]);
    assert_eq!(parts("./c:x"), ["c:", "x"]);
    assert_eq!(parts("a/c:b/d:"), ["d:"]);
    assert_eq!(parts("a/c:/y"), ["c:", "y"]);
    assert_eq!(parts("a/c:.."), ["c:", ".."]);
    assert_eq!(parts("a/c:d:e"), ["c:", "d:e"]);
    assert_eq!(validate_relative_path("a/c:x", Platform::Unix).unwrap(), ["a", "c:x"]);
}

#[test]
fn paths_on_drives_are_shown_and_checked() {
    let facts = RootFacts {
        path: bytes(&path("C:/work")),
        shown: "C:\\work".into(),
        has_parent: true,
        is_directory: true,
    };
    let files = WorkspaceFiles::new("C:\\work", Some(facts), Platform::Windows).unwrap();
    let begin = |path: &str| {
        let arguments = WriteFileArguments { path: path.into(), content: "x".into() };
        match files.execute("write_file", "{}".into(), ParsedArguments::Write(Ok(arguments))) {
            Begun::Running(run) => run,
            Begun::Refused(_) => panic!("the call was refused"),
        }
    };
    let unknown = || FileEvent::Inspected(Entry::Unknown("denied".into()));
    let missing = || FileEvent::Inspected(Entry::Missing);
    let mut run = begin("a/b");
    run.step(unknown());
    assert_eq!(ended(&run), "could not inspect C:\\work\\a: denied");
    let mut run = begin("a/c:b/d");
    assert_eq!(run.path(), "c:b\\d");
    run.step(unknown());
    assert_eq!(ended(&run), "could not inspect c:: denied");
    let mut run = begin("a/c:b/d");
    run.step(FileEvent::Inspected(Entry::Other));
    run.step(unknown());
    assert_eq!(ended(&run), "could not inspect c:b: denied");
    let mut run = begin("a/c:d:e/f");
    assert_eq!(run.path(), "c:d:e\\f");
    run.step(FileEvent::Inspected(Entry::Other));
    run.step(FileEvent::Inspected(Entry::Other));
    run.step(unknown());
    assert_eq!(ended(&run), "could not inspect d:e\\f: denied");

    let mut run = begin("a/c:");
    run.step(missing());
    run.step(missing());
    assert_eq!(ended(&run), "the file path has no parent directory");
    let placed = |path: &str, parent: &str| {
        let mut run = begin(path);
        run.step(missing());
        run.step(missing());
        run.step(FileEvent::Resolved(Ok(bytes(&self::path(parent)))));
        run
    };
    assert_eq!(ended(&placed("a/c:..", "C:/work")), "the file path has no file name");
    assert_eq!(
        ended(&placed("a/c:d:e", "C:/work")),
        "c:d:e resolves outside the current working directory"
    );
    assert_eq!(
        ended(&placed("a/c:x", "C:/other")),
        "c:x resolves outside the current working directory"
    );
    match placed("a/c:x", "C:/work").phase() {
        Phase::Writing { target, modify: false } => {
            assert_eq!(*target, bytes(&path("C:/work/x")));
        }
        _ => panic!("the file is not written"),
    }
}

#[test]
fn failures_are_recorded_with_what_the_arguments_tell() {
    let arguments = r#"{"path":"a","offset":7}"#;
    let read = failed_event(FileIoOperation::Read, arguments, "why".into());
    assert_eq!(read.path.as_deref(), Some("a"));
    assert_eq!(read.offset, Some(7));
    let write = failed_event(FileIoOperation::Write, arguments, "why".into());
    assert_eq!(write.offset, None);
    let odd = failed_event(FileIoOperation::Read, r#"{"path":["a"],"offset":-1}"#, "why".into());
    assert_eq!(odd.path, None);
    assert_eq!(odd.offset, None);
    assert_eq!(failed_event(FileIoOperation::Read, "no json", "why".into()).path, None);
    let long = record_failure(FileIoOperation::Read, Some("a".repeat(4097)), Some(1), "why".into());
    assert_eq!(long.path, None);
    assert_eq!(long.offset, Some(1));
    assert_eq!(long.outcome, FileIoOutcome::Failed { reason: "why".into() });
}

#[test]
fn operations_are_read_back() {
    for operation in [FileIoOperation::Read, FileIoOperation::Write, FileIoOperation::Modify] {
        assert_eq!(FileIoOperation::from_str(operation.as_str()).unwrap(), operation);
    }
    assert_eq!(
        FileIoOperation::from_str("delete").unwrap_err().message(),
        "file I/O log contains an unknown operation \"delete\""
    );
}
