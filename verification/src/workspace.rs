//! File accesses of a model, below one directory and nowhere else.
//!
//! An access is a `ToolRun`. It says what is to be done to the file system next,
//! is told what came of that, and ends with the answer to the model and with
//! what is recorded.
use vstd::prelude::*;
use vstd::utf8::encode_utf8;

use crate::bytes::{bytes_of, utf8_prefix, utf8_prefix_text};
use crate::error::{caused, outcome, Error};
use crate::file_tools::{
    accepted_paths_lead_down, answer_failure, answer_read, answer_write, begins_with_drive,
    failed_access, failed_event, failure_answer, names_drive, operation_of_tool,
    path_starts_with_drive, read_answer, relative_path, separator_text, show_path, shown_path,
    shown_separator, starts_with_drive, tool_operation, validate_relative_path, write_answer,
    EventView, ExecutionView, FileIoEvent, FileIoOperation, FileIoOutcome, FileToolExecution,
    OutcomeView, ReadFileArguments, WriteFileArguments, MAX_READ_BYTES, MAX_WRITE_BYTES,
    READ_FILE_TOOL, WRITE_FILE_TOOL,
};
use crate::number::{decimal, size_to_decimal, to_decimal};
use crate::paths::Platform;
use crate::pieces::joined;
use crate::quote::{debug_quoted, debug_text, json_text};
use crate::text::{byte_length, chars_of, join2, join3, text_bytes, text_eq, texts};

verus! {

// ---------------------------------------------------------------------------
// Resolved paths.

/// The components of a resolved path, each as its bytes.
pub open spec fn path_bytes(path: Seq<Vec<u8>>) -> Seq<Seq<u8>> {
    Seq::new(path.len(), |i: int| path[i]@)
}

/// Whether a path is a directory or stands below it.
pub open spec fn is_within(path: Seq<Seq<u8>>, directory: Seq<Seq<u8>>) -> bool {
    directory.len() <= path.len() && path.take(directory.len() as int) == directory
}

fn same_bytes(a: &Vec<u8>, b: &Vec<u8>) -> (r: bool)
    ensures
        r == (a@ == b@),
{
    if a.len() != b.len() {
        return false;
    }
    let mut i: usize = 0;
    while i < a.len()
        invariant
            i <= a@.len(),
            a@.len() == b@.len(),
            forall|k: int| 0 <= k < i ==> a@[k] == b@[k],
        decreases a@.len() - i,
    {
        if a[i] != b[i] {
            return false;
        }
        i = i + 1;
    }
    assert(a@ =~= b@);
    true
}

/// Whether a path is a directory or stands below it.
fn within(path: &Vec<Vec<u8>>, directory: &Vec<Vec<u8>>) -> (r: bool)
    ensures
        r == is_within(path_bytes(path@), path_bytes(directory@)),
{
    let ghost p = path_bytes(path@);
    let ghost d = path_bytes(directory@);
    if path.len() < directory.len() {
        return false;
    }
    let mut i: usize = 0;
    while i < directory.len()
        invariant
            p == path_bytes(path@),
            d == path_bytes(directory@),
            i <= directory@.len() <= path@.len(),
            forall|k: int| 0 <= k < i ==> p[k] == d[k],
        decreases directory@.len() - i,
    {
        if !same_bytes(&path[i], &directory[i]) {
            assert(p.take(d.len() as int)[i as int] != d[i as int]);
            return false;
        }
        i = i + 1;
    }
    assert(p.take(d.len() as int) =~= d);
    true
}

// ---------------------------------------------------------------------------
// The workspace.

/// What is known of the directory that file tools are to work in.
#[derive(Clone, Debug, PartialEq, Eq)]
pub struct RootFacts {
    /// The components of its resolved path.
    pub path: Vec<Vec<u8>>,
    /// The resolved path as it is shown.
    pub shown: String,
    pub has_parent: bool,
    pub is_directory: bool,
}

/// The directory that file tools work in.
#[derive(Clone, Debug, PartialEq, Eq)]
pub struct WorkspaceFiles {
    root: Vec<Vec<u8>>,
    shown: String,
    platform: Platform,
}

/// Whether file tools can work in a directory, or why not. The facts are missing
/// where the directory could not be resolved.
pub open spec fn accepted_root(
    working_directory: Seq<char>,
    facts: Option<RootFacts>,
) -> Result<Seq<Seq<u8>>, Seq<char>> {
    match facts {
        None => Err("could not resolve file tool root "@ + working_directory),
        Some(facts) => if !facts.has_parent {
            Err("file tools cannot use a filesystem root as their working directory"@)
        } else if !facts.is_directory {
            Err("file tool root "@ + facts.shown@ + " is not a directory"@)
        } else {
            Ok(path_bytes(facts.path@))
        },
    }
}

impl WorkspaceFiles {
    /// The components of the directory's path.
    pub closed spec fn root(self) -> Seq<Seq<u8>> {
        path_bytes(self.root@)
    }

    /// The directory's path as it is shown.
    pub closed spec fn shown(self) -> Seq<char> {
        self.shown@
    }

    /// The family of the operating system.
    pub closed spec fn platform(self) -> Platform {
        self.platform
    }

    /// The file tools of a directory. The facts are missing where the directory
    /// could not be resolved.
    pub fn new(working_directory: &str, facts: Option<RootFacts>, platform: Platform) -> (r: Result<
        Self,
        Error,
    >)
        ensures
            match facts {
                None => r matches Err(error) && error@ == "could not resolve file tool root "@
                    + working_directory@,
                Some(facts) => if !facts.has_parent {
                    r matches Err(error) && error@
                        == "file tools cannot use a filesystem root as their working directory"@
                } else if !facts.is_directory {
                    r matches Err(error) && error@ == "file tool root "@ + facts.shown@
                        + " is not a directory"@
                } else {
                    r matches Ok(files) && files.root() == path_bytes(facts.path@) && files.shown()
                        == facts.shown@ && files.platform() == platform
                },
            },
            accepted_root(working_directory@, facts) == (match r {
                Ok(files) => Ok(files.root()),
                Err(error) => Err(error@),
            }),
    {
        match facts {
            None => Err(
                Error::new(join2("could not resolve file tool root ", working_directory)),
            ),
            Some(facts) => {
                if !facts.has_parent {
                    return Err(
                        Error::of(
                            "file tools cannot use a filesystem root as their working directory",
                        ),
                    );
                }
                if !facts.is_directory {
                    return Err(
                        Error::new(
                            join3("file tool root ", facts.shown.as_str(), " is not a directory"),
                        ),
                    );
                }
                Ok(WorkspaceFiles { root: facts.path, shown: facts.shown, platform })
            },
        }
    }
}

// ---------------------------------------------------------------------------
// Runs.

/// What a call asks for.
#[derive(Clone, Debug, PartialEq, Eq)]
pub enum FileCall {
    Read { offset: u64, max_bytes: usize },
    Write { content: String },
}

impl FileCall {
    /// The operation that the tool of the call is named for.
    pub open spec fn operation(self) -> FileIoOperation {
        match self {
            FileCall::Read { .. } => FileIoOperation::Read,
            FileCall::Write { .. } => FileIoOperation::Write,
        }
    }
}

/// What is to be done next.
#[derive(Clone, Debug, PartialEq, Eq)]
pub enum Phase {
    /// Tell what stands at the first `next + 1` components below the root, without
    /// following a link there.
    Checking { next: usize },
    /// Resolve the path.
    Resolving,
    /// Open the file at a resolved path.
    Opening { path: Vec<Vec<u8>> },
    /// Read the opened file, which has the given length.
    Reading { length: u64 },
    /// Tell what stands at the path, without following a link there.
    InspectingTarget,
    /// Resolve the path, where something stands.
    ResolvingTarget { is_file: bool },
    /// Resolve the directory that the path stands in.
    ResolvingParent,
    /// Replace the file at a resolved path, with its permissions kept where it is
    /// there already.
    Writing { target: Vec<Vec<u8>>, modify: bool },
    /// Nothing.
    Finished(FileToolExecution),
}

/// What is to be done next, with its texts taken as characters.
#[verifier::ext_equal]
pub enum PhaseView {
    Checking { next: int },
    Resolving,
    Opening { path: Seq<Seq<u8>> },
    Reading { length: u64 },
    InspectingTarget,
    ResolvingTarget { is_file: bool },
    ResolvingParent,
    Writing { target: Seq<Seq<u8>>, modify: bool },
    Finished(ExecutionView),
}

impl View for Phase {
    type V = PhaseView;

    open spec fn view(&self) -> PhaseView {
        match *self {
            Phase::Checking { next } => PhaseView::Checking { next: next as int },
            Phase::Resolving => PhaseView::Resolving,
            Phase::Opening { path } => PhaseView::Opening { path: path_bytes(path@) },
            Phase::Reading { length } => PhaseView::Reading { length },
            Phase::InspectingTarget => PhaseView::InspectingTarget,
            Phase::ResolvingTarget { is_file } => PhaseView::ResolvingTarget { is_file },
            Phase::ResolvingParent => PhaseView::ResolvingParent,
            Phase::Writing { target, modify } => PhaseView::Writing {
                target: path_bytes(target@),
                modify,
            },
            Phase::Finished(execution) => PhaseView::Finished(execution@),
        }
    }
}

/// What stands at a path. A link is not followed.
#[derive(Clone, Debug, PartialEq, Eq)]
pub enum Entry {
    Missing,
    Link,
    File,
    Other,
    /// It could not be told, for a reason.
    Unknown(String),
}

/// What came of opening a file.
#[derive(Clone, Debug, PartialEq, Eq)]
pub enum OpenedFile {
    Opened { is_file: bool, length: u64 },
    NotOpened(String),
    NotInspected(String),
}

/// What came of reading a file.
#[derive(Clone, Debug, PartialEq, Eq)]
pub enum ReadBytes {
    Bytes(Vec<u8>),
    NotSought(String),
    NotRead(String),
}

/// What came of what was to be done.
#[derive(Debug, PartialEq, Eq)]
pub enum FileEvent {
    Inspected(Entry),
    Resolved(Result<Vec<Vec<u8>>, String>),
    Opened(OpenedFile),
    Read(ReadBytes),
    Wrote(Result<(), String>),
}

/// A call of a file tool that is under way.
#[derive(Clone, Debug, PartialEq, Eq)]
pub struct ToolRun<'a> {
    files: &'a WorkspaceFiles,
    arguments: String,
    call: FileCall,
    relative: Vec<String>,
    phase: Phase,
}

/// A call of a file tool that is under way, with its texts taken as characters.
pub struct RunView {
    pub root: Seq<Seq<u8>>,
    pub shown: Seq<char>,
    pub platform: Platform,
    pub arguments: Seq<char>,
    pub call: FileCall,
    pub relative: Seq<Seq<char>>,
    pub phase: PhaseView,
}

impl<'a> View for ToolRun<'a> {
    type V = RunView;

    closed spec fn view(&self) -> RunView {
        RunView {
            root: self.files.root(),
            shown: self.files.shown(),
            platform: self.files.platform(),
            arguments: self.arguments@,
            call: self.call,
            relative: texts(self.relative@),
            phase: self.phase@,
        }
    }
}

// ---------------------------------------------------------------------------
// What a call comes to.

/// What a failed call comes to.
pub open spec fn failed(
    operation: FileIoOperation,
    arguments: Seq<char>,
    reason: Seq<char>,
) -> ExecutionView {
    ExecutionView {
        response: failure_answer(reason),
        audit: Some(failed_access(operation, arguments, reason)),
    }
}

/// What a read comes to.
pub open spec fn read_result(
    path: Seq<char>,
    offset: u64,
    length: u64,
    content: Seq<char>,
) -> ExecutionView {
    let next_offset = offset + byte_length(content);
    ExecutionView {
        response: read_answer(
            path,
            offset as nat,
            next_offset as nat,
            next_offset == length,
            content,
        ),
        audit: Some(
            EventView {
                operation: FileIoOperation::Read,
                path: Some(path),
                offset: Some(offset),
                outcome: OutcomeView::Succeeded { content },
            },
        ),
    }
}

/// What a write comes to.
pub open spec fn write_result(path: Seq<char>, modify: bool, content: Seq<char>) -> ExecutionView {
    ExecutionView {
        response: write_answer(path, byte_length(content)),
        audit: Some(
            EventView {
                operation: if modify {
                    FileIoOperation::Modify
                } else {
                    FileIoOperation::Write
                },
                path: Some(path),
                offset: None,
                outcome: OutcomeView::Succeeded { content },
            },
        ),
    }
}

impl RunView {
    /// The path as it is shown.
    pub open spec fn path(self) -> Seq<char> {
        shown_path(self.relative, self.platform)
    }

    /// The place of the first `n` components as it is shown: below the root, or on a
    /// drive that the path begins with.
    pub open spec fn place(self, n: int) -> Seq<char> {
        let path = shown_path(self.relative.take(n), self.platform);
        if !starts_with_drive(self.relative, self.platform) {
            self.shown + shown_separator(self.platform) + path
        } else if n > 1 && names_drive(self.relative[1]) {
            shown_path(self.relative.take(n).skip(1), self.platform)
        } else {
            path
        }
    }

    /// Whether the path is a drive alone.
    pub open spec fn is_drive(self) -> bool {
        starts_with_drive(self.relative, self.platform) && self.relative.len() == 1
    }

    /// Whether the path ends with a name.
    pub open spec fn has_name(self) -> bool {
        self.relative.last() != "."@ && self.relative.last() != ".."@
    }

    /// Whether the name that the path ends with is on a drive of its own.
    pub open spec fn name_has_drive(self) -> bool {
        self.platform == Platform::Windows && names_drive(self.relative.last())
    }

    /// The end of a call that failed for a reason.
    pub open spec fn failing(self, reason: Seq<char>) -> PhaseView {
        PhaseView::Finished(failed(self.call.operation(), self.arguments, reason))
    }

    /// The end of a call whose path leads out of the workspace.
    pub open spec fn escaping(self) -> PhaseView {
        self.failing(self.path() + " resolves outside the current working directory"@)
    }

    /// What comes after the components were checked.
    pub open spec fn checked(self) -> PhaseView {
        match self.call {
            FileCall::Read { .. } => PhaseView::Resolving,
            FileCall::Write { .. } => PhaseView::InspectingTarget,
        }
    }

    /// What comes after a component was inspected. Only the last may be a link.
    pub open spec fn after_check(self, next: int, entry: Entry) -> PhaseView {
        match entry {
            Entry::Unknown(reason) => self.failing(
                caused("could not inspect "@ + self.place(next + 1), reason@),
            ),
            Entry::Missing => self.checked(),
            Entry::Link => if next + 1 < self.relative.len() {
                self.failing("path cannot traverse symbolic links"@)
            } else {
                self.checked()
            },
            _ => if next + 1 < self.relative.len() {
                PhaseView::Checking { next: next + 1 }
            } else {
                self.checked()
            },
        }
    }

    /// What comes after the path of a read was resolved.
    pub open spec fn after_resolution(self, resolved: Result<Vec<Vec<u8>>, String>) -> PhaseView {
        match resolved {
            Err(reason) => self.failing(caused("could not resolve "@ + self.path(), reason@)),
            Ok(path) => if is_within(path_bytes(path@), self.root) {
                PhaseView::Opening { path: path_bytes(path@) }
            } else {
                self.escaping()
            },
        }
    }

    /// What comes after a file was opened to be read from an offset.
    pub open spec fn after_opening(self, offset: u64, opened: OpenedFile) -> PhaseView {
        match opened {
            OpenedFile::NotOpened(reason) => self.failing(
                caused("could not open "@ + self.path(), reason@),
            ),
            OpenedFile::NotInspected(reason) => self.failing(
                caused("could not inspect "@ + self.path(), reason@),
            ),
            OpenedFile::Opened { is_file, length } => if !is_file {
                self.failing(self.path() + " is not a regular file"@)
            } else if offset > length {
                self.failing(
                    "offset "@ + decimal(offset as nat) + " is beyond the "@ + decimal(
                        length as nat,
                    ) + " byte file "@ + self.path(),
                )
            } else {
                PhaseView::Reading { length }
            },
        }
    }

    /// What comes after a file was read from an offset.
    pub open spec fn after_reading(self, offset: u64, length: u64, read: ReadBytes) -> PhaseView {
        match read {
            ReadBytes::NotSought(reason) => self.failing(
                caused("could not seek "@ + self.path(), reason@),
            ),
            ReadBytes::NotRead(reason) => self.failing(
                caused("could not read "@ + self.path(), reason@),
            ),
            ReadBytes::Bytes(bytes) => match utf8_prefix_text(bytes@) {
                Err(reason) => self.failing(reason),
                Ok(content) => PhaseView::Finished(
                    read_result(self.path(), offset, length, content),
                ),
            },
        }
    }

    /// What comes after the place of a write was inspected.
    pub open spec fn after_inspection(self, entry: Entry) -> PhaseView {
        match entry {
            Entry::Unknown(reason) => self.failing(
                caused("could not inspect "@ + self.path(), reason@),
            ),
            Entry::Link => self.failing(
                "refusing to write through the symbolic link "@ + self.path(),
            ),
            Entry::Missing => if self.is_drive() {
                self.failing("the file path has no parent directory"@)
            } else {
                PhaseView::ResolvingParent
            },
            Entry::File => PhaseView::ResolvingTarget { is_file: true },
            Entry::Other => PhaseView::ResolvingTarget { is_file: false },
        }
    }

    /// What comes after the place of a write, where something stands, was
    /// resolved.
    pub open spec fn after_target(
        self,
        is_file: bool,
        resolved: Result<Vec<Vec<u8>>, String>,
    ) -> PhaseView {
        match resolved {
            Err(reason) => self.failing(caused("could not resolve "@ + self.path(), reason@)),
            Ok(path) => if !is_within(path_bytes(path@), self.root) {
                self.escaping()
            } else if !is_file {
                self.failing(self.path() + " is not a regular file"@)
            } else {
                PhaseView::Writing { target: path_bytes(path@), modify: true }
            },
        }
    }

    /// What comes after the directory of a new file was resolved.
    pub open spec fn after_parent(self, resolved: Result<Vec<Vec<u8>>, String>) -> PhaseView {
        match resolved {
            Err(reason) => self.failing(
                caused("parent directory for "@ + self.path() + " does not exist"@, reason@),
            ),
            Ok(path) => if !is_within(path_bytes(path@), self.root) {
                self.escaping()
            } else if !self.has_name() {
                self.failing("the file path has no file name"@)
            } else if self.name_has_drive() {
                self.escaping()
            } else {
                PhaseView::Writing {
                    target: path_bytes(path@).push(encode_utf8(self.relative.last())),
                    modify: false,
                }
            },
        }
    }

    /// What comes after a file was written.
    pub open spec fn after_writing(
        self,
        content: Seq<char>,
        modify: bool,
        written: Result<(), String>,
    ) -> PhaseView {
        match written {
            Err(reason) => self.failing(reason@),
            Ok(_) => PhaseView::Finished(write_result(self.path(), modify, content)),
        }
    }

    /// What is to be done after an event. An event that was not asked for changes
    /// nothing.
    pub open spec fn next(self, event: FileEvent) -> PhaseView {
        match (self.phase, event, self.call) {
            (PhaseView::Checking { next }, FileEvent::Inspected(entry), _) => self.after_check(
                next,
                entry,
            ),
            (PhaseView::Resolving, FileEvent::Resolved(resolved), _) => self.after_resolution(
                resolved,
            ),
            (
                PhaseView::Opening { .. },
                FileEvent::Opened(opened),
                FileCall::Read { offset, .. },
            ) => self.after_opening(offset, opened),
            (
                PhaseView::Reading { length },
                FileEvent::Read(read),
                FileCall::Read { offset, .. },
            ) => self.after_reading(offset, length, read),
            (PhaseView::InspectingTarget, FileEvent::Inspected(entry), _) => self.after_inspection(
                entry,
            ),
            (PhaseView::ResolvingTarget { is_file }, FileEvent::Resolved(resolved), _) => {
                self.after_target(is_file, resolved)
            },
            (PhaseView::ResolvingParent, FileEvent::Resolved(resolved), _) => self.after_parent(
                resolved,
            ),
            (
                PhaseView::Writing { modify, .. },
                FileEvent::Wrote(written),
                FileCall::Write { content },
            ) => self.after_writing(content@, modify, written),
            _ => self.phase,
        }
    }

    /// The run after an event.
    pub open spec fn after(self, event: FileEvent) -> RunView {
        RunView { phase: self.next(event), ..self }
    }
}

// ---------------------------------------------------------------------------
// How a run starts.

/// The arguments of a call, or why they could not be parsed.
#[derive(Debug, PartialEq, Eq)]
pub enum ParsedArguments {
    Read(Result<ReadFileArguments, String>),
    Write(Result<WriteFileArguments, String>),
    /// The tool is not known.
    Unknown,
}

impl ParsedArguments {
    /// The operation whose arguments these are.
    pub open spec fn operation(self) -> Option<FileIoOperation> {
        match self {
            ParsedArguments::Read(_) => Some(FileIoOperation::Read),
            ParsedArguments::Write(_) => Some(FileIoOperation::Write),
            ParsedArguments::Unknown => None,
        }
    }
}

/// How a call starts: with the call and the components of its path, or with the
/// reason why it is refused at once.
pub open spec fn started(parsed: ParsedArguments, name: Seq<char>, platform: Platform) -> Result<
    (FileCall, Seq<Seq<char>>),
    Seq<char>,
> {
    match parsed {
        ParsedArguments::Unknown => Err("unknown file tool "@ + debug_text(name)),
        ParsedArguments::Read(Err(reason)) => Err(
            caused("invalid "@ + READ_FILE_TOOL@ + " arguments"@, reason@),
        ),
        ParsedArguments::Write(Err(reason)) => Err(
            caused("invalid "@ + WRITE_FILE_TOOL@ + " arguments"@, reason@),
        ),
        ParsedArguments::Read(Ok(read)) => if read.max_bytes == 0 || read.max_bytes
            > MAX_READ_BYTES {
            Err("max_bytes must be between 1 and "@ + decimal(MAX_READ_BYTES as nat))
        } else {
            match relative_path(read.path@, platform) {
                Err(reason) => Err(reason),
                Ok(relative) => Ok(
                    (
                        FileCall::Read { offset: read.offset, max_bytes: read.max_bytes },
                        relative,
                    ),
                ),
            }
        },
        ParsedArguments::Write(Ok(write)) => if byte_length(write.content@) > MAX_WRITE_BYTES {
            Err(
                "content exceeds the "@ + decimal(MAX_WRITE_BYTES as nat) + " byte write limit"@,
            )
        } else {
            match relative_path(write.path@, platform) {
                Err(reason) => Err(reason),
                Ok(relative) => Ok((FileCall::Write { content: write.content }, relative)),
            }
        },
    }
}

/// What a call that is refused at once comes to. Nothing is recorded of a tool
/// that is not known.
pub open spec fn refused(
    operation: Option<FileIoOperation>,
    arguments: Seq<char>,
    reason: Seq<char>,
) -> ExecutionView {
    match operation {
        Some(operation) => failed(operation, arguments, reason),
        None => ExecutionView { response: failure_answer(reason), audit: None },
    }
}

proof fn lemma_started_calls_have_a_path(
    parsed: ParsedArguments,
    name: Seq<char>,
    platform: Platform,
)
    ensures
        started(parsed, name, platform) matches Ok((_, relative)) ==> relative.len() > 0,
{
    match parsed {
        ParsedArguments::Read(Ok(read)) => {
            accepted_paths_lead_down(read.path@, platform);
        },
        ParsedArguments::Write(Ok(write)) => {
            accepted_paths_lead_down(write.path@, platform);
        },
        _ => {},
    }
}

/// A call that was begun: it is under way, or it was refused at once.
#[derive(Clone, Debug, PartialEq, Eq)]
pub enum Begun<'a> {
    Running(ToolRun<'a>),
    Refused(FileToolExecution),
}

/// Parsed arguments as a call and a path.
fn start(parsed: ParsedArguments, name: &str, platform: Platform) -> (r: Result<
    (FileCall, Vec<String>),
    Error,
>)
    ensures
        match r {
            Ok((call, relative)) => started(parsed, name@, platform) == Ok::<
                (FileCall, Seq<Seq<char>>),
                Seq<char>,
            >((call, texts(relative@))),
            Err(error) => started(parsed, name@, platform) == Err::<
                (FileCall, Seq<Seq<char>>),
                Seq<char>,
            >(error@),
        },
{
    match parsed {
        ParsedArguments::Unknown => Err(
            Error::new(join2("unknown file tool ", debug_quoted(name).as_str())),
        ),
        ParsedArguments::Read(Err(reason)) => Err(
            Error::caused(
                join3("invalid ", READ_FILE_TOOL, " arguments").as_str(),
                reason.as_str(),
            ),
        ),
        ParsedArguments::Write(Err(reason)) => Err(
            Error::caused(
                join3("invalid ", WRITE_FILE_TOOL, " arguments").as_str(),
                reason.as_str(),
            ),
        ),
        ParsedArguments::Read(Ok(read)) => {
            if read.max_bytes == 0 || read.max_bytes > MAX_READ_BYTES {
                return Err(
                    Error::new(
                        join2(
                            "max_bytes must be between 1 and ",
                            size_to_decimal(MAX_READ_BYTES).as_str(),
                        ),
                    ),
                );
            }
            match validate_relative_path(read.path.as_str(), platform) {
                Err(error) => Err(error),
                Ok(relative) => Ok(
                    (
                        FileCall::Read { offset: read.offset, max_bytes: read.max_bytes },
                        relative,
                    ),
                ),
            }
        },
        ParsedArguments::Write(Ok(write)) => {
            if text_bytes(write.content.as_str()) > MAX_WRITE_BYTES {
                return Err(
                    Error::new(
                        join3(
                            "content exceeds the ",
                            size_to_decimal(MAX_WRITE_BYTES).as_str(),
                            " byte write limit",
                        ),
                    ),
                );
            }
            match validate_relative_path(write.path.as_str(), platform) {
                Err(error) => Err(error),
                Ok(relative) => Ok((FileCall::Write { content: write.content }, relative)),
            }
        },
    }
}

/// What a failed call comes to.
fn fail(operation: FileIoOperation, arguments: &str, reason: Error) -> (r: FileToolExecution)
    ensures
        r@ == failed(operation, arguments@, reason@),
{
    FileToolExecution {
        response: answer_failure(reason.message()),
        audit: Some(failed_event(operation, arguments, reason.message().to_owned())),
    }
}

impl WorkspaceFiles {
    /// Begins a call of a file tool with its arguments, which come as they were
    /// written and as they were parsed for the tool of that name.
    pub fn execute<'a>(&'a self, name: &str, arguments: String, parsed: ParsedArguments) -> (r:
        Begun<'a>)
        requires
            parsed.operation() == tool_operation(name@),
        ensures
            match started(parsed, name@, self.platform()) {
                Err(reason) => r matches Begun::Refused(execution) && execution@ == refused(
                    tool_operation(name@),
                    arguments@,
                    reason,
                ),
                Ok((call, relative)) => r matches Begun::Running(run) && run@ == (RunView {
                    root: self.root(),
                    shown: self.shown(),
                    platform: self.platform(),
                    arguments: arguments@,
                    call,
                    relative,
                    phase: PhaseView::Checking { next: 0 },
                }) && run.valid(),
            },
    {
        proof {
            lemma_started_calls_have_a_path(parsed, name@, self.platform());
        }
        match start(parsed, name, self.platform) {
            Ok((call, relative)) => {
                assert(texts(relative@).len() == relative@.len());
                Begun::Running(
                    ToolRun {
                        files: self,
                        arguments,
                        call,
                        relative,
                        phase: Phase::Checking { next: 0 },
                    },
                )
            },
            Err(error) => match operation_of_tool(name) {
                Some(operation) => Begun::Refused(fail(operation, arguments.as_str(), error)),
                None => Begun::Refused(
                    FileToolExecution { response: answer_failure(error.message()), audit: None },
                ),
            },
        }
    }
}

// ---------------------------------------------------------------------------
// How a run goes on.

impl RunView {
    /// Whether a run can be under way.
    pub open spec fn is_valid(self) -> bool {
        &&& self.relative.len() > 0
        &&& self.phase matches PhaseView::Checking { next } ==> 0 <= next < self.relative.len()
        &&& (match self.call {
            FileCall::Read { offset, max_bytes } => {
                &&& max_bytes <= MAX_READ_BYTES
                &&& !(self.phase is InspectingTarget)
                &&& !(self.phase is ResolvingTarget)
                &&& !(self.phase is ResolvingParent)
                &&& !(self.phase is Writing)
                &&& self.phase matches PhaseView::Reading { length } ==> offset <= length
            },
            FileCall::Write { content } => {
                &&& byte_length(content@) <= MAX_WRITE_BYTES
                &&& !(self.phase is Resolving)
                &&& !(self.phase is Opening)
                &&& !(self.phase is Reading)
            },
        })
        &&& self.phase matches PhaseView::Opening { path } ==> is_within(path, self.root)
        &&& self.phase matches PhaseView::Writing { target, .. } ==> is_within(target, self.root)
        &&& self.phase matches PhaseView::Finished(execution) ==> execution.audit is Some
    }

    /// Whether an event can come of what is to be done: no more bytes were read
    /// than were asked for, and they stand within what an offset can count.
    pub open spec fn possible(self, event: FileEvent) -> bool {
        match (self.call, event) {
            (
                FileCall::Read { offset, max_bytes },
                FileEvent::Read(ReadBytes::Bytes(bytes)),
            ) => bytes@.len() <= max_bytes && offset + bytes@.len() <= u64::MAX,
            _ => true,
        }
    }
}

/// Every valid run stays valid: whatever comes of what is to be done, only a
/// file below the root is opened or written, and the end is recorded.
pub proof fn runs_stay_valid(run: RunView, event: FileEvent)
    requires
        run.is_valid(),
    ensures
        run.after(event).is_valid(),
{
    match (run.phase, event) {
        (PhaseView::ResolvingParent, FileEvent::Resolved(Ok(path))) => {
            let parent = path_bytes(path@);
            let target = parent.push(encode_utf8(run.relative.last()));
            if is_within(parent, run.root) {
                assert(target.take(run.root.len() as int) =~= parent.take(run.root.len() as int));
            }
        },
        _ => {},
    }
}

impl<'a> ToolRun<'a> {
    /// Whether the run can be under way.
    pub open spec fn valid(self) -> bool {
        self@.is_valid()
    }

    /// What is to be done next.
    pub fn phase(&self) -> (r: &Phase)
        ensures
            r@ == self@.phase,
    {
        &self.phase
    }

    /// What the call asks for.
    pub fn call(&self) -> (r: &FileCall)
        ensures
            *r == self@.call,
    {
        &self.call
    }

    /// The components of the path below the root.
    pub fn relative(&self) -> (r: &Vec<String>)
        ensures
            texts(r@) == self@.relative,
    {
        &self.relative
    }

    /// The path as it is shown.
    pub fn path(&self) -> (r: String)
        ensures
            r@ == self@.path(),
    {
        show_path(&self.relative, self.files.platform)
    }

    /// The components from `from` up to `to`.
    fn components(&self, from: usize, to: usize) -> (r: Vec<String>)
        requires
            from <= to <= self@.relative.len(),
        ensures
            texts(r@) == self@.relative.take(to as int).skip(from as int),
    {
        let mut out: Vec<String> = Vec::new();
        let mut i: usize = from;
        let ghost all = texts(self.relative@);
        assert(all.len() == self.relative@.len());
        assert(texts(out@) =~= all.take(from as int).skip(from as int));
        while i < to
            invariant
                all == texts(self.relative@),
                from <= i <= to <= self.relative@.len(),
                texts(out@) == all.take(i as int).skip(from as int),
            decreases to - i,
        {
            let ghost before = out@;
            out.push(self.relative[i].clone());
            assert(texts(out@) =~= texts(before).push(all[i as int]));
            assert(all.take(i + 1).skip(from as int) =~= all.take(i as int).skip(from as int).push(
                all[i as int],
            ));
            i = i + 1;
        }
        out
    }

    /// The place of the first `n` components as it is shown.
    fn place(&self, n: usize) -> (r: String)
        requires
            n <= self@.relative.len(),
        ensures
            r@ == self@.place(n as int),
    {
        let platform = self.files.platform;
        let first = self.components(0, n);
        assert(texts(first@) =~= self@.relative.take(n as int));
        let path = show_path(&first, platform);
        if !path_starts_with_drive(&self.relative, platform) {
            return join3(self.files.shown.as_str(), separator_text(platform), path.as_str());
        }
        assert(self@.relative.len() == self.relative@.len());
        if n > 1 {
            assert(self@.relative[1] == self.relative@[1]@);
            if begins_with_drive(&chars_of(self.relative[1].as_str())) {
                return show_path(&self.components(1, n), platform);
            }
        }
        path
    }

    /// The operation that the tool of the call is named for.
    fn operation(&self) -> (r: FileIoOperation)
        ensures
            r == self@.call.operation(),
    {
        match self.call {
            FileCall::Read { .. } => FileIoOperation::Read,
            FileCall::Write { .. } => FileIoOperation::Write,
        }
    }

    /// The end of a call that failed for a reason.
    fn failing(&self, reason: Error) -> (r: Phase)
        ensures
            r@ == self@.failing(reason@),
    {
        Phase::Finished(fail(self.operation(), self.arguments.as_str(), reason))
    }

    /// The end of a call that failed in a step on the path.
    fn failing_step(&self, step: &str, reason: &str) -> (r: Phase)
        ensures
            r@ == self@.failing(caused(step@ + self@.path(), reason@)),
    {
        self.failing(Error::caused(join2(step, self.path().as_str()).as_str(), reason))
    }

    /// The end of a call that failed for what the path is.
    fn failing_path(&self, what: &str) -> (r: Phase)
        ensures
            r@ == self@.failing(self@.path() + what@),
    {
        self.failing(Error::new(join2(self.path().as_str(), what)))
    }

    /// The end of a call whose path leads out of the workspace.
    fn escaping(&self) -> (r: Phase)
        ensures
            r@ == self@.escaping(),
    {
        self.failing_path(" resolves outside the current working directory")
    }

    /// What comes after the components were checked.
    fn checked(&self) -> (r: Phase)
        ensures
            r@ == self@.checked(),
    {
        match self.call {
            FileCall::Read { .. } => Phase::Resolving,
            FileCall::Write { .. } => Phase::InspectingTarget,
        }
    }

    /// What comes after a component was inspected. Only the last may be a link.
    fn after_check(&self, next: usize, entry: Entry) -> (r: Phase)
        requires
            next < self@.relative.len(),
        ensures
            r@ == self@.after_check(next as int, entry),
    {
        assert(self@.relative.len() == self.relative@.len());
        let n: usize = self.relative.len();
        match entry {
            Entry::Unknown(reason) => self.failing(
                Error::caused(
                    join2("could not inspect ", self.place(next + 1).as_str()).as_str(),
                    reason.as_str(),
                ),
            ),
            Entry::Missing => self.checked(),
            Entry::Link => if next + 1 < n {
                self.failing(Error::of("path cannot traverse symbolic links"))
            } else {
                self.checked()
            },
            _ => if next + 1 < n {
                Phase::Checking { next: next + 1 }
            } else {
                self.checked()
            },
        }
    }

    /// What comes after the path of a read was resolved.
    fn after_resolution(&self, resolved: Result<Vec<Vec<u8>>, String>) -> (r: Phase)
        ensures
            r@ == self@.after_resolution(resolved),
    {
        match resolved {
            Err(reason) => self.failing_step("could not resolve ", reason.as_str()),
            Ok(path) => if within(&path, &self.files.root) {
                Phase::Opening { path }
            } else {
                self.escaping()
            },
        }
    }

    /// What comes after a file was opened to be read from an offset.
    fn after_opening(&self, offset: u64, opened: OpenedFile) -> (r: Phase)
        ensures
            r@ == self@.after_opening(offset, opened),
    {
        match opened {
            OpenedFile::NotOpened(reason) => self.failing_step("could not open ", reason.as_str()),
            OpenedFile::NotInspected(reason) => self.failing_step(
                "could not inspect ",
                reason.as_str(),
            ),
            OpenedFile::Opened { is_file, length } => if !is_file {
                self.failing_path(" is not a regular file")
            } else if offset > length {
                let mut message = join3("offset ", to_decimal(offset).as_str(), " is beyond the ");
                message.push_str(to_decimal(length).as_str());
                message.push_str(" byte file ");
                message.push_str(self.path().as_str());
                self.failing(Error::new(message))
            } else {
                Phase::Reading { length }
            },
        }
    }

    /// What comes after a file was read from an offset.
    fn after_reading(&self, offset: u64, length: u64, read: ReadBytes) -> (r: Phase)
        requires
            read matches ReadBytes::Bytes(bytes) ==> offset + bytes@.len() <= u64::MAX,
        ensures
            r@ == self@.after_reading(offset, length, read),
    {
        match read {
            ReadBytes::NotSought(reason) => self.failing_step("could not seek ", reason.as_str()),
            ReadBytes::NotRead(reason) => self.failing_step("could not read ", reason.as_str()),
            ReadBytes::Bytes(bytes) => match utf8_prefix(&bytes) {
                Err(error) => self.failing(error),
                Ok(content) => {
                    proof {
                        crate::bytes::prefixes_keep_their_bytes(bytes@);
                    }
                    let next_offset: u64 = offset + text_bytes(content.as_str()) as u64;
                    let path = self.path();
                    let response = answer_read(
                        path.as_str(),
                        offset,
                        next_offset,
                        next_offset == length,
                        content.as_str(),
                    );
                    Phase::Finished(
                        FileToolExecution {
                            response,
                            audit: Some(
                                FileIoEvent {
                                    operation: FileIoOperation::Read,
                                    path: Some(path),
                                    offset: Some(offset),
                                    outcome: FileIoOutcome::Succeeded { content },
                                },
                            ),
                        },
                    )
                },
            },
        }
    }

    /// What comes after the place of a write was inspected.
    fn after_inspection(&self, entry: Entry) -> (r: Phase)
        ensures
            r@ == self@.after_inspection(entry),
    {
        match entry {
            Entry::Unknown(reason) => self.failing_step("could not inspect ", reason.as_str()),
            Entry::Link => self.failing(
                Error::new(
                    join2("refusing to write through the symbolic link ", self.path().as_str()),
                ),
            ),
            Entry::Missing => if self.relative.len() == 1 && path_starts_with_drive(
                &self.relative,
                self.files.platform,
            ) {
                self.failing(Error::of("the file path has no parent directory"))
            } else {
                Phase::ResolvingParent
            },
            Entry::File => Phase::ResolvingTarget { is_file: true },
            Entry::Other => Phase::ResolvingTarget { is_file: false },
        }
    }

    /// What comes after the place of a write, where something stands, was
    /// resolved.
    fn after_target(&self, is_file: bool, resolved: Result<Vec<Vec<u8>>, String>) -> (r: Phase)
        ensures
            r@ == self@.after_target(is_file, resolved),
    {
        match resolved {
            Err(reason) => self.failing_step("could not resolve ", reason.as_str()),
            Ok(path) => if !within(&path, &self.files.root) {
                self.escaping()
            } else if !is_file {
                self.failing_path(" is not a regular file")
            } else {
                Phase::Writing { target: path, modify: true }
            },
        }
    }

    /// What comes after the directory of a new file was resolved.
    fn after_parent(&self, resolved: Result<Vec<Vec<u8>>, String>) -> (r: Phase)
        requires
            self@.relative.len() > 0,
        ensures
            r@ == self@.after_parent(resolved),
    {
        match resolved {
            Err(reason) => {
                let step = join3(
                    "parent directory for ",
                    self.path().as_str(),
                    " does not exist",
                );
                self.failing(Error::caused(step.as_str(), reason.as_str()))
            },
            Ok(path) => if !within(&path, &self.files.root) {
                self.escaping()
            } else {
                assert(self@.relative.len() == self.relative@.len());
                let name = self.relative[self.relative.len() - 1].as_str();
                assert(self@.relative.last() == name@);
                if text_eq(name, ".") || text_eq(name, "..") {
                    return self.failing(Error::of("the file path has no file name"));
                }
                if self.files.platform == Platform::Windows && begins_with_drive(&chars_of(name)) {
                    return self.escaping();
                }
                let mut target = path;
                target.push(bytes_of(name));
                assert(path_bytes(target@) =~= path_bytes(path@).push(encode_utf8(name@)));
                Phase::Writing { target, modify: false }
            },
        }
    }

    /// What comes after a file was written.
    fn after_writing(&self, content: &str, modify: bool, written: Result<(), String>) -> (r: Phase)
        ensures
            r@ == self@.after_writing(content@, modify, written),
    {
        match written {
            Err(reason) => self.failing(Error::new(reason)),
            Ok(_) => {
                let path = self.path();
                let response = answer_write(path.as_str(), text_bytes(content));
                Phase::Finished(
                    FileToolExecution {
                        response,
                        audit: Some(
                            FileIoEvent {
                                operation: if modify {
                                    FileIoOperation::Modify
                                } else {
                                    FileIoOperation::Write
                                },
                                path: Some(path),
                                offset: None,
                                outcome: FileIoOutcome::Succeeded { content: content.to_owned() },
                            },
                        ),
                    },
                )
            },
        }
    }

    /// What is to be done after an event, where anything new is.
    fn next(&self, event: FileEvent) -> (r: Option<Phase>)
        requires
            self.valid(),
            self@.possible(event),
        ensures
            match r {
                Some(phase) => phase@ == self@.next(event),
                None => self@.phase == self@.next(event),
            },
    {
        match (&self.phase, event) {
            (Phase::Checking { next }, FileEvent::Inspected(entry)) => Some(
                self.after_check(*next, entry),
            ),
            (Phase::Resolving, FileEvent::Resolved(resolved)) => Some(
                self.after_resolution(resolved),
            ),
            (Phase::Opening { .. }, FileEvent::Opened(opened)) => match &self.call {
                FileCall::Read { offset, .. } => Some(self.after_opening(*offset, opened)),
                FileCall::Write { .. } => None,
            },
            (Phase::Reading { length }, FileEvent::Read(read)) => match &self.call {
                FileCall::Read { offset, .. } => Some(self.after_reading(*offset, *length, read)),
                FileCall::Write { .. } => None,
            },
            (Phase::InspectingTarget, FileEvent::Inspected(entry)) => Some(
                self.after_inspection(entry),
            ),
            (Phase::ResolvingTarget { is_file }, FileEvent::Resolved(resolved)) => Some(
                self.after_target(*is_file, resolved),
            ),
            (Phase::ResolvingParent, FileEvent::Resolved(resolved)) => Some(
                self.after_parent(resolved),
            ),
            (Phase::Writing { modify, .. }, FileEvent::Wrote(written)) => match &self.call {
                FileCall::Read { .. } => None,
                FileCall::Write { content } => Some(
                    self.after_writing(content.as_str(), *modify, written),
                ),
            },
            _ => None,
        }
    }

    /// Takes note of what came of what was to be done. An event that was not
    /// asked for changes nothing.
    pub fn step(&mut self, event: FileEvent)
        requires
            old(self).valid(),
            old(self)@.possible(event),
        ensures
            final(self)@ == old(self)@.after(event),
            final(self).valid(),
    {
        proof {
            runs_stay_valid(self@, event);
        }
        match self.next(event) {
            Some(phase) => {
                self.phase = phase;
            },
            None => {},
        }
    }
}

// ---------------------------------------------------------------------------
// Laws.

impl RunView {
    /// The run after a list of events.
    pub open spec fn after_all(self, events: Seq<FileEvent>) -> RunView
        decreases events.len(),
    {
        if events.len() == 0 {
            self
        } else {
            self.after_all(events.drop_last()).after(events.last())
        }
    }

    /// Whether an event tells what came of what is to be done.
    pub open spec fn awaits(self, event: FileEvent) -> bool {
        match self.phase {
            PhaseView::Checking { .. } => event is Inspected,
            PhaseView::Resolving => event is Resolved,
            PhaseView::Opening { .. } => event is Opened,
            PhaseView::Reading { .. } => event is Read,
            PhaseView::InspectingTarget => event is Inspected,
            PhaseView::ResolvingTarget { .. } => event is Resolved,
            PhaseView::ResolvingParent => event is Resolved,
            PhaseView::Writing { .. } => event is Wrote,
            PhaseView::Finished(_) => false,
        }
    }

    /// How many things are to be done at most.
    pub open spec fn steps_left(self) -> int {
        match self.phase {
            PhaseView::Checking { next } => self.relative.len() - next + 3,
            PhaseView::Resolving | PhaseView::InspectingTarget => 3,
            PhaseView::Opening { .. } => 2,
            PhaseView::ResolvingTarget { .. } | PhaseView::ResolvingParent => 2,
            PhaseView::Reading { .. } | PhaseView::Writing { .. } => 1,
            PhaseView::Finished(_) => 0,
        }
    }
}

/// No access leaves the workspace: whatever the file system answers, and however
/// it changes in the meantime, only a path that was resolved to stand below the
/// root is opened, and only a file below it is written.
pub proof fn no_access_leaves_the_workspace(run: RunView, events: Seq<FileEvent>)
    requires
        run.is_valid(),
    ensures
        run.after_all(events).root == run.root,
        run.after_all(events).phase matches PhaseView::Opening { path } ==> is_within(
            path,
            run.root,
        ),
        run.after_all(events).phase matches PhaseView::Writing { target, .. } ==> is_within(
            target,
            run.root,
        ),
        run.after_all(events).is_valid(),
    decreases events.len(),
{
    if events.len() > 0 {
        no_access_leaves_the_workspace(run, events.drop_last());
        runs_stay_valid(run.after_all(events.drop_last()), events.last());
    }
}

/// Every run comes to an end: each thing that is done leaves fewer to be done.
pub proof fn runs_come_to_an_end(run: RunView, event: FileEvent)
    requires
        run.is_valid(),
        run.awaits(event),
    ensures
        0 <= run.after(event).steps_left() < run.steps_left(),
{
}

/// A run that has come to its end is recorded, and stays as it is.
pub proof fn ends_are_recorded(run: RunView, event: FileEvent)
    requires
        run.is_valid(),
        run.phase is Finished,
    ensures
        run.phase->Finished_0.audit is Some,
        run.after(event) == run,
{
}

/// Links are not followed on the way to a file, and no file is written through
/// one: the call fails instead.
pub proof fn links_are_refused(run: RunView, event: FileEvent)
    requires
        run.is_valid(),
        event == FileEvent::Inspected(Entry::Link),
    ensures
        run.phase matches PhaseView::Checking { next } ==> (next + 1 < run.relative.len()
            ==> run.next(event) == run.failing("path cannot traverse symbolic links"@)),
        run.phase is InspectingTarget ==> run.next(event) == run.failing(
            "refusing to write through the symbolic link "@ + run.path(),
        ),
{
}

/// Only what was written is recorded as written: a call is recorded to have
/// succeeded with the content that it asked to write, and within the limit.
pub proof fn recorded_writes_are_what_was_asked(run: RunView, event: FileEvent)
    requires
        run.is_valid(),
        run.phase is Writing,
    ensures
        run.next(event) matches PhaseView::Finished(execution) ==> (
        execution.audit->0.outcome matches OutcomeView::Succeeded { content } ==> {
            &&& event matches FileEvent::Wrote(Ok(_))
            &&& run.call matches FileCall::Write { content: asked } && content == asked@
            &&& byte_length(content) <= MAX_WRITE_BYTES
        }),
{
}

/// Reads are bounded: no more is handed out than was asked for, and never more
/// than the limit. What is handed out is exactly what was read, but for at most
/// three bytes of a character that is left for the next read.
pub proof fn reads_are_bounded(run: RunView, bytes: Vec<u8>)
    requires
        run.is_valid(),
        run.possible(FileEvent::Read(ReadBytes::Bytes(bytes))),
        run.phase is Reading,
    ensures
        run.next(FileEvent::Read(ReadBytes::Bytes(bytes))) matches PhaseView::Finished(execution)
            ==> (execution.audit->0.outcome matches OutcomeView::Succeeded { content } ==> {
            let n = byte_length(content) as int;
            &&& run.call matches FileCall::Read { max_bytes, .. } && n <= max_bytes
            &&& n <= MAX_READ_BYTES
            &&& n <= bytes@.len() <= n + 3
            &&& encode_utf8(content) == bytes@.take(n)
        }),
{
    crate::bytes::prefixes_keep_their_bytes(bytes@);
}

/// A read that succeeds tells the model where it stands: it hands out the content
/// that is recorded, says at which byte the next read goes on, and reports the end
/// of the file exactly where no byte of the file is left behind that content. Text
/// is always handed out.
pub proof fn reads_tell_where_they_end(
    run: RunView,
    offset: u64,
    max_bytes: usize,
    length: u64,
    bytes: Vec<u8>,
    text: Seq<char>,
)
    requires
        run.phase == (PhaseView::Reading { length }),
        run.call == (FileCall::Read { offset, max_bytes }),
    ensures
        ({
            let next = run.next(FileEvent::Read(ReadBytes::Bytes(bytes)));
            &&& next matches PhaseView::Finished(execution)
            &&& execution.audit matches Some(event)
            &&& event.operation == FileIoOperation::Read
            &&& (event.outcome matches OutcomeView::Succeeded { content } ==> {
                let end = offset + byte_length(content);
                &&& event.path == Some(run.path())
                &&& event.offset == Some(offset)
                &&& execution.response == "{\"content\":"@ + json_text(content) + ",\"eof\":"@ + (
                if end == length {
                    "true"@
                } else {
                    "false"@
                }) + ",\"next_offset\":"@ + decimal(end as nat) + ",\"offset\":"@ + decimal(
                    offset as nat,
                ) + ",\"ok\":true,\"path\":"@ + json_text(run.path()) + "}"@
            })
            &&& bytes@ == encode_utf8(text) ==> (event.outcome matches OutcomeView::Succeeded {
                content,
            } && content == text)
            &&& (event.outcome matches OutcomeView::Failed { reason } ==> reason
                == "file is not valid UTF-8"@)
        }),
{
    if bytes@ == encode_utf8(text) {
        vstd::utf8::encode_utf8_valid_utf8(text);
        vstd::utf8::encode_utf8_decode_utf8(text);
    }
}

/// A file that is read again from where the last read ended, with enough bytes at
/// a time, is handed out whole: what two reads in a row hand out is what stands
/// between the first offset and the last.
pub proof fn reads_go_on_where_the_last_ended(file: Seq<u8>, offset: int, n: int, m: int)
    requires
        0 <= offset,
        0 <= n,
        0 <= m,
        offset + n <= file.len(),
    ensures
        utf8_prefix_text(file.subrange(offset, offset + n)) matches Ok(first) ==> {
            let next = offset + byte_length(first);
            next + m <= file.len() ==> (utf8_prefix_text(
                file.subrange(next as int, next + m),
            ) matches Ok(second) ==> encode_utf8(first) + encode_utf8(second) == file.subrange(
                offset,
                next + byte_length(second),
            ))
        },
{
    let part = file.subrange(offset, offset + n);
    if utf8_prefix_text(part) is Ok {
        let first = utf8_prefix_text(part)->Ok_0;
        let next = offset + byte_length(first);
        crate::bytes::prefixes_keep_their_bytes(part);
        if next + m <= file.len() {
            let other = file.subrange(next as int, next + m);
            if utf8_prefix_text(other) is Ok {
                let second = utf8_prefix_text(other)->Ok_0;
                crate::bytes::prefixes_keep_their_bytes(other);
                assert(encode_utf8(first) + encode_utf8(second) =~= file.subrange(
                    offset,
                    next + byte_length(second),
                ));
            }
        }
    }
}

/// A write that succeeds is answered with the number of bytes of the content and
/// recorded with all of it: as a change where the file was there before, and as a
/// new file where it was not. One that fails is answered and recorded with the
/// reason.
pub proof fn writes_are_answered_and_recorded(
    run: RunView,
    target: Seq<Seq<u8>>,
    modify: bool,
    asked: String,
    written: Result<(), String>,
)
    requires
        run.phase == (PhaseView::Writing { target, modify }),
        run.call == (FileCall::Write { content: asked }),
    ensures
        ({
            let next = run.next(FileEvent::Wrote(written));
            &&& next matches PhaseView::Finished(execution)
            &&& execution.audit matches Some(event)
            &&& written is Ok ==> {
                &&& execution.response == "{\"bytes_written\":"@ + decimal(byte_length(asked@))
                    + ",\"ok\":true,\"path\":"@ + json_text(run.path()) + "}"@
                &&& event.operation == (if modify {
                    FileIoOperation::Modify
                } else {
                    FileIoOperation::Write
                })
                &&& event.path == Some(run.path())
                &&& event.offset is None
                &&& event.outcome == (OutcomeView::Succeeded { content: asked@ })
            }
            &&& (written matches Err(reason) ==> {
                &&& execution.response == "{\"error\":"@ + json_text(reason@) + ",\"ok\":false}"@
                &&& event.outcome == (OutcomeView::Failed { reason: reason@ })
            })
        }),
{
}

/// A call succeeds only by a file that was read or written. In every other end
/// the model is told the reason that is recorded, under the tool that was called.
pub proof fn failures_are_told_and_recorded(run: RunView, event: FileEvent)
    requires
        run.is_valid(),
        !(run.phase is Finished),
    ensures
        run.next(event) matches PhaseView::Finished(execution) ==> {
            &&& execution.audit matches Some(access)
            &&& match access.outcome {
                OutcomeView::Succeeded { .. } => {
                    ||| event matches FileEvent::Read(ReadBytes::Bytes(_))
                    ||| event matches FileEvent::Wrote(Ok(_))
                },
                OutcomeView::Failed { reason } => {
                    &&& execution.response == "{\"error\":"@ + json_text(reason)
                        + ",\"ok\":false}"@
                    &&& access.operation == (if run.call is Read {
                        FileIoOperation::Read
                    } else {
                        FileIoOperation::Write
                    })
                },
            }
        },
{
}

/// The way to a file is checked component by component, from the root down, until
/// one is missing: only then is a file looked for.
pub proof fn the_way_is_checked_in_order(run: RunView, next: int, entry: Entry)
    requires
        run.is_valid(),
        run.phase == (PhaseView::Checking { next }),
    ensures
        ({
            let after = run.next(FileEvent::Inspected(entry));
            let searched = if run.call is Read {
                PhaseView::Resolving
            } else {
                PhaseView::InspectingTarget
            };
            &&& (entry is File || entry is Other) && next + 1 < run.relative.len() ==> after == (
            PhaseView::Checking { next: next + 1 })
            &&& (entry is File || entry is Other || entry is Link) && next + 1 == run.relative.len()
                ==> after == searched
            &&& entry is Missing ==> after == searched
            &&& (entry is Link && next + 1 < run.relative.len()) || entry is Unknown ==> (
            after matches PhaseView::Finished(execution) && execution.audit is Some
                && execution.audit->0.outcome is Failed)
        }),
{
}

/// A file is read only where it is a regular file that reaches to the offset. A
/// read beyond its end is refused with both numbers.
pub proof fn only_regular_files_are_read(
    run: RunView,
    path: Seq<Seq<u8>>,
    offset: u64,
    max_bytes: usize,
    is_file: bool,
    length: u64,
)
    requires
        run.phase == (PhaseView::Opening { path }),
        run.call == (FileCall::Read { offset, max_bytes }),
    ensures
        ({
            let after = run.next(FileEvent::Opened(OpenedFile::Opened { is_file, length }));
            &&& is_file && offset <= length <==> after == (PhaseView::Reading { length })
            &&& !is_file ==> (after matches PhaseView::Finished(execution)
                && execution.audit->0.outcome == (OutcomeView::Failed {
                reason: run.path() + " is not a regular file"@,
            }))
            &&& is_file && offset > length ==> (after matches PhaseView::Finished(execution)
                && execution.audit->0.outcome == (OutcomeView::Failed {
                reason: "offset "@ + decimal(offset as nat) + " is beyond the "@ + decimal(
                    length as nat,
                ) + " byte file "@ + run.path(),
            }))
        }),
{
}

/// The file that is opened is the one that the path was resolved to, and it is
/// opened exactly where that stands within the root.
pub proof fn resolved_files_are_opened(run: RunView, resolved: Vec<Vec<u8>>)
    requires
        run.phase is Resolving,
    ensures
        ({
            let path = path_bytes(resolved@);
            let after = run.next(FileEvent::Resolved(Ok(resolved)));
            &&& is_within(path, run.root) ==> after == (PhaseView::Opening { path })
            &&& !is_within(path, run.root) ==> (after matches PhaseView::Finished(execution)
                && execution.audit->0.outcome == (OutcomeView::Failed {
                reason: run.path() + " resolves outside the current working directory"@,
            }))
        }),
{
}

/// A file that is there is changed in place, at the path that it was resolved to.
/// One that is missing is created under its own name in the directory that its
/// parent was resolved to. Nothing but a regular file within the root is changed.
pub proof fn files_are_written_where_they_stand(
    run: RunView,
    entry: Entry,
    resolved: Vec<Vec<u8>>,
)
    requires
        run.is_valid(),
        run.phase is InspectingTarget,
    ensures
        ({
            let path = path_bytes(resolved@);
            let inspected = run.after(FileEvent::Inspected(entry));
            let next = inspected.next(FileEvent::Resolved(Ok(resolved)));
            &&& entry is File && is_within(path, run.root) ==> next == (PhaseView::Writing {
                target: path,
                modify: true,
            })
            &&& entry is Missing && run.platform == Platform::Unix && is_within(path, run.root)
                && run.relative.last() != "."@ && run.relative.last() != ".."@ ==> next == (
            PhaseView::Writing {
                target: path.push(encode_utf8(run.relative.last())),
                modify: false,
            })
            &&& !is_within(path, run.root) || entry is Other || entry is Link || entry is Unknown
                ==> (next matches PhaseView::Finished(execution)
                && execution.audit->0.outcome is Failed)
        }),
{
}

/// A path stands within a directory exactly where it is the directory with any
/// components behind it.
pub proof fn paths_within_extend_the_directory(directory: Seq<Seq<u8>>, path: Seq<Seq<u8>>)
    ensures
        is_within(path, directory) <==> exists|rest: Seq<Seq<u8>>| path == #[trigger] (directory
            + rest),
        is_within(directory, directory),
{
    if is_within(path, directory) {
        assert(path =~= directory + path.skip(directory.len() as int));
    }
    if exists|rest: Seq<Seq<u8>>| path == #[trigger] (directory + rest) {
        let rest = choose|rest: Seq<Seq<u8>>| path == #[trigger] (directory + rest);
        assert((directory + rest).take(directory.len() as int) =~= directory);
    }
    assert(directory.take(directory.len() as int) =~= directory);
}

/// A read is begun exactly where it asks for 1 to 32768 bytes of an acceptable
/// path, and then from the offset and for the bytes that it asks for. No file is
/// touched otherwise.
pub proof fn reads_begin_as_asked(read: ReadFileArguments, name: Seq<char>, platform: Platform)
    ensures
        match started(ParsedArguments::Read(Ok(read)), name, platform) {
            Ok((call, relative)) => {
                &&& call == (FileCall::Read { offset: read.offset, max_bytes: read.max_bytes })
                &&& relative_path(read.path@, platform) == Ok::<Seq<Seq<char>>, Seq<char>>(relative)
                &&& 1 <= read.max_bytes <= 32768
            },
            Err(reason) => {
                ||| (read.max_bytes < 1 || read.max_bytes > 32768) && reason
                    == "max_bytes must be between 1 and "@ + "32768"@
                ||| relative_path(read.path@, platform) == Err::<Seq<Seq<char>>, Seq<char>>(reason)
            },
        },
{
    reveal_strlit("32768");
    reveal_with_fuel(crate::number::digits, 5);
    assert(decimal(32768) =~= "32768"@);
}

/// A write is begun exactly where it has at most 65536 bytes for an acceptable
/// path, and then with all of its content. No file is touched otherwise.
pub proof fn writes_begin_as_asked(write: WriteFileArguments, name: Seq<char>, platform: Platform)
    ensures
        match started(ParsedArguments::Write(Ok(write)), name, platform) {
            Ok((call, relative)) => {
                &&& call == (FileCall::Write { content: write.content })
                &&& relative_path(write.path@, platform) == Ok::<Seq<Seq<char>>, Seq<char>>(
                    relative,
                )
                &&& byte_length(write.content@) <= 65536
            },
            Err(reason) => {
                ||| byte_length(write.content@) > 65536 && reason == "content exceeds the "@
                    + "65536"@ + " byte write limit"@
                ||| relative_path(write.path@, platform) == Err::<Seq<Seq<char>>, Seq<char>>(reason)
            },
        },
{
    reveal_strlit("65536");
    reveal_with_fuel(crate::number::digits, 5);
    assert(decimal(65536) =~= "65536"@);
}

/// Calls that cannot be understood are answered with what is wrong with them.
/// Those of a known tool are recorded, and those of an unknown one are not.
pub proof fn bad_calls_are_refused(
    name: Seq<char>,
    arguments: Seq<char>,
    reason: String,
    why: Seq<char>,
    platform: Platform,
)
    ensures
        started(ParsedArguments::Unknown, name, platform) == Err::<
            (FileCall, Seq<Seq<char>>),
            Seq<char>,
        >("unknown file tool "@ + debug_text(name)),
        started(ParsedArguments::Read(Err(reason)), name, platform) == Err::<
            (FileCall, Seq<Seq<char>>),
            Seq<char>,
        >("invalid "@ + "read_file"@ + " arguments"@ + ": "@ + reason@),
        started(ParsedArguments::Write(Err(reason)), name, platform) == Err::<
            (FileCall, Seq<Seq<char>>),
            Seq<char>,
        >("invalid "@ + "write_file"@ + " arguments"@ + ": "@ + reason@),
        tool_operation("read_file"@) == Some(FileIoOperation::Read),
        tool_operation("write_file"@) == Some(FileIoOperation::Write),
        tool_operation(name) is Some ==> name == "read_file"@ || name == "write_file"@,
        refused(tool_operation(name), arguments, why).response == "{\"error\":"@ + json_text(why)
            + ",\"ok\":false}"@,
        match tool_operation(name) {
            None => refused(None, arguments, why).audit is None,
            Some(operation) => refused(Some(operation), arguments, why).audit matches Some(event)
                && event.operation == operation && event.outcome == (OutcomeView::Failed {
                reason: why,
            }),
        },
{
    reveal_strlit("read_file");
    reveal_strlit("write_file");
    assert("read_file"@.len() == 9 && "write_file"@.len() == 10);
}

/// File tools work in a directory exactly where it was resolved, is a directory and
/// is not the root of the file system, and then in that very directory.
pub proof fn tools_work_in_real_directories(
    working_directory: Seq<char>,
    facts: Option<RootFacts>,
)
    ensures
        accepted_root(working_directory, facts) is Ok <==> (facts matches Some(known)
            && known.has_parent && known.is_directory),
        accepted_root(working_directory, facts) matches Ok(root) ==> root == path_bytes(
            facts->0.path@,
        ),
        facts is None ==> accepted_root(working_directory, facts) == Err::<Seq<Seq<u8>>, Seq<char>>(
            "could not resolve file tool root "@ + working_directory,
        ),
        facts matches Some(known) ==> !known.has_parent ==> accepted_root(working_directory, facts)
            == Err::<Seq<Seq<u8>>, Seq<char>>(
            "file tools cannot use a filesystem root as their working directory"@,
        ),
        facts matches Some(known) ==> known.has_parent && !known.is_directory ==> accepted_root(
            working_directory,
            facts,
        ) == Err::<Seq<Seq<u8>>, Seq<char>>(
            "file tool root "@ + known.shown@ + " is not a directory"@,
        ),
{
}

/// Whether a call ended for a reason, which is recorded.
pub open spec fn ended_for(phase: PhaseView, reason: Seq<char>) -> bool {
    phase matches PhaseView::Finished(execution) && execution.audit is Some
        && execution.audit->0.outcome == (OutcomeView::Failed { reason })
}

/// A write is refused for what stands in its way: a link, something that is no
/// regular file, a place outside the root, or a directory that is not there. What
/// could not be done is told with the reason.
pub proof fn writes_are_refused_for_a_reason(
    run: RunView,
    reason: String,
    resolved: Vec<Vec<u8>>,
    is_file: bool,
)
    requires
        run.is_valid(),
    ensures
        run.phase is InspectingTarget ==> {
            &&& ended_for(
                run.next(FileEvent::Inspected(Entry::Link)),
                "refusing to write through the symbolic link "@ + run.path(),
            )
            &&& ended_for(
                run.next(FileEvent::Inspected(Entry::Unknown(reason))),
                "could not inspect "@ + run.path() + ": "@ + reason@,
            )
        },
        run.phase == (PhaseView::ResolvingTarget { is_file }) ==> {
            &&& !is_within(path_bytes(resolved@), run.root) ==> ended_for(
                run.next(FileEvent::Resolved(Ok(resolved))),
                run.path() + " resolves outside the current working directory"@,
            )
            &&& is_within(path_bytes(resolved@), run.root) && !is_file ==> ended_for(
                run.next(FileEvent::Resolved(Ok(resolved))),
                run.path() + " is not a regular file"@,
            )
            &&& ended_for(
                run.next(FileEvent::Resolved(Err(reason))),
                "could not resolve "@ + run.path() + ": "@ + reason@,
            )
        },
        run.phase is ResolvingParent ==> {
            &&& !is_within(path_bytes(resolved@), run.root) ==> ended_for(
                run.next(FileEvent::Resolved(Ok(resolved))),
                run.path() + " resolves outside the current working directory"@,
            )
            &&& is_within(path_bytes(resolved@), run.root) && (run.relative.last() == "."@
                || run.relative.last() == ".."@) ==> ended_for(
                run.next(FileEvent::Resolved(Ok(resolved))),
                "the file path has no file name"@,
            )
            &&& ended_for(
                run.next(FileEvent::Resolved(Err(reason))),
                "parent directory for "@ + run.path() + " does not exist"@ + ": "@ + reason@,
            )
        },
{
}

/// A read that could not be done is told with the step that failed and the reason.
pub proof fn reads_are_refused_for_a_reason(run: RunView, reason: String)
    requires
        run.is_valid(),
    ensures
        run.phase is Resolving ==> ended_for(
            run.next(FileEvent::Resolved(Err(reason))),
            "could not resolve "@ + run.path() + ": "@ + reason@,
        ),
        run.phase is Opening ==> {
            &&& ended_for(
                run.next(FileEvent::Opened(OpenedFile::NotOpened(reason))),
                "could not open "@ + run.path() + ": "@ + reason@,
            )
            &&& ended_for(
                run.next(FileEvent::Opened(OpenedFile::NotInspected(reason))),
                "could not inspect "@ + run.path() + ": "@ + reason@,
            )
        },
        run.phase is Reading ==> {
            &&& ended_for(
                run.next(FileEvent::Read(ReadBytes::NotSought(reason))),
                "could not seek "@ + run.path() + ": "@ + reason@,
            )
            &&& ended_for(
                run.next(FileEvent::Read(ReadBytes::NotRead(reason))),
                "could not read "@ + run.path() + ": "@ + reason@,
            )
        },
{
}

/// The path of a call is shown as it leads down from the root, and a component on
/// the way to it as it stands below the root.
pub proof fn paths_are_shown_below_the_root(run: RunView, n: int)
    requires
        run.platform == Platform::Unix,
        0 < n <= run.relative.len(),
    ensures
        run.path() == joined(run.relative, "/"@),
        run.place(n) == run.shown + "/"@ + joined(run.relative.take(n), "/"@),
{
}

/// Whatever the file system answers is taken: only the bytes of a read are bound to
/// be no more than were asked for.
pub proof fn answers_of_the_file_system_are_taken(run: RunView, event: FileEvent)
    ensures
        !(event is Read) ==> run.possible(event),
        event matches FileEvent::Read(ReadBytes::NotRead(_)) ==> run.possible(event),
        event matches FileEvent::Read(ReadBytes::NotSought(_)) ==> run.possible(event),
        !(run.call is Read) ==> run.possible(event),
{
}

/// On Windows a drive alone names no file: there is nothing to create in its place.
/// A drive with a name behind it does, and is shown as it is written, whatever the
/// root is.
pub proof fn drives_alone_name_no_file(run: RunView, drive: Seq<char>, name: Seq<char>)
    requires
        run.is_valid(),
        run.platform == Platform::Windows,
        drive.len() == 2,
        drive[1] == ':',
        'a' <= drive[0] <= 'z' || 'A' <= drive[0] <= 'Z',
        run.phase is InspectingTarget,
    ensures
        run.relative == seq![drive] ==> ended_for(
            run.next(FileEvent::Inspected(Entry::Missing)),
            "the file path has no parent directory"@,
        ),
        run.relative == seq![drive, name] ==> {
            &&& run.next(FileEvent::Inspected(Entry::Missing)) == PhaseView::ResolvingParent
            &&& run.path() == drive + name
            &&& run.place(1) == drive
            &&& !names_drive(name) ==> run.place(2) == drive + name
        },
{
    if run.relative == seq![drive, name] {
        let path = run.relative;
        assert(path.skip(1) =~= seq![name]);
        assert(path.take(2) =~= path);
        let one = path.take(1);
        assert(one =~= seq![drive]);
        assert(one.skip(1) =~= seq![]);
        assert(joined(one.skip(1), "\\"@) =~= seq![]);
        assert(drive + joined(one.skip(1), "\\"@) =~= drive);
    }
}

} // verus!
