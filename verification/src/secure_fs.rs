//! Private files: what is accepted as one, and how one is created or replaced.
//!
//! Creating and replacing are `FileTask`s. A task says what is to be done to the
//! file system next and is told what came of that.
use vstd::prelude::*;

use crate::error::{caused, outcome, Error};
use crate::number::{
    decimal, decimals_stand_for_their_number, digit, digits, in_base, pad_zeros, zero_padded,
};
use crate::text::{join2, join3, opt_text};

verus! {

/// What stands at a path. A link is not followed.
#[derive(Clone, Debug, PartialEq, Eq)]
pub enum Metadata {
    /// Nothing, in the words of the operating system.
    Missing(String),
    /// It could not be told, for a reason.
    Unknown(String),
    /// A symbolic link, or a reparse point of Windows.
    Link,
    Directory,
    /// A regular file, with its mode where the operating system has one.
    File { mode: Option<u32> },
    Other,
}

// ---------------------------------------------------------------------------
// Files.

/// Whether a mode gives nothing to the group and to others.
pub open spec fn is_private_mode(mode: u32) -> bool {
    mode % 64 == 0
}

/// The permissions of a mode, as they are shown.
pub open spec fn shown_mode(mode: u32) -> Seq<char> {
    zero_padded(digits((mode % 512) as nat, 8), 3)
}

/// Whether what stands at a path is accepted as a private file, or why not.
pub open spec fn private_file(path: Seq<char>, description: Seq<char>, found: Metadata) -> Result<
    (),
    Seq<char>,
> {
    match found {
        Metadata::Missing(reason) | Metadata::Unknown(reason) => Err(
            caused("could not inspect "@ + description + " at "@ + path, reason@),
        ),
        Metadata::Link => Err(
            "refusing to read "@ + description + " through a link or reparse point at "@ + path,
        ),
        Metadata::Directory | Metadata::Other => Err(
            description + " "@ + path + " is not a regular file"@,
        ),
        Metadata::File { mode: None } => Ok(()),
        Metadata::File { mode: Some(mode) } => if is_private_mode(mode) {
            Ok(())
        } else {
            Err(
                description + " "@ + path + " has insecure permissions "@ + shown_mode(mode)
                    + "; run `chmod 600 "@ + path + "`"@,
            )
        },
    }
}

fn inspection_error(description: &str, path: &str, reason: &str) -> (r: Error)
    ensures
        r@ == caused("could not inspect "@ + description@ + " at "@ + path@, reason@),
{
    let mut step = join3("could not inspect ", description, " at ");
    step.push_str(path);
    Error::caused(step.as_str(), reason)
}

fn verify_file_permissions(path: &str, mode: u32, description: &str) -> (r: Result<(), Error>)
    ensures
        outcome(r) == private_file(path@, description@, Metadata::File { mode: Some(mode) }),
{
    assert(mode & 0o777 == mode % 512 && (mode & 0o777) & 0o077 == mode % 64) by (bit_vector);
    let mode: u32 = mode & 0o777;
    if mode & 0o077 != 0 {
        let mut message = join3(description, " ", path);
        message.push_str(" has insecure permissions ");
        message.push_str(pad_zeros(in_base(mode as u128, 8), 3).as_str());
        message.push_str("; run `chmod 600 ");
        message.push_str(path);
        message.push_str("`");
        return Err(Error::new(message));
    }
    Ok(())
}

/// Whether what stands at a path is accepted as a private file.
pub fn verify_private_file(path: &str, description: &str, found: &Metadata) -> (r: Result<
    (),
    Error,
>)
    ensures
        outcome(r) == private_file(path@, description@, *found),
{
    match found {
        Metadata::Missing(reason) => Err(inspection_error(description, path, reason.as_str())),
        Metadata::Unknown(reason) => Err(inspection_error(description, path, reason.as_str())),
        Metadata::Link => {
            let mut message = join3(
                "refusing to read ",
                description,
                " through a link or reparse point at ",
            );
            message.push_str(path);
            Err(Error::new(message))
        },
        Metadata::Directory => {
            let mut message = join3(description, " ", path);
            message.push_str(" is not a regular file");
            Err(Error::new(message))
        },
        Metadata::Other => {
            let mut message = join3(description, " ", path);
            message.push_str(" is not a regular file");
            Err(Error::new(message))
        },
        Metadata::File { mode: None } => Ok(()),
        Metadata::File { mode: Some(mode) } => verify_file_permissions(path, *mode, description),
    }
}

// ---------------------------------------------------------------------------
// Directories.

/// What is to be done so that a directory is private.
#[derive(Clone, Copy, Debug, PartialEq, Eq, Structural)]
pub enum DirectoryStep {
    /// Create it with those that it stands in, and then secure it.
    Create,
    /// Take its permissions from everyone but the owner.
    Secure,
}

/// What is to be done so that a directory is private, or why it cannot be.
pub open spec fn private_directory(path: Seq<char>, found: Metadata) -> Result<
    DirectoryStep,
    Seq<char>,
> {
    match found {
        Metadata::Directory => Ok(DirectoryStep::Secure),
        Metadata::Missing(_) => Ok(DirectoryStep::Create),
        Metadata::Unknown(reason) => Err(caused("could not inspect "@ + path, reason@)),
        _ => Err(path + " is not a private directory"@),
    }
}

/// What is to be done so that a directory is private.
pub fn ensure_private_directory(path: &str, found: &Metadata) -> (r: Result<DirectoryStep, Error>)
    ensures
        outcome(r) == private_directory(path@, *found),
{
    match found {
        Metadata::Directory => Ok(DirectoryStep::Secure),
        Metadata::Missing(_) => Ok(DirectoryStep::Create),
        Metadata::Unknown(reason) => Err(
            Error::caused(join2("could not inspect ", path).as_str(), reason.as_str()),
        ),
        _ => Err(Error::new(join2(path, " is not a private directory"))),
    }
}

// ---------------------------------------------------------------------------
// Tasks.

/// The name of the temporary file that is to replace a file.
pub open spec fn temporary_file(file_name: Option<Seq<char>>, process: nat, nonce: nat) -> Seq<
    char,
> {
    "."@ + (match file_name {
        Some(name) => name,
        None => "private-file"@,
    }) + "."@ + decimal(process) + "."@ + decimal(nonce) + ".tmp"@
}

/// The name of the temporary file that is to replace a file. The file's own name
/// is missing where it is no text.
pub fn temporary_file_name(file_name: &Option<String>, process: u32, nonce: u128) -> (r: String)
    ensures
        r@ == temporary_file(opt_text(*file_name), process as nat, nonce as nat),
{
    let mut out = ".".to_owned();
    match file_name {
        Some(name) => out.push_str(name.as_str()),
        None => out.push_str("private-file"),
    }
    out.push_str(".");
    out.push_str(in_base(process as u128, 10).as_str());
    out.push_str(".");
    out.push_str(in_base(nonce, 10).as_str());
    out.push_str(".tmp");
    out
}

/// What a task is for.
#[derive(Clone, Copy, Debug, PartialEq, Eq, Structural)]
pub enum Purpose {
    /// Create a private file where there is none.
    Create,
    /// Create or replace a private file.
    ReplacePrivate,
    /// Create or replace a file that need not be private.
    Replace,
}

/// What is to be done next.
#[derive(Clone, Debug, PartialEq, Eq)]
pub enum TaskPhase {
    /// Tell what stands at the directory.
    InspectDirectory,
    /// Create the directory with those that it stands in.
    CreateDirectory,
    /// Take the permissions of the directory from everyone but the owner.
    SecureDirectory,
    /// Tell what stands at the file.
    InspectFile,
    /// Create the file, which must not be there yet, for the owner alone.
    CreateFile,
    /// Create the temporary file, which must not be there yet.
    CreateTemporary,
    /// Write the contents to the temporary file.
    WriteTemporary,
    /// Flush the temporary file.
    FlushTemporary,
    /// Move the temporary file to the file's place.
    Replace,
    /// Flush the directory.
    FlushDirectory,
    /// Remove the temporary file. The task has failed.
    RemoveTemporary(Error),
    /// Nothing.
    Finished(Option<Error>),
}

/// What is to be done next, with errors taken by their words.
pub enum TaskPhaseView {
    InspectDirectory,
    CreateDirectory,
    SecureDirectory,
    InspectFile,
    CreateFile,
    CreateTemporary,
    WriteTemporary,
    FlushTemporary,
    Replace,
    FlushDirectory,
    RemoveTemporary(Seq<char>),
    Finished(Option<Seq<char>>),
}

impl View for TaskPhase {
    type V = TaskPhaseView;

    open spec fn view(&self) -> TaskPhaseView {
        match *self {
            TaskPhase::InspectDirectory => TaskPhaseView::InspectDirectory,
            TaskPhase::CreateDirectory => TaskPhaseView::CreateDirectory,
            TaskPhase::SecureDirectory => TaskPhaseView::SecureDirectory,
            TaskPhase::InspectFile => TaskPhaseView::InspectFile,
            TaskPhase::CreateFile => TaskPhaseView::CreateFile,
            TaskPhase::CreateTemporary => TaskPhaseView::CreateTemporary,
            TaskPhase::WriteTemporary => TaskPhaseView::WriteTemporary,
            TaskPhase::FlushTemporary => TaskPhaseView::FlushTemporary,
            TaskPhase::Replace => TaskPhaseView::Replace,
            TaskPhase::FlushDirectory => TaskPhaseView::FlushDirectory,
            TaskPhase::RemoveTemporary(error) => TaskPhaseView::RemoveTemporary(error@),
            TaskPhase::Finished(None) => TaskPhaseView::Finished(None),
            TaskPhase::Finished(Some(error)) => TaskPhaseView::Finished(Some(error@)),
        }
    }
}

/// What came of what was to be done.
#[derive(Debug, PartialEq, Eq)]
pub enum TaskEvent {
    /// What stands at the path.
    Found(Metadata),
    /// It was done, or it failed for a reason.
    Done(Result<(), String>),
}

/// The creation or replacement of a file.
#[derive(Clone, Debug, PartialEq, Eq)]
pub struct FileTask {
    purpose: Purpose,
    path: String,
    directory: String,
    temporary: String,
    description: String,
    phase: TaskPhase,
}

/// A task, with its texts taken as characters.
pub struct TaskView {
    pub purpose: Purpose,
    pub path: Seq<char>,
    pub directory: Seq<char>,
    pub temporary: Seq<char>,
    pub description: Seq<char>,
    pub phase: TaskPhaseView,
}

impl View for FileTask {
    type V = TaskView;

    closed spec fn view(&self) -> TaskView {
        TaskView {
            purpose: self.purpose,
            path: self.path@,
            directory: self.directory@,
            temporary: self.temporary@,
            description: self.description@,
            phase: self.phase@,
        }
    }
}

impl TaskView {
    /// The end of a task that failed.
    pub open spec fn failing(self, error: Seq<char>) -> TaskPhaseView {
        TaskPhaseView::Finished(Some(error))
    }

    /// The phase after one that was done, or the end of the task where it failed.
    pub open spec fn then_or_fail(
        self,
        done: Result<(), String>,
        then: TaskPhaseView,
        step: Seq<char>,
    ) -> TaskPhaseView {
        match done {
            Ok(_) => then,
            Err(reason) => TaskPhaseView::Finished(Some(caused(step, reason@))),
        }
    }

    /// The phase after one that was done, or the removal of the temporary file
    /// where it failed.
    pub open spec fn then_or_remove(
        self,
        done: Result<(), String>,
        then: TaskPhaseView,
        step: Seq<char>,
    ) -> TaskPhaseView {
        match done {
            Ok(_) => then,
            Err(reason) => TaskPhaseView::RemoveTemporary(caused(step, reason@)),
        }
    }

    /// What comes after the directory was inspected.
    pub open spec fn after_directory(self, found: Metadata) -> TaskPhaseView {
        match private_directory(self.directory, found) {
            Ok(DirectoryStep::Create) => TaskPhaseView::CreateDirectory,
            Ok(DirectoryStep::Secure) => TaskPhaseView::SecureDirectory,
            Err(error) => self.failing(error),
        }
    }

    /// What comes after the file was inspected.
    pub open spec fn after_file(self, found: Metadata) -> TaskPhaseView {
        match found {
            Metadata::Missing(_) => if self.purpose == Purpose::Create {
                TaskPhaseView::CreateFile
            } else {
                TaskPhaseView::CreateTemporary
            },
            _ => match private_file(self.path, self.description, found) {
                Err(error) => self.failing(error),
                Ok(_) => if self.purpose == Purpose::Create {
                    TaskPhaseView::Finished(None)
                } else {
                    TaskPhaseView::CreateTemporary
                },
            },
        }
    }

    /// What is to be done after an event. An event that was not asked for changes
    /// nothing.
    pub open spec fn next(self, event: TaskEvent) -> TaskPhaseView {
        match (self.phase, event) {
            (TaskPhaseView::InspectDirectory, TaskEvent::Found(found)) => self.after_directory(
                found,
            ),
            (TaskPhaseView::CreateDirectory, TaskEvent::Done(done)) => self.then_or_fail(
                done,
                TaskPhaseView::SecureDirectory,
                "could not create "@ + self.directory,
            ),
            (TaskPhaseView::SecureDirectory, TaskEvent::Done(done)) => self.then_or_fail(
                done,
                TaskPhaseView::InspectFile,
                "could not secure "@ + self.directory,
            ),
            (TaskPhaseView::InspectFile, TaskEvent::Found(found)) => self.after_file(found),
            (TaskPhaseView::CreateFile, TaskEvent::Done(done)) => self.then_or_fail(
                done,
                TaskPhaseView::Finished(None),
                "could not create "@ + self.description + " at "@ + self.path,
            ),
            (TaskPhaseView::CreateTemporary, TaskEvent::Done(done)) => self.then_or_remove(
                done,
                TaskPhaseView::WriteTemporary,
                "could not create temporary file at "@ + self.temporary,
            ),
            (TaskPhaseView::WriteTemporary, TaskEvent::Done(done)) => self.then_or_remove(
                done,
                TaskPhaseView::FlushTemporary,
                "could not write temporary file"@,
            ),
            (TaskPhaseView::FlushTemporary, TaskEvent::Done(done)) => self.then_or_remove(
                done,
                TaskPhaseView::Replace,
                "could not flush temporary file"@,
            ),
            (TaskPhaseView::Replace, TaskEvent::Done(done)) => self.then_or_remove(
                done,
                TaskPhaseView::FlushDirectory,
                "could not replace "@ + self.description + " at "@ + self.path,
            ),
            (TaskPhaseView::FlushDirectory, TaskEvent::Done(done)) => self.then_or_remove(
                done,
                TaskPhaseView::Finished(None),
                "could not flush "@ + self.directory,
            ),
            (TaskPhaseView::RemoveTemporary(error), TaskEvent::Done(_)) => self.failing(error),
            _ => self.phase,
        }
    }

    /// The task after an event.
    pub open spec fn after(self, event: TaskEvent) -> TaskView {
        TaskView { phase: self.next(event), ..self }
    }
}

/// How a path that stands in no directory is reported.
pub open spec fn no_directory() -> Seq<char> {
    "the private file path has no parent directory"@
}

fn begin(
    purpose: Purpose,
    path: &str,
    directory: Option<String>,
    temporary: &str,
    description: &str,
    phase: TaskPhase,
) -> (r: Result<FileTask, Error>)
    ensures
        match directory {
            None => r matches Err(error) && error@ == no_directory(),
            Some(directory) => r matches Ok(task) && task@ == (TaskView {
                purpose,
                path: path@,
                directory: directory@,
                temporary: temporary@,
                description: description@,
                phase: phase@,
            }),
        },
{
    match directory {
        None => Err(Error::of("the private file path has no parent directory")),
        Some(directory) => Ok(
            FileTask {
                purpose,
                path: path.to_owned(),
                directory,
                temporary: temporary.to_owned(),
                description: description.to_owned(),
                phase,
            },
        ),
    }
}

/// Begins to create a private file where there is none.
pub fn create_private_file(path: &str, directory: Option<String>, description: &str) -> (r: Result<
    FileTask,
    Error,
>)
    ensures
        match directory {
            None => r matches Err(error) && error@ == no_directory(),
            Some(directory) => r matches Ok(task) && task@ == (TaskView {
                purpose: Purpose::Create,
                path: path@,
                directory: directory@,
                temporary: ""@,
                description: description@,
                phase: TaskPhaseView::InspectDirectory,
            }),
        },
{
    begin(Purpose::Create, path, directory, "", description, TaskPhase::InspectDirectory)
}

/// Begins to create or replace a private file.
pub fn atomic_write_private(
    path: &str,
    directory: Option<String>,
    temporary: &str,
    description: &str,
) -> (r: Result<FileTask, Error>)
    ensures
        match directory {
            None => r matches Err(error) && error@ == no_directory(),
            Some(directory) => r matches Ok(task) && task@ == (TaskView {
                purpose: Purpose::ReplacePrivate,
                path: path@,
                directory: directory@,
                temporary: temporary@,
                description: description@,
                phase: TaskPhaseView::InspectDirectory,
            }),
        },
{
    begin(
        Purpose::ReplacePrivate,
        path,
        directory,
        temporary,
        description,
        TaskPhase::InspectDirectory,
    )
}

/// Begins to create or replace a file that need not be private.
pub fn atomic_write_file(
    path: &str,
    directory: Option<String>,
    temporary: &str,
    description: &str,
) -> (r: Result<FileTask, Error>)
    ensures
        match directory {
            None => r matches Err(error) && error@ == no_directory(),
            Some(directory) => r matches Ok(task) && task@ == (TaskView {
                purpose: Purpose::Replace,
                path: path@,
                directory: directory@,
                temporary: temporary@,
                description: description@,
                phase: TaskPhaseView::CreateTemporary,
            }),
        },
{
    begin(Purpose::Replace, path, directory, temporary, description, TaskPhase::CreateTemporary)
}

fn then_or_fail(done: Result<(), String>, then: TaskPhase, step: &str) -> (r: TaskPhase)
    ensures
        r@ == (match done {
            Ok(_) => then@,
            Err(reason) => TaskPhaseView::Finished(Some(caused(step@, reason@))),
        }),
{
    match done {
        Ok(_) => then,
        Err(reason) => TaskPhase::Finished(Some(Error::caused(step, reason.as_str()))),
    }
}

fn then_or_remove(done: Result<(), String>, then: TaskPhase, step: &str) -> (r: TaskPhase)
    ensures
        r@ == (match done {
            Ok(_) => then@,
            Err(reason) => TaskPhaseView::RemoveTemporary(caused(step@, reason@)),
        }),
{
    match done {
        Ok(_) => then,
        Err(reason) => TaskPhase::RemoveTemporary(Error::caused(step, reason.as_str())),
    }
}

impl FileTask {
    /// What is to be done next.
    pub fn phase(&self) -> (r: &TaskPhase)
        ensures
            r@ == self@.phase,
    {
        &self.phase
    }

    /// What the task is for.
    pub fn purpose(&self) -> (r: Purpose)
        ensures
            r == self@.purpose,
    {
        self.purpose
    }

    /// The words for a step on the file.
    fn step_on_file(&self, step: &str) -> (r: String)
        ensures
            r@ == step@ + self@.description + " at "@ + self@.path,
    {
        let mut out = join3(step, self.description.as_str(), " at ");
        out.push_str(self.path.as_str());
        out
    }

    /// What comes after the directory was inspected.
    fn after_directory(&self, found: &Metadata) -> (r: TaskPhase)
        ensures
            r@ == self@.after_directory(*found),
    {
        match ensure_private_directory(self.directory.as_str(), found) {
            Ok(DirectoryStep::Create) => TaskPhase::CreateDirectory,
            Ok(DirectoryStep::Secure) => TaskPhase::SecureDirectory,
            Err(error) => TaskPhase::Finished(Some(error)),
        }
    }

    /// What comes after the file was inspected.
    fn after_file(&self, found: &Metadata) -> (r: TaskPhase)
        ensures
            r@ == self@.after_file(*found),
    {
        match found {
            Metadata::Missing(_) => if self.purpose == Purpose::Create {
                TaskPhase::CreateFile
            } else {
                TaskPhase::CreateTemporary
            },
            _ => match verify_private_file(self.path.as_str(), self.description.as_str(), found) {
                Err(error) => TaskPhase::Finished(Some(error)),
                Ok(_) => if self.purpose == Purpose::Create {
                    TaskPhase::Finished(None)
                } else {
                    TaskPhase::CreateTemporary
                },
            },
        }
    }

    /// Takes note of what came of what was to be done. An event that was not
    /// asked for changes nothing.
    pub fn step(self, event: TaskEvent) -> (r: Self)
        ensures
            r@ == self@.after(event),
    {
        let mut task = self;
        let phase = match (&task.phase, event) {
            (TaskPhase::InspectDirectory, TaskEvent::Found(found)) => Some(
                task.after_directory(&found),
            ),
            (TaskPhase::CreateDirectory, TaskEvent::Done(done)) => Some(
                then_or_fail(
                    done,
                    TaskPhase::SecureDirectory,
                    join2("could not create ", task.directory.as_str()).as_str(),
                ),
            ),
            (TaskPhase::SecureDirectory, TaskEvent::Done(done)) => Some(
                then_or_fail(
                    done,
                    TaskPhase::InspectFile,
                    join2("could not secure ", task.directory.as_str()).as_str(),
                ),
            ),
            (TaskPhase::InspectFile, TaskEvent::Found(found)) => Some(task.after_file(&found)),
            (TaskPhase::CreateFile, TaskEvent::Done(done)) => Some(
                then_or_fail(
                    done,
                    TaskPhase::Finished(None),
                    task.step_on_file("could not create ").as_str(),
                ),
            ),
            (TaskPhase::CreateTemporary, TaskEvent::Done(done)) => Some(
                then_or_remove(
                    done,
                    TaskPhase::WriteTemporary,
                    join2("could not create temporary file at ", task.temporary.as_str()).as_str(),
                ),
            ),
            (TaskPhase::WriteTemporary, TaskEvent::Done(done)) => Some(
                then_or_remove(done, TaskPhase::FlushTemporary, "could not write temporary file"),
            ),
            (TaskPhase::FlushTemporary, TaskEvent::Done(done)) => Some(
                then_or_remove(done, TaskPhase::Replace, "could not flush temporary file"),
            ),
            (TaskPhase::Replace, TaskEvent::Done(done)) => Some(
                then_or_remove(
                    done,
                    TaskPhase::FlushDirectory,
                    task.step_on_file("could not replace ").as_str(),
                ),
            ),
            (TaskPhase::FlushDirectory, TaskEvent::Done(done)) => Some(
                then_or_remove(
                    done,
                    TaskPhase::Finished(None),
                    join2("could not flush ", task.directory.as_str()).as_str(),
                ),
            ),
            (TaskPhase::RemoveTemporary(error), TaskEvent::Done(_)) => Some(
                TaskPhase::Finished(Some(Error::of(error.message()))),
            ),
            _ => None,
        };
        match phase {
            Some(phase) => {
                task.phase = phase;
            },
            None => {},
        }
        task
    }
}

// ---------------------------------------------------------------------------
// Laws.

/// What a file and the temporary file that is to replace it hold.
pub struct Disk {
    pub file: Option<Seq<u8>>,
    pub temporary: Option<Seq<u8>>,
}

/// Whether a disk can become another while a phase is carried out, with the given
/// result. What fails may leave a temporary file half written, but a failed move
/// moves nothing.
pub open spec fn carried_out(
    phase: TaskPhaseView,
    contents: Seq<u8>,
    event: TaskEvent,
    before: Disk,
    after: Disk,
) -> bool {
    match (phase, event) {
        (TaskPhaseView::CreateFile, TaskEvent::Done(Ok(_))) => {
            &&& before.file is None
            &&& after.file == Some(Seq::<u8>::empty())
            &&& after.temporary == before.temporary
        },
        (TaskPhaseView::CreateTemporary, TaskEvent::Done(Ok(_))) => {
            &&& before.temporary is None
            &&& after.file == before.file
            &&& after.temporary == Some(Seq::<u8>::empty())
        },
        (TaskPhaseView::WriteTemporary, TaskEvent::Done(Ok(_))) => {
            &&& after.file == before.file
            &&& after.temporary == Some(contents)
        },
        (TaskPhaseView::WriteTemporary, _) => after.file == before.file,
        (TaskPhaseView::Replace, TaskEvent::Done(Ok(_))) => {
            &&& after.file == before.temporary
            &&& after.temporary is None
        },
        (TaskPhaseView::RemoveTemporary(_), TaskEvent::Done(Ok(_))) => {
            &&& after.file == before.file
            &&& after.temporary is None
        },
        _ => after == before,
    }
}

impl TaskView {
    /// Whether a task can be under way on a disk, where the file first held
    /// `original`.
    pub open spec fn fits(self, contents: Seq<u8>, original: Option<Seq<u8>>, disk: Disk) -> bool {
        &&& self.purpose == Purpose::Create ==> self.phase is InspectDirectory
            || self.phase is CreateDirectory || self.phase is SecureDirectory
            || self.phase is InspectFile || self.phase is CreateFile || self.phase is Finished
        &&& self.purpose != Purpose::Create ==> !(self.phase is CreateFile)
        &&& match self.phase {
            TaskPhaseView::FlushTemporary | TaskPhaseView::Replace => disk.file == original
                && disk.temporary == Some(contents),
            TaskPhaseView::FlushDirectory => disk.file == Some(contents) && disk.temporary is None,
            TaskPhaseView::RemoveTemporary(_) => disk.file == original || disk.file == Some(
                contents,
            ),
            TaskPhaseView::Finished(None) => if self.purpose == Purpose::Create {
                disk.file == original || (original is None && disk.file == Some(Seq::<u8>::empty()))
            } else {
                disk.file == Some(contents) && disk.temporary is None
            },
            TaskPhaseView::Finished(Some(_)) => disk.file == original || disk.file == Some(contents),
            _ => disk.file == original,
        }
    }
}

/// Files are replaced whole: at every moment a file that is being replaced holds
/// either what it held before or all of the new contents, never a part of them.
/// A replacement that succeeds leaves the new contents and no temporary file.
pub proof fn files_are_replaced_whole(
    task: TaskView,
    contents: Seq<u8>,
    original: Option<Seq<u8>>,
    event: TaskEvent,
    before: Disk,
    after: Disk,
)
    requires
        task.fits(contents, original, before),
        carried_out(task.phase, contents, event, before, after),
    ensures
        task.after(event).fits(contents, original, after),
        task.purpose != Purpose::Create ==> (after.file == original || after.file == Some(contents)),
        task.purpose != Purpose::Create && task.next(event) == TaskPhaseView::Finished(None)
            ==> after.file == Some(contents) && after.temporary is None,
{
}

/// A task that cannot be completed removes the temporary file before it ends.
pub proof fn failures_remove_the_temporary_file(task: TaskView, reason: String)
    ensures
        (task.phase is CreateTemporary || task.phase is WriteTemporary
            || task.phase is FlushTemporary || task.phase is Replace
            || task.phase is FlushDirectory) ==> task.next(TaskEvent::Done(Err(reason)))
            is RemoveTemporary,
        task.phase matches TaskPhaseView::RemoveTemporary(error) ==> task.next(
            TaskEvent::Done(Err(reason)),
        ) == TaskPhaseView::Finished(Some(error)),
{
}

/// Links and files that others can read or write are never taken for private
/// files.
pub proof fn only_private_files_are_accepted(
    path: Seq<char>,
    description: Seq<char>,
    found: Metadata,
)
    ensures
        private_file(path, description, found) is Ok ==> (match found {
            Metadata::File { mode: Some(mode) } => mode & 0o077 == 0,
            Metadata::File { mode: None } => true,
            _ => false,
        }),
{
    match found {
        Metadata::File { mode: Some(mode) } => {
            assert(mode & 0o077 == mode % 64) by (bit_vector);
        },
        _ => {},
    }
}

/// A file is private exactly where it is a regular file that gives nothing to the
/// group and to others, or where the system has no such modes. Everything else is
/// refused, with what is wrong with it.
pub proof fn private_files_are_accepted(path: Seq<char>, description: Seq<char>, found: Metadata)
    ensures
        match found {
            Metadata::File { mode: None } => private_file(path, description, found) is Ok,
            Metadata::File { mode: Some(mode) } => {
                &&& mode & 0o077 == 0 ==> private_file(path, description, found) is Ok
                &&& mode & 0o077 != 0 ==> private_file(path, description, found) == Err::<
                    (),
                    Seq<char>,
                >(
                    description + " "@ + path + " has insecure permissions "@ + shown_mode(mode)
                        + "; run `chmod 600 "@ + path + "`"@,
                )
            },
            Metadata::Link => private_file(path, description, found) == Err::<(), Seq<char>>(
                "refusing to read "@ + description + " through a link or reparse point at "@ + path,
            ),
            Metadata::Directory | Metadata::Other => private_file(path, description, found)
                == Err::<(), Seq<char>>(description + " "@ + path + " is not a regular file"@),
            Metadata::Missing(reason) | Metadata::Unknown(reason) => private_file(
                path,
                description,
                found,
            ) == Err::<(), Seq<char>>(
                "could not inspect "@ + description + " at "@ + path + ": "@ + reason@,
            ),
        },
{
    match found {
        Metadata::File { mode: Some(mode) } => {
            assert(mode & 0o077 == mode % 64) by (bit_vector);
        },
        _ => {},
    }
}

/// Permissions are shown in three octal digits: those of the owner, of the group
/// and of others.
pub proof fn modes_are_shown_in_three_digits(mode: u32)
    ensures
        shown_mode(mode).len() == 3,
        shown_mode(mode)[0] as int == '0' as int + (mode as int / 64) % 8,
        shown_mode(mode)[1] as int == '0' as int + (mode as int / 8) % 8,
        shown_mode(mode)[2] as int == '0' as int + mode as int % 8,
{
    let m = (mode % 512) as nat;
    lemma_octal(m);
    assert((mode % 512) % 8 == mode % 8) by (bit_vector);
    assert(((mode % 512) / 8) % 8 == (mode / 8) % 8) by (bit_vector);
    assert((mode % 512) / 64 == (mode / 64) % 8) by (bit_vector);
}

/// A number below 512 in base eight, with zeros in front.
proof fn lemma_octal(m: nat)
    requires
        m < 512,
    ensures
        zero_padded(digits(m, 8), 3) == seq![
            digit((m / 64) as int),
            digit((m / 8 % 8) as int),
            digit((m % 8) as int),
        ],
{
    let last = digit((m % 8) as int);
    let middle = digit((m / 8 % 8) as int);
    let first = digit((m / 64) as int);
    assert(digit(0) == '0');
    if m < 8 {
        assert(digits(m, 8) == seq![last]);
    } else if m < 64 {
        assert(digits(m / 8, 8) == seq![middle]);
        assert(digits(m, 8) == seq![middle].push(last));
    } else {
        assert(m / 8 / 8 == m / 64);
        assert(digits(m / 8 / 8, 8) == seq![first]);
        assert(digits(m / 8, 8) == seq![first].push(middle));
        assert(digits(m, 8) == seq![first].push(middle).push(last));
    }
    assert(zero_padded(digits(m, 8), 3) =~= seq![first, middle, last]);
}

/// A private directory is created where it is missing and secured where it is
/// there. Anything else in its place, and a link above all, is refused.
pub proof fn only_directories_are_secured(path: Seq<char>, found: Metadata)
    ensures
        private_directory(path, found) == Ok::<DirectoryStep, Seq<char>>(DirectoryStep::Create)
            <==> found is Missing,
        private_directory(path, found) == Ok::<DirectoryStep, Seq<char>>(DirectoryStep::Secure)
            <==> found is Directory,
        found is Link || found is File || found is Other ==> private_directory(path, found) == Err::<
            DirectoryStep,
            Seq<char>,
        >(path + " is not a private directory"@),
        found matches Metadata::Unknown(reason) ==> private_directory(path, found) == Err::<
            DirectoryStep,
            Seq<char>,
        >("could not inspect "@ + path + ": "@ + reason@),
{
}

/// The directory is made private before anything is looked for in it, and a
/// directory that is created is secured like one that was there.
pub proof fn directories_are_secured_first(task: TaskView, reason: String)
    ensures
        task.phase is InspectDirectory ==> {
            &&& task.next(TaskEvent::Found(Metadata::Missing(reason)))
                == TaskPhaseView::CreateDirectory
            &&& task.next(TaskEvent::Found(Metadata::Directory)) == TaskPhaseView::SecureDirectory
            &&& task.next(TaskEvent::Found(Metadata::Link)) == TaskPhaseView::Finished(
                Some(task.directory + " is not a private directory"@),
            )
        },
        task.phase is CreateDirectory ==> {
            &&& task.next(TaskEvent::Done(Ok(()))) == TaskPhaseView::SecureDirectory
            &&& task.next(TaskEvent::Done(Err(reason))) == TaskPhaseView::Finished(
                Some("could not create "@ + task.directory + ": "@ + reason@),
            )
        },
        task.phase is SecureDirectory ==> {
            &&& task.next(TaskEvent::Done(Ok(()))) == TaskPhaseView::InspectFile
            &&& task.next(TaskEvent::Done(Err(reason))) == TaskPhaseView::Finished(
                Some("could not secure "@ + task.directory + ": "@ + reason@),
            )
        },
{
}

/// A file that is missing is created, or written by way of a temporary file. One
/// that is there is left alone or replaced where it is private, and neither is
/// done where it is not.
pub proof fn only_private_files_are_replaced(task: TaskView, found: Metadata)
    requires
        task.phase is InspectFile,
    ensures
        ({
            let next = task.next(TaskEvent::Found(found));
            let create = task.purpose == Purpose::Create;
            &&& found is Missing ==> next == (if create {
                TaskPhaseView::CreateFile
            } else {
                TaskPhaseView::CreateTemporary
            })
            &&& !(found is Missing) && private_file(task.path, task.description, found) is Ok
                ==> next == (if create {
                TaskPhaseView::Finished(None)
            } else {
                TaskPhaseView::CreateTemporary
            })
            &&& !(found is Missing) ==> (private_file(
                task.path,
                task.description,
                found,
            ) matches Err(error) ==> next == TaskPhaseView::Finished(Some(error)))
        }),
{
}

/// A file is replaced in steps: the new contents are written and flushed beside it
/// before they take its place, and then the directory is flushed. A step that
/// fails is what is reported.
pub proof fn replacements_go_step_by_step(task: TaskView, reason: String)
    ensures
        task.phase is CreateFile ==> {
            &&& task.next(TaskEvent::Done(Ok(()))) == TaskPhaseView::Finished(None)
            &&& task.next(TaskEvent::Done(Err(reason))) == TaskPhaseView::Finished(
                Some(
                    "could not create "@ + task.description + " at "@ + task.path + ": "@ + reason@,
                ),
            )
        },
        task.phase is CreateTemporary ==> {
            &&& task.next(TaskEvent::Done(Ok(()))) == TaskPhaseView::WriteTemporary
            &&& task.next(TaskEvent::Done(Err(reason))) == TaskPhaseView::RemoveTemporary(
                "could not create temporary file at "@ + task.temporary + ": "@ + reason@,
            )
        },
        task.phase is WriteTemporary ==> {
            &&& task.next(TaskEvent::Done(Ok(()))) == TaskPhaseView::FlushTemporary
            &&& task.next(TaskEvent::Done(Err(reason))) == TaskPhaseView::RemoveTemporary(
                "could not write temporary file"@ + ": "@ + reason@,
            )
        },
        task.phase is FlushTemporary ==> {
            &&& task.next(TaskEvent::Done(Ok(()))) == TaskPhaseView::Replace
            &&& task.next(TaskEvent::Done(Err(reason))) == TaskPhaseView::RemoveTemporary(
                "could not flush temporary file"@ + ": "@ + reason@,
            )
        },
        task.phase is Replace ==> {
            &&& task.next(TaskEvent::Done(Ok(()))) == TaskPhaseView::FlushDirectory
            &&& task.next(TaskEvent::Done(Err(reason))) == TaskPhaseView::RemoveTemporary(
                "could not replace "@ + task.description + " at "@ + task.path + ": "@ + reason@,
            )
        },
        task.phase is FlushDirectory ==> {
            &&& task.next(TaskEvent::Done(Ok(()))) == TaskPhaseView::Finished(None)
            &&& task.next(TaskEvent::Done(Err(reason))) == TaskPhaseView::RemoveTemporary(
                "could not flush "@ + task.directory + ": "@ + reason@,
            )
        },
{
}

/// Temporary files of one process never get the same name twice, as long as its
/// numbers differ, and are hidden beside the file that they are to replace.
pub proof fn temporary_names_differ(
    file_name: Option<Seq<char>>,
    process: nat,
    nonce: nat,
    other: nat,
)
    requires
        nonce != other,
    ensures
        temporary_file(file_name, process, nonce) != temporary_file(file_name, process, other),
        temporary_file(file_name, process, nonce)[0] == '.',
        file_name matches Some(name) ==> temporary_file(file_name, process, nonce) == "."@ + name
            + "."@ + decimal(process) + "."@ + decimal(nonce) + ".tmp"@,
{
    reveal_strlit(".");
    let start = "."@ + (match file_name {
        Some(name) => name,
        None => "private-file"@,
    }) + "."@ + decimal(process) + "."@;
    let first = temporary_file(file_name, process, nonce);
    let second = temporary_file(file_name, process, other);
    let end = ".tmp"@;
    decimals_stand_for_their_number(nonce);
    decimals_stand_for_their_number(other);
    assert(first == start + decimal(nonce) + end);
    assert(second == start + decimal(other) + end);
    assert(first[0] == '.');
    if first == second {
        let n = start.len() as int;
        assert(first.subrange(n, first.len() - end.len()) =~= decimal(nonce));
        assert(second.subrange(n, second.len() - end.len()) =~= decimal(other));
    }
}

} // verus!
