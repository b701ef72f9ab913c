//! The file tools that a model can call: their arguments, their answers and what
//! is recorded of them.
use vstd::prelude::*;

use crate::error::Error;
use crate::number::{decimal, size_to_decimal, to_decimal};
use crate::paths::Platform;
use crate::pieces::{
    char_separates, join_all, join_from, joined, joined_words_are_found_again,
    lemma_words_have_no_separators, parts_are_joined_in_order, separates, word_length, words,
    words_of, Separator,
};
use crate::quote::{debug_quoted, debug_text, json_quoted, json_text};
use crate::text::{
    begins, byte_length, chars_of, join2, join3, opt_text, string_of, text_bytes, text_eq, texts,
    truth, truth_text,
};

verus! {

/// The name of the tool that reads a file.
pub const READ_FILE_TOOL: &'static str = "read_file";

/// The name of the tool that writes a file.
pub const WRITE_FILE_TOOL: &'static str = "write_file";

/// How many bytes are read where the model asks for no number.
pub const DEFAULT_READ_BYTES: usize = 16384;

/// At most this many bytes are read at once.
pub const MAX_READ_BYTES: usize = 32768;

/// At most this many bytes are written at once.
pub const MAX_WRITE_BYTES: usize = 65536;

/// A path takes at most this many bytes.
pub const MAX_PATH_BYTES: usize = 4096;

// ---------------------------------------------------------------------------
// What is recorded.

/// What was done to a file.
#[derive(Clone, Copy, Debug, PartialEq, Eq, Structural)]
pub enum FileIoOperation {
    Read,
    Write,
    Modify,
}

/// The operation that is stored under a word, or how an unknown word is
/// reported.
pub open spec fn stored_operation(value: Seq<char>) -> Result<FileIoOperation, Seq<char>> {
    if value == "read"@ {
        Ok(FileIoOperation::Read)
    } else if value == "write"@ {
        Ok(FileIoOperation::Write)
    } else if value == "modify"@ {
        Ok(FileIoOperation::Modify)
    } else {
        Err("file I/O log contains an unknown operation "@ + debug_text(value))
    }
}

impl FileIoOperation {
    /// The word under which the operation is stored.
    pub open spec fn name(self) -> Seq<char> {
        match self {
            FileIoOperation::Read => "read"@,
            FileIoOperation::Write => "write"@,
            FileIoOperation::Modify => "modify"@,
        }
    }

    /// The word under which the operation is stored.
    pub fn as_str(self) -> (r: &'static str)
        ensures
            r@ == self.name(),
    {
        match self {
            FileIoOperation::Read => "read",
            FileIoOperation::Write => "write",
            FileIoOperation::Modify => "modify",
        }
    }

    /// The operation that is stored under a word.
    pub fn from_str(value: &str) -> (r: Result<Self, Error>)
        ensures
            crate::error::outcome(r) == stored_operation(value@),
    {
        if text_eq(value, "read") {
            Ok(FileIoOperation::Read)
        } else if text_eq(value, "write") {
            Ok(FileIoOperation::Write)
        } else if text_eq(value, "modify") {
            Ok(FileIoOperation::Modify)
        } else {
            Err(
                Error::new(
                    join2(
                        "file I/O log contains an unknown operation ",
                        debug_quoted(value).as_str(),
                    ),
                ),
            )
        }
    }
}

/// How an access to a file ended: with the content involved, or with the reason
/// why it was denied.
#[derive(Clone, Debug, PartialEq, Eq)]
pub enum FileIoOutcome {
    Succeeded { content: String },
    Failed { reason: String },
}

/// An outcome, with its text taken as characters.
pub enum OutcomeView {
    Succeeded { content: Seq<char> },
    Failed { reason: Seq<char> },
}

impl View for FileIoOutcome {
    type V = OutcomeView;

    open spec fn view(&self) -> OutcomeView {
        match *self {
            FileIoOutcome::Succeeded { content } => OutcomeView::Succeeded { content: content@ },
            FileIoOutcome::Failed { reason } => OutcomeView::Failed { reason: reason@ },
        }
    }
}

/// An access to a file.
#[derive(Clone, Debug, PartialEq, Eq)]
pub struct FileIoEvent {
    pub operation: FileIoOperation,
    pub path: Option<String>,
    pub offset: Option<u64>,
    pub outcome: FileIoOutcome,
}

/// An access to a file, with its texts taken as characters.
pub struct EventView {
    pub operation: FileIoOperation,
    pub path: Option<Seq<char>>,
    pub offset: Option<u64>,
    pub outcome: OutcomeView,
}

impl View for FileIoEvent {
    type V = EventView;

    open spec fn view(&self) -> EventView {
        EventView {
            operation: self.operation,
            path: opt_text(self.path),
            offset: self.offset,
            outcome: self.outcome@,
        }
    }
}

/// What a tool call came to: the answer to the model, and what is recorded.
#[derive(Clone, Debug, PartialEq, Eq)]
pub struct FileToolExecution {
    pub response: String,
    pub audit: Option<FileIoEvent>,
}

/// What a tool call came to, with its texts taken as characters.
pub struct ExecutionView {
    pub response: Seq<char>,
    pub audit: Option<EventView>,
}

impl View for FileToolExecution {
    type V = ExecutionView;

    open spec fn view(&self) -> ExecutionView {
        ExecutionView {
            response: self.response@,
            audit: match self.audit {
                Some(event) => Some(event@),
                None => None,
            },
        }
    }
}

// ---------------------------------------------------------------------------
// Members of the arguments.

/// The text that a JSON document holds under a member of its top-level object.
/// `None` where the text is no JSON, the document no object, the member absent
/// or no string.
pub uninterp spec fn json_member_text(document: Seq<char>, member: Seq<char>) -> Option<Seq<char>>;

/// The number that a JSON document holds under a member of its top-level object.
/// `None` where the text is no JSON, the document no object, the member absent
/// or no integer from 0 to the greatest of 64 bits.
pub uninterp spec fn json_member_number(document: Seq<char>, member: Seq<char>) -> Option<u64>;

/// Reads a JSON document with `serde_json::from_str` and takes a member of it
/// with `Value::get` and `Value::as_str`. The result depends on the two texts
/// alone.
#[verifier::external_body]
fn member_text(document: &str, member: &str) -> (r: Option<String>)
    ensures
        opt_text(r) == json_member_text(document@, member@),
{
    let value = serde_json::from_str::<serde_json::Value>(document).ok()?;
    value.get(member)?.as_str().map(str::to_owned)
}

/// Reads a JSON document with `serde_json::from_str` and takes a member of it
/// with `Value::get` and `Value::as_u64`. The result depends on the two texts
/// alone.
#[verifier::external_body]
fn member_number(document: &str, member: &str) -> (r: Option<u64>)
    ensures
        r == json_member_number(document@, member@),
{
    let value = serde_json::from_str::<serde_json::Value>(document).ok()?;
    value.get(member)?.as_u64()
}

/// What is recorded of a failed access whose arguments hold the given path and
/// offset.
pub open spec fn failure_record(
    operation: FileIoOperation,
    path: Option<Seq<char>>,
    offset: Option<u64>,
    reason: Seq<char>,
) -> EventView {
    EventView {
        operation,
        path: match path {
            Some(path) => if byte_length(path) <= MAX_PATH_BYTES {
                Some(path)
            } else {
                None
            },
            None => None,
        },
        offset: if operation == FileIoOperation::Read {
            offset
        } else {
            None
        },
        outcome: OutcomeView::Failed { reason },
    }
}

/// What is recorded of a failed access.
pub open spec fn failed_access(
    operation: FileIoOperation,
    arguments: Seq<char>,
    reason: Seq<char>,
) -> EventView {
    failure_record(
        operation,
        json_member_text(arguments, "path"@),
        json_member_number(arguments, "offset"@),
        reason,
    )
}

/// What is recorded of a failed access whose arguments hold the given path and
/// offset.
pub fn record_failure(
    operation: FileIoOperation,
    path: Option<String>,
    offset: Option<u64>,
    reason: String,
) -> (r: FileIoEvent)
    ensures
        r@ == failure_record(operation, opt_text(path), offset, reason@),
{
    let path = match path {
        Some(path) => if text_bytes(path.as_str()) <= MAX_PATH_BYTES {
            Some(path)
        } else {
            None
        },
        None => None,
    };
    FileIoEvent {
        operation,
        path,
        offset: if operation == FileIoOperation::Read {
            offset
        } else {
            None
        },
        outcome: FileIoOutcome::Failed { reason },
    }
}

/// What is recorded of a failed access.
pub fn failed_event(operation: FileIoOperation, arguments: &str, reason: String) -> (r: FileIoEvent)
    ensures
        r@ == failed_access(operation, arguments@, reason@),
{
    record_failure(
        operation,
        member_text(arguments, "path"),
        member_number(arguments, "offset"),
        reason,
    )
}

// ---------------------------------------------------------------------------
// Answers.

/// The answer to a tool call that failed.
pub open spec fn failure_answer(reason: Seq<char>) -> Seq<char> {
    "{\"error\":"@ + json_text(reason) + ",\"ok\":false}"@
}

/// The answer to a read.
pub open spec fn read_answer(
    path: Seq<char>,
    offset: nat,
    next_offset: nat,
    eof: bool,
    content: Seq<char>,
) -> Seq<char> {
    "{\"content\":"@ + json_text(content) + ",\"eof\":"@ + truth(eof) + ",\"next_offset\":"@
        + decimal(next_offset) + ",\"offset\":"@ + decimal(offset) + ",\"ok\":true,\"path\":"@
        + json_text(path) + "}"@
}

/// The answer to a write.
pub open spec fn write_answer(path: Seq<char>, bytes_written: nat) -> Seq<char> {
    "{\"bytes_written\":"@ + decimal(bytes_written) + ",\"ok\":true,\"path\":"@ + json_text(path)
        + "}"@
}

/// The answer to a tool call that failed.
pub fn answer_failure(reason: &str) -> (r: String)
    ensures
        r@ == failure_answer(reason@),
{
    join3("{\"error\":", json_quoted(reason).as_str(), ",\"ok\":false}")
}

/// The answer to a read.
pub fn answer_read(path: &str, offset: u64, next_offset: u64, eof: bool, content: &str) -> (r:
    String)
    ensures
        r@ == read_answer(path@, offset as nat, next_offset as nat, eof, content@),
{
    let mut out = "{\"content\":".to_owned();
    out.push_str(json_quoted(content).as_str());
    out.push_str(",\"eof\":");
    out.push_str(truth_text(eof));
    out.push_str(",\"next_offset\":");
    out.push_str(to_decimal(next_offset).as_str());
    out.push_str(",\"offset\":");
    out.push_str(to_decimal(offset).as_str());
    out.push_str(",\"ok\":true,\"path\":");
    out.push_str(json_quoted(path).as_str());
    out.push_str("}");
    out
}

/// The answer to a write.
pub fn answer_write(path: &str, bytes_written: usize) -> (r: String)
    ensures
        r@ == write_answer(path@, bytes_written as nat),
{
    let mut out = "{\"bytes_written\":".to_owned();
    out.push_str(size_to_decimal(bytes_written).as_str());
    out.push_str(",\"ok\":true,\"path\":");
    out.push_str(json_quoted(path).as_str());
    out.push_str("}");
    out
}

// ---------------------------------------------------------------------------
// Arguments.

/// The arguments of a read.
#[derive(Clone, Debug, PartialEq, Eq)]
pub struct ReadFileArguments {
    pub path: String,
    pub offset: u64,
    pub max_bytes: usize,
}

/// The arguments of a write.
#[derive(Clone, Debug, PartialEq, Eq)]
pub struct WriteFileArguments {
    pub path: String,
    pub content: String,
}

/// How many bytes are read where the model asks for no number.
pub fn default_read_bytes() -> (r: usize)
    ensures
        r == DEFAULT_READ_BYTES,
{
    DEFAULT_READ_BYTES
}

/// The operation that a tool is named for.
pub open spec fn tool_operation(name: Seq<char>) -> Option<FileIoOperation> {
    if name == READ_FILE_TOOL@ {
        Some(FileIoOperation::Read)
    } else if name == WRITE_FILE_TOOL@ {
        Some(FileIoOperation::Write)
    } else {
        None
    }
}

/// The operation that a tool is named for.
pub fn operation_of_tool(name: &str) -> (r: Option<FileIoOperation>)
    ensures
        r == tool_operation(name@),
{
    if text_eq(name, READ_FILE_TOOL) {
        Some(FileIoOperation::Read)
    } else if text_eq(name, WRITE_FILE_TOOL) {
        Some(FileIoOperation::Write)
    } else {
        None
    }
}

// ---------------------------------------------------------------------------
// Paths.

/// What stands between the components of a path.
pub open spec fn path_separator(platform: Platform) -> Separator {
    match platform {
        Platform::Unix => Separator::Slash,
        Platform::Windows => Separator::AnySlash,
    }
}

/// Whether a text begins with a drive letter and a colon.
pub open spec fn names_drive(s: Seq<char>) -> bool {
    s.len() >= 2 && s[1] == ':' && ('a' <= s[0] <= 'z' || 'A' <= s[0] <= 'Z')
}

/// Whether a text names a server and a share of it, with one separator between
/// them.
pub open spec fn names_share(s: Seq<char>, by: Separator) -> bool {
    let n = word_length(s, by) as int;
    0 < n && n + 1 < s.len() && !separates(s[n + 1], by)
}

/// Whether a path begins, on Windows, with two separators and what they introduce:
/// a device, a verbatim path, which takes backslashes only, or a server and a
/// share.
pub open spec fn names_namespace(path: Seq<char>) -> bool {
    let by = Separator::AnySlash;
    &&& path.len() > 2
    &&& separates(path[0], by)
    &&& separates(path[1], by)
    &&& {
        ||| path.len() > 3 && path[2] == '.' && separates(path[3], by)
        ||| begins(path, seq!['\\', '\\', '?', '\\'])
        ||| names_share(path.skip(2), by)
    }
}

/// Whether a path is absolute: on Windows it begins with a drive and a
/// separator, or names a device, a verbatim path or a share.
pub open spec fn is_absolute(path: Seq<char>, platform: Platform) -> bool {
    let by = path_separator(platform);
    match platform {
        Platform::Unix => path.len() > 0 && separates(path[0], by),
        Platform::Windows => (names_drive(path) && path.len() > 2 && separates(path[2], by))
            || names_namespace(path),
    }
}

/// A path with one more component. On Windows a component that begins with a drive
/// takes the place of all before it, and the drive is a component by itself.
pub open spec fn with_component(
    path: Seq<Seq<char>>,
    component: Seq<char>,
    platform: Platform,
) -> Seq<Seq<char>> {
    if platform == Platform::Windows && names_drive(component) {
        if component.len() == 2 {
            seq![component]
        } else {
            seq![component.take(2), component.skip(2)]
        }
    } else {
        path.push(component)
    }
}

/// The path that components make, but for those that name the directory itself.
pub open spec fn path_of(components: Seq<Seq<char>>, platform: Platform) -> Seq<Seq<char>>
    decreases components.len(),
{
    if components.len() == 0 {
        seq![]
    } else {
        let front = path_of(components.drop_last(), platform);
        if components.last() == "."@ {
            front
        } else {
            with_component(front, components.last(), platform)
        }
    }
}

/// Whether a path begins with a drive.
pub open spec fn starts_with_drive(path: Seq<Seq<char>>, platform: Platform) -> bool {
    platform == Platform::Windows && path.len() > 0 && path[0].len() == 2 && names_drive(path[0])
}

/// The components of a path below the workspace, or why the path is refused.
pub open spec fn relative_path(input: Seq<char>, platform: Platform) -> Result<
    Seq<Seq<char>>,
    Seq<char>,
> {
    let components = words(input, path_separator(platform));
    let relative = path_of(components, platform);
    if input.len() == 0 {
        Err("path cannot be empty"@)
    } else if byte_length(input) > MAX_PATH_BYTES {
        Err("path exceeds "@ + decimal(MAX_PATH_BYTES as nat) + " bytes"@)
    } else if is_absolute(input, platform) {
        Err("path must be relative to the current working directory"@)
    } else if separates(input[0], path_separator(platform)) || (platform == Platform::Windows
        && names_drive(input)) || components.contains(".."@) {
        Err("path cannot contain parent or root components"@)
    } else if relative.len() == 0 {
        Err("path must name a file below the current working directory"@)
    } else {
        Ok(relative)
    }
}

/// A path with its parts taken by their views.
pub open spec fn components_view(r: Result<Vec<String>, Error>) -> Result<
    Seq<Seq<char>>,
    Seq<char>,
> {
    match r {
        Ok(components) => Ok(texts(components@)),
        Err(error) => Err(error@),
    }
}

fn separator_of(platform: Platform) -> (r: Separator)
    ensures
        r == path_separator(platform),
{
    match platform {
        Platform::Unix => Separator::Slash,
        Platform::Windows => Separator::AnySlash,
    }
}

/// Whether a text begins with a drive letter and a colon.
pub(crate) fn begins_with_drive(chars: &Vec<char>) -> (r: bool)
    ensures
        r == names_drive(chars@),
{
    chars.len() >= 2 && chars[1] == ':' && (('a' <= chars[0] && chars[0] <= 'z') || ('A' <= chars[0]
        && chars[0] <= 'Z'))
}

fn begins_with_namespace(chars: &Vec<char>) -> (r: bool)
    ensures
        r == names_namespace(chars@),
{
    let by = Separator::AnySlash;
    let n: usize = chars.len();
    if n <= 2 || !char_separates(chars[0], by) || !char_separates(chars[1], by) {
        return false;
    }
    if n > 3 && chars[2] == '.' && char_separates(chars[3], by) {
        return true;
    }
    let ghost verbatim = seq!['\\', '\\', '?', '\\'];
    if n > 3 && chars[0] == '\\' && chars[1] == '\\' && chars[2] == '?' && chars[3] == '\\' {
        assert(chars@.take(4) =~= verbatim);
        return true;
    }
    proof {
        if begins(chars@, verbatim) {
            assert(chars@.take(4)[0] == chars@[0] && chars@.take(4)[1] == chars@[1]);
            assert(chars@.take(4)[2] == chars@[2] && chars@.take(4)[3] == chars@[3]);
        }
    }
    let ghost rest = chars@.skip(2);
    let mut i: usize = 2;
    while i < n && !char_separates(chars[i], by)
        invariant
            n == chars@.len(),
            2 <= i <= n,
            rest == chars@.skip(2),
            by == Separator::AnySlash,
            word_length(rest, by) == (i - 2) + word_length(chars@.skip(i as int), by),
        decreases n - i,
    {
        assert(chars@.skip(i as int).drop_first() =~= chars@.skip(i + 1));
        i = i + 1;
    }
    assert(word_length(chars@.skip(i as int), by) == 0);
    i > 2 && i < n - 1 && !char_separates(chars[i + 1], by)
}

fn path_is_absolute(chars: &Vec<char>, platform: Platform) -> (r: bool)
    ensures
        r == is_absolute(chars@, platform),
{
    let by = separator_of(platform);
    match platform {
        Platform::Unix => chars.len() > 0 && char_separates(chars[0], by),
        Platform::Windows => (begins_with_drive(chars) && chars.len() > 2 && char_separates(
            chars[2],
            by,
        )) || begins_with_namespace(chars),
    }
}

/// A path with one more component.
fn add_component(path: Vec<String>, component: &str, platform: Platform) -> (r: Vec<String>)
    ensures
        texts(r@) == with_component(texts(path@), component@, platform),
{
    let chars = chars_of(component);
    if platform == Platform::Windows && begins_with_drive(&chars) {
        let mut taken: Vec<String> = Vec::new();
        let drive = string_of(&chars, 0, 2);
        taken.push(drive);
        assert(drive@ =~= component@.take(2));
        if chars.len() > 2 {
            let rest = string_of(&chars, 2, chars.len());
            taken.push(rest);
            assert(rest@ =~= component@.skip(2));
            assert(texts(taken@) =~= seq![component@.take(2), component@.skip(2)]);
        } else {
            assert(component@.take(2) =~= component@);
            assert(texts(taken@) =~= seq![component@]);
        }
        return taken;
    }
    let mut longer = path;
    longer.push(component.to_owned());
    assert(texts(longer@) =~= texts(path@).push(component@));
    longer
}

/// The components of a path below the workspace.
pub fn validate_relative_path(input: &str, platform: Platform) -> (r: Result<Vec<String>, Error>)
    ensures
        components_view(r) == relative_path(input@, platform),
{
    if input.is_empty() {
        return Err(Error::of("path cannot be empty"));
    }
    if text_bytes(input) > MAX_PATH_BYTES {
        return Err(
            Error::new(
                join3("path exceeds ", size_to_decimal(MAX_PATH_BYTES).as_str(), " bytes"),
            ),
        );
    }
    let chars = chars_of(input);
    if path_is_absolute(&chars, platform) {
        return Err(Error::of("path must be relative to the current working directory"));
    }
    let by = separator_of(platform);
    if char_separates(chars[0], by) || (platform == Platform::Windows && begins_with_drive(
        &chars,
    )) {
        return Err(Error::of("path cannot contain parent or root components"));
    }
    let components = words_of(input, by);
    let ghost all = texts(components@);
    let mut relative: Vec<String> = Vec::new();
    let mut i: usize = 0;
    assert(all.take(0) =~= seq![]);
    assert(texts(relative@) =~= seq![]);
    while i < components.len()
        invariant
            all == texts(components@),
            all == words(input@, path_separator(platform)),
            input@.len() > 0,
            byte_length(input@) <= MAX_PATH_BYTES,
            !is_absolute(input@, platform),
            !separates(input@[0], path_separator(platform)),
            platform == Platform::Windows ==> !names_drive(input@),
            i <= components@.len(),
            texts(relative@) == path_of(all.take(i as int), platform),
            forall|k: int| 0 <= k < i ==> #[trigger] all[k] != ".."@,
        decreases components@.len() - i,
    {
        assert(all.take(i + 1).drop_last() =~= all.take(i as int));
        assert(all.take(i + 1).last() == components@[i as int]@);
        assert(all[i as int] == components@[i as int]@);
        let component = components[i].as_str();
        if text_eq(component, "..") {
            assert(all.contains(all[i as int]));
            return Err(Error::of("path cannot contain parent or root components"));
        }
        if !text_eq(component, ".") {
            relative = add_component(relative, component, platform);
        }
        i = i + 1;
    }
    assert(all.take(all.len() as int) =~= all);
    if relative.len() == 0 {
        assert(texts(relative@).len() == 0);
        return Err(Error::of("path must name a file below the current working directory"));
    }
    assert(texts(relative@).len() == relative@.len());
    Ok(relative)
}

/// The text between the components of a path that is shown.
pub open spec fn shown_separator(platform: Platform) -> Seq<char> {
    match platform {
        Platform::Unix => "/"@,
        Platform::Windows => "\\"@,
    }
}

/// A path as it is shown. Nothing stands between a drive and what follows it.
pub open spec fn shown_path(components: Seq<Seq<char>>, platform: Platform) -> Seq<char> {
    if starts_with_drive(components, platform) {
        components[0] + joined(components.skip(1), shown_separator(platform))
    } else {
        joined(components, shown_separator(platform))
    }
}

/// The text between the components of a path that is shown.
pub fn separator_text(platform: Platform) -> (r: &'static str)
    ensures
        r@ == shown_separator(platform),
{
    match platform {
        Platform::Unix => "/",
        Platform::Windows => "\\",
    }
}

/// A path as it is shown.
pub fn show_path(components: &Vec<String>, platform: Platform) -> (r: String)
    ensures
        r@ == shown_path(texts(components@), platform),
{
    if path_starts_with_drive(components, platform) {
        assert(texts(components@)[0] == components@[0]@);
        return join2(
            components[0].as_str(),
            join_from(components, 1, separator_text(platform)).as_str(),
        );
    }
    join_all(components, separator_text(platform))
}

/// Whether a path begins with a drive.
pub fn path_starts_with_drive(components: &Vec<String>, platform: Platform) -> (r: bool)
    ensures
        r == starts_with_drive(texts(components@), platform),
{
    if platform != Platform::Windows || components.len() == 0 {
        return false;
    }
    assert(texts(components@)[0] == components@[0]@);
    let chars = chars_of(components[0].as_str());
    chars.len() == 2 && begins_with_drive(&chars)
}

// ---------------------------------------------------------------------------
// Laws.

/// An operation is read back from the word that it is stored under.
pub proof fn operations_round_trip(operation: FileIoOperation)
    ensures
        stored_operation(operation.name()) == Ok::<FileIoOperation, Seq<char>>(operation),
{
    reveal_strlit("read");
    reveal_strlit("write");
    reveal_strlit("modify");
    assert("read"@.len() == 4 && "write"@.len() == 5 && "modify"@.len() == 6);
}

/// Whether a text names an entry of a directory: it is not empty, does not name
/// the directory itself or its parent, and holds no separator.
pub open spec fn is_entry_name(name: Seq<char>, platform: Platform) -> bool {
    &&& name.len() > 0
    &&& name != "."@
    &&& name != ".."@
    &&& platform == Platform::Windows ==> !names_drive(name)
    &&& forall|i: int|
        0 <= i < name.len() ==> !separates(#[trigger] name[i], path_separator(platform))
}

/// The first component of a path that must be an entry of a directory: the first of
/// all, or on Windows the one behind a drive and what follows it directly.
pub open spec fn first_entry(path: Seq<Seq<char>>, platform: Platform) -> int {
    if starts_with_drive(path, platform) {
        2
    } else {
        0
    }
}

proof fn lemma_path_of(components: Seq<Seq<char>>, platform: Platform, k: int)
    requires
        first_entry(path_of(components, platform), platform) <= k < path_of(
            components,
            platform,
        ).len(),
    ensures
        path_of(components, platform)[k] != "."@,
        platform == Platform::Windows ==> !names_drive(path_of(components, platform)[k]),
        components.contains(path_of(components, platform)[k]),
    decreases components.len(),
{
    let front = path_of(components.drop_last(), platform);
    let path = path_of(components, platform);
    let last = components.last();
    if last != "."@ && platform == Platform::Windows && names_drive(last) {
        assert(last.take(2).len() == 2 && names_drive(last.take(2)));
        assert(starts_with_drive(path, platform));
    } else if k < front.len() {
        assert(path[0] == front[0]);
        lemma_path_of(components.drop_last(), platform, k);
        let i = choose|i: int|
            0 <= i < components.drop_last().len() && components.drop_last()[i] == front[k];
        assert(components[i] == front[k]);
    } else {
        assert(components[components.len() - 1] == path[k]);
    }
}

/// An accepted path only leads down: it has at least one component, and each names
/// an entry of a directory. On Windows a drive and what directly follows it are the
/// exception, of which only the resolved path tells where they lead.
pub proof fn accepted_paths_lead_down(input: Seq<char>, platform: Platform)
    ensures
        relative_path(input, platform) matches Ok(relative) ==> {
            &&& relative.len() > 0
            &&& forall|k: int|
                first_entry(relative, platform) <= k < relative.len() ==> is_entry_name(
                    #[trigger] relative[k],
                    platform,
                )
        },
{
    let by = path_separator(platform);
    let components = words(input, by);
    if relative_path(input, platform) is Ok {
        let relative = path_of(components, platform);
        assert forall|k: int|
            first_entry(relative, platform) <= k < relative.len() implies is_entry_name(
            #[trigger] relative[k],
            platform,
        ) by {
            lemma_path_of(components, platform, k);
            let i = choose|i: int| 0 <= i < components.len() && components[i] == relative[k];
            lemma_words_have_no_separators(input, by, i);
        }
    }
}

/// Absolute paths, paths that begin with a drive, and paths through a parent
/// directory are refused.
pub proof fn other_paths_are_refused(input: Seq<char>, platform: Platform)
    requires
        is_absolute(input, platform) || (platform == Platform::Windows && names_drive(input))
            || words(input, path_separator(platform)).contains(".."@),
    ensures
        relative_path(input, platform) is Err,
{
}

/// Each operation has its own word, and no other word is read as one.
pub proof fn operations_have_their_words(value: Seq<char>)
    ensures
        stored_operation(value) == Ok::<FileIoOperation, Seq<char>>(FileIoOperation::Read) <==> value
            == "read"@,
        stored_operation(value) == Ok::<FileIoOperation, Seq<char>>(FileIoOperation::Write) <==> value
            == "write"@,
        stored_operation(value) == Ok::<FileIoOperation, Seq<char>>(FileIoOperation::Modify)
            <==> value == "modify"@,
        stored_operation(value) matches Err(error) ==> error
            == "file I/O log contains an unknown operation "@ + debug_text(value),
        FileIoOperation::Read.name() == "read"@,
        FileIoOperation::Write.name() == "write"@,
        FileIoOperation::Modify.name() == "modify"@,
{
    reveal_strlit("read");
    reveal_strlit("write");
    reveal_strlit("modify");
    assert("read"@.len() == 4 && "write"@.len() == 5 && "modify"@.len() == 6);
}

/// Of a failed access the path is recorded unless it is longer than 4096 bytes,
/// and the offset only where something was to be read. The reason is always
/// recorded.
pub proof fn failures_are_recorded_with_what_was_asked(
    operation: FileIoOperation,
    path: Option<Seq<char>>,
    offset: Option<u64>,
    reason: Seq<char>,
)
    ensures
        ({
            let event = failure_record(operation, path, offset, reason);
            &&& event.operation == operation
            &&& event.outcome == (OutcomeView::Failed { reason })
            &&& path is None ==> event.path is None
            &&& (path matches Some(text) ==> {
                &&& byte_length(text) <= 4096 ==> event.path == Some(text)
                &&& byte_length(text) > 4096 ==> event.path is None
            })
            &&& operation == FileIoOperation::Read ==> event.offset == offset
            &&& operation != FileIoOperation::Read ==> event.offset is None
        }),
{
}

proof fn lemma_path_of_names(names: Seq<Seq<char>>, platform: Platform)
    requires
        forall|k: int| 0 <= k < names.len() ==> is_entry_name(#[trigger] names[k], platform),
    ensures
        path_of(names, platform) == names,
    decreases names.len(),
{
    if names.len() > 0 {
        let front = names.drop_last();
        assert forall|k: int| 0 <= k < front.len() implies is_entry_name(
            #[trigger] front[k],
            platform,
        ) by {
            assert(front[k] == names[k]);
        }
        lemma_path_of_names(front, platform);
        assert(is_entry_name(names[names.len() - 1], platform));
        assert(front.push(names.last()) =~= names);
    } else {
        assert(path_of(names, platform) =~= names);
    }
}

proof fn lemma_joined_starts(names: Seq<Seq<char>>, separator: Seq<char>)
    requires
        names.len() > 0,
        names[0].len() > 0,
    ensures
        joined(names, separator).len() >= names[0].len(),
        joined(names, separator)[0] == names[0][0],
    decreases names.len(),
{
    if names.len() > 1 {
        lemma_joined_starts(names.drop_last(), separator);
    }
}

/// Names of entries with slashes between them are the path that leads through
/// those entries, in their order, and are shown as they were given. This holds of
/// every path that does not take more than 4096 bytes.
pub proof fn plain_paths_lead_through_their_names(names: Seq<Seq<char>>)
    requires
        names.len() > 0,
        forall|k: int| 0 <= k < names.len() ==> is_entry_name(#[trigger] names[k], Platform::Unix),
        byte_length(joined(names, "/"@)) <= 4096,
    ensures
        relative_path(joined(names, "/"@), Platform::Unix) == Ok::<Seq<Seq<char>>, Seq<char>>(
            names,
        ),
        shown_path(names, Platform::Unix) == joined(names, "/"@),
{
    reveal_strlit("/");
    assert("/"@ =~= seq!['/']);
    let platform = Platform::Unix;
    let by = Separator::Slash;
    let input = joined(names, "/"@);
    assert forall|k: int| 0 <= k < names.len() implies (#[trigger] names[k]).len() > 0 by {
        assert(is_entry_name(names[k], platform));
    }
    assert forall|k: int, i: int|
        0 <= k < names.len() && 0 <= i < names[k].len() implies !separates(
        #[trigger] names[k][i],
        by,
    ) by {
        assert(is_entry_name(names[k], platform));
    }
    joined_words_are_found_again(names, '/', by);
    lemma_path_of_names(names, platform);
    assert(is_entry_name(names[0], platform));
    lemma_joined_starts(names, "/"@);
    assert(!separates(names[0][0], by));
    if names.contains(".."@) {
        let k = choose|k: int| 0 <= k < names.len() && names[k] == ".."@;
        assert(is_entry_name(names[k], platform));
    }
}

/// A path is refused where it is empty, takes more than 4096 bytes, begins at the
/// root, goes up, or names nothing but the directory itself, and for no other
/// reason.
pub proof fn paths_are_refused_for_a_reason(input: Seq<char>)
    ensures
        ({
            let result = relative_path(input, Platform::Unix);
            let components = words(input, Separator::Slash);
            &&& input.len() == 0 ==> result == Err::<Seq<Seq<char>>, Seq<char>>(
                "path cannot be empty"@,
            )
            &&& input.len() > 0 && byte_length(input) > 4096 ==> result == Err::<
                Seq<Seq<char>>,
                Seq<char>,
            >("path exceeds "@ + "4096"@ + " bytes"@)
            &&& input.len() > 0 && byte_length(input) <= 4096 ==> {
                &&& input[0] == '/' ==> result == Err::<Seq<Seq<char>>, Seq<char>>(
                    "path must be relative to the current working directory"@,
                )
                &&& input[0] != '/' && components.contains(".."@) ==> result == Err::<
                    Seq<Seq<char>>,
                    Seq<char>,
                >("path cannot contain parent or root components"@)
                &&& input[0] != '/' && !components.contains(".."@) ==> {
                    &&& (forall|k: int| 0 <= k < components.len() ==> #[trigger] components[k]
                        == "."@) ==> result == Err::<Seq<Seq<char>>, Seq<char>>(
                        "path must name a file below the current working directory"@,
                    )
                    &&& (exists|k: int| 0 <= k < components.len() && #[trigger] components[k]
                        != "."@) ==> result is Ok
                }
            }
        }),
{
    reveal_strlit("4096");
    reveal_with_fuel(crate::number::digits, 4);
    assert(decimal(4096) =~= "4096"@);
    lemma_path_is_empty(words(input, Separator::Slash));
}

proof fn lemma_path_is_empty(components: Seq<Seq<char>>)
    ensures
        path_of(components, Platform::Unix).len() == 0 <==> forall|k: int|
            0 <= k < components.len() ==> #[trigger] components[k] == "."@,
    decreases components.len(),
{
    if components.len() > 0 {
        let front = components.drop_last();
        lemma_path_is_empty(front);
        if path_of(components, Platform::Unix).len() == 0 {
            assert forall|k: int| 0 <= k < components.len() implies #[trigger] components[k]
                == "."@ by {
                if k < front.len() {
                    assert(components[k] == front[k]);
                }
            }
        } else if forall|k: int| 0 <= k < components.len() ==> #[trigger] components[k] == "."@ {
            assert(components[components.len() - 1] == "."@);
            assert forall|k: int| 0 <= k < front.len() implies #[trigger] front[k] == "."@ by {
                assert(front[k] == components[k]);
            }
        }
    }
}

/// On Windows, too, names of entries with slashes or backslashes between them are
/// the path that leads through those entries.
pub proof fn plain_paths_lead_through_their_names_on_windows(names: Seq<Seq<char>>, c: char)
    requires
        c == '/' || c == '\\',
        names.len() > 0,
        forall|k: int|
            0 <= k < names.len() ==> is_entry_name(#[trigger] names[k], Platform::Windows),
        byte_length(joined(names, seq![c])) <= 4096,
    ensures
        relative_path(joined(names, seq![c]), Platform::Windows) == Ok::<
            Seq<Seq<char>>,
            Seq<char>,
        >(names),
        shown_path(names, Platform::Windows) == joined(names, "\\"@),
{
    let platform = Platform::Windows;
    let by = Separator::AnySlash;
    let input = joined(names, seq![c]);
    assert forall|k: int| 0 <= k < names.len() implies (#[trigger] names[k]).len() > 0 by {
        assert(is_entry_name(names[k], platform));
    }
    assert forall|k: int, i: int|
        0 <= k < names.len() && 0 <= i < names[k].len() implies !separates(
        #[trigger] names[k][i],
        by,
    ) by {
        assert(is_entry_name(names[k], platform));
    }
    joined_words_are_found_again(names, c, by);
    lemma_path_of_names(names, platform);
    assert(is_entry_name(names[0], platform));
    lemma_joined_starts(names, seq![c]);
    assert(!separates(names[0][0], by));
    lemma_joined_begins(names, seq![c]);
    assert(!names_drive(input)) by {
        if input.len() >= 2 && names[0].len() > 1 {
            assert(input.take(names[0].len() as int)[1] == names[0][1]);
            assert(input[1] == names[0][1]);
        } else if names.len() > 1 {
            parts_are_joined_in_order(names.take(1), names.skip(1), seq![c]);
            assert(names.take(1) + names.skip(1) =~= names);
            assert(input[1] == c);
        }
    }
    if names.contains(".."@) {
        let k = choose|k: int| 0 <= k < names.len() && names[k] == ".."@;
        assert(is_entry_name(names[k], platform));
    }
}

proof fn lemma_joined_begins(names: Seq<Seq<char>>, separator: Seq<char>)
    requires
        names.len() > 0,
    ensures
        joined(names, separator).len() >= names[0].len(),
        joined(names, separator).take(names[0].len() as int) == names[0],
    decreases names.len(),
{
    if names.len() > 1 {
        lemma_joined_begins(names.drop_last(), separator);
        assert(joined(names, separator).take(names[0].len() as int) =~= joined(
            names.drop_last(),
            separator,
        ).take(names[0].len() as int));
    } else {
        assert(names[0].take(names[0].len() as int) =~= names[0]);
    }
}

/// On Windows a path that begins with a drive, a slash or a backslash is refused,
/// and so is one that goes up, with either kind of slash.
pub proof fn other_paths_are_refused_on_windows(input: Seq<char>)
    requires
        input.len() > 0,
        byte_length(input) <= 4096,
    ensures
        input[0] == '/' || input[0] == '\\' ==> relative_path(input, Platform::Windows) is Err,
        input.len() >= 2 && input[1] == ':' && ('a' <= input[0] <= 'z' || 'A' <= input[0] <= 'Z')
            ==> relative_path(input, Platform::Windows) is Err,
        input.len() >= 3 && input[1] == ':' && ('a' <= input[0] <= 'z' || 'A' <= input[0] <= 'Z')
            && (input[2] == '/' || input[2] == '\\') ==> relative_path(input, Platform::Windows)
            == Err::<Seq<Seq<char>>, Seq<char>>(
            "path must be relative to the current working directory"@,
        ),
        words(input, Separator::AnySlash).contains(".."@) ==> relative_path(
            input,
            Platform::Windows,
        ) is Err,
{
}

/// On Windows a component that begins with a drive takes the place of all before
/// it, and what follows the drive directly stays directly behind it, in the path
/// and where it is shown.
pub proof fn drives_take_the_place_of_all_before(
    components: Seq<Seq<char>>,
    drive: Seq<char>,
    rest: Seq<char>,
    names: Seq<Seq<char>>,
)
    requires
        drive.len() == 2,
        drive[1] == ':',
        'a' <= drive[0] <= 'z' || 'A' <= drive[0] <= 'Z',
        rest.len() > 0,
        names.len() > 0,
    ensures
        path_of(components.push(drive + rest), Platform::Windows) == seq![drive, rest],
        path_of(components.push(drive), Platform::Windows) == seq![drive],
        shown_path(seq![drive, rest], Platform::Windows) == drive + rest,
        shown_path(seq![drive, rest] + names, Platform::Windows) == drive + (rest + "\\"@ + joined(
            names,
            "\\"@,
        )),
        path_of(components.push(drive + rest), Platform::Unix) == (if drive + rest == "."@ {
            path_of(components, Platform::Unix)
        } else {
            path_of(components, Platform::Unix).push(drive + rest)
        }),
{
    reveal_strlit(".");
    let component = drive + rest;
    assert(components.push(component).drop_last() =~= components);
    assert(components.push(drive).drop_last() =~= components);
    assert(component[0] == drive[0] && component[1] == ':');
    assert(component.take(2) =~= drive);
    assert(component.skip(2) =~= rest);
    assert(component.len() > 2 && "."@.len() == 1);
    let path = seq![drive, rest];
    assert(path.skip(1) =~= seq![rest]);
    let longer = path + names;
    assert(longer[0] == drive);
    assert(longer.skip(1) =~= seq![rest] + names);
    parts_are_joined_in_order(seq![rest], names, "\\"@);
}

/// On Windows a path to a share of a server is absolute, with any kind of slash.
pub proof fn shares_are_absolute(server: Seq<char>, share: Seq<char>, c: char)
    requires
        c == '/' || c == '\\',
        server.len() > 0,
        share.len() > 0,
        forall|i: int| 0 <= i < server.len() ==> #[trigger] server[i] != '/' && server[i] != '\\',
        share[0] != '/' && share[0] != '\\',
    ensures
        is_absolute(seq![c, c] + server + seq![c] + share, Platform::Windows),
{
    let path = seq![c, c] + server + seq![c] + share;
    let rest = path.skip(2);
    assert(rest =~= server + seq![c] + share);
    lemma_server_name(server, c, share);
    assert(path[0] == c && path[1] == c);
    assert(rest[server.len() as int + 1] == share[0]);
}

proof fn lemma_server_name(server: Seq<char>, c: char, share: Seq<char>)
    requires
        c == '/' || c == '\\',
        forall|i: int| 0 <= i < server.len() ==> #[trigger] server[i] != '/' && server[i] != '\\',
    ensures
        word_length(server + seq![c] + share, Separator::AnySlash) == server.len(),
    decreases server.len(),
{
    let s = server + seq![c] + share;
    if server.len() == 0 {
        assert(s[0] == c);
    } else {
        assert(s[0] == server[0]);
        assert(s.drop_first() =~= server.drop_first() + seq![c] + share);
        lemma_server_name(server.drop_first(), c, share);
    }
}

/// The answers to the model are JSON objects that say whether the call succeeded.
pub proof fn answers_say_whether_the_call_succeeded(
    path: Seq<char>,
    reason: Seq<char>,
    content: Seq<char>,
    offset: nat,
    next_offset: nat,
    n: nat,
)
    ensures
        failure_answer(reason) == "{\"error\":"@ + json_text(reason) + ",\"ok\":false}"@,
        write_answer(path, n) == "{\"bytes_written\":"@ + decimal(n) + ",\"ok\":true,\"path\":"@
            + json_text(path) + "}"@,
        read_answer(path, offset, next_offset, true, content) == "{\"content\":"@ + json_text(
            content,
        ) + ",\"eof\":"@ + "true"@ + ",\"next_offset\":"@ + decimal(next_offset) + ",\"offset\":"@
            + decimal(offset) + ",\"ok\":true,\"path\":"@ + json_text(path) + "}"@,
        read_answer(path, offset, next_offset, false, content) == "{\"content\":"@ + json_text(
            content,
        ) + ",\"eof\":"@ + "false"@ + ",\"next_offset\":"@ + decimal(next_offset)
            + ",\"offset\":"@ + decimal(offset) + ",\"ok\":true,\"path\":"@ + json_text(path)
            + "}"@,
        tool_operation("read_file"@) == Some(FileIoOperation::Read),
        tool_operation("write_file"@) == Some(FileIoOperation::Write),
{
    reveal_strlit("read_file");
    reveal_strlit("write_file");
    assert("read_file"@.len() == 9 && "write_file"@.len() == 10);
}

} // verus!
