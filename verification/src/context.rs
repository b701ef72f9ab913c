//! The bounded history of requests and responses.
use vstd::prelude::*;

use crate::error::{caused, outcome, text_outcome, Error};
use crate::number::{decimal, signed_decimal, size_to_decimal, to_signed_decimal};
use crate::paths::{
    context_database_file, in_program_directory, path_view, state_base, Environment, PrivatePath,
};
use crate::quote::{debug_quoted, debug_text};
use crate::system_info::{check_identifier, in_identifier, is_identifier};
use crate::text::{byte_length, join2, join3, opt_text, text_bytes, text_eq};

verus! {

/// The name of the history database.
pub const DATABASE_FILE_NAME: &'static str = "history.sqlite3";

/// The application id that the database carries.
pub const DATABASE_APPLICATION_ID: i64 = 0x4149_5348;

/// The schema version that the database carries.
pub const DATABASE_SCHEMA_VERSION: i64 = 2;

/// A session identifier takes at most this many bytes.
pub const MAX_SESSION_ID_BYTES: usize = 128;

/// A saved request takes at most this many bytes.
pub const MAX_STORED_REQUEST_BYTES: usize = 16384;

// ---------------------------------------------------------------------------
// Responses and turns.

/// What was answered to a request.
#[derive(Clone, Debug, PartialEq, Eq)]
pub enum ContextResponse {
    Command(String),
    Clarification(String),
    Answer(String),
}

/// What was answered to a request, with its text taken as characters.
pub enum ResponseView {
    Command(Seq<char>),
    Clarification(Seq<char>),
    Answer(Seq<char>),
}

impl View for ContextResponse {
    type V = ResponseView;

    open spec fn view(&self) -> ResponseView {
        match *self {
            ContextResponse::Command(command) => ResponseView::Command(command@),
            ContextResponse::Clarification(question) => ResponseView::Clarification(question@),
            ContextResponse::Answer(answer) => ResponseView::Answer(answer@),
        }
    }
}

impl ResponseView {
    /// The line in which a model is reminded of the response.
    pub open spec fn line(self) -> Seq<char> {
        match self {
            ResponseView::Command(command) => "COMMAND: "@ + command,
            ResponseView::Clarification(question) => "QUESTION: "@ + question,
            ResponseView::Answer(answer) => "ANSWER: "@ + answer,
        }
    }

    /// The word under which the response is stored.
    pub open spec fn kind(self) -> Seq<char> {
        match self {
            ResponseView::Command(_) => "command"@,
            ResponseView::Clarification(_) => "clarification"@,
            ResponseView::Answer(_) => "answer"@,
        }
    }

    /// The text that is stored.
    pub open spec fn content(self) -> Seq<char> {
        match self {
            ResponseView::Command(content) => content,
            ResponseView::Clarification(content) => content,
            ResponseView::Answer(content) => content,
        }
    }
}

/// The response that is stored under a word, or how an unknown word is reported.
pub open spec fn stored_response(kind: Seq<char>, content: Seq<char>) -> Result<
    ResponseView,
    Seq<char>,
> {
    if kind == "command"@ {
        Ok(ResponseView::Command(content))
    } else if kind == "clarification"@ {
        Ok(ResponseView::Clarification(content))
    } else if kind == "answer"@ {
        Ok(ResponseView::Answer(content))
    } else {
        Err("context database contains an unknown response kind "@ + debug_text(kind))
    }
}

/// A response with its parts taken by their views.
pub open spec fn response_view(r: Result<ContextResponse, Error>) -> Result<
    ResponseView,
    Seq<char>,
> {
    match r {
        Ok(response) => Ok(response@),
        Err(error) => Err(error@),
    }
}

impl ContextResponse {
    /// The line in which a model is reminded of the response.
    pub fn model_line(&self) -> (r: String)
        ensures
            r@ == self@.line(),
    {
        match self {
            ContextResponse::Command(command) => join2("COMMAND: ", command.as_str()),
            ContextResponse::Clarification(question) => join2("QUESTION: ", question.as_str()),
            ContextResponse::Answer(answer) => join2("ANSWER: ", answer.as_str()),
        }
    }

    /// The word under which the response is stored.
    pub fn kind(&self) -> (r: &'static str)
        ensures
            r@ == self@.kind(),
    {
        match self {
            ContextResponse::Command(_) => "command",
            ContextResponse::Clarification(_) => "clarification",
            ContextResponse::Answer(_) => "answer",
        }
    }

    /// The text that is stored.
    pub fn content(&self) -> (r: &str)
        ensures
            r@ == self@.content(),
    {
        match self {
            ContextResponse::Command(content) => content.as_str(),
            ContextResponse::Clarification(content) => content.as_str(),
            ContextResponse::Answer(content) => content.as_str(),
        }
    }

    /// The response that is stored under a word.
    pub fn from_parts(kind: &str, content: String) -> (r: Result<Self, Error>)
        ensures
            response_view(r) == stored_response(kind@, content@),
    {
        if text_eq(kind, "command") {
            Ok(ContextResponse::Command(content))
        } else if text_eq(kind, "clarification") {
            Ok(ContextResponse::Clarification(content))
        } else if text_eq(kind, "answer") {
            Ok(ContextResponse::Answer(content))
        } else {
            Err(
                Error::new(
                    join2(
                        "context database contains an unknown response kind ",
                        debug_quoted(kind).as_str(),
                    ),
                ),
            )
        }
    }
}

/// A request and what was answered to it.
#[derive(Clone, Debug, PartialEq, Eq)]
pub struct ContextTurn {
    pub created_at: i64,
    pub working_directory: String,
    pub request: String,
    pub response: ContextResponse,
}

/// A turn, with its texts taken as characters.
pub struct TurnView {
    pub created_at: i64,
    pub working_directory: Seq<char>,
    pub request: Seq<char>,
    pub response: ResponseView,
}

impl View for ContextTurn {
    type V = TurnView;

    open spec fn view(&self) -> TurnView {
        TurnView {
            created_at: self.created_at,
            working_directory: self.working_directory@,
            request: self.request@,
            response: self.response@,
        }
    }
}

/// The turns of a list, with their texts taken as characters.
pub open spec fn turn_views(turns: Seq<ContextTurn>) -> Seq<TurnView> {
    Seq::new(turns.len(), |i: int| turns[i]@)
}

// ---------------------------------------------------------------------------
// Scopes.

/// Whether a text can name a shell session.
pub fn valid_session_id(value: &str) -> (r: bool)
    ensures
        r == is_identifier(value@, MAX_SESSION_ID_BYTES as nat),
{
    check_identifier(value, MAX_SESSION_ID_BYTES)
}

/// A directory and whether it holds a `.git` entry.
#[derive(Clone, Debug, PartialEq, Eq)]
pub struct Ancestor {
    pub directory: String,
    pub is_worktree: bool,
}

/// The first directory of a list that is a Git working tree, or else the first
/// of all.
pub open spec fn scope_directory(ancestors: Seq<Ancestor>, from: int) -> Seq<char>
    decreases ancestors.len() - from,
{
    if from >= ancestors.len() {
        ancestors[0].directory@
    } else if ancestors[from].is_worktree {
        ancestors[from].directory@
    } else {
        scope_directory(ancestors, from + 1)
    }
}

/// The directory that a context belongs to. The list holds the working
/// directory and after it each directory that it stands in.
pub fn find_scope_directory(ancestors: &Vec<Ancestor>) -> (r: String)
    requires
        ancestors@.len() > 0,
    ensures
        r@ == scope_directory(ancestors@, 0),
{
    let mut i: usize = 0;
    while i < ancestors.len()
        invariant
            i <= ancestors@.len(),
            scope_directory(ancestors@, 0) == scope_directory(ancestors@, i as int),
            ancestors@.len() > 0,
        decreases ancestors@.len() - i,
    {
        if ancestors[i].is_worktree {
            return ancestors[i].directory.clone();
        }
        i = i + 1;
    }
    ancestors[0].directory.clone()
}

/// The session that a context belongs to: the given one where it is valid.
pub open spec fn scope_session(session: Option<Seq<char>>) -> Option<Seq<char>> {
    match session {
        Some(session) => if is_identifier(session, MAX_SESSION_ID_BYTES as nat) {
            Some(session)
        } else {
            None
        },
        None => None,
    }
}

/// The key of a context.
pub open spec fn scope_key(session: Option<Seq<char>>, directory: Seq<char>) -> Seq<char> {
    match session {
        Some(session) => "session:"@ + session + ":"@ + directory,
        None => "directory:"@ + directory,
    }
}

/// The words in which a context is described.
pub open spec fn described_scope(session: Option<Seq<char>>, directory: Seq<char>) -> Seq<char> {
    match session {
        Some(_) => "shell session in "@ + directory,
        None => "directory "@ + directory,
    }
}

// ---------------------------------------------------------------------------
// Statements.

/// A value that a statement is run with.
#[derive(Clone, Debug, PartialEq, Eq)]
pub enum Parameter {
    Text(String),
    Integer(i64),
    Null,
}

/// A value, with its text taken as characters.
pub enum ParameterView {
    Text(Seq<char>),
    Integer(i64),
    Null,
}

impl View for Parameter {
    type V = ParameterView;

    open spec fn view(&self) -> ParameterView {
        match *self {
            Parameter::Text(text) => ParameterView::Text(text@),
            Parameter::Integer(n) => ParameterView::Integer(n),
            Parameter::Null => ParameterView::Null,
        }
    }
}

/// An SQL statement and the values that it is run with.
#[derive(Clone, Debug, PartialEq, Eq)]
pub struct Statement {
    pub sql: Sql,
    pub parameters: Vec<Parameter>,
}

/// A statement, with its texts taken as characters.
#[verifier::ext_equal]
pub struct StatementView {
    pub sql: Sql,
    pub parameters: Seq<ParameterView>,
}

impl View for Statement {
    type V = StatementView;

    open spec fn view(&self) -> StatementView {
        StatementView {
            sql: self.sql,
            parameters: Seq::new(self.parameters@.len(), |i: int| self.parameters@[i]@),
        }
    }
}

/// The statements of a list, with their texts taken as characters.
pub open spec fn statement_views(statements: Seq<Statement>) -> Seq<StatementView> {
    Seq::new(statements.len(), |i: int| statements[i]@)
}

/// Creates the table of the turns.
pub const TURNS_TABLE_SCHEMA: &'static str = "CREATE TABLE IF NOT EXISTS turns (
    id INTEGER PRIMARY KEY,
    scope TEXT NOT NULL REFERENCES contexts(scope) ON DELETE CASCADE,
    created_at INTEGER NOT NULL,
    working_directory TEXT NOT NULL,
    request TEXT NOT NULL,
    response_kind TEXT NOT NULL CHECK(response_kind IN ('command', 'clarification', 'answer')),
    response TEXT NOT NULL
)";

/// Creates the index of the turns.
pub const TURNS_INDEX_SCHEMA: &'static str =
    "CREATE INDEX IF NOT EXISTS turns_scope_id ON turns(scope, id)";

/// Creates the table of the file accesses, which goes with its context.
pub const FILE_IO_TABLE_SCHEMA: &'static str = "CREATE TABLE IF NOT EXISTS file_io (
    id INTEGER PRIMARY KEY,
    scope TEXT NOT NULL REFERENCES contexts(scope) ON DELETE CASCADE,
    created_at INTEGER NOT NULL,
    request TEXT NOT NULL,
    operation TEXT NOT NULL CHECK(operation IN ('read', 'write', 'modify')),
    path TEXT,
    byte_offset TEXT,
    succeeded INTEGER NOT NULL,
    detail TEXT NOT NULL
)";

/// Protects the database and creates the table of the contexts.
pub const CONTEXTS_SCHEMA: &'static str = "PRAGMA foreign_keys = ON;
         PRAGMA secure_delete = ON;
         CREATE TABLE IF NOT EXISTS contexts (
             scope TEXT PRIMARY KEY,
             description TEXT NOT NULL,
             created_at INTEGER NOT NULL,
             updated_at INTEGER NOT NULL
         );
         ";

/// Creates or renews a context.
pub const SAVE_CONTEXT: &'static str =
    "INSERT INTO contexts(scope, description, created_at, updated_at)
             VALUES (?1, ?2, unixepoch(), unixepoch())
             ON CONFLICT(scope) DO UPDATE SET
                 description = excluded.description,
                 updated_at = excluded.updated_at";

/// Saves a turn.
pub const SAVE_TURN: &'static str = "INSERT INTO turns(
                 scope, created_at, working_directory, request, response_kind, response
             ) VALUES (?1, unixepoch(), ?2, ?3, ?4, ?5)";

/// Drops the turns of a context but for the newest.
pub const KEEP_NEWEST_TURNS: &'static str = "DELETE FROM turns
             WHERE scope = ?1
               AND id NOT IN (
                   SELECT id FROM turns WHERE scope = ?1 ORDER BY id DESC LIMIT ?2
               )";

/// Selects the newest turns of a context, oldest first.
pub const LOAD_TURNS: &'static str =
    "SELECT created_at, working_directory, request, response_kind, response
             FROM (
                 SELECT id, created_at, working_directory, request, response_kind, response
                 FROM turns
                 WHERE scope = ?1
                 ORDER BY id DESC
                 LIMIT ?2
             )
             ORDER BY id ASC";

/// Drops a context with all that goes with it.
pub const CLEAR_CONTEXT: &'static str = "DELETE FROM contexts WHERE scope = ?1";

/// Saves a file access.
pub const SAVE_FILE_IO: &'static str = "INSERT INTO file_io(
                 scope, created_at, request, operation, path, byte_offset, succeeded, detail
             ) VALUES (?1, unixepoch(), ?2, ?3, ?4, ?5, ?6, ?7)";

/// Selects the file accesses of a context, oldest first.
pub const LOAD_FILE_IO: &'static str =
    "SELECT created_at, request, operation, path, byte_offset, succeeded, detail
             FROM file_io
             WHERE scope = ?1
             ORDER BY id ASC";

/// The statements that are run on the database.
#[derive(Clone, Copy, Debug, PartialEq, Eq, Structural)]
pub enum Sql {
    SaveContext,
    SaveTurn,
    KeepNewestTurns,
    LoadTurns,
    ClearContext,
    SaveFileIo,
    LoadFileIo,
}

impl Sql {
    /// The statement in SQL.
    pub open spec fn code(self) -> Seq<char> {
        match self {
            Sql::SaveContext => SAVE_CONTEXT@,
            Sql::SaveTurn => SAVE_TURN@,
            Sql::KeepNewestTurns => KEEP_NEWEST_TURNS@,
            Sql::LoadTurns => LOAD_TURNS@,
            Sql::ClearContext => CLEAR_CONTEXT@,
            Sql::SaveFileIo => SAVE_FILE_IO@,
            Sql::LoadFileIo => LOAD_FILE_IO@,
        }
    }

    /// The statement in SQL.
    pub fn text(self) -> (r: &'static str)
        ensures
            r@ == self.code(),
    {
        match self {
            Sql::SaveContext => SAVE_CONTEXT,
            Sql::SaveTurn => SAVE_TURN,
            Sql::KeepNewestTurns => KEEP_NEWEST_TURNS,
            Sql::LoadTurns => LOAD_TURNS,
            Sql::ClearContext => CLEAR_CONTEXT,
            Sql::SaveFileIo => SAVE_FILE_IO,
            Sql::LoadFileIo => LOAD_FILE_IO,
        }
    }
}

/// A statement that is run with two values.
pub(crate) fn with_two(sql: Sql, first: Parameter, second: Parameter) -> (r: Statement)
    ensures
        r@ == (StatementView { sql, parameters: seq![first@, second@] }),
{
    let mut parameters: Vec<Parameter> = Vec::new();
    parameters.push(first);
    parameters.push(second);
    let r = Statement { sql, parameters };
    assert(r@ =~= StatementView { sql, parameters: seq![first@, second@] });
    r
}

// ---------------------------------------------------------------------------
// The store.

/// The context of one scope: where it is kept and how much of it.
#[derive(Clone, Debug, PartialEq, Eq)]
pub struct ContextStore {
    scope: String,
    scope_description: String,
    working_directory: String,
    max_turns: usize,
}

/// A store, with its texts taken as characters.
pub struct StoreView {
    pub scope: Seq<char>,
    pub scope_description: Seq<char>,
    pub working_directory: Seq<char>,
    pub max_turns: usize,
}

impl View for ContextStore {
    type V = StoreView;

    closed spec fn view(&self) -> StoreView {
        StoreView {
            scope: self.scope@,
            scope_description: self.scope_description@,
            working_directory: self.working_directory@,
            max_turns: self.max_turns,
        }
    }
}

/// A row of the table of the turns.
#[derive(Clone, Debug, PartialEq, Eq)]
pub struct TurnRow {
    pub created_at: i64,
    pub working_directory: String,
    pub request: String,
    pub kind: String,
    pub response: String,
}

/// How a limit that the database cannot hold is reported.
pub open spec fn limit_too_large() -> Seq<char> {
    caused("context turn limit is too large"@, "out of range integral type conversion attempted"@)
}

/// How a request that is too large is reported.
pub open spec fn request_too_large() -> Seq<char> {
    "request is too large to save in context (maximum "@ + decimal(
        MAX_STORED_REQUEST_BYTES as nat,
    ) + " bytes)"@
}

impl StoreView {
    /// The statement that creates or renews the context.
    pub open spec fn renewal(self) -> StatementView {
        StatementView {
            sql: Sql::SaveContext,
            parameters: seq![
                ParameterView::Text(self.scope),
                ParameterView::Text(self.scope_description),
            ],
        }
    }

    /// The statements that save a turn and drop those that it pushes out.
    pub open spec fn saved(self, request: Seq<char>, response: ResponseView) -> Seq<StatementView> {
        seq![
            self.renewal(),
            StatementView {
                sql: Sql::SaveTurn,
                parameters: seq![
                    ParameterView::Text(self.scope),
                    ParameterView::Text(self.working_directory),
                    ParameterView::Text(request),
                    ParameterView::Text(response.kind()),
                    ParameterView::Text(response.content()),
                ],
            },
            StatementView {
                sql: Sql::KeepNewestTurns,
                parameters: seq![
                    ParameterView::Text(self.scope),
                    ParameterView::Integer(self.max_turns as i64),
                ],
            },
        ]
    }

    /// The statement that drops the context with all that goes with it.
    pub open spec fn clearance(self) -> StatementView {
        StatementView {
            sql: Sql::ClearContext,
            parameters: seq![ParameterView::Text(self.scope)],
        }
    }

    /// The statement that selects the turns.
    pub open spec fn selection(self) -> StatementView {
        StatementView {
            sql: Sql::LoadTurns,
            parameters: seq![
                ParameterView::Text(self.scope),
                ParameterView::Integer(self.max_turns as i64),
            ],
        }
    }
}

/// The statements that save a turn, or why it cannot be saved.
pub open spec fn append_plan(
    store: StoreView,
    request: Seq<char>,
    response: ResponseView,
) -> Result<Seq<StatementView>, Seq<char>> {
    if byte_length(request) > MAX_STORED_REQUEST_BYTES {
        Err(request_too_large())
    } else if store.max_turns > i64::MAX {
        Err(limit_too_large())
    } else {
        Ok(store.saved(request, response))
    }
}

/// A list of statements with its parts taken by their views.
pub open spec fn plan_view(r: Result<Vec<Statement>, Error>) -> Result<
    Seq<StatementView>,
    Seq<char>,
> {
    match r {
        Ok(statements) => Ok(statement_views(statements@)),
        Err(error) => Err(error@),
    }
}

/// A statement with its parts taken by their views.
pub open spec fn query_view(r: Result<Statement, Error>) -> Result<StatementView, Seq<char>> {
    match r {
        Ok(statement) => Ok(statement@),
        Err(error) => Err(error@),
    }
}

/// The turn that a row holds.
pub open spec fn stored_turn(row: TurnRow) -> Result<TurnView, Seq<char>> {
    match stored_response(row.kind@, row.response@) {
        Ok(response) => Ok(
            TurnView {
                created_at: row.created_at,
                working_directory: row.working_directory@,
                request: row.request@,
                response,
            },
        ),
        Err(error) => Err(error),
    }
}

/// The turns that rows hold, or the first failure among them. A row that could
/// not be read comes with the reason.
pub open spec fn stored_turns(rows: Seq<Result<TurnRow, String>>) -> Result<
    Seq<TurnView>,
    Seq<char>,
>
    decreases rows.len(),
{
    if rows.len() == 0 {
        Ok(seq![])
    } else {
        match stored_turns(rows.drop_last()) {
            Err(error) => Err(error),
            Ok(turns) => match rows.last() {
                Err(error) => Err(error@),
                Ok(row) => match stored_turn(row) {
                    Err(error) => Err(error),
                    Ok(turn) => Ok(turns.push(turn)),
                },
            },
        }
    }
}

/// Turns with their parts taken by their views.
pub open spec fn turns_view(r: Result<Vec<ContextTurn>, Error>) -> Result<
    Seq<TurnView>,
    Seq<char>,
> {
    match r {
        Ok(turns) => Ok(turn_views(turns@)),
        Err(error) => Err(error@),
    }
}

/// The statement that selects the turns, or why they cannot be selected.
pub open spec fn load_plan(store: StoreView) -> Result<StatementView, Seq<char>> {
    if store.max_turns > i64::MAX {
        Err(limit_too_large())
    } else {
        Ok(store.selection())
    }
}

impl ContextStore {
    /// The context of a directory, and of a shell session where a valid one is
    /// named. The list holds the working directory and after it each directory
    /// that it stands in.
    pub fn open(
        ancestors: &Vec<Ancestor>,
        session: Option<String>,
        working_directory: String,
        max_turns: usize,
    ) -> (r: Self)
        requires
            ancestors@.len() > 0,
        ensures
            r@ == (StoreView {
                scope: scope_key(
                    scope_session(opt_text(session)),
                    scope_directory(ancestors@, 0),
                ),
                scope_description: described_scope(
                    scope_session(opt_text(session)),
                    scope_directory(ancestors@, 0),
                ),
                working_directory: working_directory@,
                max_turns,
            }),
    {
        let directory = find_scope_directory(ancestors);
        match session {
            Some(session) => {
                if valid_session_id(session.as_str()) {
                    let mut scope = join3("session:", session.as_str(), ":");
                    scope.push_str(directory.as_str());
                    return ContextStore {
                        scope,
                        scope_description: join2("shell session in ", directory.as_str()),
                        working_directory,
                        max_turns,
                    };
                }
            },
            None => {},
        }
        ContextStore {
            scope: join2("directory:", directory.as_str()),
            scope_description: join2("directory ", directory.as_str()),
            working_directory,
            max_turns,
        }
    }

    /// The path of the database.
    pub fn path(environment: Environment) -> (r: Result<PrivatePath, Error>)
        ensures
            path_view(r) == in_program_directory(state_base(environment), DATABASE_FILE_NAME@),
    {
        context_database_file(environment, DATABASE_FILE_NAME)
    }

    /// The context of a given scope.
    pub fn of_scope(
        scope: String,
        scope_description: String,
        working_directory: String,
        max_turns: usize,
    ) -> (r: Self)
        ensures
            r@ == (StoreView {
                scope: scope@,
                scope_description: scope_description@,
                working_directory: working_directory@,
                max_turns,
            }),
    {
        ContextStore { scope, scope_description, working_directory, max_turns }
    }

    /// The key of the context.
    pub fn scope(&self) -> (r: &str)
        ensures
            r@ == self@.scope,
    {
        self.scope.as_str()
    }

    /// The directory that requests are made from.
    pub fn working_directory(&self) -> (r: &str)
        ensures
            r@ == self@.working_directory,
    {
        self.working_directory.as_str()
    }

    /// The words in which the context is described.
    pub fn scope_description(&self) -> (r: &str)
        ensures
            r@ == self@.scope_description,
    {
        self.scope_description.as_str()
    }

    /// The statement that creates or renews the context.
    pub(crate) fn renewal(&self) -> (r: Statement)
        ensures
            r@ == self@.renewal(),
    {
        with_two(
            Sql::SaveContext,
            Parameter::Text(self.scope.clone()),
            Parameter::Text(self.scope_description.clone()),
        )
    }

    /// The statement that selects the turns, newest `max_turns` of them.
    pub fn load(&self) -> (r: Result<Statement, Error>)
        ensures
            query_view(r) == (if self@.max_turns > i64::MAX {
                Err(limit_too_large())
            } else {
                Ok(self@.selection())
            }),
            query_view(r) == load_plan(self@),
    {
        if self.max_turns as u64 > i64::MAX as u64 {
            return Err(
                Error::caused(
                    "context turn limit is too large",
                    "out of range integral type conversion attempted",
                ),
            );
        }
        Ok(
            with_two(
                Sql::LoadTurns,
                Parameter::Text(self.scope.clone()),
                Parameter::Integer(self.max_turns as i64),
            ),
        )
    }

    /// The statements that save a turn and drop those that it pushes out. They
    /// are run together or not at all.
    pub fn append(&self, request: &str, response: &ContextResponse) -> (r: Result<
        Vec<Statement>,
        Error,
    >)
        ensures
            plan_view(r) == append_plan(self@, request@, response@),
    {
        if text_bytes(request) > MAX_STORED_REQUEST_BYTES {
            let mut message = "request is too large to save in context (maximum ".to_owned();
            message.push_str(size_to_decimal(MAX_STORED_REQUEST_BYTES).as_str());
            message.push_str(" bytes)");
            return Err(Error::new(message));
        }
        if self.max_turns as u64 > i64::MAX as u64 {
            return Err(
                Error::caused(
                    "context turn limit is too large",
                    "out of range integral type conversion attempted",
                ),
            );
        }
        let renewal = self.renewal();
        let mut parameters: Vec<Parameter> = Vec::new();
        parameters.push(Parameter::Text(self.scope.clone()));
        parameters.push(Parameter::Text(self.working_directory.clone()));
        parameters.push(Parameter::Text(request.to_owned()));
        parameters.push(Parameter::Text(response.kind().to_owned()));
        parameters.push(Parameter::Text(response.content().to_owned()));
        let insertion = Statement { sql: Sql::SaveTurn, parameters };
        let deletion = with_two(
            Sql::KeepNewestTurns,
            Parameter::Text(self.scope.clone()),
            Parameter::Integer(self.max_turns as i64),
        );
        assert(insertion@ =~= self@.saved(request@, response@)[1]);
        let mut statements: Vec<Statement> = Vec::new();
        statements.push(renewal);
        statements.push(insertion);
        statements.push(deletion);
        assert(statement_views(statements@) =~= self@.saved(request@, response@));
        Ok(statements)
    }

    /// The statement that drops the context with all that goes with it.
    pub fn clear(&self) -> (r: Statement)
        ensures
            r@ == self@.clearance(),
    {
        let mut parameters: Vec<Parameter> = Vec::new();
        parameters.push(Parameter::Text(self.scope.clone()));
        let r = Statement { sql: Sql::ClearContext, parameters };
        assert(r@ =~= self@.clearance());
        r
    }
}

impl ContextTurn {
    /// The turn that a row holds.
    pub fn from_row(row: TurnRow) -> (r: Result<Self, Error>)
        ensures
            match r {
                Ok(turn) => stored_turn(row) == Ok::<TurnView, Seq<char>>(turn@),
                Err(error) => stored_turn(row) == Err::<TurnView, Seq<char>>(error@),
            },
    {
        match ContextResponse::from_parts(row.kind.as_str(), row.response) {
            Ok(response) => Ok(
                ContextTurn {
                    created_at: row.created_at,
                    working_directory: row.working_directory,
                    request: row.request,
                    response,
                },
            ),
            Err(error) => Err(error),
        }
    }
}

proof fn lemma_stored_turns_fail_early(rows: Seq<Result<TurnRow, String>>, n: int)
    requires
        0 <= n <= rows.len(),
        stored_turns(rows.take(n)) is Err,
    ensures
        stored_turns(rows) == stored_turns(rows.take(n)),
    decreases rows.len() - n,
{
    if n == rows.len() {
        assert(rows.take(n) =~= rows);
    } else {
        assert(rows.take(n + 1).drop_last() =~= rows.take(n));
        lemma_stored_turns_fail_early(rows, n + 1);
    }
}

/// The turns that rows hold, or the first failure among them. A row that could
/// not be read comes with the reason.
pub fn turns_of(rows: Vec<Result<TurnRow, String>>) -> (r: Result<Vec<ContextTurn>, Error>)
    ensures
        turns_view(r) == stored_turns(rows@),
{
    let ghost given = rows@;
    let mut remaining = rows;
    let mut reversed: Vec<Result<TurnRow, String>> = Vec::new();
    let n: usize = remaining.len();
    let mut k: usize = n;
    while k > 0
        invariant
            k == remaining@.len(),
            n == given.len(),
            k <= n,
            remaining@ == given.take(k as int),
            reversed@ == given.skip(k as int).reverse(),
        decreases k,
    {
        k = k - 1;
        let last = remaining.pop();
        match last {
            Some(row) => {
                reversed.push(row);
            },
            None => {},
        }
        assert(remaining@ =~= given.take(k as int));
        assert(reversed@ =~= given.skip(k as int).reverse());
    }
    let mut turns: Vec<ContextTurn> = Vec::new();
    let mut i: usize = 0;
    assert(given.take(0) =~= seq![]);
    assert(turn_views(turns@) =~= seq![]);
    while i < n
        invariant
            i <= n,
            n == given.len(),
            given == rows@,
            reversed@ == given.skip(i as int).reverse(),
            stored_turns(given.take(i as int)) == Ok::<Seq<TurnView>, Seq<char>>(
                turn_views(turns@),
            ),
        decreases n - i,
    {
        let ghost rest = given.skip(i as int);
        assert(reversed@.last() == rest[0]);
        let row = reversed.pop();
        assert(reversed@ =~= given.skip(i + 1).reverse());
        assert(given.take(i + 1).drop_last() =~= given.take(i as int));
        assert(given.take(i + 1).last() == given[i as int]);
        match row {
            Some(Ok(row)) => {
                match ContextTurn::from_row(row) {
                    Ok(turn) => {
                        let ghost before = turns@;
                        turns.push(turn);
                        assert(turn_views(turns@) =~= turn_views(before).push(turn@));
                    },
                    Err(error) => {
                        proof {
                            lemma_stored_turns_fail_early(given, i + 1);
                        }
                        return Err(error);
                    },
                }
            },
            Some(Err(reason)) => {
                proof {
                    lemma_stored_turns_fail_early(given, i + 1);
                }
                return Err(Error::new(reason));
            },
            None => {},
        }
        i = i + 1;
    }
    assert(given.take(n as int) =~= given);
    Ok(turns)
}

// ---------------------------------------------------------------------------
// The database.

/// How a database of another kind or version is reported.
pub open spec fn unsupported_database() -> Seq<char> {
    "unsupported context database format"@
}

/// Whether a database is either new or one of this kind and version.
pub open spec fn usable_database(application_id: i64, schema_version: i64, tables: int) -> bool {
    ||| tables == 0 && application_id == 0 && schema_version == 0
    ||| tables != 0 && application_id == DATABASE_APPLICATION_ID && schema_version
        == DATABASE_SCHEMA_VERSION
}

/// Refuses a database of another kind or version before it is changed.
pub fn check_existing_database(application_id: i64, schema_version: i64, tables: i64) -> (r: Result<
    (),
    Error,
>)
    ensures
        outcome(r) == (if usable_database(application_id, schema_version, tables as int) {
            Ok(())
        } else {
            Err(unsupported_database())
        }),
{
    let is_empty = tables == 0 && application_id == 0 && schema_version == 0;
    let is_supported = tables != 0 && application_id == DATABASE_APPLICATION_ID && schema_version
        == DATABASE_SCHEMA_VERSION;
    if !is_empty && !is_supported {
        return Err(Error::of("unsupported context database format"));
    }
    Ok(())
}

/// Whether a database carries this kind and version once it was initialized, or how
/// it is reported that it does not.
pub open spec fn initialized_as(application_id: i64, schema_version: i64) -> Result<(), Seq<char>> {
    if application_id == DATABASE_APPLICATION_ID && schema_version == DATABASE_SCHEMA_VERSION {
        Ok(())
    } else {
        Err(unsupported_database())
    }
}

/// Refuses a database that does not carry this kind and version once it was
/// initialized.
pub fn check_initialized_database(application_id: i64, schema_version: i64) -> (r: Result<(), Error>)
    ensures
        outcome(r) == initialized_as(application_id, schema_version),
{
    if application_id != DATABASE_APPLICATION_ID || schema_version != DATABASE_SCHEMA_VERSION {
        return Err(Error::of("unsupported context database format"));
    }
    Ok(())
}

/// The statements that initialize the database.
pub open spec fn initialization() -> Seq<char> {
    CONTEXTS_SCHEMA@ + TURNS_TABLE_SCHEMA@ + ";\n         "@ + TURNS_INDEX_SCHEMA@ + ";\n         "@
        + FILE_IO_TABLE_SCHEMA@ + ";\n         PRAGMA application_id = "@ + signed_decimal(
        DATABASE_APPLICATION_ID as int,
    ) + ";\n         PRAGMA user_version = "@ + signed_decimal(DATABASE_SCHEMA_VERSION as int) + ";"@
}

/// The statements that are run on a database once it is connected, or why it is
/// refused.
pub open spec fn opening_plan(application_id: i64, schema_version: i64, tables: int) -> Result<
    Seq<char>,
    Seq<char>,
> {
    if usable_database(application_id, schema_version, tables) {
        Ok(initialization())
    } else {
        Err(unsupported_database())
    }
}

/// The statements that initialize a database, where it is either new or one of this
/// kind and version. Nothing is to be run on any other.
pub fn initialize_database(application_id: i64, schema_version: i64, tables: i64) -> (r: Result<
    String,
    Error,
>)
    ensures
        text_outcome(r) == opening_plan(application_id, schema_version, tables as int),
{
    match check_existing_database(application_id, schema_version, tables) {
        Err(error) => {
            return Err(error);
        },
        Ok(_) => {},
    }
    let mut batch = CONTEXTS_SCHEMA.to_owned();
    batch.push_str(TURNS_TABLE_SCHEMA);
    batch.push_str(";\n         ");
    batch.push_str(TURNS_INDEX_SCHEMA);
    batch.push_str(";\n         ");
    batch.push_str(FILE_IO_TABLE_SCHEMA);
    batch.push_str(";\n         PRAGMA application_id = ");
    batch.push_str(to_signed_decimal(DATABASE_APPLICATION_ID).as_str());
    batch.push_str(";\n         PRAGMA user_version = ");
    batch.push_str(to_signed_decimal(DATABASE_SCHEMA_VERSION).as_str());
    batch.push_str(";");
    Ok(batch)
}

// ---------------------------------------------------------------------------
// Laws.

/// A response is read back from the word and the text that it is stored as.
pub proof fn responses_round_trip(response: ResponseView)
    ensures
        stored_response(response.kind(), response.content()) == Ok::<ResponseView, Seq<char>>(
            response,
        ),
{
    reveal_strlit("command");
    reveal_strlit("clarification");
    reveal_strlit("answer");
    assert("command"@.len() == 7 && "clarification"@.len() == 13 && "answer"@.len() == 6);
}

/// Contexts are kept apart: two contexts have one key only where both belong to
/// the same directory and to the same session, or both to none.
pub proof fn contexts_are_kept_apart(
    session: Option<Seq<char>>,
    directory: Seq<char>,
    other_session: Option<Seq<char>>,
    other_directory: Seq<char>,
)
    requires
        scope_key(scope_session(session), directory) == scope_key(
            scope_session(other_session),
            other_directory,
        ),
    ensures
        scope_session(session) == scope_session(other_session),
        directory == other_directory,
{
    reveal_strlit("session:");
    reveal_strlit("directory:");
    reveal_strlit(":");
    let key = scope_key(scope_session(session), directory);
    let other = scope_key(scope_session(other_session), other_directory);
    match (scope_session(session), scope_session(other_session)) {
        (Some(a), Some(b)) => {
            let n = a.len();
            let m = b.len();
            assert(key[8 + n as int] == ':');
            assert(other[8 + m as int] == ':');
            if n < m {
                assert(other[8 + n as int] == b[n as int]);
                assert(in_identifier(b[n as int]));
            }
            if m < n {
                assert(key[8 + m as int] == a[m as int]);
                assert(in_identifier(a[m as int]));
            }
            assert(a =~= key.subrange(8, 8 + n as int));
            assert(b =~= other.subrange(8, 8 + m as int));
            assert(directory =~= key.skip(9 + n as int));
            assert(other_directory =~= other.skip(9 + m as int));
        },
        (None, None) => {
            assert(directory =~= key.skip(10));
            assert(other_directory =~= other.skip(10));
        },
        (Some(_), None) => {
            assert(key[0] == 's' && other[0] == 'd');
        },
        (None, Some(_)) => {
            assert(key[0] == 'd' && other[0] == 's');
        },
    }
}

proof fn lemma_scope_directory(ancestors: Seq<Ancestor>, from: int, k: int)
    requires
        0 <= from <= k <= ancestors.len(),
        forall|j: int| from <= j < k ==> !(#[trigger] ancestors[j]).is_worktree,
        k < ancestors.len() ==> ancestors[k].is_worktree,
    ensures
        scope_directory(ancestors, from) == ancestors[if k < ancestors.len() {
            k
        } else {
            0
        }].directory@,
    decreases k - from,
{
    if from < k {
        assert(!ancestors[from].is_worktree);
        lemma_scope_directory(ancestors, from + 1, k);
    }
}

/// A context belongs to the nearest working tree, however deep below it the
/// working directory is: the first directory of the list that is one decides, at
/// any place. Where none is, the context belongs to the working directory itself.
pub proof fn contexts_belong_to_the_nearest_working_tree(ancestors: Seq<Ancestor>, k: int)
    requires
        0 <= k < ancestors.len(),
    ensures
        ancestors[k].is_worktree && (forall|j: int|
            0 <= j < k ==> !(#[trigger] ancestors[j]).is_worktree) ==> scope_directory(ancestors, 0)
            == ancestors[k].directory@,
        (forall|j: int| 0 <= j < ancestors.len() ==> !(#[trigger] ancestors[j]).is_worktree)
            ==> scope_directory(ancestors, 0) == ancestors[0].directory@,
{
    if ancestors[k].is_worktree && (forall|j: int|
        0 <= j < k ==> !(#[trigger] ancestors[j]).is_worktree) {
        lemma_scope_directory(ancestors, 0, k);
    }
    if forall|j: int| 0 <= j < ancestors.len() ==> !(#[trigger] ancestors[j]).is_worktree {
        lemma_scope_directory(ancestors, 0, ancestors.len() as int);
    }
}

/// All directories below one working tree share its context: going further down
/// through directories that are no working trees changes nothing.
pub proof fn subdirectories_share_the_context(below: Seq<Ancestor>, ancestors: Seq<Ancestor>)
    requires
        forall|j: int| 0 <= j < below.len() ==> !(#[trigger] below[j]).is_worktree,
        exists|k: int| 0 <= k < ancestors.len() && (#[trigger] ancestors[k]).is_worktree,
    ensures
        scope_directory(below + ancestors, 0) == scope_directory(ancestors, 0),
{
    let some = choose|k: int| 0 <= k < ancestors.len() && (#[trigger] ancestors[k]).is_worktree;
    let k = lemma_first_worktree(ancestors, some);
    let all = below + ancestors;
    assert forall|j: int| 0 <= j < below.len() + k implies !(#[trigger] all[j]).is_worktree by {
        if j < below.len() {
            assert(all[j] == below[j]);
        } else {
            assert(all[j] == ancestors[j - below.len()]);
        }
    }
    assert(all[below.len() + k] == ancestors[k]);
    lemma_scope_directory(all, 0, below.len() + k);
    lemma_scope_directory(ancestors, 0, k);
}

proof fn lemma_first_worktree(ancestors: Seq<Ancestor>, some: int) -> (first: int)
    requires
        0 <= some < ancestors.len(),
        ancestors[some].is_worktree,
    ensures
        0 <= first <= some,
        ancestors[first].is_worktree,
        forall|j: int| 0 <= j < first ==> !(#[trigger] ancestors[j]).is_worktree,
    decreases some,
{
    if exists|j: int| 0 <= j < some && (#[trigger] ancestors[j]).is_worktree {
        let j = choose|j: int| 0 <= j < some && (#[trigger] ancestors[j]).is_worktree;
        lemma_first_worktree(ancestors, j)
    } else {
        some
    }
}

/// A session counts exactly where its name takes 1 to 128 bytes, all of them
/// letters, digits, dots, underscores or hyphens of ASCII. It is then kept as it
/// is; any other name is as good as none.
pub proof fn only_plain_sessions_count(session: Seq<char>)
    ensures
        scope_session(None) is None,
        scope_session(Some(session)) is Some ==> scope_session(Some(session)) == Some(session),
        scope_session(Some(session)) is Some <==> {
            &&& 1 <= session.len()
            &&& byte_length(session) <= 128
            &&& forall|i: int|
                0 <= i < session.len() ==> {
                    ||| 'a' <= #[trigger] session[i] <= 'z'
                    ||| 'A' <= session[i] <= 'Z'
                    ||| '0' <= session[i] <= '9'
                    ||| session[i] == '.'
                    ||| session[i] == '_'
                    ||| session[i] == '-'
                }
        },
{
    if scope_session(Some(session)) is Some {
        assert forall|i: int| 0 <= i < session.len() implies {
            ||| 'a' <= #[trigger] session[i] <= 'z'
            ||| 'A' <= session[i] <= 'Z'
            ||| '0' <= session[i] <= '9'
            ||| session[i] == '.'
            ||| session[i] == '_'
            ||| session[i] == '-'
        } by {
            assert(in_identifier(session[i]));
        }
    }
}

/// The key of a context names its directory at the end and says in front whether
/// it belongs to a session, and to which. Its description names the directory,
/// and never the session.
pub proof fn keys_name_the_session_and_the_directory(session: Seq<char>, directory: Seq<char>)
    ensures
        scope_key(Some(session), directory) == "session:"@ + session + ":"@ + directory,
        scope_key(None, directory) == "directory:"@ + directory,
        described_scope(Some(session), directory) == "shell session in "@ + directory,
        described_scope(None, directory) == "directory "@ + directory,
{
}

/// A response is stored under the word for what it is, and a model is reminded of
/// it under the mark with which it was given. No other word is read back.
pub proof fn responses_keep_their_kind(text: Seq<char>, kind: Seq<char>)
    ensures
        ResponseView::Command(text).kind() == "command"@,
        ResponseView::Clarification(text).kind() == "clarification"@,
        ResponseView::Answer(text).kind() == "answer"@,
        ResponseView::Command(text).content() == text,
        ResponseView::Clarification(text).content() == text,
        ResponseView::Answer(text).content() == text,
        ResponseView::Command(text).line() == "COMMAND: "@ + text,
        ResponseView::Clarification(text).line() == "QUESTION: "@ + text,
        ResponseView::Answer(text).line() == "ANSWER: "@ + text,
        match stored_response(kind, text) {
            Ok(response) => response.kind() == kind && response.content() == text,
            Err(error) => kind != "command"@ && kind != "clarification"@ && kind != "answer"@
                && error == "context database contains an unknown response kind "@ + debug_text(
                kind,
            ),
        },
{
}

proof fn lemma_stored_turns(rows: Seq<Result<TurnRow, String>>, i: int)
    requires
        stored_turns(rows) is Ok,
        0 <= i < rows.len(),
    ensures
        stored_turns(rows)->Ok_0.len() == rows.len(),
        rows[i] is Ok,
        stored_turn(rows[i]->Ok_0) == Ok::<TurnView, Seq<char>>(stored_turns(rows)->Ok_0[i]),
    decreases rows.len(),
{
    let front = rows.drop_last();
    if front.len() > 0 {
        lemma_stored_turns(front, if i < front.len() {
            i
        } else {
            0
        });
    } else {
        assert(stored_turns(front) == Ok::<Seq<TurnView>, Seq<char>>(seq![]));
    }
}

/// Rows are read one by one in their order: each turn has the time, the
/// directory, the request and the response of its row.
pub proof fn turns_are_read_row_by_row(rows: Seq<Result<TurnRow, String>>, i: int)
    requires
        stored_turns(rows) is Ok,
        0 <= i < rows.len(),
    ensures
        ({
            let turns = stored_turns(rows)->Ok_0;
            &&& turns.len() == rows.len()
            &&& (rows[i] matches Ok(row) && {
                &&& turns[i].created_at == row.created_at
                &&& turns[i].working_directory == row.working_directory@
                &&& turns[i].request == row.request@
                &&& turns[i].response.kind() == row.kind@
                &&& turns[i].response.content() == row.response@
            })
        }),
{
    lemma_stored_turns(rows, i);
    responses_keep_their_kind(rows[i]->Ok_0.response@, rows[i]->Ok_0.kind@);
}

/// A row that cannot be read is reported, and so is one of an unknown kind,
/// where every row before it is in order.
pub proof fn the_first_bad_row_is_reported(rows: Seq<Result<TurnRow, String>>, i: int)
    requires
        0 <= i < rows.len(),
        stored_turns(rows.take(i)) is Ok,
    ensures
        rows[i] matches Err(reason) ==> stored_turns(rows) == Err::<Seq<TurnView>, Seq<char>>(
            reason@,
        ),
        rows[i] matches Ok(row) ==> row.kind@ != "command"@ && row.kind@ != "clarification"@
            && row.kind@ != "answer"@ ==> stored_turns(rows) == Err::<Seq<TurnView>, Seq<char>>(
            "context database contains an unknown response kind "@ + debug_text(row.kind@),
        ),
{
    let some = rows.take(i + 1);
    assert(some.drop_last() =~= rows.take(i));
    assert(some.last() == rows[i]);
    if stored_turns(some) is Err {
        lemma_stored_turns_fail_early(rows, i + 1);
    }
}

/// A request is saved exactly where it takes no more than 16384 bytes: one that
/// is larger is refused with the limit.
pub proof fn large_requests_are_not_saved(
    store: StoreView,
    request: Seq<char>,
    response: ResponseView,
)
    requires
        store.max_turns <= i64::MAX,
    ensures
        append_plan(store, request, response) is Ok <==> byte_length(request) <= 16384,
        append_plan(store, request, response) matches Err(error) ==> error
            == "request is too large to save in context (maximum "@ + "16384"@ + " bytes)"@,
{
    reveal_strlit("16384");
    reveal_with_fuel(crate::number::digits, 5);
    assert(decimal(16384) =~= "16384"@);
}

/// A turn is saved in its own context and with the directory of its own, behind
/// the renewal of the context and in front of the cut to the limit. What is loaded
/// and what is cleared is that context, and no more turns than the limit.
pub proof fn statements_are_on_the_own_context(
    store: StoreView,
    request: Seq<char>,
    response: ResponseView,
)
    requires
        store.max_turns <= i64::MAX,
        byte_length(request) <= 16384,
    ensures
        append_plan(store, request, response) matches Ok(plan) && {
            &&& plan.len() == 3
            &&& plan[0].sql == Sql::SaveContext
            &&& plan[0].parameters == seq![
                ParameterView::Text(store.scope),
                ParameterView::Text(store.scope_description),
            ]
            &&& plan[1].sql == Sql::SaveTurn
            &&& plan[1].parameters.len() == 5
            &&& plan[1].parameters[0] == ParameterView::Text(store.scope)
            &&& plan[1].parameters[1] == ParameterView::Text(store.working_directory)
            &&& plan[1].parameters[2] == ParameterView::Text(request)
            &&& plan[1].parameters[3] == ParameterView::Text(response.kind())
            &&& plan[1].parameters[4] == ParameterView::Text(response.content())
            &&& plan[2].sql == Sql::KeepNewestTurns
            &&& plan[2].parameters == seq![
                ParameterView::Text(store.scope),
                ParameterView::Integer(store.max_turns as i64),
            ]
        },
        load_plan(store) matches Ok(query) && query.sql == Sql::LoadTurns && query.parameters
            == seq![
            ParameterView::Text(store.scope),
            ParameterView::Integer(store.max_turns as i64),
        ],
        store.clearance().sql == Sql::ClearContext,
        store.clearance().parameters == seq![ParameterView::Text(store.scope)],
{
}

/// A limit that the database cannot hold is refused, before anything is run.
pub proof fn limits_must_fit_the_database(
    store: StoreView,
    request: Seq<char>,
    response: ResponseView,
)
    requires
        store.max_turns > i64::MAX,
    ensures
        load_plan(store) == Err::<StatementView, Seq<char>>(
            "context turn limit is too large"@ + ": "@
                + "out of range integral type conversion attempted"@,
        ),
        append_plan(store, request, response) is Err,
{
}

/// Each statement is run as its own SQL.
pub proof fn statements_are_run_as_their_own_sql(sql: Sql)
    ensures
        sql.code() == (match sql {
            Sql::SaveContext => SAVE_CONTEXT@,
            Sql::SaveTurn => SAVE_TURN@,
            Sql::KeepNewestTurns => KEEP_NEWEST_TURNS@,
            Sql::LoadTurns => LOAD_TURNS@,
            Sql::ClearContext => CLEAR_CONTEXT@,
            Sql::SaveFileIo => SAVE_FILE_IO@,
            Sql::LoadFileIo => LOAD_FILE_IO@,
        }),
{
}

/// A new database is protected, gets its three tables and its index, and carries
/// the kind and the version under which it is opened again.
pub proof fn new_databases_carry_their_kind_and_version()
    ensures
        initialization() == CONTEXTS_SCHEMA@ + TURNS_TABLE_SCHEMA@ + ";\n         "@
            + TURNS_INDEX_SCHEMA@ + ";\n         "@ + FILE_IO_TABLE_SCHEMA@
            + ";\n         PRAGMA application_id = "@ + "1095324488"@
            + ";\n         PRAGMA user_version = "@ + "2"@ + ";"@,
        usable_database(1095324488, 2, 3),
        initialized_as(1095324488, 2) matches Ok(_),
{
    reveal_strlit("1095324488");
    reveal_strlit("2");
    reveal_with_fuel(crate::number::digits, 10);
    assert(signed_decimal(1095324488) =~= "1095324488"@);
    assert(signed_decimal(2) =~= "2"@);
}

/// A database is taken exactly where it is new, or has tables and carries the right
/// kind and the right version. Once it was initialized it must carry both.
pub proof fn only_own_databases_are_taken(application_id: i64, schema_version: i64, tables: int)
    ensures
        opening_plan(application_id, schema_version, tables) is Ok <==> (tables == 0
            && application_id == 0 && schema_version == 0) || (tables != 0 && application_id
            == 1095324488 && schema_version == 2),
        opening_plan(application_id, schema_version, tables) matches Err(error) ==> error
            == "unsupported context database format"@,
        initialized_as(application_id, schema_version) is Ok <==> application_id == 1095324488
            && schema_version == 2,
        initialized_as(application_id, schema_version) matches Err(error) ==> error
            == "unsupported context database format"@,
{
}

} // verus!
