//! The history of requests.
use aishell::audit::{load_file_io, record_file_io};
use aishell::context::{
    check_existing_database, check_initialized_database, find_scope_directory,
    initialize_database, turns_of, valid_session_id, Ancestor, ContextResponse, ContextStore,
    ContextTurn, Parameter, Statement, TurnRow, DATABASE_APPLICATION_ID, DATABASE_SCHEMA_VERSION,
};
use aishell::file_tools::{FileIoEvent, FileIoOperation, FileIoOutcome};
use aishell::paths::{BaseVariable, Environment, Platform, Variable};
use rusqlite::types::Value;
use rusqlite::{params_from_iter, Connection};

fn values(statement: &Statement) -> Vec<Value> {
    statement
        .parameters
        .iter()
        .map(|parameter| match parameter {
            Parameter::Text(text) => Value::Text(text.clone()),
            Parameter::Integer(number) => Value::Integer(*number),
            Parameter::Null => Value::Null,
        })
        .collect()
}

fn number(connection: &Connection, query: &str) -> i64 {
    connection.query_row(query, [], |row| row.get(0)).unwrap()
}

fn initialize(connection: &Connection) -> Result<(), String> {
    let batch = initialize_database(
        number(connection, "PRAGMA application_id"),
        number(connection, "PRAGMA user_version"),
        number(connection, "SELECT count(*) FROM sqlite_schema WHERE type = 'table'"),
    )
    .map_err(|error| error.message().to_owned())?;
    connection.execute_batch(&batch).unwrap();
    check_initialized_database(
        number(connection, "PRAGMA application_id"),
        number(connection, "PRAGMA user_version"),
    )
    .map_err(|error| error.message().to_owned())
}

fn run(connection: &mut Connection, statements: &[Statement]) -> usize {
    let transaction = connection.transaction().unwrap();
    let mut changed = 0;
    for statement in statements {
        let parameters = params_from_iter(values(statement));
        changed = transaction.execute(statement.sql.text(), parameters).unwrap();
    }
    transaction.commit().unwrap();
    changed
}

fn load(connection: &Connection, store: &ContextStore) -> Vec<ContextTurn> {
    let query = store.load().unwrap();
    let mut statement = connection.prepare(query.sql.text()).unwrap();
    let mut rows = Vec::new();
    let mut found = statement.query(params_from_iter(values(&query))).unwrap();
    while let Some(row) = found.next().unwrap() {
        rows.push(Ok(TurnRow {
            created_at: row.get(0).unwrap(),
            working_directory: row.get(1).unwrap(),
            request: row.get(2).unwrap(),
            kind: row.get(3).unwrap(),
            response: row.get(4).unwrap(),
        }));
    }
    turns_of(rows).unwrap()
}

fn store() -> ContextStore {
    ContextStore::of_scope("test-scope".into(), "test context".into(), "/tmp/images".into(), 2)
}

#[test]
fn session_ids_cannot_escape_the_database_scope() {
    assert!(valid_session_id("bash-123-456"));
    assert!(valid_session_id("powershell-123-acde"));
    assert!(!valid_session_id("../../another-context"));
    assert!(!valid_session_id("contains spaces"));
}

#[test]
fn session_ids_are_bounded() {
    assert!(!valid_session_id(""));
    assert!(valid_session_id(&"a".repeat(128)));
    assert!(!valid_session_id(&"a".repeat(129)));
    assert!(!valid_session_id("é"));
}

#[test]
fn response_round_trips_its_database_representation() {
    for response in [
        ContextResponse::Command("truncate -s 50M disk.img".into()),
        ContextResponse::Clarification("Which disk?".into()),
        ContextResponse::Answer("I can help with shell commands.".into()),
    ] {
        assert_eq!(
            ContextResponse::from_parts(response.kind(), response.content().into()).unwrap(),
            response
        );
    }
}

#[test]
fn unknown_response_kinds_are_reported() {
    assert_eq!(
        ContextResponse::from_parts("jo\"ke", "ha".into()).unwrap_err().message(),
        "context database contains an unknown response kind \"jo\\\"ke\""
    );
    let row = |kind: &str| TurnRow {
        created_at: 1,
        working_directory: "/".into(),
        request: "r".into(),
        kind: kind.into(),
        response: "x".into(),
    };
    assert_eq!(turns_of(vec![Ok(row("answer"))]).unwrap().len(), 1);
    assert!(turns_of(vec![Ok(row("answer")), Ok(row("joke")), Err("later".into())])
        .unwrap_err()
        .message()
        .contains("joke"));
    assert_eq!(
        turns_of(vec![Ok(row("answer")), Err("broken row".into()), Ok(row("joke"))])
            .unwrap_err()
            .message(),
        "broken row"
    );
}

#[test]
fn initializes_a_versioned_database() {
    let connection = Connection::open_in_memory().unwrap();
    initialize(&connection).unwrap();

    assert_eq!(number(&connection, "PRAGMA application_id"), DATABASE_APPLICATION_ID);
    assert_eq!(number(&connection, "PRAGMA user_version"), DATABASE_SCHEMA_VERSION);
    initialize(&connection).unwrap();
}

#[test]
fn rejects_an_obsolete_database_version() {
    let connection = Connection::open_in_memory().unwrap();
    initialize(&connection).unwrap();
    connection.pragma_update(None, "user_version", 1).unwrap();

    assert!(initialize(&connection).is_err());
}

#[test]
fn foreign_databases_are_refused() {
    assert!(check_existing_database(0, 0, 0).is_ok());
    assert!(check_existing_database(0, 0, 1).is_err());
    assert!(check_existing_database(DATABASE_APPLICATION_ID, DATABASE_SCHEMA_VERSION, 0).is_err());
    assert!(check_existing_database(DATABASE_APPLICATION_ID, DATABASE_SCHEMA_VERSION, 2).is_ok());
    assert!(initialize_database(0, 0, 0).unwrap().contains("CREATE TABLE IF NOT EXISTS turns"));
    assert_eq!(
        initialize_database(0, 0, 1).unwrap_err().message(),
        "unsupported context database format"
    );
    assert_eq!(
        check_initialized_database(0, DATABASE_SCHEMA_VERSION).unwrap_err().message(),
        "unsupported context database format"
    );
}

#[test]
fn stores_only_the_bounded_context_and_clears_it() {
    let mut connection = Connection::open_in_memory().unwrap();
    initialize(&connection).unwrap();
    let store = store();

    let first = ContextResponse::Command("echo first".into());
    run(&mut connection, &store.append("first", &first).unwrap());
    let second = ContextResponse::Command("echo second".into());
    run(&mut connection, &store.append("second", &second).unwrap());
    let third = ContextResponse::Answer("Third answer.".into());
    run(&mut connection, &store.append("third", &third).unwrap());

    let turns = load(&connection, &store);
    assert_eq!(turns.len(), 2);
    assert_eq!(turns[0].request, "second");
    assert_eq!(turns[0].response, second);
    assert_eq!(turns[0].working_directory, "/tmp/images");
    assert_eq!(turns[1].request, "third");
    assert_eq!(turns[1].response, third);
    assert_ne!(run(&mut connection, &[store.clear()]), 0);
    assert!(load(&connection, &store).is_empty());
    assert_eq!(run(&mut connection, &[store.clear()]), 0);
}

#[test]
fn clearing_the_context_erases_its_file_accesses() {
    let mut connection = Connection::open_in_memory().unwrap();
    initialize(&connection).unwrap();
    let store = store();
    let event = FileIoEvent {
        operation: FileIoOperation::Read,
        path: Some("notes.txt".into()),
        offset: Some(u64::MAX),
        outcome: FileIoOutcome::Succeeded { content: "text".into() },
    };
    run(&mut connection, &record_file_io(&store, "read it", &event));
    let query = load_file_io(&store);
    let offset: String = connection
        .query_row(query.sql.text(), params_from_iter(values(&query)), |row| row.get(4))
        .unwrap();
    assert_eq!(offset, "18446744073709551615");
    run(&mut connection, &[store.clear()]);
    assert_eq!(number(&connection, "SELECT count(*) FROM file_io"), 0);
}

#[test]
fn other_contexts_are_not_touched() {
    let mut connection = Connection::open_in_memory().unwrap();
    initialize(&connection).unwrap();
    let other = ContextStore::of_scope("other".into(), "other".into(), "/".into(), 2);
    let answer = ContextResponse::Answer("a".into());
    run(&mut connection, &other.append("kept", &answer).unwrap());
    run(&mut connection, &store().append("dropped", &answer).unwrap());
    run(&mut connection, &[store().clear()]);
    assert_eq!(load(&connection, &other).len(), 1);
}

#[test]
fn large_requests_are_not_saved() {
    let answer = ContextResponse::Answer("a".into());
    assert!(store().append(&"x".repeat(16384), &answer).is_ok());
    assert_eq!(
        store().append(&"x".repeat(16385), &answer).unwrap_err().message(),
        "request is too large to save in context (maximum 16384 bytes)"
    );
    let endless = ContextStore::of_scope("s".into(), "d".into(), "/".into(), usize::MAX);
    assert_eq!(
        endless.load().unwrap_err().message(),
        "context turn limit is too large: out of range integral type conversion attempted"
    );
    assert!(endless.append("x", &answer).is_err());
}

fn ancestors() -> Vec<Ancestor> {
    [("/home/u/p/src", false), ("/home/u/p", true), ("/home/u", true), ("/", false)]
        .into_iter()
        .map(|(directory, is_worktree)| Ancestor { directory: directory.into(), is_worktree })
        .collect()
}

#[test]
fn contexts_belong_to_a_session_and_a_working_tree() {
    assert_eq!(find_scope_directory(&ancestors()), "/home/u/p");
    assert_eq!(find_scope_directory(&ancestors()[3..].to_vec()), "/");
    let session = ContextStore::open(
        &ancestors(),
        Some("bash-1".into()),
        "/home/u/p/src".into(),
        6,
    );
    assert_eq!(session.scope(), "session:bash-1:/home/u/p");
    assert_eq!(session.scope_description(), "shell session in /home/u/p");
    assert_eq!(session.working_directory(), "/home/u/p/src");
    let invalid = ContextStore::open(&ancestors(), Some("a b".into()), "/".into(), 6);
    assert_eq!(invalid.scope(), "directory:/home/u/p");
    assert_eq!(invalid.scope_description(), "directory /home/u/p");
    let none = ContextStore::open(&ancestors(), None, "/".into(), 6);
    assert_eq!(none.scope(), invalid.scope());
}

#[test]
fn responses_are_recalled_in_the_words_of_a_model() {
    assert_eq!(ContextResponse::Command("ls".into()).model_line(), "COMMAND: ls");
    assert_eq!(ContextResponse::Clarification("which?".into()).model_line(), "QUESTION: which?");
    assert_eq!(ContextResponse::Answer("yes".into()).model_line(), "ANSWER: yes");
}

#[test]
fn history_is_kept_in_one_place() {
    let environment = |xdg_state_home: Variable| Environment {
        platform: Platform::Unix,
        xdg_config_home: Variable::Missing,
        xdg_state_home,
        home: Variable::Absolute,
        local_app_data: Variable::Missing,
    };
    let path = ContextStore::path(environment(Variable::Absolute)).unwrap();
    assert_eq!(path.base, BaseVariable::XdgStateHome);
    assert_eq!(path.components, ["aishell", "history.sqlite3"]);
    let path = ContextStore::path(environment(Variable::Relative)).unwrap();
    assert_eq!(path.base, BaseVariable::Home);
    assert_eq!(path.components, [".local", "state", "aishell", "history.sqlite3"]);
}

#[test]
fn contexts_are_bounded_and_cleared_one_by_one() {
    let mut connection = Connection::open_in_memory().unwrap();
    initialize(&connection).unwrap();
    let other = ContextStore::of_scope("other".into(), "other".into(), "/".into(), 3);
    let answer = ContextResponse::Answer("a".into());
    for request in ["1", "2", "3", "4"] {
        run(&mut connection, &store().append(request, &answer).unwrap());
        run(&mut connection, &other.append(request, &answer).unwrap());
    }
    let requests = |connection: &Connection, store: &ContextStore| {
        load(connection, store).into_iter().map(|turn| turn.request).collect::<Vec<_>>()
    };
    assert_eq!(requests(&connection, &store()), ["3", "4"]);
    assert_eq!(requests(&connection, &other), ["2", "3", "4"]);

    initialize(&connection).unwrap();
    assert_eq!(requests(&connection, &store()), ["3", "4"]);

    assert_eq!(run(&mut connection, &[store().clear()]), 1);
    assert_eq!(run(&mut connection, &[store().clear()]), 0);
    assert!(load(&connection, &store()).is_empty());
    assert_eq!(requests(&connection, &other), ["2", "3", "4"]);
    run(&mut connection, &store().append("5", &answer).unwrap());
    assert_eq!(requests(&connection, &store()), ["5"]);
    assert_eq!(run(&mut connection, &[store().clear()]), 1);
}
