//! What the history database holds, and what the statements do to it.
//!
//! The tables are SQLite's. This is a model of them, with one effect for each
//! statement that the library writes, and what follows from those effects for the
//! history. A row that is added takes the greatest number, so that rows stand in
//! the order in which they were added, and a dropped context takes its rows with
//! it.
use vstd::prelude::*;

use crate::audit::{offset_text, outcome_text, record_plan, success_flag};
use crate::context::{
    append_plan, initialization, initialized_as, limit_too_large, opening_plan,
    responses_round_trip, stored_response, stored_turn, stored_turns, unsupported_database,
    ParameterView, ResponseView, Sql, StatementView, StoreView, TurnRow, TurnView,
    DATABASE_APPLICATION_ID, DATABASE_SCHEMA_VERSION, MAX_STORED_REQUEST_BYTES,
};
use crate::file_tools::EventView;
use crate::text::byte_length;

verus! {

// ---------------------------------------------------------------------------
// Tables.

/// A row that belongs to a context.
pub struct Saved<T> {
    pub scope: Seq<char>,
    pub row: T,
}

/// A row of the table of the turns.
pub struct SavedTurn {
    pub created_at: i64,
    pub working_directory: Seq<char>,
    pub request: Seq<char>,
    pub kind: Seq<char>,
    pub response: Seq<char>,
}

/// A row of the table of the file accesses.
pub struct SavedAccess {
    pub created_at: i64,
    pub request: Seq<char>,
    pub operation: Seq<char>,
    pub path: Option<Seq<char>>,
    pub offset: Option<Seq<char>>,
    pub succeeded: bool,
    pub detail: Seq<char>,
}

/// What the database holds.
#[verifier::ext_equal]
pub struct Database {
    pub application_id: i64,
    pub schema_version: i64,
    /// The names of its tables.
    pub tables: Set<Seq<char>>,
    /// The description of each context.
    pub contexts: Map<Seq<char>, Seq<char>>,
    /// The turns, oldest first.
    pub turns: Seq<Saved<SavedTurn>>,
    /// The file accesses, oldest first.
    pub accesses: Seq<Saved<SavedAccess>>,
}

impl Database {
    /// Whether the database keeps what its tables demand: rows belong to a context
    /// that is there, and responses are of a known kind.
    pub open spec fn is_valid(self) -> bool {
        &&& forall|i: int|
            0 <= i < self.turns.len() ==> self.contexts.contains_key(
                (#[trigger] self.turns[i]).scope,
            ) && stored_response(self.turns[i].row.kind, self.turns[i].row.response) is Ok
        &&& forall|i: int|
            0 <= i < self.accesses.len() ==> self.contexts.contains_key(
                (#[trigger] self.accesses[i]).scope,
            )
    }
}

/// The rows of a context, in their order.
pub open spec fn of_scope<T>(rows: Seq<Saved<T>>, scope: Seq<char>) -> Seq<T>
    decreases rows.len(),
{
    if rows.len() == 0 {
        seq![]
    } else {
        let front = of_scope(rows.drop_last(), scope);
        if rows.last().scope == scope {
            front.push(rows.last().row)
        } else {
            front
        }
    }
}

/// The last rows of a list, no more than `n` of them.
pub open spec fn newest<T>(rows: Seq<T>, n: int) -> Seq<T> {
    if rows.len() <= n {
        rows
    } else {
        rows.skip(rows.len() - n)
    }
}

/// All rows but those of a context that are not among its last `n`.
pub open spec fn with_newest<T>(rows: Seq<Saved<T>>, scope: Seq<char>, n: int) -> Seq<Saved<T>>
    decreases rows.len(),
{
    if rows.len() == 0 {
        seq![]
    } else if rows.last().scope != scope {
        with_newest(rows.drop_last(), scope, n).push(rows.last())
    } else if n > 0 {
        with_newest(rows.drop_last(), scope, n - 1).push(rows.last())
    } else {
        with_newest(rows.drop_last(), scope, n)
    }
}

// ---------------------------------------------------------------------------
// Statements.

impl StatementView {
    /// The value of a number, as a text.
    pub open spec fn text_at(self, i: int) -> Seq<char> {
        self.parameters[i]->Text_0
    }

    /// The value of a number, as a text that may be missing.
    pub open spec fn optional_at(self, i: int) -> Option<Seq<char>> {
        match self.parameters[i] {
            ParameterView::Text(text) => Some(text),
            _ => None,
        }
    }

    /// The value of a number, as an integer.
    pub open spec fn integer_at(self, i: int) -> i64 {
        self.parameters[i]->Integer_0
    }
}

impl Database {
    /// The database after a statement that is run at a time.
    pub open spec fn after(self, statement: StatementView, now: i64) -> Database {
        match statement.sql {
            Sql::SaveContext => Database {
                contexts: self.contexts.insert(statement.text_at(0), statement.text_at(1)),
                ..self
            },
            Sql::SaveTurn => Database {
                turns: self.turns.push(
                    Saved {
                        scope: statement.text_at(0),
                        row: SavedTurn {
                            created_at: now,
                            working_directory: statement.text_at(1),
                            request: statement.text_at(2),
                            kind: statement.text_at(3),
                            response: statement.text_at(4),
                        },
                    },
                ),
                ..self
            },
            Sql::KeepNewestTurns => Database {
                turns: with_newest(
                    self.turns,
                    statement.text_at(0),
                    statement.integer_at(1) as int,
                ),
                ..self
            },
            Sql::ClearContext => if self.contexts.contains_key(statement.text_at(0)) {
                Database {
                    contexts: self.contexts.remove(statement.text_at(0)),
                    turns: with_newest(self.turns, statement.text_at(0), 0),
                    accesses: with_newest(self.accesses, statement.text_at(0), 0),
                    ..self
                }
            } else {
                self
            },
            Sql::SaveFileIo => Database {
                accesses: self.accesses.push(
                    Saved {
                        scope: statement.text_at(0),
                        row: SavedAccess {
                            created_at: now,
                            request: statement.text_at(1),
                            operation: statement.text_at(2),
                            path: statement.optional_at(3),
                            offset: statement.optional_at(4),
                            succeeded: statement.integer_at(5) != 0,
                            detail: statement.text_at(6),
                        },
                    },
                ),
                ..self
            },
            Sql::LoadTurns | Sql::LoadFileIo => self,
        }
    }

    /// The database after the statements of a list.
    pub open spec fn after_all(self, statements: Seq<StatementView>, now: i64) -> Database
        decreases statements.len(),
    {
        if statements.len() == 0 {
            self
        } else {
            self.after_all(statements.drop_last(), now).after(statements.last(), now)
        }
    }

    /// How many rows a statement is reported to remove. Those that go with a
    /// context are not counted.
    pub open spec fn removed(self, statement: StatementView) -> int {
        if statement.sql == Sql::ClearContext && self.contexts.contains_key(statement.text_at(0)) {
            1
        } else {
            0
        }
    }

    /// The rows that a statement selects from the table of the turns.
    pub open spec fn selected_turns(self, statement: StatementView) -> Seq<SavedTurn> {
        if statement.sql == Sql::LoadTurns {
            newest(of_scope(self.turns, statement.text_at(0)), statement.integer_at(1) as int)
        } else {
            seq![]
        }
    }

    /// The rows that a statement selects from the table of the file accesses.
    pub open spec fn selected_accesses(self, statement: StatementView) -> Seq<SavedAccess> {
        if statement.sql == Sql::LoadFileIo {
            of_scope(self.accesses, statement.text_at(0))
        } else {
            seq![]
        }
    }

    /// The file accesses of a context.
    pub open spec fn log(self, store: StoreView) -> Seq<SavedAccess> {
        self.selected_accesses(
            StatementView {
                sql: Sql::LoadFileIo,
                parameters: seq![ParameterView::Text(store.scope)],
            },
        )
    }
}

// ---------------------------------------------------------------------------
// Reading back.

/// The columns of a row that was read.
pub open spec fn columns_of(row: TurnRow) -> SavedTurn {
    SavedTurn {
        created_at: row.created_at,
        working_directory: row.working_directory@,
        request: row.request@,
        kind: row.kind@,
        response: row.response@,
    }
}

/// The turn that a row holds.
pub open spec fn turn_in(row: SavedTurn) -> Result<TurnView, Seq<char>> {
    match stored_response(row.kind, row.response) {
        Ok(response) => Ok(
            TurnView {
                created_at: row.created_at,
                working_directory: row.working_directory,
                request: row.request,
                response,
            },
        ),
        Err(error) => Err(error),
    }
}

/// The turns that rows hold, or the first failure among them.
pub open spec fn turns_in(rows: Seq<SavedTurn>) -> Result<Seq<TurnView>, Seq<char>>
    decreases rows.len(),
{
    if rows.len() == 0 {
        Ok(seq![])
    } else {
        match turns_in(rows.drop_last()) {
            Err(error) => Err(error),
            Ok(turns) => match turn_in(rows.last()) {
                Err(error) => Err(error),
                Ok(turn) => Ok(turns.push(turn)),
            },
        }
    }
}

impl Database {
    /// What loading a context gives: the turns that its selection holds, or why
    /// there are none.
    pub open spec fn loaded(self, store: StoreView) -> Result<Seq<TurnView>, Seq<char>> {
        if store.max_turns > i64::MAX {
            Err(limit_too_large())
        } else {
            turns_in(self.selected_turns(store.selection()))
        }
    }
}

/// Rows that were read as they are saved hold the turns that are saved.
pub proof fn rows_are_read_as_saved(rows: Seq<Result<TurnRow, String>>, saved: Seq<SavedTurn>)
    requires
        rows.len() == saved.len(),
        forall|i: int|
            0 <= i < rows.len() ==> (#[trigger] rows[i] matches Ok(row) && columns_of(row)
                == saved[i]),
    ensures
        stored_turns(rows) == turns_in(saved),
    decreases rows.len(),
{
    if rows.len() > 0 {
        let front = rows.drop_last();
        assert forall|i: int| 0 <= i < front.len() implies (#[trigger] front[i] matches Ok(row)
            && columns_of(row) == saved.drop_last()[i]) by {
            assert(front[i] == rows[i]);
        }
        rows_are_read_as_saved(front, saved.drop_last());
        assert(rows[rows.len() - 1] is Ok);
        let row = rows.last()->Ok_0;
        assert(stored_turn(row) == turn_in(saved.last()));
    }
}

// ---------------------------------------------------------------------------
// Laws of the history.

proof fn lemma_newest_of_scope<T>(rows: Seq<Saved<T>>, scope: Seq<char>, n: int)
    requires
        n >= 0,
    ensures
        of_scope(with_newest(rows, scope, n), scope) == newest(of_scope(rows, scope), n),
    decreases rows.len(),
{
    if rows.len() > 0 {
        let front = rows.drop_last();
        let m = if rows.last().scope == scope && n > 0 {
            n - 1
        } else {
            n
        };
        lemma_newest_of_scope(front, scope, m);
        let kept = with_newest(front, scope, m);
        assert(kept.push(rows.last()).drop_last() =~= kept);
        if rows.last().scope == scope {
            let before = of_scope(front, scope);
            let all = before.push(rows.last().row);
            if n > 0 {
                assert(newest(all, n) =~= newest(before, m).push(rows.last().row));
            } else {
                assert(newest(all, 0) =~= newest(before, 0));
            }
        }
    } else {
        assert(newest(of_scope(rows, scope), n) =~= seq![]);
    }
}

proof fn lemma_newest_of_others<T>(
    rows: Seq<Saved<T>>,
    scope: Seq<char>,
    n: int,
    other: Seq<char>,
)
    requires
        other != scope,
    ensures
        of_scope(with_newest(rows, scope, n), other) == of_scope(rows, other),
    decreases rows.len(),
{
    if rows.len() > 0 {
        let front = rows.drop_last();
        let m = if rows.last().scope == scope && n > 0 {
            n - 1
        } else {
            n
        };
        lemma_newest_of_others(front, scope, m, other);
        let kept = with_newest(front, scope, m);
        assert(kept.push(rows.last()).drop_last() =~= kept);
    }
}

proof fn lemma_newest_are_rows<T>(rows: Seq<Saved<T>>, scope: Seq<char>, n: int, k: int)
    requires
        0 <= k < with_newest(rows, scope, n).len(),
    ensures
        rows.contains(with_newest(rows, scope, n)[k]),
        n <= 0 ==> with_newest(rows, scope, n)[k].scope != scope,
    decreases rows.len(),
{
    let front = rows.drop_last();
    let m = if rows.last().scope == scope && n > 0 {
        n - 1
    } else {
        n
    };
    let kept = with_newest(front, scope, m);
    if k < kept.len() {
        lemma_newest_are_rows(front, scope, m, k);
        let i = choose|i: int| 0 <= i < front.len() && front[i] == kept[k];
        assert(rows[i] == kept[k]);
        assert(with_newest(rows, scope, n)[k] == kept[k]);
    } else {
        assert(rows[rows.len() - 1] == with_newest(rows, scope, n)[k]);
    }
}

proof fn lemma_added_row<T>(rows: Seq<Saved<T>>, row: Saved<T>, scope: Seq<char>)
    ensures
        of_scope(rows.push(row), scope) == (if row.scope == scope {
            of_scope(rows, scope).push(row.row)
        } else {
            of_scope(rows, scope)
        }),
{
    assert(rows.push(row).drop_last() =~= rows);
}

proof fn lemma_rows_of_scope<T>(rows: Seq<Saved<T>>, scope: Seq<char>, k: int)
    requires
        0 <= k < of_scope(rows, scope).len(),
    ensures
        exists|i: int|
            0 <= i < rows.len() && (#[trigger] rows[i]).scope == scope && rows[i].row == of_scope(
                rows,
                scope,
            )[k],
    decreases rows.len(),
{
    let front = rows.drop_last();
    if k < of_scope(front, scope).len() {
        lemma_rows_of_scope(front, scope, k);
        let i = choose|i: int|
            0 <= i < front.len() && (#[trigger] front[i]).scope == scope && front[i].row
                == of_scope(front, scope)[k];
        assert(rows[i] == front[i]);
    } else {
        assert(rows[rows.len() - 1].scope == scope);
    }
}

/// The turns that rows of known kinds hold.
proof fn lemma_turns_in(rows: Seq<SavedTurn>)
    requires
        forall|i: int| 0 <= i < rows.len() ==> turn_in(#[trigger] rows[i]) is Ok,
    ensures
        turns_in(rows) == Ok::<Seq<TurnView>, Seq<char>>(
            Seq::new(rows.len(), |i: int| turn_in(rows[i])->Ok_0),
        ),
    decreases rows.len(),
{
    let all = Seq::new(rows.len(), |i: int| turn_in(rows[i])->Ok_0);
    if rows.len() > 0 {
        let front = rows.drop_last();
        assert forall|i: int| 0 <= i < front.len() implies turn_in(#[trigger] front[i]) is Ok by {
            assert(front[i] == rows[i]);
        }
        lemma_turns_in(front);
        assert(turn_in(rows[rows.len() - 1]) is Ok);
        assert(all =~= Seq::new(front.len(), |i: int| turn_in(front[i])->Ok_0).push(
            turn_in(rows.last())->Ok_0,
        ));
    } else {
        assert(all =~= seq![]);
    }
}

proof fn lemma_known_kinds(db: Database, scope: Seq<char>)
    requires
        db.is_valid(),
    ensures
        forall|k: int|
            0 <= k < of_scope(db.turns, scope).len() ==> turn_in(
                #[trigger] of_scope(db.turns, scope)[k],
            ) is Ok,
{
    let rows = of_scope(db.turns, scope);
    assert forall|k: int| 0 <= k < rows.len() implies turn_in(#[trigger] rows[k]) is Ok by {
        lemma_rows_of_scope(db.turns, scope, k);
        let i = choose|i: int|
            0 <= i < db.turns.len() && (#[trigger] db.turns[i]).scope == scope && db.turns[i].row
                == rows[k];
        assert(stored_response(db.turns[i].row.kind, db.turns[i].row.response) is Ok);
    }
}

proof fn lemma_three<T>(a: T, b: T, c: T)
    ensures
        seq![a, b, c].drop_last() == seq![a, b],
        seq![a, b].drop_last() == seq![a],
        seq![a].drop_last() == Seq::<T>::empty(),
{
    assert(seq![a, b, c].drop_last() =~= seq![a, b]);
    assert(seq![a, b].drop_last() =~= seq![a]);
    assert(seq![a].drop_last() =~= Seq::<T>::empty());
}

/// The turn that is saved for a request and a response.
pub open spec fn new_turn(
    store: StoreView,
    request: Seq<char>,
    response: ResponseView,
    now: i64,
) -> TurnView {
    TurnView { created_at: now, working_directory: store.working_directory, request, response }
}

/// The row that is saved for a request and a response.
spec fn new_row(
    store: StoreView,
    request: Seq<char>,
    response: ResponseView,
    now: i64,
) -> Saved<SavedTurn> {
    Saved {
        scope: store.scope,
        row: SavedTurn {
            created_at: now,
            working_directory: store.working_directory,
            request,
            kind: response.kind(),
            response: response.content(),
        },
    }
}

proof fn lemma_after_append(
    db: Database,
    store: StoreView,
    request: Seq<char>,
    response: ResponseView,
    now: i64,
)
    requires
        store.max_turns <= i64::MAX,
    ensures
        db.after_all(store.saved(request, response), now) == (Database {
            contexts: db.contexts.insert(store.scope, store.scope_description),
            turns: with_newest(
                db.turns.push(new_row(store, request, response, now)),
                store.scope,
                store.max_turns as int,
            ),
            ..db
        }),
{
    let statements = store.saved(request, response);
    lemma_three(statements[0], statements[1], statements[2]);
    let first = seq![statements[0]];
    let second = seq![statements[0], statements[1]];
    assert(statements =~= seq![statements[0], statements[1], statements[2]]);
    assert(db.after_all(first.drop_last(), now) == db);
    assert(db.after_all(first, now) == db.after(statements[0], now));
    assert(db.after_all(second, now) == db.after_all(first, now).after(statements[1], now));
    assert(db.after_all(statements, now) == db.after_all(second, now).after(statements[2], now));
}

/// A load after a turn was saved gives the newest turns, with the new one last and
/// no more than the limit. Turns of other contexts stay as they are. A request that
/// is too large is refused before anything is run.
pub proof fn saved_turns_are_loaded(
    db: Database,
    store: StoreView,
    request: Seq<char>,
    response: ResponseView,
    now: i64,
    other: StoreView,
)
    requires
        db.is_valid(),
    ensures
        byte_length(request) > MAX_STORED_REQUEST_BYTES ==> append_plan(store, request, response)
            is Err,
        append_plan(store, request, response) matches Ok(statements) ==> {
            let after = db.after_all(statements, now);
            &&& after.is_valid()
            &&& (db.loaded(store) matches Ok(old) && after.loaded(store) == Ok::<
                Seq<TurnView>,
                Seq<char>,
            >(newest(old.push(new_turn(store, request, response, now)), store.max_turns as int)))
            &&& other.scope != store.scope ==> after.loaded(other) == db.loaded(other)
            &&& after.log(other) == db.log(other)
        },
{
    if append_plan(store, request, response) is Ok {
        let n = store.max_turns as int;
        let statements = store.saved(request, response);
        let after = db.after_all(statements, now);
        let row = new_row(store, request, response, now);
        lemma_after_append(db, store, request, response, now);
        responses_round_trip(response);
        let pushed = db.turns.push(row);
        assert forall|i: int| 0 <= i < after.turns.len() implies after.contexts.contains_key(
            (#[trigger] after.turns[i]).scope,
        ) && stored_response(after.turns[i].row.kind, after.turns[i].row.response) is Ok by {
            lemma_newest_are_rows(pushed, store.scope, n, i);
            let k = choose|k: int| 0 <= k < pushed.len() && pushed[k] == after.turns[i];
            if k < db.turns.len() {
                assert(pushed[k] == db.turns[k]);
            }
        }
        assert(after.is_valid());
        let old_rows = of_scope(db.turns, store.scope);
        lemma_added_row(db.turns, row, store.scope);
        lemma_newest_of_scope(pushed, store.scope, n);
        let new_rows = of_scope(after.turns, store.scope);
        assert(new_rows == newest(old_rows.push(row.row), n));
        assert(newest(new_rows, n) =~= new_rows);
        lemma_known_kinds(db, store.scope);
        lemma_known_kinds(after, store.scope);
        let shown = newest(old_rows, n);
        assert forall|k: int| 0 <= k < shown.len() implies turn_in(#[trigger] shown[k]) is Ok by {
            if old_rows.len() > n {
                assert(shown[k] == old_rows[k + (old_rows.len() - n)]);
            }
        }
        lemma_turns_in(shown);
        lemma_turns_in(new_rows);
        let old = db.loaded(store)->Ok_0;
        let wanted = newest(old.push(new_turn(store, request, response, now)), n);
        assert(turn_in(row.row) == Ok::<TurnView, Seq<char>>(
            new_turn(store, request, response, now),
        ));
        assert(after.loaded(store)->Ok_0 =~= wanted);
        if other.scope != store.scope {
            lemma_added_row(db.turns, row, other.scope);
            lemma_newest_of_others(pushed, store.scope, n, other.scope);
        }
    }
}

/// A cleared context is empty: it holds no turn and no file access, and clearing it
/// again removes nothing. A clear removes something where the context is there, and
/// leaves other contexts as they are.
pub proof fn cleared_contexts_are_empty(db: Database, store: StoreView, now: i64, other: StoreView)
    requires
        db.is_valid(),
    ensures
        ({
            let after = db.after(store.clearance(), now);
            &&& after.is_valid()
            &&& (db.removed(store.clearance()) != 0 <==> db.contexts.contains_key(store.scope))
            &&& after.removed(store.clearance()) == 0
            &&& after.after(store.clearance(), now) == after
            &&& store.max_turns <= i64::MAX ==> after.loaded(store) == Ok::<
                Seq<TurnView>,
                Seq<char>,
            >(seq![])
            &&& after.log(store) == Seq::<SavedAccess>::empty()
            &&& other.scope != store.scope ==> {
                &&& after.loaded(other) == db.loaded(other)
                &&& after.log(other) == db.log(other)
                &&& after.contexts.contains_key(other.scope) == db.contexts.contains_key(
                    other.scope,
                )
            }
        }),
{
    let after = db.after(store.clearance(), now);
    if db.contexts.contains_key(store.scope) {
        assert forall|i: int| 0 <= i < after.turns.len() implies after.contexts.contains_key(
            (#[trigger] after.turns[i]).scope,
        ) && stored_response(after.turns[i].row.kind, after.turns[i].row.response) is Ok by {
            lemma_newest_are_rows(db.turns, store.scope, 0, i);
            let k = choose|k: int| 0 <= k < db.turns.len() && db.turns[k] == after.turns[i];
            assert(db.contexts.contains_key(db.turns[k].scope));
        }
        assert forall|i: int| 0 <= i < after.accesses.len() implies after.contexts.contains_key(
            (#[trigger] after.accesses[i]).scope,
        ) by {
            lemma_newest_are_rows(db.accesses, store.scope, 0, i);
            let k = choose|k: int|
                0 <= k < db.accesses.len() && db.accesses[k] == after.accesses[i];
            assert(db.contexts.contains_key(db.accesses[k].scope));
        }
        if other.scope != store.scope {
            lemma_newest_of_others(db.turns, store.scope, 0, other.scope);
            lemma_newest_of_others(db.accesses, store.scope, 0, other.scope);
        }
    }
    if of_scope(after.turns, store.scope).len() > 0 {
        lemma_rows_of_scope(after.turns, store.scope, 0);
    }
    if of_scope(after.accesses, store.scope).len() > 0 {
        lemma_rows_of_scope(after.accesses, store.scope, 0);
    }
    assert(of_scope(after.turns, store.scope) =~= seq![]);
    assert(of_scope(after.accesses, store.scope) =~= seq![]);
    let selected = after.selected_turns(store.selection());
    if store.max_turns <= i64::MAX {
        assert(selected =~= seq![]);
    }
}

/// The row of a file access.
pub open spec fn new_access(request: Seq<char>, event: EventView, now: i64) -> SavedAccess {
    SavedAccess {
        created_at: now,
        request,
        operation: event.operation.name(),
        path: event.path,
        offset: offset_text(event.offset),
        succeeded: success_flag(event.outcome) != 0,
        detail: outcome_text(event.outcome),
    }
}

/// A file access that was recorded is the last of its context in the log, and
/// everything else that is logged or remembered stays as it is.
pub proof fn recorded_accesses_are_logged(
    db: Database,
    store: StoreView,
    request: Seq<char>,
    event: EventView,
    now: i64,
    other: StoreView,
)
    requires
        db.is_valid(),
    ensures
        ({
            let after = db.after_all(record_plan(store, request, event), now);
            &&& after.is_valid()
            &&& after.contexts.contains_key(store.scope)
            &&& after.log(store) == db.log(store).push(new_access(request, event, now))
            &&& other.scope != store.scope ==> after.log(other) == db.log(other)
            &&& after.loaded(other) == db.loaded(other)
        }),
{
    let statements = record_plan(store, request, event);
    lemma_three(statements[0], statements[1], statements[1]);
    let first = seq![statements[0]];
    assert(statements =~= seq![statements[0], statements[1]]);
    assert(db.after_all(first.drop_last(), now) == db);
    assert(db.after_all(first, now) == db.after(statements[0], now));
    let after = db.after_all(statements, now);
    let row = Saved { scope: store.scope, row: new_access(request, event, now) };
    assert(after.accesses == db.accesses.push(row));
    assert(after.turns == db.turns);
    assert forall|i: int| 0 <= i < after.accesses.len() implies after.contexts.contains_key(
        (#[trigger] after.accesses[i]).scope,
    ) by {
        if i < db.accesses.len() {
            assert(after.accesses[i] == db.accesses[i]);
        }
    }
    lemma_added_row(db.accesses, row, store.scope);
    lemma_added_row(db.accesses, row, other.scope);
}

// ---------------------------------------------------------------------------
// Laws of many operations.

/// What is done to a context.
pub enum Change {
    Append { request: Seq<char>, response: ResponseView },
    Record { request: Seq<char>, event: EventView },
    Clear,
}

/// What is done to the context of a store at a time.
pub struct Operation {
    pub now: i64,
    pub store: StoreView,
    pub change: Change,
}

impl Operation {
    /// The statements that are run. A turn that is refused runs none.
    pub open spec fn statements(self) -> Seq<StatementView> {
        match self.change {
            Change::Append { request, response } => match append_plan(
                self.store,
                request,
                response,
            ) {
                Ok(statements) => statements,
                Err(_) => seq![],
            },
            Change::Record { request, event } => record_plan(self.store, request, event),
            Change::Clear => seq![self.store.clearance()],
        }
    }

    /// Whether anything is saved.
    pub open spec fn saves(self) -> bool {
        !(self.change is Clear) && self.statements().len() > 0
    }
}

impl Database {
    /// The database after the operations of a list.
    pub open spec fn after_operations(self, operations: Seq<Operation>) -> Database
        decreases operations.len(),
    {
        if operations.len() == 0 {
            self
        } else {
            let last = operations.last();
            self.after_operations(operations.drop_last()).after_all(last.statements(), last.now)
        }
    }
}

/// Whether anything was saved in a context since it was last cleared.
pub open spec fn saved_since_clear(operations: Seq<Operation>, scope: Seq<char>) -> bool
    decreases operations.len(),
{
    if operations.len() == 0 {
        false
    } else {
        let last = operations.last();
        if last.store.scope != scope {
            saved_since_clear(operations.drop_last(), scope)
        } else if last.change is Clear {
            false
        } else {
            last.saves() || saved_since_clear(operations.drop_last(), scope)
        }
    }
}

/// Whatever is done, the database stays valid, and a clear reports that it removed
/// something exactly where something was saved in the context since it was last
/// cleared.
pub proof fn clears_report_what_was_saved(
    db: Database,
    operations: Seq<Operation>,
    store: StoreView,
)
    requires
        db.is_valid(),
        !db.contexts.contains_key(store.scope),
    ensures
        db.after_operations(operations).is_valid(),
        db.after_operations(operations).contexts.contains_key(store.scope) == saved_since_clear(
            operations,
            store.scope,
        ),
        db.after_operations(operations).removed(store.clearance()) != 0 <==> saved_since_clear(
            operations,
            store.scope,
        ),
    decreases operations.len(),
{
    if operations.len() > 0 {
        clears_report_what_was_saved(db, operations.drop_last(), store);
        let before = db.after_operations(operations.drop_last());
        let last = operations.last();
        match last.change {
            Change::Append { request, response } => {
                saved_turns_are_loaded(before, last.store, request, response, last.now, store);
                if append_plan(last.store, request, response) is Ok {
                    lemma_after_append(before, last.store, request, response, last.now);
                }
            },
            Change::Record { request, event } => {
                recorded_accesses_are_logged(before, last.store, request, event, last.now, store);
                let statements = last.statements();
                lemma_three(statements[0], statements[1], statements[1]);
                let first = seq![statements[0]];
                assert(statements =~= seq![statements[0], statements[1]]);
                assert(before.after_all(first.drop_last(), last.now) == before);
                assert(before.after_all(first, last.now) == before.after(statements[0], last.now));
            },
            Change::Clear => {
                cleared_contexts_are_empty(before, last.store, last.now, store);
                let statements = seq![last.store.clearance()];
                assert(statements.drop_last() =~= seq![]);
                assert(before.after_all(statements.drop_last(), last.now) == before);
                assert(before.after_all(statements, last.now) == before.after(
                    last.store.clearance(),
                    last.now,
                ));
            },
        }
    }
}

// ---------------------------------------------------------------------------
// Laws of opening.

/// The names of the tables that the database has once it was initialized.
pub open spec fn own_tables() -> Set<Seq<char>> {
    set!["contexts"@, "turns"@, "file_io"@]
}

impl Database {
    /// The database after it was initialized: the tables that were missing are
    /// there, and it carries this kind and version.
    pub open spec fn initialized(self) -> Database {
        Database {
            application_id: DATABASE_APPLICATION_ID,
            schema_version: DATABASE_SCHEMA_VERSION,
            tables: self.tables.union(own_tables()),
            ..self
        }
    }

    /// The database after the statements of an initialization were run.
    pub open spec fn after_batch(self, batch: Seq<char>) -> Database {
        if batch == initialization() {
            self.initialized()
        } else {
            self
        }
    }

    /// Opening the database: what it holds after that, and why it was refused where
    /// it was.
    pub open spec fn opened(self) -> (Database, Result<(), Seq<char>>) {
        match opening_plan(self.application_id, self.schema_version, self.tables.len() as int) {
            Err(error) => (self, Err(error)),
            Ok(batch) => {
                let after = self.after_batch(batch);
                (after, initialized_as(after.application_id, after.schema_version))
            },
        }
    }
}

/// A database is opened where it is new, or of this kind and version. It then
/// carries them, keeps all that is saved in it, and can be opened again without a
/// change. One that is refused is not changed.
pub proof fn databases_are_opened_or_left_alone(db: Database)
    requires
        db.tables.finite(),
    ensures
        ({
            let (after, result) = db.opened();
            let n = db.tables.len();
            &&& result is Ok <==> (n == 0 && db.application_id == 0 && db.schema_version == 0) || (n
                != 0 && db.application_id == 0x4149_5348 && db.schema_version == 2)
            &&& result is Err ==> after == db && result == Err::<(), Seq<char>>(
                unsupported_database(),
            )
            &&& result is Ok ==> {
                &&& after.application_id == 0x4149_5348
                &&& after.schema_version == 2
                &&& after.contexts == db.contexts
                &&& after.turns == db.turns
                &&& after.accesses == db.accesses
                &&& after.opened() == (after, result)
            }
        }),
{
    let (after, result) = db.opened();
    if result is Ok {
        assert(after.tables.contains("turns"@));
        assert(own_tables().finite());
        vstd::set_lib::lemma_set_union_finite_iff(db.tables, own_tables());
        if after.tables.len() == 0 {
            after.tables.lemma_len0_is_empty();
        }
        assert(after.tables.len() != 0);
        assert(after.tables.union(own_tables()) =~= after.tables);
        assert(after.initialized() =~= after);
    }
}

} // verus!
