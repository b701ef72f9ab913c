//! The log of file accesses.
use vstd::prelude::*;

use crate::context::{
    statement_views, ContextStore, Parameter, ParameterView, Sql, Statement, StatementView,
    StoreView,
};
use crate::error::{outcome, Error};
use crate::file_tools::{
    stored_operation, EventView, FileIoEvent, FileIoOperation, FileIoOutcome, OutcomeView,
};
use crate::number::{
    decimal, digit, digits, in_base, signed_decimal, size_to_decimal, to_decimal, to_signed_decimal,
};
use crate::text::{char_is_control, chars_of, is_control, join2, join3, opt_text};
use crate::ui;

verus! {

// ---------------------------------------------------------------------------
// Statements.

/// A text that may be missing, as a value.
pub open spec fn optional_parameter(text: Option<Seq<char>>) -> ParameterView {
    match text {
        Some(text) => ParameterView::Text(text),
        None => ParameterView::Null,
    }
}

/// The number of an offset as a text.
pub open spec fn offset_text(offset: Option<u64>) -> Option<Seq<char>> {
    match offset {
        Some(offset) => Some(decimal(offset as nat)),
        None => None,
    }
}

/// Whether an access succeeded, as a number.
pub open spec fn success_flag(outcome: OutcomeView) -> i64 {
    match outcome {
        OutcomeView::Succeeded { .. } => 1,
        OutcomeView::Failed { .. } => 0,
    }
}

/// The content of an access that succeeded, or the reason why it did not.
pub open spec fn outcome_text(outcome: OutcomeView) -> Seq<char> {
    match outcome {
        OutcomeView::Succeeded { content } => content,
        OutcomeView::Failed { reason } => reason,
    }
}

/// The statements that save a file access that a model made on a request.
pub open spec fn record_plan(store: StoreView, request: Seq<char>, event: EventView) -> Seq<
    StatementView,
> {
    seq![
        store.renewal(),
        StatementView {
            sql: Sql::SaveFileIo,
            parameters: seq![
                ParameterView::Text(store.scope),
                ParameterView::Text(request),
                ParameterView::Text(event.operation.name()),
                optional_parameter(event.path),
                optional_parameter(offset_text(event.offset)),
                ParameterView::Integer(success_flag(event.outcome)),
                ParameterView::Text(outcome_text(event.outcome)),
            ],
        },
    ]
}

fn optional_text(text: &Option<String>) -> (r: Parameter)
    ensures
        r@ == optional_parameter(opt_text(*text)),
{
    match text {
        Some(text) => Parameter::Text(text.clone()),
        None => Parameter::Null,
    }
}

/// The statements that save a file access that a model made on a request. They
/// are run together or not at all.
pub fn record_file_io(store: &ContextStore, request: &str, event: &FileIoEvent) -> (r: Vec<
    Statement,
>)
    ensures
        statement_views(r@) == record_plan(store@, request@, event@),
{
    let offset = match event.offset {
        Some(offset) => Some(to_decimal(offset)),
        None => None,
    };
    let (flag, detail): (i64, &str) = match &event.outcome {
        FileIoOutcome::Succeeded { content } => (1, content.as_str()),
        FileIoOutcome::Failed { reason } => (0, reason.as_str()),
    };
    let mut parameters: Vec<Parameter> = Vec::new();
    parameters.push(Parameter::Text(store.scope().to_owned()));
    parameters.push(Parameter::Text(request.to_owned()));
    parameters.push(Parameter::Text(event.operation.as_str().to_owned()));
    parameters.push(optional_text(&event.path));
    parameters.push(optional_text(&offset));
    parameters.push(Parameter::Integer(flag));
    parameters.push(Parameter::Text(detail.to_owned()));
    let insertion = Statement { sql: Sql::SaveFileIo, parameters };
    assert(insertion@ =~= record_plan(store@, request@, event@)[1]);
    let mut statements: Vec<Statement> = Vec::new();
    statements.push(store.renewal());
    statements.push(insertion);
    assert(statement_views(statements@) =~= record_plan(store@, request@, event@));
    statements
}

/// The statement that selects the file accesses of a context.
pub fn load_file_io(store: &ContextStore) -> (r: Statement)
    ensures
        r@ == (StatementView {
            sql: Sql::LoadFileIo,
            parameters: seq![ParameterView::Text(store@.scope)],
        }),
{
    let mut parameters: Vec<Parameter> = Vec::new();
    parameters.push(Parameter::Text(store.scope().to_owned()));
    let r = Statement { sql: Sql::LoadFileIo, parameters };
    assert(r@ =~= StatementView {
        sql: Sql::LoadFileIo,
        parameters: seq![ParameterView::Text(store@.scope)],
    });
    r
}

// ---------------------------------------------------------------------------
// Entries.

/// A row of the table of the file accesses.
#[derive(Clone, Debug, PartialEq, Eq)]
pub struct LogRow {
    pub created_at: i64,
    pub request: String,
    pub operation: String,
    pub path: Option<String>,
    pub offset: Option<String>,
    pub succeeded: bool,
    pub detail: String,
}

/// An entry of the log.
#[derive(Clone, Debug, PartialEq, Eq)]
pub struct LogEntry {
    pub created_at: i64,
    pub request: String,
    pub operation: FileIoOperation,
    pub path: Option<String>,
    pub offset: Option<String>,
    pub succeeded: bool,
    pub detail: String,
}

/// An entry of the log, with its texts taken as characters.
pub struct EntryView {
    pub created_at: i64,
    pub request: Seq<char>,
    pub operation: FileIoOperation,
    pub path: Option<Seq<char>>,
    pub offset: Option<Seq<char>>,
    pub succeeded: bool,
    pub detail: Seq<char>,
}

impl View for LogEntry {
    type V = EntryView;

    open spec fn view(&self) -> EntryView {
        EntryView {
            created_at: self.created_at,
            request: self.request@,
            operation: self.operation,
            path: opt_text(self.path),
            offset: opt_text(self.offset),
            succeeded: self.succeeded,
            detail: self.detail@,
        }
    }
}

/// The entry that a row holds, or how a row with an unknown operation is reported.
pub open spec fn stored_entry(row: LogRow) -> Result<EntryView, Seq<char>> {
    match stored_operation(row.operation@) {
        Ok(operation) => Ok(
            EntryView {
                created_at: row.created_at,
                request: row.request@,
                operation,
                path: opt_text(row.path),
                offset: opt_text(row.offset),
                succeeded: row.succeeded,
                detail: row.detail@,
            },
        ),
        Err(error) => Err(error),
    }
}

impl LogEntry {
    /// The entry that a row holds.
    pub fn from_row(row: LogRow) -> (r: Result<Self, Error>)
        ensures
            match r {
                Ok(entry) => stored_entry(row) == Ok::<EntryView, Seq<char>>(entry@),
                Err(error) => stored_entry(row) == Err::<EntryView, Seq<char>>(error@),
            },
    {
        match FileIoOperation::from_str(row.operation.as_str()) {
            Ok(operation) => Ok(
                LogEntry {
                    created_at: row.created_at,
                    request: row.request,
                    operation,
                    path: row.path,
                    offset: row.offset,
                    succeeded: row.succeeded,
                    detail: row.detail,
                },
            ),
            Err(error) => Err(error),
        }
    }
}

// ---------------------------------------------------------------------------
// Escapes.

/// A character as it is shown: a control character by its number.
pub open spec fn escaped_char(c: char) -> Seq<char> {
    if is_control(c) {
        "\\u{"@ + digits(c as nat, 16) + "}"@
    } else {
        seq![c]
    }
}

/// A text as it is shown.
pub open spec fn escaped(s: Seq<char>) -> Seq<char>
    decreases s.len(),
{
    if s.len() == 0 {
        seq![]
    } else {
        escaped(s.drop_last()) + escaped_char(s.last())
    }
}

fn number_control(c: char) -> (r: String)
    requires
        is_control(c),
    ensures
        r@ == escaped_char(c),
{
    let code: u32 = c as u32;
    join3("\\u{", in_base(code as u128, 16).as_str(), "}")
}

/// A text as it is shown, with control characters by their numbers.
pub fn escape(text: &str) -> (r: String)
    ensures
        r@ == escaped(text@),
{
    let chars = chars_of(text);
    let mut out = String::new();
    let mut i: usize = 0;
    assert(text@.take(0) =~= seq![]);
    assert(out@ =~= seq![]);
    while i < chars.len()
        invariant
            chars@ == text@,
            i <= chars@.len(),
            out@ == escaped(text@.take(i as int)),
        decreases chars@.len() - i,
    {
        let c = chars[i];
        let ghost before = out@;
        assert(text@.take(i + 1).drop_last() =~= text@.take(i as int));
        assert(text@.take(i + 1).last() == c);
        if char_is_control(c) {
            out.push_str(number_control(c).as_str());
        } else {
            out.push(c);
        }
        assert(out@ =~= before + escaped_char(c));
        i = i + 1;
    }
    assert(text@.take(text@.len() as int) =~= text@);
    out
}

// ---------------------------------------------------------------------------
// The viewer.

/// How the path of an entry is shown.
pub open spec fn shown_entry_path(path: Option<Seq<char>>) -> Seq<char> {
    match path {
        Some(path) => escaped(path),
        None => "no path"@,
    }
}

/// How the offset of an entry is shown.
pub open spec fn shown_offset(offset: Option<Seq<char>>) -> Seq<char> {
    match offset {
        Some(offset) => " · offset "@ + escaped(offset),
        None => ""@,
    }
}

/// What stands before the detail of an entry.
pub open spec fn detail_label(succeeded: bool) -> Seq<char> {
    if succeeded {
        ui::SUCCESS@ + " Content · "@
    } else {
        ui::ERROR@ + " Denied · "@
    }
}

/// How an entry is shown.
pub open spec fn shown_entry(entry: EntryView, number: nat) -> Seq<char> {
    "\n─ "@ + decimal(number) + " · "@ + signed_decimal(entry.created_at as int) + " · "@
        + entry.operation.name() + " · "@ + shown_entry_path(entry.path) + shown_offset(
        entry.offset,
    ) + "\n"@ + ui::REQUEST@ + " You · "@ + escaped(entry.request) + "\n"@ + detail_label(
        entry.succeeded,
    ) + escaped(entry.detail) + "\n"@
}

/// How entries are shown.
pub open spec fn shown_entries(entries: Seq<EntryView>) -> Seq<char>
    decreases entries.len(),
{
    if entries.len() == 0 {
        ""@
    } else {
        shown_entries(entries.drop_last()) + shown_entry(entries.last(), entries.len())
    }
}

/// How the log is shown.
pub open spec fn shown_log(entries: Seq<EntryView>, description: Seq<char>) -> Seq<char> {
    ui::CONTEXT@ + " File I/O log · "@ + escaped(description) + "\n"@ + (if entries.len() == 0 {
        ui::EMPTY@ + " No file accesses yet.\n"@
    } else {
        shown_entries(entries)
    })
}

/// The entries of a list, with their texts taken as characters.
pub open spec fn entry_views(entries: Seq<LogEntry>) -> Seq<EntryView> {
    Seq::new(entries.len(), |i: int| entries[i]@)
}

fn show_entry(entry: &LogEntry, number: usize) -> (r: String)
    ensures
        r@ == shown_entry(entry@, number as nat),
{
    let mut out = join3("\n─ ", size_to_decimal(number).as_str(), " · ");
    out.push_str(to_signed_decimal(entry.created_at).as_str());
    out.push_str(" · ");
    out.push_str(entry.operation.as_str());
    out.push_str(" · ");
    match &entry.path {
        Some(path) => out.push_str(escape(path.as_str()).as_str()),
        None => out.push_str("no path"),
    }
    match &entry.offset {
        Some(offset) => out.push_str(
            join2(" · offset ", escape(offset.as_str()).as_str()).as_str(),
        ),
        None => out.push_str(""),
    }
    out.push_str("\n");
    out.push_str(ui::REQUEST);
    out.push_str(" You · ");
    out.push_str(escape(entry.request.as_str()).as_str());
    out.push_str("\n");
    if entry.succeeded {
        out.push_str(join2(ui::SUCCESS, " Content · ").as_str());
    } else {
        out.push_str(join2(ui::ERROR, " Denied · ").as_str());
    }
    out.push_str(escape(entry.detail.as_str()).as_str());
    out.push_str("\n");
    out
}

/// How the log is shown.
pub fn show_log(entries: &Vec<LogEntry>, description: &str) -> (r: String)
    ensures
        r@ == shown_log(entry_views(entries@), description@),
{
    let mut out = join3(ui::CONTEXT, " File I/O log · ", escape(description).as_str());
    out.push_str("\n");
    if entries.len() == 0 {
        out.push_str(join2(ui::EMPTY, " No file accesses yet.\n").as_str());
        return out;
    }
    let ghost all = entry_views(entries@);
    let mut body = "".to_owned();
    let mut i: usize = 0;
    let n: usize = entries.len();
    assert(all.take(0) =~= seq![]);
    while i < n
        invariant
            all == entry_views(entries@),
            n == entries@.len(),
            i <= n,
            body@ == shown_entries(all.take(i as int)),
        decreases n - i,
    {
        assert(all.take(i + 1).drop_last() =~= all.take(i as int));
        assert(all.take(i + 1).last() == entries@[i as int]@);
        body.push_str(show_entry(&entries[i], i + 1).as_str());
        i = i + 1;
    }
    assert(all.take(n as int) =~= all);
    out.push_str(body.as_str());
    out
}

// ---------------------------------------------------------------------------
// Laws.

/// Whether a text can be shown on a terminal without controlling it: it holds no
/// control characters but line feeds.
pub open spec fn is_harmless(s: Seq<char>) -> bool {
    forall|i: int| 0 <= i < s.len() ==> !is_control(#[trigger] s[i]) || s[i] == '\n'
}

proof fn lemma_harmless_concat(a: Seq<char>, b: Seq<char>)
    requires
        is_harmless(a),
        is_harmless(b),
    ensures
        is_harmless(a + b),
{
    assert forall|i: int| 0 <= i < (a + b).len() implies !is_control(#[trigger] (a + b)[i]) || (a
        + b)[i] == '\n' by {
        if i < a.len() {
            assert((a + b)[i] == a[i]);
        } else {
            assert((a + b)[i] == b[i - a.len()]);
        }
    }
}

proof fn lemma_digits_are_visible(n: nat, base: nat)
    requires
        2 <= base <= 16,
    ensures
        forall|i: int| 0 <= i < digits(n, base).len() ==> !is_control(#[trigger] digits(n, base)[i]),
    decreases n,
{
    if n < base {
        assert(!is_control(digit(n as int)));
    } else {
        vstd::arithmetic::div_mod::lemma_div_decreases(n as int, base as int);
        lemma_digits_are_visible(n / base, base);
        vstd::arithmetic::div_mod::lemma_mod_bound(n as int, base as int);
        let last = digit((n % base) as int);
        assert(!is_control(last));
        let front = digits(n / base, base);
        assert(digits(n, base) == front.push(last));
        assert forall|i: int| 0 <= i < digits(n, base).len() implies !is_control(
            #[trigger] digits(n, base)[i],
        ) by {
            if i < front.len() {
                assert(digits(n, base)[i] == front[i]);
            }
        }
    }
}

proof fn lemma_escaped_is_visible(s: Seq<char>)
    ensures
        forall|i: int| 0 <= i < escaped(s).len() ==> !is_control(#[trigger] escaped(s)[i]),
    decreases s.len(),
{
    if s.len() > 0 {
        let front = escaped(s.drop_last());
        let last = escaped_char(s.last());
        lemma_escaped_is_visible(s.drop_last());
        lemma_digits_are_visible(s.last() as nat, 16);
        reveal_strlit("\\u{");
        reveal_strlit("}");
        let number = digits(s.last() as nat, 16);
        assert forall|i: int| 0 <= i < last.len() implies !is_control(#[trigger] last[i]) by {
            if is_control(s.last()) {
                if i < 3 {
                    assert(last[i] == "\\u{"@[i]);
                } else if i < 3 + number.len() {
                    assert(last[i] == number[i - 3]);
                } else {
                    assert(last[i] == '}');
                }
            }
        }
        assert forall|i: int| 0 <= i < escaped(s).len() implies !is_control(
            #[trigger] escaped(s)[i],
        ) by {
            if i < front.len() {
                assert(escaped(s)[i] == front[i]);
            } else {
                assert(escaped(s)[i] == last[i - front.len()]);
            }
        }
    }
}

/// Escaped texts hold no control characters, and texts without any are shown as
/// they are.
pub proof fn escaped_texts_are_visible(s: Seq<char>)
    ensures
        forall|i: int| 0 <= i < escaped(s).len() ==> !is_control(#[trigger] escaped(s)[i]),
        (forall|i: int| 0 <= i < s.len() ==> !is_control(#[trigger] s[i])) ==> escaped(s) == s,
    decreases s.len(),
{
    lemma_escaped_is_visible(s);
    if s.len() > 0 {
        escaped_texts_are_visible(s.drop_last());
        if forall|i: int| 0 <= i < s.len() ==> !is_control(#[trigger] s[i]) {
            assert forall|i: int| 0 <= i < s.drop_last().len() implies !is_control(
                #[trigger] s.drop_last()[i],
            ) by {
                assert(s.drop_last()[i] == s[i]);
            }
            assert(!is_control(s[s.len() - 1]));
            assert(escaped(s) =~= s);
        }
    }
}

proof fn lemma_signed_decimal_is_harmless(n: int)
    ensures
        is_harmless(signed_decimal(n)),
{
    if n < 0 {
        lemma_digits_are_visible((-n) as nat, 10);
        lemma_harmless_concat(seq!['-'], decimal((-n) as nat));
    } else {
        lemma_digits_are_visible(n as nat, 10);
    }
}

proof fn lemma_labels_are_harmless(operation: FileIoOperation, succeeded: bool)
    ensures
        is_harmless("\n─ "@),
        is_harmless(" · "@),
        is_harmless("\n"@),
        is_harmless(" You · "@),
        is_harmless(" · offset "@),
        is_harmless("no path"@),
        is_harmless(""@),
        is_harmless(ui::REQUEST@),
        is_harmless(operation.name()),
        is_harmless(detail_label(succeeded)),
{
    reveal_strlit("\n─ ");
    reveal_strlit(" · ");
    reveal_strlit("\n");
    reveal_strlit(" You · ");
    reveal_strlit(" · offset ");
    reveal_strlit("no path");
    reveal_strlit("");
    reveal_strlit("💬");
    reveal_strlit("✓");
    reveal_strlit("✗");
    reveal_strlit(" Content · ");
    reveal_strlit(" Denied · ");
    reveal_strlit("read");
    reveal_strlit("write");
    reveal_strlit("modify");
    lemma_harmless_concat(ui::SUCCESS@, " Content · "@);
    lemma_harmless_concat(ui::ERROR@, " Denied · "@);
}

proof fn lemma_entry_is_harmless(entry: EntryView, number: nat)
    ensures
        is_harmless(shown_entry(entry, number)),
{
    lemma_labels_are_harmless(entry.operation, entry.succeeded);
    lemma_digits_are_visible(number, 10);
    lemma_signed_decimal_is_harmless(entry.created_at as int);
    lemma_escaped_is_visible(entry.request);
    lemma_escaped_is_visible(entry.detail);
    match entry.path {
        Some(path) => lemma_escaped_is_visible(path),
        None => {},
    }
    match entry.offset {
        Some(offset) => {
            lemma_escaped_is_visible(offset);
            lemma_harmless_concat(" · offset "@, escaped(offset));
        },
        None => {},
    }
    let s = "\n─ "@;
    lemma_harmless_concat(s, decimal(number));
    let s = s + decimal(number);
    lemma_harmless_concat(s, " · "@);
    let s = s + " · "@;
    lemma_harmless_concat(s, signed_decimal(entry.created_at as int));
    let s = s + signed_decimal(entry.created_at as int);
    lemma_harmless_concat(s, " · "@);
    let s = s + " · "@;
    lemma_harmless_concat(s, entry.operation.name());
    let s = s + entry.operation.name();
    lemma_harmless_concat(s, " · "@);
    let s = s + " · "@;
    lemma_harmless_concat(s, shown_entry_path(entry.path));
    let s = s + shown_entry_path(entry.path);
    lemma_harmless_concat(s, shown_offset(entry.offset));
    let s = s + shown_offset(entry.offset);
    lemma_harmless_concat(s, "\n"@);
    let s = s + "\n"@;
    lemma_harmless_concat(s, ui::REQUEST@);
    let s = s + ui::REQUEST@;
    lemma_harmless_concat(s, " You · "@);
    let s = s + " You · "@;
    lemma_harmless_concat(s, escaped(entry.request));
    let s = s + escaped(entry.request);
    lemma_harmless_concat(s, "\n"@);
    let s = s + "\n"@;
    lemma_harmless_concat(s, detail_label(entry.succeeded));
    let s = s + detail_label(entry.succeeded);
    lemma_harmless_concat(s, escaped(entry.detail));
    let s = s + escaped(entry.detail);
    lemma_harmless_concat(s, "\n"@);
}

proof fn lemma_entries_are_harmless(entries: Seq<EntryView>)
    ensures
        is_harmless(shown_entries(entries)),
    decreases entries.len(),
{
    reveal_strlit("");
    if entries.len() > 0 {
        lemma_entries_are_harmless(entries.drop_last());
        lemma_entry_is_harmless(entries.last(), entries.len());
        lemma_harmless_concat(
            shown_entries(entries.drop_last()),
            shown_entry(entries.last(), entries.len()),
        );
    }
}

/// The log cannot control the terminal that it is shown on, whatever the files,
/// paths and requests in it hold.
pub proof fn logs_cannot_control_the_terminal(entries: Seq<EntryView>, description: Seq<char>)
    ensures
        is_harmless(shown_log(entries, description)),
{
    reveal_strlit("🧠");
    reveal_strlit(" File I/O log · ");
    reveal_strlit("\n");
    reveal_strlit("○");
    reveal_strlit(" No file accesses yet.\n");
    lemma_escaped_is_visible(description);
    lemma_entries_are_harmless(entries);
    lemma_harmless_concat(ui::CONTEXT@, " File I/O log · "@);
    lemma_harmless_concat(ui::CONTEXT@ + " File I/O log · "@, escaped(description));
    let head = ui::CONTEXT@ + " File I/O log · "@ + escaped(description);
    lemma_harmless_concat(head, "\n"@);
    lemma_harmless_concat(ui::EMPTY@, " No file accesses yet.\n"@);
    lemma_harmless_concat(head + "\n"@, ui::EMPTY@ + " No file accesses yet.\n"@);
    lemma_harmless_concat(head + "\n"@, shown_entries(entries));
}

/// Every file access is saved in full, with the request that it was made on: what
/// was done under its word, the path and the offset where there are any, whether
/// it succeeded, and the content or the reason.
pub proof fn accesses_are_saved_in_full(store: StoreView, request: Seq<char>, event: EventView)
    ensures
        ({
            let plan = record_plan(store, request, event);
            let row = plan[1].parameters;
            &&& plan.len() == 2
            &&& plan[0] == store.renewal()
            &&& plan[1].sql == Sql::SaveFileIo
            &&& row.len() == 7
            &&& row[0] == ParameterView::Text(store.scope)
            &&& row[1] == ParameterView::Text(request)
            &&& row[2] == ParameterView::Text(
                match event.operation {
                    FileIoOperation::Read => "read"@,
                    FileIoOperation::Write => "write"@,
                    FileIoOperation::Modify => "modify"@,
                },
            )
            &&& row[3] == (match event.path {
                Some(path) => ParameterView::Text(path),
                None => ParameterView::Null,
            })
            &&& row[4] == (match event.offset {
                Some(offset) => ParameterView::Text(decimal(offset as nat)),
                None => ParameterView::Null,
            })
            &&& (event.outcome matches OutcomeView::Succeeded { content } ==> row[5]
                == ParameterView::Integer(1) && row[6] == ParameterView::Text(content))
            &&& (event.outcome matches OutcomeView::Failed { reason } ==> row[5]
                == ParameterView::Integer(0) && row[6] == ParameterView::Text(reason))
        }),
{
}

/// What is logged is what was recorded: the entry of a row that holds an access
/// tells what was done, where, whether it succeeded and with which content or for
/// which reason. A row with any other word for what was done is refused.
pub proof fn entries_tell_what_was_recorded(row: LogRow, event: EventView)
    requires
        row.operation@ == event.operation.name(),
        opt_text(row.path) == event.path,
        opt_text(row.offset) == offset_text(event.offset),
        row.succeeded == (success_flag(event.outcome) != 0),
        row.detail@ == outcome_text(event.outcome),
    ensures
        ({
            &&& stored_entry(row) matches Ok(entry)
            &&& entry.created_at == row.created_at
            &&& entry.request == row.request@
            &&& entry.operation == event.operation
            &&& entry.path == event.path
            &&& (event.offset matches Some(offset) ==> entry.offset == Some(
                decimal(offset as nat),
            ))
            &&& event.offset is None ==> entry.offset is None
            &&& entry.succeeded <==> event.outcome is Succeeded
            &&& (event.outcome matches OutcomeView::Succeeded { content } ==> entry.detail
                == content)
            &&& (event.outcome matches OutcomeView::Failed { reason } ==> entry.detail == reason)
        }),
{
    crate::file_tools::operations_round_trip(event.operation);
}

/// A row with an unknown word for what was done is refused, and the word quoted.
pub proof fn unknown_accesses_are_refused(row: LogRow)
    ensures
        row.operation@ != "read"@ && row.operation@ != "write"@ && row.operation@ != "modify"@
            ==> stored_entry(row) == Err::<EntryView, Seq<char>>(
            "file I/O log contains an unknown operation "@ + crate::quote::debug_text(
                row.operation@,
            ),
        ),
{
}

/// Control characters are shown by their number, and a text is shown character by
/// character.
pub proof fn texts_are_shown_character_by_character(s: Seq<char>, c: char)
    ensures
        is_control(c) ==> escaped(s.push(c)) == escaped(s) + ("\\u{"@ + digits(c as nat, 16) + "}"@),
        !is_control(c) ==> escaped(s.push(c)) == escaped(s).push(c),
        escaped(Seq::<char>::empty()) == Seq::<char>::empty(),
{
    assert(s.push(c).drop_last() =~= s);
    assert(escaped(s) + seq![c] =~= escaped(s).push(c));
}

/// The log shows the accesses in their order, numbered from one, each with its
/// time, what was done, where, on which request, and with which content or why it
/// was denied.
pub proof fn logs_are_shown_access_by_access(
    entries: Seq<EntryView>,
    entry: EntryView,
    description: Seq<char>,
)
    ensures
        shown_entries(entries.push(entry)) == shown_entries(entries) + ("\n─ "@ + decimal(
            entries.len() + 1,
        ) + " · "@ + signed_decimal(entry.created_at as int) + " · "@ + entry.operation.name()
            + " · "@ + (match entry.path {
            Some(path) => escaped(path),
            None => "no path"@,
        }) + (match entry.offset {
            Some(offset) => " · offset "@ + escaped(offset),
            None => ""@,
        }) + "\n"@ + ui::REQUEST@ + " You · "@ + escaped(entry.request) + "\n"@ + (
        if entry.succeeded {
            ui::SUCCESS@ + " Content · "@
        } else {
            ui::ERROR@ + " Denied · "@
        }) + escaped(entry.detail) + "\n"@),
        shown_log(entries.push(entry), description) == ui::CONTEXT@ + " File I/O log · "@ + escaped(
            description,
        ) + "\n"@ + shown_entries(entries.push(entry)),
        shown_log(Seq::<EntryView>::empty(), description) == ui::CONTEXT@ + " File I/O log · "@
            + escaped(description) + "\n"@ + (ui::EMPTY@ + " No file accesses yet.\n"@),
{
    assert(entries.push(entry).drop_last() =~= entries);
}

} // verus!
