//! One import, from file to commit, as a machine that decides and leaves
//! the outside work to its caller: it hands out the next thing to do, and
//! takes back how that went.

use vstd::prelude::*;
use crate::mapping::{process_csv_record, record_mapping};
use crate::source::{is_table_of, read_table, rows_view, CsvTable, RowView};
use crate::statement::{bind_values, bound_row, get_query_template, insert_text};

verus! {

/// What an import is waiting for, or how it ended.
#[derive(Debug, Clone, Copy, PartialEq, Eq)]
pub enum Phase {
    /// Nothing is read yet; the source file is to be read.
    AwaitingFile,
    /// The file is in memory; the columns of the table are to be found.
    AwaitingSchema,
    /// The columns are known; the transaction is to be opened.
    AwaitingTransaction,
    /// The transaction is open; the insert for the current row is under way.
    AwaitingInsert,
    /// Every row is dealt with; the commit is under way.
    AwaitingCommit,
    /// The import failed inside its transaction, which is to be rolled back.
    AwaitingRollback,
    /// The import ended with its transaction committed.
    Committed,
    /// The import ended with nothing persisted.
    Aborted,
}

/// The kinds of failure that end an import.
#[derive(Debug, Clone, Copy, PartialEq, Eq)]
pub enum FailureKind {
    /// The source file could not be read.
    Io,
    /// The columns of the table could not be found.
    Schema,
    /// The transaction could not be opened or committed.
    Transaction,
    /// The header line of the source could not be parsed.
    Header,
}

/// A failure that ended an import, with the description that came with it.
#[derive(Debug, Clone, PartialEq, Eq)]
pub struct ImportError {
    pub kind: FailureKind,
    pub message: String,
}

/// A failure as texts.
pub struct ImportErrorView {
    pub kind: FailureKind,
    pub message: Seq<char>,
}

impl View for ImportError {
    type V = ImportErrorView;

    open spec fn view(&self) -> ImportErrorView {
        ImportErrorView { kind: self.kind, message: self.message@ }
    }
}

/// The two ways in which a single row is skipped.
#[derive(Debug, Clone, Copy, PartialEq, Eq)]
pub enum RowFault {
    /// The row could not be parsed.
    Parse,
    /// The store rejected the insert.
    Execute,
}

/// A row that was skipped: its place among the data rows, counted from 0,
/// and why.
#[derive(Debug, Clone, PartialEq, Eq)]
pub struct RowError {
    pub row: usize,
    pub fault: RowFault,
    pub message: String,
}

/// A skipped row as texts.
pub struct RowErrorView {
    pub row: int,
    pub fault: RowFault,
    pub message: Seq<char>,
}

impl View for RowError {
    type V = RowErrorView;

    open spec fn view(&self) -> RowErrorView {
        RowErrorView { row: self.row as int, fault: self.fault, message: self.message@ }
    }
}

/// Skipped rows as texts, in order.
pub open spec fn errors_view(errors: Seq<RowError>) -> Seq<RowErrorView> {
    Seq::new(errors.len(), |i: int| errors[i]@)
}

/// How a piece of outside work went.
#[derive(Debug, PartialEq, Eq)]
pub enum Event {
    /// The file was read: its bytes, or why it could not be read.
    File(Result<Vec<u8>, String>),
    /// The table was inspected: its column names in the table's order, or
    /// why that failed.
    Schema(Result<Vec<String>, String>),
    /// The transaction was opened, or why it could not be.
    Transaction(Result<(), String>),
    /// The insert of the current row was executed, or why it was rejected.
    Insert(Result<(), String>),
    /// The transaction was committed, or why it could not be.
    Commit(Result<(), String>),
    /// The transaction was rolled back.
    Rollback,
}

/// The next piece of outside work.
#[derive(Debug, Clone, PartialEq, Eq)]
pub enum Action {
    /// Read the whole source file into memory.
    ReadFile,
    /// Fetch the column names of the table.
    QuerySchema,
    /// Open the transaction that spans all rows.
    BeginTransaction,
    /// Execute `statement` in the open transaction, with `values` bound to
    /// its placeholders in order; `None` binds a null.
    Execute { statement: String, values: Vec<Option<String>> },
    /// Commit the transaction.
    Commit,
    /// Roll the transaction back.
    Rollback,
    /// Nothing is left to do: the import has ended.
    Finish,
    /// The event answered nothing that the import was waiting for, and
    /// changed nothing.
    Ignored,
}

/// An action as texts.
pub enum ActionView {
    ReadFile,
    QuerySchema,
    BeginTransaction,
    Execute { statement: Seq<char>, values: Seq<Option<Seq<char>>> },
    Commit,
    Rollback,
    Finish,
    Ignored,
}

impl View for Action {
    type V = ActionView;

    open spec fn view(&self) -> ActionView {
        match self {
            Action::ReadFile => ActionView::ReadFile,
            Action::QuerySchema => ActionView::QuerySchema,
            Action::BeginTransaction => ActionView::BeginTransaction,
            Action::Execute { statement, values } => ActionView::Execute {
                statement: statement@,
                values: values.deep_view(),
            },
            Action::Commit => ActionView::Commit,
            Action::Rollback => ActionView::Rollback,
            Action::Finish => ActionView::Finish,
            Action::Ignored => ActionView::Ignored,
        }
    }
}

/// The state of an import, as texts and numbers.
pub struct ImportView {
    pub phase: Phase,
    /// The bytes of the source file, once read.
    pub contents: Seq<u8>,
    /// The column names of the table, once found.
    pub columns: Seq<Seq<char>>,
    /// The names of the header line, once parsed.
    pub headers: Seq<Seq<char>>,
    /// The data rows, once parsed.
    pub rows: Seq<RowView>,
    /// The number of rows dealt with; while an insert is under way, also the
    /// place of its row.
    pub cursor: int,
    /// The number of rows whose insert was executed.
    pub inserted: int,
    /// The rows that were skipped, in the order in which they were met.
    pub errors: Seq<RowErrorView>,
    /// The failure that ended the import, if one did.
    pub failure: Option<ImportErrorView>,
}

/// The first place at or after `from` that holds a parsed row, or the number
/// of rows if there is none.
pub open spec fn next_row(rows: Seq<RowView>, from: int) -> int
    decreases rows.len() - from,
{
    if from >= rows.len() {
        rows.len() as int
    } else if rows[from] is Ok {
        from
    } else {
        next_row(rows, from + 1)
    }
}

/// One parse error for each of the places `from..to`, in order, each with
/// the description that its row carries.
pub open spec fn parse_errors(rows: Seq<RowView>, from: int, to: int) -> Seq<RowErrorView> {
    Seq::new(
        (to - from) as nat,
        |i: int|
            RowErrorView {
                row: from + i,
                fault: RowFault::Parse,
                message: rows[from + i]->Err_0,
            },
    )
}

/// The message of the failure for a table without columns.
pub open spec fn no_columns_message() -> Seq<char> {
    "table reports has no columns"@
}

impl ImportView {
    /// An import before anything is read.
    pub open spec fn initial() -> ImportView {
        ImportView {
            phase: Phase::AwaitingFile,
            contents: Seq::empty(),
            columns: Seq::empty(),
            headers: Seq::empty(),
            rows: Seq::empty(),
            cursor: 0,
            inserted: 0,
            errors: Seq::empty(),
            failure: None,
        }
    }

    /// What holds of every import: each row dealt with was inserted or
    /// skipped, an insert under way is for a parsed row, a commit comes only
    /// after the last row, and a failure is held exactly where the import
    /// has failed.
    pub open spec fn wf(self) -> bool {
        &&& 0 <= self.cursor <= self.rows.len()
        &&& 0 <= self.inserted
        &&& self.inserted + self.errors.len() == self.cursor
        &&& (self.phase == Phase::AwaitingFile || self.phase == Phase::AwaitingSchema || self.phase
            == Phase::AwaitingTransaction) ==> self.cursor == 0
        &&& self.phase == Phase::AwaitingTransaction ==> self.columns.len() > 0
        &&& self.phase == Phase::AwaitingInsert ==> self.cursor < self.rows.len()
            && self.rows[self.cursor] is Ok && self.columns.len() > 0
        &&& self.phase == Phase::AwaitingCommit ==> self.cursor == self.rows.len()
        &&& self.failure is Some <==> self.phase == Phase::AwaitingRollback || self.phase
            == Phase::Aborted
    }

    /// The number of rows dealt with so far.
    pub open spec fn attempted(self) -> int {
        self.cursor
    }

    /// The number of rows skipped so far.
    pub open spec fn skipped(self) -> int {
        self.errors.len() as int
    }

    /// The number of rows of this import that a reader of the store sees:
    /// those inserted, once the transaction is committed, and none before.
    pub open spec fn visible_rows(self) -> int {
        if self.phase == Phase::Committed {
            self.inserted
        } else {
            0
        }
    }

    /// The import ended by a failure, with nothing to roll back.
    pub open spec fn aborted(self, kind: FailureKind, message: Seq<char>) -> ImportView {
        ImportView {
            phase: Phase::Aborted,
            failure: Some(ImportErrorView { kind, message }),
            ..self
        }
    }

    /// The import going on with the rows from `from`: rows that could not be
    /// parsed are skipped, each with its error, up to the first parsed row,
    /// whose insert is the next action. Where no parsed row is left, the
    /// commit is.
    pub open spec fn resumed(self, from: int) -> (ImportView, ActionView) {
        let at = next_row(self.rows, from);
        let errors = self.errors + parse_errors(self.rows, from, at);
        if at < self.rows.len() {
            (
                ImportView {
                    phase: Phase::AwaitingInsert,
                    contents: self.contents,
                    columns: self.columns,
                    headers: self.headers,
                    rows: self.rows,
                    cursor: at,
                    inserted: self.inserted,
                    errors,
                    failure: self.failure,
                },
                ActionView::Execute {
                    statement: insert_text(self.columns),
                    values: bound_row(
                        self.columns,
                        record_mapping(self.headers, self.rows[at]->Ok_0),
                    ),
                },
            )
        } else {
            (
                ImportView {
                    phase: Phase::AwaitingCommit,
                    contents: self.contents,
                    columns: self.columns,
                    headers: self.headers,
                    rows: self.rows,
                    cursor: at,
                    inserted: self.inserted,
                    errors,
                    failure: self.failure,
                },
                ActionView::Commit,
            )
        }
    }

    /// The import once its transaction is open and its source parsed: with a
    /// header line, it goes on with the first row; without one, the
    /// transaction is rolled back and the import fails.
    pub open spec fn opened(self, table: Result<CsvTable, String>) -> (ImportView, ActionView) {
        match table {
            Ok(t) => ImportView { headers: t@.headers, rows: t@.rows, ..self }.resumed(0),
            Err(text) => (
                ImportView {
                    phase: Phase::AwaitingRollback,
                    failure: Some(ImportErrorView { kind: FailureKind::Header, message: text@ }),
                    ..self
                },
                ActionView::Rollback,
            ),
        }
    }
}

/// Whether this step is the one that parses the source: the transaction has
/// just been opened.
pub open spec fn reads_source(phase: Phase, event: Event) -> bool {
    phase == Phase::AwaitingTransaction && event matches Event::Transaction(Ok(_))
}

/// Whether `parsed` is what a step reads of the source: the table of the
/// file's contents on the step that parses, and nothing on any other.
pub open spec fn source_read(
    s: ImportView,
    event: Event,
    parsed: Option<Result<CsvTable, String>>,
) -> bool {
    if reads_source(s.phase, event) {
        parsed matches Some(table) && is_table_of(table, s.contents)
    } else {
        parsed is None
    }
}

/// The state that follows `s` on `event`, and the next action. `parsed` is
/// the parsed source, which only the step that opens the rows reads.
///
/// A failure before the transaction is open ends the import at once. A
/// failure of a single row skips that row. An event that the phase does not
/// wait for changes nothing.
pub open spec fn transition(
    s: ImportView,
    event: Event,
    parsed: Option<Result<CsvTable, String>>,
) -> (ImportView, ActionView) {
    match (s.phase, event) {
        (Phase::AwaitingFile, Event::File(Ok(bytes))) => (
            ImportView { phase: Phase::AwaitingSchema, contents: bytes@, ..s },
            ActionView::QuerySchema,
        ),
        (Phase::AwaitingFile, Event::File(Err(message))) => (
            s.aborted(FailureKind::Io, message@),
            ActionView::Finish,
        ),
        (Phase::AwaitingSchema, Event::Schema(Ok(names))) => if names.len() == 0 {
            (s.aborted(FailureKind::Schema, no_columns_message()), ActionView::Finish)
        } else {
            (
                ImportView { phase: Phase::AwaitingTransaction, columns: names.deep_view(), ..s },
                ActionView::BeginTransaction,
            )
        },
        (Phase::AwaitingSchema, Event::Schema(Err(message))) => (
            s.aborted(FailureKind::Schema, message@),
            ActionView::Finish,
        ),
        (Phase::AwaitingTransaction, Event::Transaction(Ok(_))) => match parsed {
            Some(table) => s.opened(table),
            None => (s, ActionView::Ignored),
        },
        (Phase::AwaitingTransaction, Event::Transaction(Err(message))) => (
            s.aborted(FailureKind::Transaction, message@),
            ActionView::Finish,
        ),
        (Phase::AwaitingInsert, Event::Insert(Ok(_))) => ImportView {
            inserted: s.inserted + 1,
            ..s
        }.resumed(s.cursor + 1),
        (Phase::AwaitingInsert, Event::Insert(Err(message))) => ImportView {
            errors: s.errors.push(
                RowErrorView { row: s.cursor, fault: RowFault::Execute, message: message@ },
            ),
            ..s
        }.resumed(s.cursor + 1),
        (Phase::AwaitingCommit, Event::Commit(Ok(_))) => (
            ImportView { phase: Phase::Committed, ..s },
            ActionView::Finish,
        ),
        (Phase::AwaitingCommit, Event::Commit(Err(message))) => (
            s.aborted(FailureKind::Transaction, message@),
            ActionView::Finish,
        ),
        (Phase::AwaitingRollback, Event::Rollback) => (
            ImportView { phase: Phase::Aborted, ..s },
            ActionView::Finish,
        ),
        _ => (s, ActionView::Ignored),
    }
}

/// A place before which every row from `from` on is unparsed, and which
/// holds a parsed row or ends the rows, is the one `next_row` gives.
pub proof fn lemma_next_row_at(rows: Seq<RowView>, from: int, at: int)
    requires
        0 <= from <= at <= rows.len(),
        forall|j: int| from <= j < at ==> rows[j] is Err,
        at < rows.len() ==> rows[at] is Ok,
    ensures
        next_row(rows, from) == at,
    decreases at - from,
{
    if from < at {
        lemma_next_row_at(rows, from + 1, at);
    }
}

/// `next_row` stays within the rows, passes over unparsed rows only, and
/// stops on a parsed one.
pub proof fn lemma_next_row(rows: Seq<RowView>, from: int)
    requires
        0 <= from <= rows.len(),
    ensures
        from <= next_row(rows, from) <= rows.len(),
        forall|j: int| from <= j < next_row(rows, from) ==> rows[j] is Err,
        next_row(rows, from) < rows.len() ==> rows[next_row(rows, from)] is Ok,
    decreases rows.len() - from,
{
    if from < rows.len() && !(rows[from] is Ok) {
        lemma_next_row(rows, from + 1);
    }
}

/// The outcome of an import, as its caller reports it.
#[derive(Debug, Clone, PartialEq, Eq)]
pub struct ImportSummary {
    /// The number of data rows dealt with.
    pub attempted: usize,
    /// The number of rows whose insert was executed.
    pub inserted: usize,
    /// The number of rows skipped.
    pub skipped: usize,
    /// Whether the transaction was committed.
    pub committed: bool,
    /// The skipped rows, in the order in which they were met.
    pub errors: Vec<RowError>,
    /// The failure that ended the import, if one did.
    pub failure: Option<ImportError>,
}

impl ImportSummary {
    /// The number of rows of the import that a reader of the store sees:
    /// none unless the transaction was committed.
    pub open spec fn visible(self) -> int {
        if self.committed {
            self.inserted as int
        } else {
            0
        }
    }

    /// The number of rows of the import that a reader of the store sees:
    /// none unless the transaction was committed.
    pub fn visible_rows(&self) -> (n: usize)
        ensures
            n == self.visible(),
    {
        if self.committed {
            self.inserted
        } else {
            0
        }
    }
}

/// An import under way.
pub struct Import {
    phase: Phase,
    contents: Vec<u8>,
    columns: Vec<String>,
    statement: String,
    headers: Vec<String>,
    rows: Vec<Result<Vec<String>, String>>,
    cursor: usize,
    inserted: usize,
    errors: Vec<RowError>,
    failure: Option<ImportError>,
}

impl View for Import {
    type V = ImportView;

    closed spec fn view(&self) -> ImportView {
        ImportView {
            phase: self.phase,
            contents: self.contents@,
            columns: self.columns.deep_view(),
            headers: self.headers.deep_view(),
            rows: rows_view(self.rows@),
            cursor: self.cursor as int,
            inserted: self.inserted as int,
            errors: errors_view(self.errors@),
            failure: match self.failure {
                Some(error) => Some(error@),
                None => None,
            },
        }
    }
}

/// Goes on with the rows from `from`: skips those that could not be parsed
/// and hands out the insert for the first that could, or the commit.
#[verifier::loop_isolation(false)]
fn resume(
    contents: Vec<u8>,
    columns: Vec<String>,
    statement: String,
    headers: Vec<String>,
    rows: Vec<Result<Vec<String>, String>>,
    from: usize,
    inserted: usize,
    errors: Vec<RowError>,
) -> (r: (Import, Action))
    requires
        from <= rows.len(),
        inserted + errors.len() == from,
        columns.len() > 0,
        statement@ == insert_text(columns.deep_view()),
    ensures
        (r.0@, r.1@) == (ImportView {
            phase: Phase::AwaitingInsert,
            contents: contents@,
            columns: columns.deep_view(),
            headers: headers.deep_view(),
            rows: rows_view(rows@),
            cursor: from as int,
            inserted: inserted as int,
            errors: errors_view(errors@),
            failure: None,
        }).resumed(from as int),
        r.0@.wf(),
{
    let ghost row_views = rows_view(rows@);
    let ghost errors_before = errors_view(errors@);
    let mut errors = errors;
    let mut at: usize = from;
    while at < rows.len()
        invariant
            from <= at <= rows.len(),
            row_views == rows_view(rows@),
            forall|j: int| from <= j < at ==> row_views[j] is Err,
            errors_view(errors@) == errors_before + parse_errors(row_views, from as int, at as int),
            inserted + errors.len() == at,
            columns.len() > 0,
            statement@ == insert_text(columns.deep_view()),
        decreases rows.len() - at,
    {
        match &rows[at] {
            Ok(fields) => {
                proof {
                    assert(row_views[at as int] == Ok::<Seq<Seq<char>>, Seq<char>>(
                        fields.deep_view(),
                    ));
                    lemma_next_row_at(row_views, from as int, at as int);
                }
                let mapping = process_csv_record(&headers, fields);
                let values = bind_values(&columns, &mapping);
                let action = Action::Execute { statement: statement.clone(), values };
                let next = Import {
                    phase: Phase::AwaitingInsert,
                    contents,
                    columns,
                    statement,
                    headers,
                    rows,
                    cursor: at,
                    inserted,
                    errors,
                    failure: None,
                };
                return (next, action);
            },
            Err(text) => {
                let message = text.clone();
                assert(row_views[at as int] == Err::<Seq<Seq<char>>, Seq<char>>(message@));
                let ghost seen = errors_view(errors@);
                errors.push(RowError { row: at, fault: RowFault::Parse, message });
                assert(errors_view(errors@) == seen.push(
                    RowErrorView { row: at as int, fault: RowFault::Parse, message: message@ },
                ));
                assert(parse_errors(row_views, from as int, at + 1) == parse_errors(
                    row_views,
                    from as int,
                    at as int,
                ).push(RowErrorView { row: at as int, fault: RowFault::Parse, message: message@ }));
                at += 1;
            },
        }
    }
    proof {
        lemma_next_row_at(row_views, from as int, at as int);
    }
    let next = Import {
        phase: Phase::AwaitingCommit,
        contents,
        columns,
        statement,
        headers,
        rows,
        cursor: at,
        inserted,
        errors,
        failure: None,
    };
    (next, Action::Commit)
}

impl Import {
    #[verifier::type_invariant]
    spec fn inv(&self) -> bool {
        &&& self@.wf()
        &&& self.columns.len() > 0 ==> self.statement@ == insert_text(self.columns.deep_view())
    }

    /// A new import, and its first action: to read the source file.
    pub fn begin() -> (r: (Import, Action))
        ensures
            r.0@ == ImportView::initial(),
            r.1@ == ActionView::ReadFile,
    {
        let import = Import {
            phase: Phase::AwaitingFile,
            contents: Vec::new(),
            columns: Vec::new(),
            statement: String::new(),
            headers: Vec::new(),
            rows: Vec::new(),
            cursor: 0,
            inserted: 0,
            errors: Vec::new(),
            failure: None,
        };
        assert(import@.contents == Seq::<u8>::empty());
        assert(import@.columns == Seq::<Seq<char>>::empty());
        assert(import@.headers == Seq::<Seq<char>>::empty());
        assert(import@.rows == Seq::<RowView>::empty());
        assert(import@.errors == Seq::<RowErrorView>::empty());
        assert(import@ == ImportView::initial());
        (import, Action::ReadFile)
    }

    /// What the import is waiting for, or how it ended.
    pub fn phase(&self) -> (phase: Phase)
        ensures
            phase == self@.phase,
    {
        self.phase
    }

    /// Takes how the last action went, and gives the state that follows and
    /// the next action. On the step that follows the opening of the
    /// transaction, the source is parsed.
    pub fn step(self, event: Event) -> (r: (Import, Action))
        ensures
            r.0@.wf(),
            exists|parsed: Option<Result<CsvTable, String>>| #[trigger]
                source_read(self@, event, parsed) && transition(self@, event, parsed) == (
                    r.0@,
                    r.1@,
                ),
    {
        let opening = match (self.phase, &event) {
            (Phase::AwaitingTransaction, Event::Transaction(Ok(_))) => true,
            _ => false,
        };
        let parsed = if opening {
            Some(read_table(self.contents.as_slice()))
        } else {
            None
        };
        assert(source_read(self@, event, parsed));
        self.step_parsed(event, parsed)
    }

    /// The step itself, with the parsed source handed in: `parsed` is read
    /// only on the step that follows the opening of the transaction.
    pub fn step_parsed(self, event: Event, parsed: Option<Result<CsvTable, String>>) -> (r: (
        Import,
        Action,
    ))
        ensures
            r.0@.wf(),
            (r.0@, r.1@) == transition(self@, event, parsed),
    {
        proof {
            use_type_invariant(&self);
        }
        let ghost before = self@;
        let Import {
            phase,
            contents,
            columns,
            statement,
            headers,
            rows,
            cursor,
            inserted,
            errors,
            failure,
        } = self;
        assert(before.wf());
        assert(before.phase == phase && before.cursor == cursor && before.rows.len() == rows.len());
        match (phase, event) {
            (Phase::AwaitingFile, Event::File(Ok(bytes))) => {
                let next = Import {
                    phase: Phase::AwaitingSchema,
                    contents: bytes,
                    columns,
                    statement,
                    headers,
                    rows,
                    cursor,
                    inserted,
                    errors,
                    failure,
                };
                (next, Action::QuerySchema)
            },
            (Phase::AwaitingFile, Event::File(Err(message))) => {
                let next = Import {
                    phase: Phase::Aborted,
                    contents,
                    columns,
                    statement,
                    headers,
                    rows,
                    cursor,
                    inserted,
                    errors,
                    failure: Some(ImportError { kind: FailureKind::Io, message }),
                };
                (next, Action::Finish)
            },
            (Phase::AwaitingSchema, Event::Schema(Ok(names))) => {
                if names.len() == 0 {
                    let next = Import {
                        phase: Phase::Aborted,
                        contents,
                        columns,
                        statement,
                        headers,
                        rows,
                        cursor,
                        inserted,
                        errors,
                        failure: Some(
                            ImportError {
                                kind: FailureKind::Schema,
                                message: "table reports has no columns".to_owned(),
                            },
                        ),
                    };
                    (next, Action::Finish)
                } else {
                    let template = get_query_template(&names);
                    let next = Import {
                        phase: Phase::AwaitingTransaction,
                        contents,
                        columns: names,
                        statement: template,
                        headers,
                        rows,
                        cursor,
                        inserted,
                        errors,
                        failure,
                    };
                    (next, Action::BeginTransaction)
                }
            },
            (Phase::AwaitingSchema, Event::Schema(Err(message))) => {
                let next = Import {
                    phase: Phase::Aborted,
                    contents,
                    columns,
                    statement,
                    headers,
                    rows,
                    cursor,
                    inserted,
                    errors,
                    failure: Some(ImportError { kind: FailureKind::Schema, message }),
                };
                (next, Action::Finish)
            },
            (Phase::AwaitingTransaction, Event::Transaction(Ok(_))) => {
                match parsed {
                    Some(Ok(table)) => {
                        assert(errors_view(errors@) == Seq::<RowErrorView>::empty());
                        let CsvTable { headers: names, rows: records } = table;
                        resume(contents, columns, statement, names, records, 0, 0, errors)
                    },
                    Some(Err(message)) => {
                        let next = Import {
                            phase: Phase::AwaitingRollback,
                            contents,
                            columns,
                            statement,
                            headers,
                            rows,
                            cursor,
                            inserted,
                            errors,
                            failure: Some(ImportError { kind: FailureKind::Header, message }),
                        };
                        (next, Action::Rollback)
                    },
                    None => {
                        let next = Import {
                            phase,
                            contents,
                            columns,
                            statement,
                            headers,
                            rows,
                            cursor,
                            inserted,
                            errors,
                            failure,
                        };
                        (next, Action::Ignored)
                    },
                }
            },
            (Phase::AwaitingTransaction, Event::Transaction(Err(message))) => {
                let next = Import {
                    phase: Phase::Aborted,
                    contents,
                    columns,
                    statement,
                    headers,
                    rows,
                    cursor,
                    inserted,
                    errors,
                    failure: Some(ImportError { kind: FailureKind::Transaction, message }),
                };
                (next, Action::Finish)
            },
            (Phase::AwaitingInsert, Event::Insert(Ok(_))) => {
                resume(contents, columns, statement, headers, rows, cursor + 1, inserted + 1, errors)
            },
            (Phase::AwaitingInsert, Event::Insert(Err(message))) => {
                let ghost seen = errors_view(errors@);
                let mut errors = errors;
                errors.push(RowError { row: cursor, fault: RowFault::Execute, message });
                assert(errors_view(errors@) == seen.push(
                    RowErrorView {
                        row: cursor as int,
                        fault: RowFault::Execute,
                        message: message@,
                    },
                ));
                resume(contents, columns, statement, headers, rows, cursor + 1, inserted, errors)
            },
            (Phase::AwaitingCommit, Event::Commit(Ok(_))) => {
                let next = Import {
                    phase: Phase::Committed,
                    contents,
                    columns,
                    statement,
                    headers,
                    rows,
                    cursor,
                    inserted,
                    errors,
                    failure,
                };
                (next, Action::Finish)
            },
            (Phase::AwaitingCommit, Event::Commit(Err(message))) => {
                let next = Import {
                    phase: Phase::Aborted,
                    contents,
                    columns,
                    statement,
                    headers,
                    rows,
                    cursor,
                    inserted,
                    errors,
                    failure: Some(ImportError { kind: FailureKind::Transaction, message }),
                };
                (next, Action::Finish)
            },
            (Phase::AwaitingRollback, Event::Rollback) => {
                let next = Import {
                    phase: Phase::Aborted,
                    contents,
                    columns,
                    statement,
                    headers,
                    rows,
                    cursor,
                    inserted,
                    errors,
                    failure,
                };
                (next, Action::Finish)
            },
            _ => {
                let next = Import {
                    phase,
                    contents,
                    columns,
                    statement,
                    headers,
                    rows,
                    cursor,
                    inserted,
                    errors,
                    failure,
                };
                (next, Action::Ignored)
            },
        }
    }

    /// The outcome so far: the counts, the skipped rows and the failure.
    pub fn into_summary(self) -> (summary: ImportSummary)
        ensures
            summary.attempted == self@.attempted(),
            summary.inserted == self@.inserted,
            summary.skipped == self@.skipped(),
            summary.committed == (self@.phase == Phase::Committed),
            summary.visible() == self@.visible_rows(),
            errors_view(summary.errors@) == self@.errors,
            match summary.failure {
                Some(error) => self@.failure == Some(error@),
                None => self@.failure is None,
            },
    {
        proof {
            use_type_invariant(&self);
        }
        let committed = match self.phase {
            Phase::Committed => true,
            _ => false,
        };
        ImportSummary {
            attempted: self.cursor,
            inserted: self.inserted,
            skipped: self.errors.len(),
            committed,
            errors: self.errors,
            failure: self.failure,
        }
    }
}

} // verus!
