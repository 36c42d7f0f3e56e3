//! What holds of an import as a whole: of the values bound for a row, and
//! of the steps from the first row to the commit.

use vstd::prelude::*;
use crate::import::{
    lemma_next_row, next_row, transition, ActionView, Event, FailureKind, ImportErrorView,
    ImportView, Phase, RowErrorView, RowFault,
};
use crate::key::derived_keys;
use crate::mapping::{
    pair_count, paired, platform_uid_name, record_mapping, report_id_name, report_type_name,
    target_id_name,
};
use crate::report::Report;
use crate::source::{CsvTable, RowView};
use crate::statement::{bound_row, bound_value, insert_text};

verus! {

/// The four names that the mapper knows are four different names.
pub proof fn lemma_names_differ()
    ensures
        platform_uid_name() != report_id_name(),
        platform_uid_name() != target_id_name(),
        platform_uid_name() != report_type_name(),
        report_id_name() != target_id_name(),
        report_id_name() != report_type_name(),
        target_id_name() != report_type_name(),
{
    reveal_strlit("platform_uid");
    reveal_strlit("report_id");
    reveal_strlit("target_id");
    reveal_strlit("report_type");
    assert(platform_uid_name().len() == 12);
    assert(report_id_name().len() == 9);
    assert(target_id_name().len() == 9);
    assert(report_type_name().len() == 11);
    assert(report_id_name()[0] == 'r');
    assert(target_id_name()[0] == 't');
}

/// The composite identifier that a row carries: the value paired with
/// `platform_uid`, where there is one and it is not empty.
pub open spec fn row_uid(headers: Seq<Seq<char>>, values: Seq<Seq<char>>) -> Option<Seq<char>> {
    match bound_value(paired(headers, values, pair_count(headers, values)), platform_uid_name()) {
        Some(uid) => if uid.len() > 0 {
            Some(uid)
        } else {
            None
        },
        None => None,
    }
}

/// What a row holds under `name`: for the three derived names of a row with
/// an identifier, the key that the identifier yields; for any other name,
/// what the row pairs with it.
pub open spec fn row_value(headers: Seq<Seq<char>>, values: Seq<Seq<char>>, name: Seq<char>) -> Option<
    Seq<char>,
> {
    let plain = bound_value(paired(headers, values, pair_count(headers, values)), name);
    match row_uid(headers, values) {
        Some(uid) => if name == report_id_name() {
            derived_keys(Some(uid)).0
        } else if name == target_id_name() {
            derived_keys(Some(uid)).1
        } else if name == report_type_name() {
            derived_keys(Some(uid)).2
        } else {
            plain
        },
        None => plain,
    }
}

/// The value bound for a column is what the row holds under its name.
pub proof fn lemma_bound_value_of_row(
    headers: Seq<Seq<char>>,
    values: Seq<Seq<char>>,
    name: Seq<char>,
)
    ensures
        bound_value(record_mapping(headers, values), name) == row_value(headers, values, name),
{
    lemma_names_differ();
}

/// A report built from the mapping of a row holds the row, field for
/// field: under each field's name what the row holds under it, the derived
/// keys included.
pub proof fn lemma_report_holds_the_row(
    report: Report,
    headers: Seq<Seq<char>>,
    values: Seq<Seq<char>>,
)
    requires
        report.reads_from(record_mapping(headers, values)),
    ensures
        report.uuid.deep_view() == row_value(headers, values, "uuid"@),
        report.decision_visibility.deep_view() == row_value(headers, values, "decision_visibility"@),
        report.decision_visibility_other.deep_view() == row_value(headers, values, "decision_visibility_other"@),
        report.end_date_visibility_restriction.deep_view() == row_value(headers, values, "end_date_visibility_restriction"@),
        report.decision_monetary.deep_view() == row_value(headers, values, "decision_monetary"@),
        report.decision_monetary_other.deep_view() == row_value(headers, values, "decision_monetary_other"@),
        report.end_date_monetary_restriction.deep_view() == row_value(headers, values, "end_date_monetary_restriction"@),
        report.decision_provision.deep_view() == row_value(headers, values, "decision_provision"@),
        report.end_date_service_restriction.deep_view() == row_value(headers, values, "end_date_service_restriction"@),
        report.decision_account.deep_view() == row_value(headers, values, "decision_account"@),
        report.end_date_account_restriction.deep_view() == row_value(headers, values, "end_date_account_restriction"@),
        report.account_type.deep_view() == row_value(headers, values, "account_type"@),
        report.decision_ground.deep_view() == row_value(headers, values, "decision_ground"@),
        report.decision_ground_reference_url.deep_view() == row_value(headers, values, "decision_ground_reference_url"@),
        report.illegal_content_legal_ground.deep_view() == row_value(headers, values, "illegal_content_legal_ground"@),
        report.incompatible_content_ground.deep_view() == row_value(headers, values, "incompatible_content_ground"@),
        report.incompatible_content_illegal.deep_view() == row_value(headers, values, "incompatible_content_illegal"@),
        report.category.deep_view() == row_value(headers, values, "category"@),
        report.category_addition.deep_view() == row_value(headers, values, "category_addition"@),
        report.category_specification.deep_view() == row_value(headers, values, "category_specification"@),
        report.category_specification_other.deep_view() == row_value(headers, values, "category_specification_other"@),
        report.content_type.deep_view() == row_value(headers, values, "content_type"@),
        report.content_type_other.deep_view() == row_value(headers, values, "content_type_other"@),
        report.content_language.deep_view() == row_value(headers, values, "content_language"@),
        report.content_date.deep_view() == row_value(headers, values, "content_date"@),
        report.application_date.deep_view() == row_value(headers, values, "application_date"@),
        report.source_type.deep_view() == row_value(headers, values, "source_type"@),
        report.source_identity.deep_view() == row_value(headers, values, "source_identity"@),
        report.automated_detection.deep_view() == row_value(headers, values, "automated_detection"@),
        report.automated_decision.deep_view() == row_value(headers, values, "automated_decision"@),
        report.platform_name.deep_view() == row_value(headers, values, "platform_name"@),
        report.platform_uid.deep_view() == row_value(headers, values, "platform_uid"@),
        report.created_at.deep_view() == row_value(headers, values, "created_at"@),
        report.report_id.deep_view() == row_value(headers, values, "report_id"@),
        report.target_id.deep_view() == row_value(headers, values, "target_id"@),
        report.report_type.deep_view() == row_value(headers, values, "report_type"@),
{
    lemma_bound_value_of_row(headers, values, "uuid"@);
    lemma_bound_value_of_row(headers, values, "decision_visibility"@);
    lemma_bound_value_of_row(headers, values, "decision_visibility_other"@);
    lemma_bound_value_of_row(headers, values, "end_date_visibility_restriction"@);
    lemma_bound_value_of_row(headers, values, "decision_monetary"@);
    lemma_bound_value_of_row(headers, values, "decision_monetary_other"@);
    lemma_bound_value_of_row(headers, values, "end_date_monetary_restriction"@);
    lemma_bound_value_of_row(headers, values, "decision_provision"@);
    lemma_bound_value_of_row(headers, values, "end_date_service_restriction"@);
    lemma_bound_value_of_row(headers, values, "decision_account"@);
    lemma_bound_value_of_row(headers, values, "end_date_account_restriction"@);
    lemma_bound_value_of_row(headers, values, "account_type"@);
    lemma_bound_value_of_row(headers, values, "decision_ground"@);
    lemma_bound_value_of_row(headers, values, "decision_ground_reference_url"@);
    lemma_bound_value_of_row(headers, values, "illegal_content_legal_ground"@);
    lemma_bound_value_of_row(headers, values, "incompatible_content_ground"@);
    lemma_bound_value_of_row(headers, values, "incompatible_content_illegal"@);
    lemma_bound_value_of_row(headers, values, "category"@);
    lemma_bound_value_of_row(headers, values, "category_addition"@);
    lemma_bound_value_of_row(headers, values, "category_specification"@);
    lemma_bound_value_of_row(headers, values, "category_specification_other"@);
    lemma_bound_value_of_row(headers, values, "content_type"@);
    lemma_bound_value_of_row(headers, values, "content_type_other"@);
    lemma_bound_value_of_row(headers, values, "content_language"@);
    lemma_bound_value_of_row(headers, values, "content_date"@);
    lemma_bound_value_of_row(headers, values, "application_date"@);
    lemma_bound_value_of_row(headers, values, "source_type"@);
    lemma_bound_value_of_row(headers, values, "source_identity"@);
    lemma_bound_value_of_row(headers, values, "automated_detection"@);
    lemma_bound_value_of_row(headers, values, "automated_decision"@);
    lemma_bound_value_of_row(headers, values, "platform_name"@);
    lemma_bound_value_of_row(headers, values, "platform_uid"@);
    lemma_bound_value_of_row(headers, values, "created_at"@);
    lemma_bound_value_of_row(headers, values, "report_id"@);
    lemma_bound_value_of_row(headers, values, "target_id"@);
    lemma_bound_value_of_row(headers, values, "report_type"@);
}

/// Pairing reads only the first `n` headers and values.
pub proof fn lemma_paired_prefix(
    h1: Seq<Seq<char>>,
    v1: Seq<Seq<char>>,
    h2: Seq<Seq<char>>,
    v2: Seq<Seq<char>>,
    n: nat,
)
    requires
        n <= h1.len(),
        n <= v1.len(),
        n <= h2.len(),
        n <= v2.len(),
        forall|j: int| 0 <= j < n ==> h1[j] == h2[j] && v1[j] == v2[j],
    ensures
        paired(h1, v1, n) == paired(h2, v2, n),
    decreases n,
{
    if n > 0 {
        lemma_paired_prefix(h1, v1, h2, v2, (n - 1) as nat);
    }
}

/// A header that occurs once among the first `n` maps to its own value.
pub proof fn lemma_paired_unique(headers: Seq<Seq<char>>, values: Seq<Seq<char>>, n: nat, i: int)
    requires
        n <= headers.len(),
        n <= values.len(),
        0 <= i < n,
        forall|j: int| 0 <= j < n && j != i ==> headers[j] != headers[i],
    ensures
        bound_value(paired(headers, values, n), headers[i]) == Some(values[i]),
    decreases n,
{
    if i < n - 1 {
        lemma_paired_unique(headers, values, (n - 1) as nat, i);
    }
}

/// Round trip of one row: where the column list is the header line itself
/// and no name occurs twice in it, the values bound for the row are the
/// row's own values, field for field, but for the three derived columns of
/// a row with an identifier, which hold the keys that the identifier yields.
pub proof fn lemma_round_trip(headers: Seq<Seq<char>>, values: Seq<Seq<char>>)
    requires
        headers.no_duplicates(),
        headers.len() == values.len(),
    ensures
        bound_row(headers, record_mapping(headers, values)).len() == values.len(),
        forall|i: int|
            0 <= i < headers.len() ==> #[trigger] bound_row(
                headers,
                record_mapping(headers, values),
            )[i] == match row_uid(headers, values) {
                Some(uid) => if headers[i] == report_id_name() {
                    derived_keys(Some(uid)).0
                } else if headers[i] == target_id_name() {
                    derived_keys(Some(uid)).1
                } else if headers[i] == report_type_name() {
                    derived_keys(Some(uid)).2
                } else {
                    Some(values[i])
                },
                None => Some(values[i]),
            },
{
    assert forall|i: int| 0 <= i < headers.len() implies #[trigger] bound_row(
        headers,
        record_mapping(headers, values),
    )[i] == match row_uid(headers, values) {
        Some(uid) => if headers[i] == report_id_name() {
            derived_keys(Some(uid)).0
        } else if headers[i] == target_id_name() {
            derived_keys(Some(uid)).1
        } else if headers[i] == report_type_name() {
            derived_keys(Some(uid)).2
        } else {
            Some(values[i])
        },
        None => Some(values[i]),
    } by {
        lemma_bound_value_of_row(headers, values, headers[i]);
        lemma_paired_unique(headers, values, headers.len(), i);
    }
}

/// Taking one pair out of a row leaves what the row pairs with any other
/// name.
pub proof fn lemma_paired_without(
    headers: Seq<Seq<char>>,
    values: Seq<Seq<char>>,
    n: nat,
    k: int,
    name: Seq<char>,
)
    requires
        0 <= k < n,
        n <= headers.len(),
        n <= values.len(),
        name != headers[k],
    ensures
        bound_value(paired(headers, values, n), name) == bound_value(
            paired(headers.remove(k), values.remove(k), (n - 1) as nat),
            name,
        ),
    decreases n,
{
    let h = headers.remove(k);
    let v = values.remove(k);
    if n == k + 1 {
        lemma_paired_prefix(headers, values, h, v, k as nat);
    } else {
        lemma_paired_without(headers, values, (n - 1) as nat, k, name);
        assert(h[n - 2] == headers[n - 1]);
        assert(v[n - 2] == values[n - 1]);
    }
}

/// A CSV column that the column list does not name is dropped: the values
/// bound for a row are the same with the column and without it.
///
/// The composite identifier is read whether or not the column list names
/// it, so the law leaves out a `platform_uid` column where the column list
/// names one of the columns derived from it.
pub proof fn lemma_unlisted_column_is_dropped(
    columns: Seq<Seq<char>>,
    headers: Seq<Seq<char>>,
    values: Seq<Seq<char>>,
    k: int,
)
    requires
        0 <= k < headers.len(),
        k < values.len(),
        !columns.contains(headers[k]),
        headers[k] == platform_uid_name() ==> !columns.contains(report_id_name())
            && !columns.contains(target_id_name()) && !columns.contains(report_type_name()),
    ensures
        bound_row(columns, record_mapping(headers, values)) == bound_row(
            columns,
            record_mapping(headers.remove(k), values.remove(k)),
        ),
{
    let h = headers.remove(k);
    let v = values.remove(k);
    let n = pair_count(headers, values);
    assert(pair_count(h, v) == n - 1);
    lemma_names_differ();
    assert forall|i: int| 0 <= i < columns.len() implies bound_value(
        record_mapping(headers, values),
        columns[i],
    ) == bound_value(record_mapping(h, v), columns[i]) by {
        let name = columns[i];
        assert(columns.contains(name));
        lemma_bound_value_of_row(headers, values, name);
        lemma_bound_value_of_row(h, v, name);
        lemma_paired_without(headers, values, n, k, name);
        if headers[k] != platform_uid_name() {
            lemma_paired_without(headers, values, n, k, platform_uid_name());
        }
    }
    assert(bound_row(columns, record_mapping(headers, values)) =~= bound_row(
        columns,
        record_mapping(h, v),
    ));
}

/// Going on with the rows keeps an import well formed.
pub proof fn lemma_resumed_wf(s: ImportView, from: int)
    requires
        0 <= from <= s.rows.len(),
        0 <= s.inserted,
        s.inserted + s.errors.len() == from,
        s.columns.len() > 0,
        s.failure is None,
    ensures
        s.resumed(from).0.wf(),
        s.resumed(from).0.cursor == next_row(s.rows, from),
        s.resumed(from).0.rows == s.rows,
        s.resumed(from).0.inserted == s.inserted,
        s.resumed(from).0.failure is None,
{
    lemma_next_row(s.rows, from);
}

/// Every step leaves a well-formed import well formed.
pub proof fn lemma_step_keeps_wf(
    s: ImportView,
    event: Event,
    parsed: Option<Result<CsvTable, String>>,
)
    requires
        s.wf(),
    ensures
        transition(s, event, parsed).0.wf(),
{
    match (s.phase, event) {
        (Phase::AwaitingTransaction, Event::Transaction(Ok(_))) => {
            match parsed {
                Some(Ok(t)) => {
                    lemma_resumed_wf(ImportView { headers: t@.headers, rows: t@.rows, ..s }, 0);
                },
                _ => {},
            }
        },
        (Phase::AwaitingInsert, Event::Insert(Ok(_))) => {
            lemma_resumed_wf(ImportView { inserted: s.inserted + 1, ..s }, s.cursor + 1);
        },
        (Phase::AwaitingInsert, Event::Insert(Err(message))) => {
            lemma_resumed_wf(
                ImportView {
                    errors: s.errors.push(
                        RowErrorView { row: s.cursor, fault: RowFault::Execute, message: message@ },
                    ),
                    ..s
                },
                s.cursor + 1,
            );
        },
        _ => {},
    }
}

/// A row that fails does not end the import. Whether the store executed
/// the insert of the current row or rejected it, the import goes on: it
/// holds no failure, it passes over the rows that could not be parsed, each
/// of which gets an error and no insert, and its next action is the insert
/// of the first parsed row behind them, or the commit where none is left.
pub proof fn lemma_row_failure_is_isolated(s: ImportView, outcome: Result<(), String>)
    requires
        s.wf(),
        s.phase == Phase::AwaitingInsert,
    ensures
        ({
            let (next, action) = transition(s, Event::Insert(outcome), None);
            let at = next_row(s.rows, s.cursor + 1);
            &&& next.wf()
            &&& next.failure is None
            &&& next.rows == s.rows
            &&& next.cursor == at
            &&& s.cursor < at <= s.rows.len()
            &&& forall|j: int| s.cursor < j < at ==> s.rows[j] is Err
            &&& next.errors.len() == s.errors.len() + (at - s.cursor - 1) + if outcome is Ok {
                0int
            } else {
                1int
            }
            &&& next.inserted == s.inserted + if outcome is Ok {
                1int
            } else {
                0int
            }
            &&& at < s.rows.len() ==> s.rows[at] is Ok && next.phase == Phase::AwaitingInsert
                && action == (ActionView::Execute {
                statement: insert_text(s.columns),
                values: bound_row(s.columns, record_mapping(s.headers, s.rows[at]->Ok_0)),
            })
            &&& at == s.rows.len() ==> next.phase == Phase::AwaitingCommit && action
                == ActionView::Commit
        }),
{
    lemma_next_row(s.rows, s.cursor + 1);
    lemma_step_keeps_wf(s, Event::Insert(outcome), None);
}

/// The places of the parsed rows at or after `from`, in order.
pub open spec fn parsed_places(rows: Seq<RowView>, from: int) -> Seq<int>
    decreases rows.len() - from,
{
    if from < 0 || from >= rows.len() {
        Seq::empty()
    } else if rows[from] is Ok {
        seq![from] + parsed_places(rows, from + 1)
    } else {
        parsed_places(rows, from + 1)
    }
}

/// The number of inserts that the store executed.
pub open spec fn accepted(outcomes: Seq<Result<(), String>>) -> nat
    decreases outcomes.len(),
{
    if outcomes.len() == 0 {
        0
    } else if outcomes[0] is Ok {
        1 + accepted(outcomes.drop_first())
    } else {
        accepted(outcomes.drop_first())
    }
}

/// The import after the store has answered one insert after the other.
pub open spec fn after_inserts(s: ImportView, outcomes: Seq<Result<(), String>>) -> ImportView
    decreases outcomes.len(),
{
    if outcomes.len() == 0 {
        s
    } else {
        after_inserts(
            transition(s, Event::Insert(outcomes[0]), None).0,
            outcomes.drop_first(),
        )
    }
}

/// The places of the rows whose inserts those answers were for, in order.
pub open spec fn insert_places(s: ImportView, outcomes: Seq<Result<(), String>>) -> Seq<int>
    decreases outcomes.len(),
{
    if outcomes.len() == 0 {
        Seq::empty()
    } else {
        seq![s.cursor] + insert_places(
            transition(s, Event::Insert(outcomes[0]), None).0,
            outcomes.drop_first(),
        )
    }
}

/// Rows that could not be parsed have no place among the parsed rows.
proof fn lemma_parsed_places_next(rows: Seq<RowView>, from: int)
    requires
        0 <= from <= rows.len(),
    ensures
        parsed_places(rows, from) == parsed_places(rows, next_row(rows, from)),
    decreases rows.len() - from,
{
    if from < rows.len() && !(rows[from] is Ok) {
        lemma_parsed_places_next(rows, from + 1);
    }
}

/// Every parsed row gets its insert, and no other row does, whatever
/// becomes of the single rows: from the insert of one parsed row on, one
/// answer of the store for each parsed row that is left brings the import to
/// its commit. The inserts were for the parsed rows, each once and in their
/// order; every row is dealt with, no failure is held, and as many rows are
/// inserted as the store executed.
pub proof fn lemma_every_parsed_row_is_attempted(s: ImportView, outcomes: Seq<Result<(), String>>)
    requires
        s.wf(),
        s.phase == Phase::AwaitingInsert,
        outcomes.len() == parsed_places(s.rows, s.cursor).len(),
    ensures
        insert_places(s, outcomes) == parsed_places(s.rows, s.cursor),
        after_inserts(s, outcomes).wf(),
        after_inserts(s, outcomes).phase == Phase::AwaitingCommit,
        after_inserts(s, outcomes).rows == s.rows,
        after_inserts(s, outcomes).cursor == s.rows.len(),
        after_inserts(s, outcomes).inserted == s.inserted + accepted(outcomes),
        after_inserts(s, outcomes).failure is None,
    decreases outcomes.len(),
{
    assert(parsed_places(s.rows, s.cursor) == seq![s.cursor] + parsed_places(
        s.rows,
        s.cursor + 1,
    ));
    let next = transition(s, Event::Insert(outcomes[0]), None).0;
    let rest = outcomes.drop_first();
    lemma_row_failure_is_isolated(s, outcomes[0]);
    lemma_parsed_places_next(s.rows, s.cursor + 1);
    if next.cursor < s.rows.len() {
        lemma_every_parsed_row_is_attempted(next, rest);
    } else {
        assert(rest.len() == 0);
        assert(after_inserts(next, rest) == next);
        assert(insert_places(next, rest) == Seq::<int>::empty());
    }
}

/// A whole import with rows does not stop at a row: once the transaction
/// is open and the source has its header line, the inserts that the import
/// asks for are those of the parsed rows of the source, each once and in
/// their order, and after the store has answered them the import is at its
/// commit, with every row dealt with and no failure held.
pub proof fn lemma_import_attempts_every_parsed_row(
    s: ImportView,
    table: CsvTable,
    outcomes: Seq<Result<(), String>>,
)
    requires
        s.wf(),
        s.phase == Phase::AwaitingTransaction,
        outcomes.len() == parsed_places(table@.rows, 0).len(),
    ensures
        ({
            let first = transition(s, Event::Transaction(Ok(())), Some(Ok(table))).0;
            &&& insert_places(first, outcomes) == parsed_places(table@.rows, 0)
            &&& after_inserts(first, outcomes).phase == Phase::AwaitingCommit
            &&& after_inserts(first, outcomes).cursor == table@.rows.len()
            &&& after_inserts(first, outcomes).inserted == accepted(outcomes)
            &&& after_inserts(first, outcomes).failure is None
        }),
{
    let opened = ImportView { headers: table@.headers, rows: table@.rows, ..s };
    let first = transition(s, Event::Transaction(Ok(())), Some(Ok(table))).0;
    assert(first == opened.resumed(0).0);
    lemma_resumed_wf(opened, 0);
    lemma_parsed_places_next(table@.rows, 0);
    if first.cursor < table@.rows.len() {
        lemma_every_parsed_row_is_attempted(first, outcomes);
    } else {
        assert(outcomes.len() == 0);
        assert(after_inserts(first, outcomes) == first);
        assert(insert_places(first, outcomes) == Seq::<int>::empty());
        assert(accepted(outcomes) == 0);
    }
}

/// An import that has ended stays as it is: whatever event comes, nothing
/// changes and nothing is asked for.
pub proof fn lemma_ended_import_stays(
    s: ImportView,
    event: Event,
    parsed: Option<Result<CsvTable, String>>,
)
    requires
        s.phase == Phase::Committed || s.phase == Phase::Aborted,
    ensures
        transition(s, event, parsed) == (s, ActionView::Ignored),
{
}

/// Nothing is written before the transaction is open: until then no step
/// asks for an insert or a commit, and a failure ends the import at once,
/// with no row dealt with.
pub proof fn lemma_failure_before_transaction_writes_nothing(
    s: ImportView,
    event: Event,
    parsed: Option<Result<CsvTable, String>>,
)
    requires
        s.wf(),
        s.phase == Phase::AwaitingFile || s.phase == Phase::AwaitingSchema || (s.phase
            == Phase::AwaitingTransaction && !(event matches Event::Transaction(Ok(_)))),
    ensures
        ({
            let (next, action) = transition(s, event, parsed);
            &&& !(action is Execute) && action != ActionView::Commit && action
                != ActionView::Rollback
            &&& next.cursor == 0 && next.inserted == 0
            &&& next.failure is Some ==> next.phase == Phase::Aborted && action
                == ActionView::Finish
        }),
{
}

/// A commit that fails leaves nothing visible: however many inserts were
/// executed in the transaction, the import ends aborted with a transaction
/// failure, and no row of it can be seen.
pub proof fn lemma_failed_commit_leaves_nothing(s: ImportView, message: String)
    requires
        s.wf(),
        s.phase == Phase::AwaitingCommit,
    ensures
        ({
            let (next, action) = transition(s, Event::Commit(Err(message)), None);
            &&& next.phase == Phase::Aborted
            &&& next.visible_rows() == 0
            &&& next.inserted == s.inserted
            &&& next.failure == Some(
                ImportErrorView { kind: FailureKind::Transaction, message: message@ },
            )
            &&& action == ActionView::Finish
        }),
{
}

/// Rows become visible by a successful commit and in no other way.
pub proof fn lemma_visible_only_by_commit(
    s: ImportView,
    event: Event,
    parsed: Option<Result<CsvTable, String>>,
)
    requires
        s.wf(),
        s.phase != Phase::Committed,
    ensures
        s.visible_rows() == 0,
        transition(s, event, parsed).0.visible_rows() != 0 ==> s.phase == Phase::AwaitingCommit && (
        event matches Event::Commit(Ok(_))) && transition(s, event, parsed).0.visible_rows()
            == s.inserted,
{
    lemma_step_keeps_wf(s, event, parsed);
    match (s.phase, event) {
        (Phase::AwaitingTransaction, Event::Transaction(Ok(_))) => {
            match parsed {
                Some(Ok(t)) => {
                    lemma_resumed_wf(ImportView { headers: t@.headers, rows: t@.rows, ..s }, 0);
                },
                _ => {},
            }
        },
        _ => {},
    }
}

} // verus!
