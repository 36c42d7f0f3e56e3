//! Statement texts for the `reports` table, and the values bound to them.

use vstd::prelude::*;
use crate::mapping::RowMapping;

verus! {

/// The parts in order, with `sep` between each two.
pub open spec fn join(parts: Seq<Seq<char>>, sep: Seq<char>) -> Seq<char>
    decreases parts.len(),
{
    if parts.len() == 0 {
        Seq::empty()
    } else if parts.len() == 1 {
        parts[0]
    } else {
        join(parts.drop_last(), sep) + sep + parts.last()
    }
}

/// `n` positional placeholders.
pub open spec fn placeholders(n: nat) -> Seq<Seq<char>> {
    Seq::new(n, |i: int| "?"@)
}

/// The insert statement for an ordered column list: the columns in their
/// order, then one placeholder for each.
pub open spec fn insert_text(columns: Seq<Seq<char>>) -> Seq<char> {
    "INSERT INTO reports ("@ + join(columns, ", "@) + ") VALUES ("@ + join(
        placeholders(columns.len()),
        ", "@,
    ) + ")"@
}

/// Joining one part more appends the separator, unless it is the first, and the part.
pub proof fn lemma_join_push(parts: Seq<Seq<char>>, sep: Seq<char>, part: Seq<char>)
    ensures
        join(parts.push(part), sep) == if parts.len() == 0 {
            part
        } else {
            join(parts, sep) + sep + part
        },
{
    assert(parts.push(part).drop_last() == parts);
}

/// The text of the parameterized insert statement for `columns`.
///
/// An empty column list gives a statement with empty lists; it is for the
/// caller not to execute it.
pub fn get_query_template(columns: &Vec<String>) -> (query: String)
    ensures
        query@ == insert_text(columns.deep_view()),
{
    let ghost names = columns.deep_view();
    let mut query = "INSERT INTO reports (".to_owned();
    let mut i: usize = 0;
    while i < columns.len()
        invariant
            i <= columns.len(),
            names == columns.deep_view(),
            query@ == "INSERT INTO reports ("@ + join(names.take(i as int), ", "@),
        decreases columns.len() - i,
    {
        proof {
            lemma_join_push(names.take(i as int), ", "@, names[i as int]);
            assert(names.take(i as int).push(names[i as int]) == names.take(i + 1));
        }
        if i > 0 {
            query.append(", ");
        }
        query.append(columns[i].as_str());
        i += 1;
    }
    assert(names.take(i as int) == names);
    query.append(") VALUES (");
    let ghost head = query@;
    let ghost marks = placeholders(names.len());
    let mut k: usize = 0;
    while k < columns.len()
        invariant
            k <= columns.len(),
            names.len() == columns.len(),
            marks == placeholders(names.len()),
            query@ == head + join(marks.take(k as int), ", "@),
        decreases columns.len() - k,
    {
        proof {
            lemma_join_push(marks.take(k as int), ", "@, marks[k as int]);
            assert(marks.take(k as int).push(marks[k as int]) == marks.take(k + 1));
        }
        if k > 0 {
            query.append(", ");
        }
        query.append("?");
        k += 1;
    }
    assert(marks.take(k as int) == marks);
    query.append(")");
    query
}

/// The value bound for a column: the mapped value where the name is present
/// with one, else an explicit null.
pub open spec fn bound_value(mapping: Map<Seq<char>, Option<Seq<char>>>, column: Seq<char>) -> Option<
    Seq<char>,
> {
    if mapping.contains_key(column) {
        mapping[column]
    } else {
        None
    }
}

/// The values bound for one row: one for each column, in column order.
pub open spec fn bound_row(columns: Seq<Seq<char>>, mapping: Map<Seq<char>, Option<Seq<char>>>) -> Seq<
    Option<Seq<char>>,
> {
    Seq::new(columns.len(), |i: int| bound_value(mapping, columns[i]))
}

/// The values to bind to the insert statement for one row. Only names of the
/// column list are read from the mapping.
pub fn bind_values(columns: &Vec<String>, mapping: &RowMapping) -> (values: Vec<Option<String>>)
    ensures
        values.deep_view() == bound_row(columns.deep_view(), mapping@),
{
    let mut values: Vec<Option<String>> = Vec::new();
    let mut i: usize = 0;
    while i < columns.len()
        invariant
            i <= columns.len(),
            values.len() == i,
            forall|j: int|
                0 <= j < i ==> (#[trigger] values@[j]).deep_view() == bound_value(
                    mapping@,
                    columns@[j]@,
                ),
        decreases columns.len() - i,
    {
        let value = match mapping.get(columns[i].as_str()) {
            Some(Some(text)) => Some(text),
            _ => None,
        };
        values.push(value);
        i += 1;
    }
    assert(values.deep_view() == bound_row(columns.deep_view(), mapping@));
    values
}

/// The statement that lists the columns of the `reports` table.
pub fn schema_query() -> (query: String)
    ensures
        query@ == "PRAGMA table_info(reports)"@,
{
    "PRAGMA table_info(reports)".to_owned()
}

/// The place of the column name in each row that `schema_query` yields.
pub fn schema_name_column() -> (index: usize)
    ensures
        index == 1,
{
    1
}

/// The statement that fetches every report.
pub fn select_all_query() -> (query: String)
    ensures
        query@ == "SELECT * FROM reports"@,
{
    "SELECT * FROM reports".to_owned()
}

/// The statement that fetches the reports of one target, most recent first;
/// its one placeholder takes the target id.
pub fn select_by_target_query() -> (query: String)
    ensures
        query@ == "SELECT * FROM reports WHERE target_id = ? ORDER BY created_at DESC"@,
{
    "SELECT * FROM reports WHERE target_id = ? ORDER BY created_at DESC".to_owned()
}

} // verus!
