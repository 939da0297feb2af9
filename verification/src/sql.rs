//! The SQL text that the table syncer sends to either side.
//!
//! A row is an ordered list of nullable texts, aligned with the table's column
//! list. Every value travels as text, whatever its native type.

use vstd::prelude::*;
use crate::text::{
    join, joined, lemma_map_take_next, lemma_pushed_text, replace_text, replaced, text_eq,
};

verus! {

/// A value as a SQL literal: `NULL`, or the text in single quotes with every
/// quote inside it doubled.
pub open spec fn literal_text(value: Option<Seq<char>>) -> Seq<char> {
    match value {
        Some(v) => "'"@ + replaced(v, "'"@, "''"@) + "'"@,
        None => "NULL"@,
    }
}

/// Writes a value as a SQL literal.
pub fn sql_literal(value: &Option<String>) -> (out: String)
    ensures
        out@ == literal_text(value.deep_view()),
{
    match value {
        Some(v) => {
            let escaped = replace_text(v.as_str(), "'", "''");
            let mut out = String::from_str("'");
            out.append(escaped.as_str());
            out.append("'");
            out
        },
        None => String::from_str("NULL"),
    }
}

/// The literals of a row, in column order.
pub open spec fn literal_texts(row: Seq<Option<Seq<char>>>) -> Seq<Seq<char>> {
    row.map_values(|v: Option<Seq<char>>| literal_text(v))
}

/// The literals of a row separated by a comma and a space.
pub open spec fn values_text(row: Seq<Option<Seq<char>>>) -> Seq<char> {
    joined(literal_texts(row), ", "@)
}

/// Writes the value list of a row.
pub fn row_values_sql(row: &Vec<Option<String>>) -> (out: String)
    ensures
        out@ == values_text(row.deep_view()),
{
    let mut literals: Vec<String> = Vec::new();
    let mut i: usize = 0;
    while i < row.len()
        invariant
            0 <= i <= row.len(),
            literals.deep_view() == literal_texts(row.deep_view().take(i as int)),
        decreases row.len() - i,
    {
        let lit = sql_literal(&row[i]);
        let ghost before = literals;
        literals.push(lit);
        proof {
            lemma_pushed_text(before, literals, lit);
            lemma_map_take_next(
                row.deep_view(),
                |v: Option<Seq<char>>| literal_text(v),
                i as int,
            );
        }
        i = i + 1;
    }
    proof {
        assert(row.deep_view().take(row.len() as int) =~= row.deep_view());
    }
    join(&literals, ", ")
}

/// The query for the rows of `table` changed after `watermark`. An integer
/// watermark stands bare, a date-time watermark in single quotes.
pub open spec fn select_changed_text(
    table: Seq<char>,
    columns: Seq<Seq<char>>,
    watermark: Seq<char>,
    integer_typed: bool,
) -> Seq<char> {
    let head = "SELECT "@ + joined(columns, ", "@) + " FROM "@ + table
        + " WHERE updated_at > "@;
    if integer_typed {
        head + watermark
    } else {
        head + "'"@ + watermark + "'"@
    }
}

/// Writes the query for the rows changed after `watermark`; both sides are
/// asked the same question.
pub fn select_changed_sql(
    table: &str,
    columns: &Vec<String>,
    watermark: &str,
    integer_typed: bool,
) -> (out: String)
    ensures
        out@ == select_changed_text(table@, columns.deep_view(), watermark@, integer_typed),
{
    let col_list = join(columns, ", ");
    let mut out = String::from_str("SELECT ");
    out.append(col_list.as_str());
    out.append(" FROM ");
    out.append(table);
    out.append(" WHERE updated_at > ");
    if integer_typed {
        out.append(watermark);
    } else {
        out.append("'");
        out.append(watermark);
        out.append("'");
    }
    out
}

/// `column = excluded.column`.
pub open spec fn assignment_text(column: Seq<char>) -> Seq<char> {
    column + " = excluded."@ + column
}

/// The assignments of an upsert's update clause, one for each column.
pub open spec fn update_set_text(columns: Seq<Seq<char>>) -> Seq<char> {
    joined(columns.map_values(|c: Seq<char>| assignment_text(c)), ", "@)
}

/// Writes the update clause's assignments.
pub fn update_set_sql(columns: &Vec<String>) -> (out: String)
    ensures
        out@ == update_set_text(columns.deep_view()),
{
    let mut parts: Vec<String> = Vec::new();
    let mut i: usize = 0;
    while i < columns.len()
        invariant
            0 <= i <= columns.len(),
            parts.deep_view() == columns.deep_view().take(i as int).map_values(
                |c: Seq<char>| assignment_text(c),
            ),
        decreases columns.len() - i,
    {
        let mut part = String::from_str(columns[i].as_str());
        part.append(" = excluded.");
        part.append(columns[i].as_str());
        let ghost before = parts;
        parts.push(part);
        proof {
            lemma_pushed_text(before, parts, part);
            lemma_map_take_next(
                columns.deep_view(),
                |c: Seq<char>| assignment_text(c),
                i as int,
            );
        }
        i = i + 1;
    }
    proof {
        assert(columns.deep_view().take(columns.len() as int) =~= columns.deep_view());
    }
    join(&parts, ", ")
}

/// The remote upsert of one row: insert, and on a primary-key conflict
/// overwrite only where the incoming `updated_at` is strictly greater than the
/// stored one, so that the remote side arbitrates last-writer-wins.
pub open spec fn push_statement_text(
    table: Seq<char>,
    columns: Seq<Seq<char>>,
    pks: Seq<Seq<char>>,
    row: Seq<Option<Seq<char>>>,
) -> Seq<char> {
    "INSERT INTO "@ + table + " ("@ + joined(columns, ", "@) + ") VALUES ("@ + values_text(row)
        + ") ON CONFLICT("@ + joined(pks, ", "@) + ") DO UPDATE SET "@ + update_set_text(columns)
        + " WHERE excluded.updated_at > "@ + table + ".updated_at"@
}

/// One upsert for each row, in row order.
pub open spec fn push_statement_texts(
    table: Seq<char>,
    columns: Seq<Seq<char>>,
    pks: Seq<Seq<char>>,
    rows: Seq<Seq<Option<Seq<char>>>>,
) -> Seq<Seq<char>> {
    rows.map_values(|row: Seq<Option<Seq<char>>>| push_statement_text(table, columns, pks, row))
}

/// Writes the batch that pushes `rows` to the remote side.
pub fn push_statements(
    table: &str,
    columns: &Vec<String>,
    pks: &Vec<String>,
    rows: &Vec<Vec<Option<String>>>,
) -> (out: Vec<String>)
    ensures
        out.deep_view() == push_statement_texts(
            table@,
            columns.deep_view(),
            pks.deep_view(),
            rows.deep_view(),
        ),
{
    let col_list = join(columns, ", ");
    let pk_list = join(pks, ", ");
    let update_set = update_set_sql(columns);
    let mut out: Vec<String> = Vec::new();
    let mut i: usize = 0;
    while i < rows.len()
        invariant
            0 <= i <= rows.len(),
            col_list@ == joined(columns.deep_view(), ", "@),
            pk_list@ == joined(pks.deep_view(), ", "@),
            update_set@ == update_set_text(columns.deep_view()),
            out.deep_view() == push_statement_texts(
                table@,
                columns.deep_view(),
                pks.deep_view(),
                rows.deep_view().take(i as int),
            ),
        decreases rows.len() - i,
    {
        let values = row_values_sql(&rows[i]);
        let mut sql = String::from_str("INSERT INTO ");
        sql.append(table);
        sql.append(" (");
        sql.append(col_list.as_str());
        sql.append(") VALUES (");
        sql.append(values.as_str());
        sql.append(") ON CONFLICT(");
        sql.append(pk_list.as_str());
        sql.append(") DO UPDATE SET ");
        sql.append(update_set.as_str());
        sql.append(" WHERE excluded.updated_at > ");
        sql.append(table);
        sql.append(".updated_at");
        let ghost before = out;
        out.push(sql);
        proof {
            lemma_pushed_text(before, out, sql);
            lemma_map_take_next(
                rows.deep_view(),
                |row: Seq<Option<Seq<char>>>|
                    push_statement_text(table@, columns.deep_view(), pks.deep_view(), row),
                i as int,
            );
        }
        i = i + 1;
    }
    proof {
        assert(rows.deep_view().take(rows.len() as int) =~= rows.deep_view());
    }
    out
}

/// The local write of one pulled row: the whole row replaces what is there.
pub open spec fn local_upsert_text(
    table: Seq<char>,
    columns: Seq<Seq<char>>,
    row: Seq<Option<Seq<char>>>,
) -> Seq<char> {
    "INSERT OR REPLACE INTO "@ + table + " ("@ + joined(columns, ", "@) + ") VALUES ("@
        + values_text(row) + ")"@
}

/// Writes the local upsert of one pulled row.
pub fn local_upsert_sql(table: &str, columns: &Vec<String>, row: &Vec<Option<String>>) -> (out:
    String)
    ensures
        out@ == local_upsert_text(table@, columns.deep_view(), row.deep_view()),
{
    let col_list = join(columns, ", ");
    let values = row_values_sql(row);
    let mut out = String::from_str("INSERT OR REPLACE INTO ");
    out.append(table);
    out.append(" (");
    out.append(col_list.as_str());
    out.append(") VALUES (");
    out.append(values.as_str());
    out.append(")");
    out
}

/// The value that a row holds for the column `name`: the last position that
/// bears the name and holds a value decides; none where there is no such
/// position.
pub open spec fn column_value(
    columns: Seq<Seq<char>>,
    row: Seq<Option<Seq<char>>>,
    name: Seq<char>,
) -> Option<Seq<char>>
    decreases columns.len(),
{
    if columns.len() == 0 {
        None
    } else {
        let last = columns.len() - 1;
        if columns[last] == name && last < row.len() && row[last] is Some {
            row[last]
        } else {
            column_value(columns.drop_last(), row, name)
        }
    }
}

/// Looks up the value of the column `name` in a row.
pub fn value_of_column(columns: &Vec<String>, row: &Vec<Option<String>>, name: &str) -> (out:
    Option<String>)
    ensures
        out.deep_view() == column_value(columns.deep_view(), row.deep_view(), name@),
{
    let mut i: usize = columns.len();
    proof {
        assert(columns.deep_view().take(columns.len() as int) =~= columns.deep_view());
    }
    while i > 0
        invariant
            0 <= i <= columns.len(),
            column_value(columns.deep_view(), row.deep_view(), name@) == column_value(
                columns.deep_view().take(i as int),
                row.deep_view(),
                name@,
            ),
        decreases i,
    {
        i = i - 1;
        proof {
            assert(columns.deep_view().take(i as int + 1).drop_last() =~= columns.deep_view().take(
                i as int,
            ));
        }
        if i < row.len() && text_eq(columns[i].as_str(), name) {
            match &row[i] {
                Some(v) => {
                    return Some(v.clone());
                },
                None => {},
            }
        }
    }
    None
}

/// The text that a row holds for `name`, empty where it holds none.
pub open spec fn column_text(
    columns: Seq<Seq<char>>,
    row: Seq<Option<Seq<char>>>,
    name: Seq<char>,
) -> Seq<char> {
    match column_value(columns, row, name) {
        Some(v) => v,
        None => Seq::empty(),
    }
}

/// A row carries its whole primary key: a non-empty value for every
/// primary-key column.
pub open spec fn key_complete(
    columns: Seq<Seq<char>>,
    pks: Seq<Seq<char>>,
    row: Seq<Option<Seq<char>>>,
) -> bool {
    forall|k: int| 0 <= k < pks.len() ==> (#[trigger] column_text(columns, row, pks[k])).len() > 0
}

/// `pk = 'value'`, with the quotes inside the value doubled.
pub open spec fn key_condition_text(pk: Seq<char>, value: Seq<char>) -> Seq<char> {
    pk + " = '"@ + replaced(value, "'"@, "''"@) + "'"@
}

/// The conditions that single out a row by its primary key, in key order.
pub open spec fn key_condition_texts(
    columns: Seq<Seq<char>>,
    pks: Seq<Seq<char>>,
    row: Seq<Option<Seq<char>>>,
) -> Seq<Seq<char>> {
    pks.map_values(|pk: Seq<char>| key_condition_text(pk, column_text(columns, row, pk)))
}

/// Writes the primary-key conditions of a row, or nothing where the row lacks
/// a value for any primary-key column.
pub fn key_conditions(columns: &Vec<String>, pks: &Vec<String>, row: &Vec<Option<String>>) -> (out:
    Option<Vec<String>>)
    ensures
        out is Some <==> key_complete(columns.deep_view(), pks.deep_view(), row.deep_view()),
        out is Some ==> out.unwrap().deep_view() == key_condition_texts(
            columns.deep_view(),
            pks.deep_view(),
            row.deep_view(),
        ),
{
    let mut out: Vec<String> = Vec::new();
    let mut k: usize = 0;
    while k < pks.len()
        invariant
            0 <= k <= pks.len(),
            key_complete(columns.deep_view(), pks.deep_view().take(k as int), row.deep_view()),
            out.deep_view() == key_condition_texts(
                columns.deep_view(),
                pks.deep_view().take(k as int),
                row.deep_view(),
            ),
        decreases pks.len() - k,
    {
        let found = value_of_column(columns, row, pks[k].as_str());
        let value = match found {
            Some(v) => v,
            None => String::new(),
        };
        assert(value@ == column_text(columns.deep_view(), row.deep_view(), pks[k as int]@));
        if value.as_str().is_empty() {
            proof {
                assert(column_text(
                    columns.deep_view(),
                    row.deep_view(),
                    pks.deep_view()[k as int],
                ).len() == 0);
            }
            return None;
        }
        let escaped = replace_text(value.as_str(), "'", "''");
        let mut cond = String::from_str(pks[k].as_str());
        cond.append(" = '");
        cond.append(escaped.as_str());
        cond.append("'");
        let ghost before = out;
        out.push(cond);
        proof {
            lemma_pushed_text(before, out, cond);
            lemma_map_take_next(
                pks.deep_view(),
                |pk: Seq<char>|
                    key_condition_text(pk, column_text(columns.deep_view(), row.deep_view(), pk)),
                k as int,
            );
            assert forall|j: int| 0 <= j < k + 1 implies (#[trigger] column_text(
                columns.deep_view(),
                row.deep_view(),
                pks.deep_view().take(k as int + 1)[j],
            )).len() > 0 by {
                if j < k {
                    assert(pks.deep_view().take(k as int + 1)[j] == pks.deep_view().take(
                        k as int,
                    )[j]);
                }
            }
        }
        k = k + 1;
    }
    proof {
        assert(pks.deep_view().take(pks.len() as int) =~= pks.deep_view());
    }
    Some(out)
}

/// The query for the local `updated_at` of the row that `conditions` single
/// out.
pub open spec fn stamp_lookup_text(table: Seq<char>, conditions: Seq<Seq<char>>) -> Seq<char> {
    "SELECT updated_at FROM "@ + table + " WHERE "@ + joined(conditions, " AND "@)
}

/// Writes the query for the local `updated_at` of one row.
pub fn stamp_lookup_sql(table: &str, conditions: &Vec<String>) -> (out: String)
    ensures
        out@ == stamp_lookup_text(table@, conditions.deep_view()),
{
    let where_clause = join(conditions, " AND ");
    let mut out = String::from_str("SELECT updated_at FROM ");
    out.append(table);
    out.append(" WHERE ");
    out.append(where_clause.as_str());
    out
}

/// The query for a table's stored watermark.
pub open spec fn ledger_select_text(table: Seq<char>) -> Seq<char> {
    "SELECT last_sync_time FROM sync_status WHERE table_name = '"@ + table + "'"@
}

/// Writes the query for a table's stored watermark.
pub fn ledger_select_sql(table: &str) -> (out: String)
    ensures
        out@ == ledger_select_text(table@),
{
    let mut out = String::from_str("SELECT last_sync_time FROM sync_status WHERE table_name = '");
    out.append(table);
    out.append("'");
    out
}

/// The ledger write that ends a cycle: the watermark becomes `now`, the
/// direction `both`, and the counter goes up by one, starting at one.
pub open spec fn ledger_upsert_text(table: Seq<char>, now: Seq<char>) -> Seq<char> {
    "INSERT OR REPLACE INTO sync_status (table_name, last_sync_time, last_sync_direction, sync_count) VALUES ('"@
        + table + "', '"@ + now
        + "', 'both', COALESCE((SELECT sync_count FROM sync_status WHERE table_name = '"@ + table
        + "') + 1, 1))"@
}

/// Writes the ledger write that ends a cycle.
pub fn ledger_upsert_sql(table: &str, now: &str) -> (out: String)
    ensures
        out@ == ledger_upsert_text(table@, now@),
{
    let mut out = String::from_str(
        "INSERT OR REPLACE INTO sync_status (table_name, last_sync_time, last_sync_direction, sync_count) VALUES ('",
    );
    out.append(table);
    out.append("', '");
    out.append(now);
    out.append("', 'both', COALESCE((SELECT sync_count FROM sync_status WHERE table_name = '");
    out.append(table);
    out.append("') + 1, 1))");
    out
}

} // verus!
