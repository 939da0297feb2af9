//! What a full sync does around the table cycles: the statements that bring
//! the remote schema up to the local one, the plan of each table's cycle, and
//! the one outcome that the per-table outcomes add up to.

use vstd::prelude::*;
use crate::cycle::{done_view, PlanView, TablePlan};
use crate::schema::{DynamicSchema, SchemaView, SyncSchema};
use crate::text::{decimal_string, decimal_text, lemma_pushed_text, uppercased};
use crate::watermark::{integer_like, is_integer_type};

verus! {

/// The default that a bookkeeping column is added with: zero for an
/// integer-like type, the epoch as a date-time literal for any other.
pub open spec fn default_text(integer_typed: bool) -> Seq<char> {
    if integer_typed {
        "0"@
    } else {
        "'1970-01-01T00:00:00'"@
    }
}

/// The statement that adds a column to a remote table.
pub open spec fn add_column_text(
    table: Seq<char>,
    column: Seq<char>,
    col_type: Seq<char>,
    integer_typed: bool,
) -> Seq<char> {
    "ALTER TABLE "@ + table + " ADD COLUMN "@ + column + " "@ + col_type + " DEFAULT "@
        + default_text(integer_typed)
}

/// Writes the statement that adds a column to a remote table.
pub fn add_column_sql(table: &str, column: &str, col_type: &str, integer_typed: bool) -> (out:
    String)
    ensures
        out@ == add_column_text(table@, column@, col_type@, integer_typed),
{
    let mut out = String::from_str("ALTER TABLE ");
    out.append(table);
    out.append(" ADD COLUMN ");
    out.append(column);
    out.append(" ");
    out.append(col_type);
    out.append(" DEFAULT ");
    if integer_typed {
        out.append("0");
    } else {
        out.append("'1970-01-01T00:00:00'");
    }
    out
}

/// What a schema says of one table, as far as a sync needs it.
#[derive(Clone, Debug, PartialEq, Eq)]
pub struct TableFacts {
    pub table: String,
    pub columns: Vec<String>,
    pub pks: Vec<String>,
    /// The declared type of `updated_at`, none where the table has no such
    /// column.
    pub updated_at: Option<String>,
    /// The declared type of `created_at`, if the table has the column.
    pub created_at: Option<String>,
    /// The declared type of `deleted_at`, if the table has the column.
    pub deleted_at: Option<String>,
}

/// [`TableFacts`] as contracts see them.
pub struct FactsView {
    pub table: Seq<char>,
    pub columns: Seq<Seq<char>>,
    pub pks: Seq<Seq<char>>,
    pub updated_at: Option<Seq<char>>,
    pub created_at: Option<Seq<char>>,
    pub deleted_at: Option<Seq<char>>,
}

impl DeepView for TableFacts {
    type V = FactsView;

    open spec fn deep_view(&self) -> FactsView {
        FactsView {
            table: self.table@,
            columns: self.columns.deep_view(),
            pks: self.pks.deep_view(),
            updated_at: self.updated_at.deep_view(),
            created_at: self.created_at.deep_view(),
            deleted_at: self.deleted_at.deep_view(),
        }
    }
}

/// Copies every text of a list.
pub fn owned(texts: &Vec<&str>) -> (out: Vec<String>)
    ensures
        out.deep_view() == texts.deep_view(),
{
    let mut out: Vec<String> = Vec::new();
    let mut i: usize = 0;
    while i < texts.len()
        invariant
            0 <= i <= texts.len(),
            out.deep_view() == texts.deep_view().take(i as int),
        decreases texts.len() - i,
    {
        let text = String::from_str(texts[i]);
        let ghost before = out;
        out.push(text);
        proof {
            lemma_pushed_text(before, out, text);
            assert(texts.deep_view().take(i as int + 1) =~= texts.deep_view().take(i as int).push(
                texts[i as int]@,
            ));
        }
        i = i + 1;
    }
    proof {
        assert(texts.deep_view().take(texts.len() as int) =~= texts.deep_view());
    }
    out
}

/// The facts of a table are what the schema answered when asked about it:
/// they bear the table's name, and their columns, their primary key and the
/// declared types of `updated_at`, `created_at` and `deleted_at` are answers
/// of the schema to the questions for this table.
pub open spec fn table_answered<S: SyncSchema>(schema: &S, table: &str, facts: TableFacts) -> bool {
    &&& facts.table@ == table@
    &&& exists|columns: Vec<&str>|
        call_ensures(S::get_columns, (schema, table), columns) && facts.columns.deep_view()
            == columns.deep_view()
    &&& exists|pks: Vec<&str>|
        call_ensures(S::get_pks, (schema, table), pks) && facts.pks.deep_view()
            == pks.deep_view()
    &&& call_ensures(S::get_column_type, (schema, table, "updated_at"), facts.updated_at)
    &&& call_ensures(S::get_column_type, (schema, table, "created_at"), facts.created_at)
    &&& call_ensures(S::get_column_type, (schema, table, "deleted_at"), facts.deleted_at)
}

/// The facts are what the schema answered for the tables it listed: one for
/// each table, in the order of the list.
pub open spec fn tables_answered<S: SyncSchema>(
    schema: &S,
    tables: Vec<&str>,
    facts: Vec<TableFacts>,
) -> bool {
    &&& call_ensures(S::tables, (schema,), tables)
    &&& facts.len() == tables.len()
    &&& forall|i: int|
        0 <= i < facts.len() ==> table_answered(schema, tables[i], #[trigger] facts[i])
}

/// Asks a schema about each of its tables, once and in order: the columns,
/// the primary key, and the declared types of the three bookkeeping columns.
/// What an implementation of the schema answers is its own affair; what is
/// handed out is what it answered, table by table, and the functions that
/// work on the answers say what they make of each.
pub fn survey<S: SyncSchema>(schema: &S) -> (out: Vec<TableFacts>)
    ensures
        exists|tables: Vec<&str>| tables_answered(schema, tables, out),
{
    let tables = schema.tables();
    let mut out: Vec<TableFacts> = Vec::new();
    let mut i: usize = 0;
    while i < tables.len()
        invariant
            0 <= i <= tables.len(),
            call_ensures(S::tables, (schema,), tables),
            out.len() == i,
            forall|j: int| 0 <= j < i ==> table_answered(schema, tables[j], #[trigger] out[j]),
        decreases tables.len() - i,
    {
        let table = tables[i];
        let columns = schema.get_columns(table);
        let pks = schema.get_pks(table);
        let facts = TableFacts {
            table: String::from_str(table),
            columns: owned(&columns),
            pks: owned(&pks),
            updated_at: schema.get_column_type(table, "updated_at"),
            created_at: schema.get_column_type(table, "created_at"),
            deleted_at: schema.get_column_type(table, "deleted_at"),
        };
        proof {
            assert(table_answered(schema, table, facts));
        }
        let ghost before = out;
        out.push(facts);
        proof {
            assert forall|j: int| 0 <= j < i + 1 implies table_answered(
                schema,
                tables[j],
                #[trigger] out[j],
            ) by {
                if j < i {
                    assert(out[j] == before[j]);
                }
            }
        }
        i = i + 1;
    }
    proof {
        assert(tables_answered(schema, tables, out));
    }
    out
}

/// What a schema read off the catalog says of the table `table`.
pub open spec fn catalog_facts(schema: SchemaView, table: Seq<char>) -> FactsView {
    FactsView {
        table,
        columns: schema.column_names(table),
        pks: schema.key_names(table),
        updated_at: schema.declared_type(table, "updated_at"@),
        created_at: schema.declared_type(table, "created_at"@),
        deleted_at: schema.declared_type(table, "deleted_at"@),
    }
}

/// Asks a schema read off the catalog about each of its tables, in order.
pub fn survey_catalog(schema: &DynamicSchema) -> (out: Vec<TableFacts>)
    ensures
        out.deep_view() == schema@.tables.map_values(
            |table: Seq<char>| catalog_facts(schema@, table),
        ),
{
    let tables = schema.tables();
    let mut out: Vec<TableFacts> = Vec::new();
    let mut i: usize = 0;
    while i < tables.len()
        invariant
            0 <= i <= tables.len(),
            tables.deep_view() == schema@.tables,
            out.deep_view() == schema@.tables.take(i as int).map_values(
                |table: Seq<char>| catalog_facts(schema@, table),
            ),
        decreases tables.len() - i,
    {
        let table = tables[i];
        let columns = schema.get_columns(table);
        let pks = schema.get_pks(table);
        let facts = TableFacts {
            table: String::from_str(table),
            columns: owned(&columns),
            pks: owned(&pks),
            updated_at: schema.get_column_type(table, "updated_at"),
            created_at: schema.get_column_type(table, "created_at"),
            deleted_at: schema.get_column_type(table, "deleted_at"),
        };
        let ghost before = out;
        out.push(facts);
        proof {
            assert(tables.deep_view()[i as int] == table@);
            assert(facts.deep_view() == catalog_facts(schema@, table@));
            assert(out.deep_view() =~= before.deep_view().push(facts.deep_view()));
            assert(schema@.tables.take(i as int + 1).map_values(
                |table: Seq<char>| catalog_facts(schema@, table),
            ) =~= schema@.tables.take(i as int).map_values(
                |table: Seq<char>| catalog_facts(schema@, table),
            ).push(catalog_facts(schema@, table@)));
        }
        i = i + 1;
    }
    proof {
        assert(schema@.tables.take(tables.len() as int) =~= schema@.tables);
    }
    out
}

/// The statement that a bookkeeping column asks for: one where the local
/// schema declares the column, none where it does not.
pub open spec fn column_reconcile_texts(
    table: Seq<char>,
    column: Seq<char>,
    declared: Option<Seq<char>>,
) -> Seq<Seq<char>> {
    match declared {
        Some(col_type) => seq![
            add_column_text(table, column, col_type, integer_like(uppercased(col_type))),
        ],
        None => Seq::empty(),
    }
}

/// The statements that a table asks for: `updated_at`, `created_at` and
/// `deleted_at`, in this order, each where it is declared.
pub open spec fn table_reconcile_texts(facts: FactsView) -> Seq<Seq<char>> {
    column_reconcile_texts(facts.table, "updated_at"@, facts.updated_at) + column_reconcile_texts(
        facts.table,
        "created_at"@,
        facts.created_at,
    ) + column_reconcile_texts(facts.table, "deleted_at"@, facts.deleted_at)
}

/// The statements that the tables ask for, table by table.
pub open spec fn reconcile_texts(tables: Seq<FactsView>) -> Seq<Seq<char>>
    decreases tables.len(),
{
    if tables.len() == 0 {
        Seq::empty()
    } else {
        reconcile_texts(tables.drop_last()) + table_reconcile_texts(tables.last())
    }
}

fn push_column_statement(
    out: &mut Vec<String>,
    table: &str,
    column: &str,
    declared: &Option<String>,
)
    ensures
        final(out).deep_view() == old(out).deep_view() + column_reconcile_texts(
            table@,
            column@,
            declared.deep_view(),
        ),
{
    match declared {
        Some(col_type) => {
            let integer_typed = is_integer_type(col_type.as_str());
            let sql = add_column_sql(table, column, col_type.as_str(), integer_typed);
            let ghost before = *out;
            out.push(sql);
            proof {
                lemma_pushed_text(before, *out, sql);
                assert(out.deep_view() =~= before.deep_view() + seq![sql@]);
            }
        },
        None => {
            proof {
                assert(out.deep_view() =~= out.deep_view() + Seq::<Seq<char>>::empty());
            }
        },
    }
}

/// Writes the statements that make sure the remote tables have the
/// bookkeeping columns that the local schema declares. Each is sent on its
/// own and its failure is ignored: on a repeated run the column is there
/// already.
pub fn reconcile_statements(tables: &Vec<TableFacts>) -> (out: Vec<String>)
    ensures
        out.deep_view() == reconcile_texts(tables.deep_view()),
{
    let mut out: Vec<String> = Vec::new();
    let mut i: usize = 0;
    proof {
        assert(out.deep_view() =~= Seq::<Seq<char>>::empty());
    }
    while i < tables.len()
        invariant
            0 <= i <= tables.len(),
            out.deep_view() == reconcile_texts(tables.deep_view().take(i as int)),
        decreases tables.len() - i,
    {
        let facts = &tables[i];
        proof {
            let more = tables.deep_view().take(i as int + 1);
            assert(more.drop_last() =~= tables.deep_view().take(i as int));
            assert(more.last() == facts.deep_view());
        }
        let ghost before = out.deep_view();
        push_column_statement(&mut out, facts.table.as_str(), "updated_at", &facts.updated_at);
        push_column_statement(&mut out, facts.table.as_str(), "created_at", &facts.created_at);
        push_column_statement(&mut out, facts.table.as_str(), "deleted_at", &facts.deleted_at);
        proof {
            assert(out.deep_view() =~= before + table_reconcile_texts(facts.deep_view()));
        }
        i = i + 1;
    }
    proof {
        assert(tables.deep_view().take(tables.len() as int) =~= tables.deep_view());
    }
    out
}

/// The plan of a table's cycle; none for a table that declares no
/// `updated_at` column, which cannot be synced.
pub open spec fn plan_of(facts: FactsView) -> Option<PlanView> {
    match facts.updated_at {
        Some(col_type) => Some(
            PlanView {
                table: facts.table,
                columns: facts.columns,
                pks: facts.pks,
                integer_typed: integer_like(uppercased(col_type)),
            },
        ),
        None => None,
    }
}

/// The plans of the tables, in order, the tables that cannot be synced left
/// out.
pub open spec fn plans_of(tables: Seq<FactsView>) -> Seq<PlanView>
    decreases tables.len(),
{
    if tables.len() == 0 {
        Seq::empty()
    } else {
        let before = plans_of(tables.drop_last());
        match plan_of(tables.last()) {
            Some(plan) => before.push(plan),
            None => before,
        }
    }
}

/// A list of plans as contracts see it.
pub open spec fn plans_view(plans: Seq<TablePlan>) -> Seq<PlanView> {
    plans.map_values(|plan: TablePlan| plan@)
}

/// Plans one cycle for each table that declares an `updated_at` column. The
/// cycles do not depend on each other and may run side by side.
pub fn table_plans(tables: &Vec<TableFacts>) -> (out: Vec<TablePlan>)
    ensures
        plans_view(out@) == plans_of(tables.deep_view()),
{
    let mut out: Vec<TablePlan> = Vec::new();
    let mut i: usize = 0;
    proof {
        assert(plans_view(out@) =~= Seq::<PlanView>::empty());
    }
    while i < tables.len()
        invariant
            0 <= i <= tables.len(),
            plans_view(out@) == plans_of(tables.deep_view().take(i as int)),
        decreases tables.len() - i,
    {
        let facts = &tables[i];
        proof {
            let more = tables.deep_view().take(i as int + 1);
            assert(more.drop_last() =~= tables.deep_view().take(i as int));
            assert(more.last() == facts.deep_view());
        }
        match &facts.updated_at {
            Some(col_type) => {
                let plan = TablePlan {
                    table: facts.table.clone(),
                    columns: copied(&facts.columns),
                    pks: copied(&facts.pks),
                    integer_typed: is_integer_type(col_type.as_str()),
                };
                let ghost before = out@;
                out.push(plan);
                proof {
                    assert(plans_view(out@) =~= plans_view(before).push(plan@));
                }
            },
            None => {},
        }
        i = i + 1;
    }
    proof {
        assert(tables.deep_view().take(tables.len() as int) =~= tables.deep_view());
    }
    out
}

/// Copies a list of texts.
pub fn copied(texts: &Vec<String>) -> (out: Vec<String>)
    ensures
        out.deep_view() == texts.deep_view(),
{
    let mut out: Vec<String> = Vec::new();
    let mut i: usize = 0;
    while i < texts.len()
        invariant
            0 <= i <= texts.len(),
            out.deep_view() == texts.deep_view().take(i as int),
        decreases texts.len() - i,
    {
        let text = texts[i].clone();
        let ghost before = out;
        out.push(text);
        proof {
            lemma_pushed_text(before, out, text);
            assert(texts.deep_view().take(i as int + 1) =~= texts.deep_view().take(i as int).push(
                texts[i as int]@,
            ));
        }
        i = i + 1;
    }
    proof {
        assert(texts.deep_view().take(texts.len() as int) =~= texts.deep_view());
    }
    out
}

/// The messages of the cycles that failed, in table order.
pub open spec fn failures(outcomes: Seq<Result<(), Seq<char>>>) -> Seq<Seq<char>>
    decreases outcomes.len(),
{
    if outcomes.len() == 0 {
        Seq::empty()
    } else {
        let before = failures(outcomes.drop_last());
        match outcomes.last() {
            Err(message) => before.push(message),
            Ok(_) => before,
        }
    }
}

/// What `{:?}` writes for a list of strings: the texts quoted and escaped,
/// between square brackets, which depends on the texts alone.
pub uninterp spec fn debug_list_text(items: Seq<Seq<char>>) -> Seq<char>;

/// The `Debug` form of a list of strings. The result is named, not
/// described.
#[verifier::external_body]
pub(crate) fn debug_list(items: &Vec<String>) -> (out: String)
    ensures
        out@ == debug_list_text(items.deep_view()),
{
    format!("{:?}", items)
}

/// The message of a sync in which some cycles failed.
pub open spec fn failure_summary_text(errors: Seq<Seq<char>>, listed: Seq<char>) -> Seq<char> {
    "Sync completed with "@ + decimal_text(errors.len() as int) + " errors: "@ + listed
}

/// Writes the message of a sync in which some cycles failed, around the
/// list of their messages as text.
pub fn failure_summary(errors: &Vec<String>, listed: &str) -> (out: String)
    ensures
        out@ == failure_summary_text(errors.deep_view(), listed@),
{
    let mut out = String::from_str("Sync completed with ");
    let count = decimal_string(errors.len() as i128);
    out.append(count.as_str());
    out.append(" errors: ");
    out.append(listed);
    out
}

/// The outcomes of the cycles as contracts see them.
pub open spec fn outcomes_view(outcomes: Seq<Result<(), String>>) -> Seq<Result<(), Seq<char>>> {
    outcomes.map_values(|outcome: Result<(), String>| done_view(outcome))
}

/// What the outcomes of the cycles add up to: success where every cycle
/// succeeded, else one error that counts and lists every failure.
pub open spec fn aggregated(outcomes: Seq<Result<(), Seq<char>>>) -> Result<(), Seq<char>> {
    let errors = failures(outcomes);
    if errors.len() == 0 {
        Ok(())
    } else {
        Err(failure_summary_text(errors, debug_list_text(errors)))
    }
}

/// Adds the outcomes of the table cycles up to the outcome of the sync. No
/// failure hides another: each cycle has run to its end before this is
/// called.
pub fn aggregate(outcomes: &Vec<Result<(), String>>) -> (out: Result<(), String>)
    ensures
        match aggregated(outcomes_view(outcomes@)) {
            Ok(_) => out is Ok,
            Err(message) => out is Err && out.unwrap_err()@ == message,
        },
{
    let ghost all = outcomes_view(outcomes@);
    let mut errors: Vec<String> = Vec::new();
    let mut i: usize = 0;
    proof {
        assert(errors.deep_view() =~= Seq::<Seq<char>>::empty());
    }
    while i < outcomes.len()
        invariant
            0 <= i <= outcomes.len(),
            all == outcomes_view(outcomes@),
            errors.deep_view() == failures(all.take(i as int)),
        decreases outcomes.len() - i,
    {
        proof {
            let more = all.take(i as int + 1);
            assert(more.drop_last() =~= all.take(i as int));
            assert(more.last() == done_view(outcomes@[i as int]));
        }
        match &outcomes[i] {
            Err(message) => {
                let text = message.clone();
                let ghost before = errors;
                errors.push(text);
                proof {
                    lemma_pushed_text(before, errors, text);
                }
            },
            Ok(_) => {},
        }
        i = i + 1;
    }
    proof {
        assert(all.take(outcomes.len() as int) =~= all);
    }
    if errors.len() == 0 {
        Ok(())
    } else {
        let listed = debug_list(&errors);
        Err(failure_summary(&errors, listed.as_str()))
    }
}

} // verus!
