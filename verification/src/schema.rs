//! Table metadata: which tables are synced, their columns in order, their
//! primary-key columns in key order, and each column's declared type.

use vstd::prelude::*;
use crate::text::{lemma_pushed_text, text_eq};

verus! {

/// The map that a list of entries stands for: a later entry overrides an
/// earlier one with the same key.
pub open spec fn entries_map<V>(entries: Seq<(String, V)>) -> Map<Seq<char>, V>
    decreases entries.len(),
{
    if entries.len() == 0 {
        Map::empty()
    } else {
        entries_map(entries.drop_last()).insert(entries.last().0@, entries.last().1)
    }
}

/// A map keyed by text.
pub struct TextMap<V> {
    entries: Vec<(String, V)>,
}

impl<V> View for TextMap<V> {
    type V = Map<Seq<char>, V>;

    closed spec fn view(&self) -> Map<Seq<char>, V> {
        entries_map(self.entries@)
    }
}

impl<V> TextMap<V> {
    /// The empty map.
    pub fn new() -> (out: Self)
        ensures
            out@ == Map::<Seq<char>, V>::empty(),
    {
        TextMap { entries: Vec::new() }
    }

    /// Binds `key` to `value`, instead of what it was bound to.
    pub fn insert(&mut self, key: String, value: V)
        ensures
            final(self)@ == old(self)@.insert(key@, value),
    {
        self.entries.push((key, value));
        proof {
            assert(self.entries@.drop_last() =~= old(self).entries@);
        }
    }

    /// What `key` is bound to.
    pub fn get(&self, key: &str) -> (out: Option<&V>)
        ensures
            match out {
                Some(value) => self@.contains_key(key@) && self@[key@] == *value,
                None => !self@.contains_key(key@),
            },
    {
        let mut i: usize = self.entries.len();
        proof {
            assert(self.entries@.take(i as int) =~= self.entries@);
        }
        while i > 0
            invariant
                0 <= i <= self.entries.len(),
                self@.contains_key(key@) == entries_map(self.entries@.take(i as int)).contains_key(
                    key@,
                ),
                self@.contains_key(key@) ==> self@[key@] == entries_map(
                    self.entries@.take(i as int),
                )[key@],
            decreases i,
        {
            i = i - 1;
            proof {
                assert(self.entries@.take(i as int + 1).drop_last() =~= self.entries@.take(
                    i as int,
                ));
            }
            if text_eq(self.entries[i].0.as_str(), key) {
                return Some(&self.entries[i].1);
            }
        }
        None
    }
}

/// The query for the catalog rows of a table.
pub open spec fn table_info_text(table: Seq<char>) -> Seq<char> {
    "PRAGMA table_info("@ + table + ")"@
}

/// Writes the query for the catalog rows of a table: one row for each
/// column, with the name, the declared type and the place in the primary key
/// in the second, the third and the sixth value.
pub fn table_info_sql(table: &str) -> (out: String)
    ensures
        out@ == table_info_text(table@),
{
    let mut out = String::from_str("PRAGMA table_info(");
    out.append(table);
    out.append(")");
    out
}

/// One column as the database's catalog describes it.
#[derive(Clone, Debug, PartialEq, Eq)]
pub struct ColumnMeta {
    pub name: String,
    /// The declared type, as written in the table's definition.
    pub col_type: String,
    /// The column's place in the primary key, counted from one; zero where
    /// the column is no part of it.
    pub pk_idx: i32,
}

/// A [`ColumnMeta`] as contracts see it.
pub struct ColumnMetaView {
    pub name: Seq<char>,
    pub col_type: Seq<char>,
    pub pk_idx: int,
}

impl View for ColumnMeta {
    type V = ColumnMetaView;

    open spec fn view(&self) -> ColumnMetaView {
        ColumnMetaView { name: self.name@, col_type: self.col_type@, pk_idx: self.pk_idx as int }
    }
}

/// The catalog rows of a table as contracts see them.
pub open spec fn metas_view(metas: Seq<ColumnMeta>) -> Seq<ColumnMetaView> {
    metas.map_values(|m: ColumnMeta| m@)
}

/// The column names, in catalog order.
pub open spec fn names_of(metas: Seq<ColumnMetaView>) -> Seq<Seq<char>> {
    metas.map_values(|m: ColumnMetaView| m.name)
}

/// The declared type of each column.
pub open spec fn types_of(metas: Seq<ColumnMetaView>) -> Map<Seq<char>, Seq<char>>
    decreases metas.len(),
{
    if metas.len() == 0 {
        Map::empty()
    } else {
        types_of(metas.drop_last()).insert(metas.last().name, metas.last().col_type)
    }
}

/// Where a key column with the place `ordinal` goes into a list ordered by
/// place: behind the last column whose place is not greater.
pub open spec fn insert_index(ordered: Seq<ColumnMetaView>, ordinal: int) -> int
    decreases ordered.len(),
{
    if ordered.len() == 0 {
        0
    } else if ordered.last().pk_idx <= ordinal {
        ordered.len() as int
    } else {
        insert_index(ordered.drop_last(), ordinal)
    }
}

/// The primary-key columns ordered by their place in the key; columns with
/// the same place keep their catalog order.
pub open spec fn key_columns(metas: Seq<ColumnMetaView>) -> Seq<ColumnMetaView>
    decreases metas.len(),
{
    if metas.len() == 0 {
        Seq::empty()
    } else {
        let before = key_columns(metas.drop_last());
        let m = metas.last();
        if m.pk_idx > 0 {
            before.insert(insert_index(before, m.pk_idx), m)
        } else {
            before
        }
    }
}

/// The primary key of a table: its key columns in key order; where the
/// catalog marks none, the column named `id` if there is one.
pub open spec fn primary_key_of(metas: Seq<ColumnMetaView>) -> Seq<Seq<char>> {
    let keyed = names_of(key_columns(metas));
    if keyed.len() == 0 && names_of(metas).contains("id"@) {
        seq!["id"@]
    } else {
        keyed
    }
}

/// What is known of one table.
pub struct TableInfo {
    columns: Vec<String>,
    pks: Vec<String>,
    column_types: TextMap<String>,
}

/// A [`TableInfo`] as contracts see it.
pub struct TableInfoView {
    pub columns: Seq<Seq<char>>,
    pub pks: Seq<Seq<char>>,
    pub column_types: Map<Seq<char>, Seq<char>>,
}

/// A map of texts as contracts see it.
pub open spec fn texts_view(m: Map<Seq<char>, String>) -> Map<Seq<char>, Seq<char>> {
    m.map_values(|s: String| s@)
}

impl View for TableInfo {
    type V = TableInfoView;

    closed spec fn view(&self) -> TableInfoView {
        TableInfoView {
            columns: self.columns.deep_view(),
            pks: self.pks.deep_view(),
            column_types: texts_view(self.column_types@),
        }
    }
}

/// What the catalog rows of a table say of it.
pub open spec fn described(metas: Seq<ColumnMetaView>) -> TableInfoView {
    TableInfoView {
        columns: names_of(metas),
        pks: primary_key_of(metas),
        column_types: types_of(metas),
    }
}

/// Whether `names` holds `name`.
pub fn holds_name(names: &Vec<String>, name: &str) -> (out: bool)
    ensures
        out == names.deep_view().contains(name@),
{
    let mut i: usize = 0;
    while i < names.len()
        invariant
            0 <= i <= names.len(),
            forall|j: int| 0 <= j < i ==> names.deep_view()[j] != name@,
        decreases names.len() - i,
    {
        if text_eq(names[i].as_str(), name) {
            assert(names.deep_view()[i as int] == name@);
            return true;
        }
        i = i + 1;
    }
    false
}

impl TableInfo {
    /// Reads a table's description off its catalog rows.
    pub fn from_metadata(metas: &Vec<ColumnMeta>) -> (out: TableInfo)
        ensures
            out@ == described(metas_view(metas@)),
    {
        let ghost all = metas_view(metas@);
        let mut columns: Vec<String> = Vec::new();
        let mut column_types: TextMap<String> = TextMap::new();
        let mut pks: Vec<String> = Vec::new();
        let mut ordinals: Vec<i32> = Vec::new();
        let mut i: usize = 0;
        while i < metas.len()
            invariant
                0 <= i <= metas.len(),
                all == metas_view(metas@),
                columns.deep_view() == names_of(all.take(i as int)),
                texts_view(column_types@) == types_of(all.take(i as int)),
                pks.deep_view() == names_of(key_columns(all.take(i as int))),
                ordinals@.len() == pks@.len(),
                ordinals@.len() == key_columns(all.take(i as int)).len(),
                forall|j: int|
                    0 <= j < ordinals@.len() ==> ordinals@[j] as int == key_columns(
                        all.take(i as int),
                    )[j].pk_idx,
            decreases metas.len() - i,
        {
            let ghost seen = all.take(i as int);
            let ghost more = all.take(i as int + 1);
            let m = &metas[i];
            proof {
                assert(more.drop_last() =~= seen);
                assert(more.last() == m@);
            }
            let name = m.name.clone();
            let ghost columns_before = columns;
            columns.push(name);
            proof {
                lemma_pushed_text(columns_before, columns, name);
                assert(names_of(more) =~= names_of(seen).push(m@.name));
            }
            let ghost types_before = column_types@;
            column_types.insert(m.name.clone(), m.col_type.clone());
            proof {
                assert(texts_view(column_types@) =~= texts_view(types_before).insert(
                    m@.name,
                    m@.col_type,
                ));
            }
            if m.pk_idx > 0 {
                let ghost ordered = key_columns(seen);
                let mut pos: usize = ordinals.len();
                proof {
                    assert(ordered.take(pos as int) =~= ordered);
                }
                while pos > 0 && ordinals[pos - 1] > m.pk_idx
                    invariant
                        0 <= pos <= ordinals@.len(),
                        ordinals@.len() == ordered.len(),
                        forall|j: int|
                            0 <= j < ordinals@.len() ==> ordinals@[j] as int == ordered[j].pk_idx,
                        insert_index(ordered, m.pk_idx as int) == insert_index(
                            ordered.take(pos as int),
                            m.pk_idx as int,
                        ),
                    decreases pos,
                {
                    proof {
                        assert(ordered.take(pos as int).drop_last() =~= ordered.take(
                            pos as int - 1,
                        ));
                    }
                    pos = pos - 1;
                }
                let key_name = m.name.clone();
                let ghost pks_before = pks;
                ordinals.insert(pos, m.pk_idx);
                pks.insert(pos, key_name);
                proof {
                    assert(insert_index(ordered, m.pk_idx as int) == pos);
                    assert(key_columns(more) == ordered.insert(pos as int, m@));
                    assert(pks.deep_view() =~= pks_before.deep_view().insert(
                        pos as int,
                        key_name@,
                    ));
                    assert(names_of(ordered.insert(pos as int, m@)) =~= names_of(ordered).insert(
                        pos as int,
                        m@.name,
                    ));
                }
            } else {
                proof {
                    assert(key_columns(more) == key_columns(seen));
                }
            }
            i = i + 1;
        }
        proof {
            assert(all.take(metas.len() as int) =~= all);
        }
        if pks.len() == 0 && holds_name(&columns, "id") {
            pks.push(String::from_str("id"));
            proof {
                assert(pks.deep_view() =~= seq!["id"@]);
            }
        }
        TableInfo { columns, pks, column_types }
    }

    /// The column names, in catalog order.
    pub fn columns(&self) -> (out: &Vec<String>)
        ensures
            out.deep_view() == self@.columns,
    {
        &self.columns
    }

    /// The primary-key columns, in key order.
    pub fn pks(&self) -> (out: &Vec<String>)
        ensures
            out.deep_view() == self@.pks,
    {
        &self.pks
    }

    /// The declared type of a column, if the table has the column.
    pub fn column_type(&self, column: &str) -> (out: Option<String>)
        ensures
            out.deep_view() == (if self@.column_types.contains_key(column@) {
                Some(self@.column_types[column@])
            } else {
                None
            }),
    {
        match self.column_types.get(column) {
            Some(t) => Some(t.clone()),
            None => None,
        }
    }
}

/// The schema that drives a sync: the embedding application describes its
/// tables by implementing this, or lets [`DynamicSchema`] read them off the
/// database's catalog. Nothing is taken for granted of an implementation:
/// the engine asks each question once and works on the answers.
pub trait SyncSchema {
    /// The tables to sync, in order.
    fn tables(&self) -> Vec<&str>;

    /// The columns of a table, in order.
    fn get_columns(&self, table: &str) -> Vec<&str>;

    /// The primary-key columns of a table, in key order.
    fn get_pks(&self, table: &str) -> Vec<&str>;

    /// The declared type of a column, such as `INTEGER` or `TEXT`; none
    /// where the table has no such column.
    fn get_column_type(&self, table: &str, col: &str) -> Option<String>;
}

/// Borrows every text of a list.
pub fn borrowed<'a>(texts: &'a Vec<String>) -> (out: Vec<&'a str>)
    ensures
        out.deep_view() == texts.deep_view(),
{
    let mut out: Vec<&'a str> = Vec::new();
    let mut i: usize = 0;
    while i < texts.len()
        invariant
            0 <= i <= texts.len(),
            out.deep_view() == texts.deep_view().take(i as int),
        decreases texts.len() - i,
    {
        let ghost before = out;
        out.push(texts[i].as_str());
        proof {
            assert(out.deep_view() =~= before.deep_view().push(texts[i as int]@));
            assert(texts.deep_view().take(i as int + 1) =~= texts.deep_view().take(i as int).push(
                texts[i as int]@,
            ));
        }
        i = i + 1;
    }
    proof {
        assert(texts.deep_view().take(texts.len() as int) =~= texts.deep_view());
    }
    out
}

/// A catalog as contracts see it: each table's name with its catalog rows.
pub open spec fn catalog_view(catalog: Seq<(String, Vec<ColumnMeta>)>) -> Seq<
    (Seq<char>, Seq<ColumnMetaView>),
> {
    catalog.map_values(|entry: (String, Vec<ColumnMeta>)| (entry.0@, metas_view(entry.1@)))
}

/// The table names of a catalog, in order, repeats kept.
pub open spec fn catalog_tables(catalog: Seq<(Seq<char>, Seq<ColumnMetaView>)>) -> Seq<Seq<char>> {
    catalog.map_values(|entry: (Seq<char>, Seq<ColumnMetaView>)| entry.0)
}

/// The description of each table of a catalog; of a table that stands twice,
/// the later description.
pub open spec fn catalog_infos(catalog: Seq<(Seq<char>, Seq<ColumnMetaView>)>) -> Map<
    Seq<char>,
    TableInfoView,
>
    decreases catalog.len(),
{
    if catalog.len() == 0 {
        Map::empty()
    } else {
        catalog_infos(catalog.drop_last()).insert(catalog.last().0, described(catalog.last().1))
    }
}

/// A schema read off the database's own catalog.
pub struct DynamicSchema {
    tables: Vec<String>,
    table_info: TextMap<TableInfo>,
}

/// A [`DynamicSchema`] as contracts see it.
pub struct SchemaView {
    pub tables: Seq<Seq<char>>,
    pub infos: Map<Seq<char>, TableInfoView>,
}

/// A map of table descriptions as contracts see it.
pub open spec fn infos_view(m: Map<Seq<char>, TableInfo>) -> Map<Seq<char>, TableInfoView> {
    m.map_values(|t: TableInfo| t@)
}

impl View for DynamicSchema {
    type V = SchemaView;

    closed spec fn view(&self) -> SchemaView {
        SchemaView { tables: self.tables.deep_view(), infos: infos_view(self.table_info@) }
    }
}

impl DynamicSchema {
    /// Builds the schema of the tables in `catalog`. Each entry holds a
    /// table's name and what the database's column metadata says of it: one
    /// row for each column, in column order.
    pub fn load(catalog: &Vec<(String, Vec<ColumnMeta>)>) -> (out: DynamicSchema)
        ensures
            out@.tables == catalog_tables(catalog_view(catalog@)),
            out@.infos == catalog_infos(catalog_view(catalog@)),
    {
        let ghost all = catalog_view(catalog@);
        let mut tables: Vec<String> = Vec::new();
        let mut table_info: TextMap<TableInfo> = TextMap::new();
        let mut i: usize = 0;
        while i < catalog.len()
            invariant
                0 <= i <= catalog.len(),
                all == catalog_view(catalog@),
                tables.deep_view() == catalog_tables(all.take(i as int)),
                infos_view(table_info@) == catalog_infos(all.take(i as int)),
            decreases catalog.len() - i,
        {
            let ghost seen = all.take(i as int);
            let ghost more = all.take(i as int + 1);
            proof {
                assert(more.drop_last() =~= seen);
                assert(more.last() == (catalog@[i as int].0@, metas_view(catalog@[i as int].1@)));
            }
            let name = catalog[i].0.clone();
            let info = TableInfo::from_metadata(&catalog[i].1);
            let ghost tables_before = tables;
            tables.push(name);
            proof {
                lemma_pushed_text(tables_before, tables, name);
                assert(catalog_tables(more) =~= catalog_tables(seen).push(catalog@[i as int].0@));
            }
            let ghost infos_before = table_info@;
            table_info.insert(catalog[i].0.clone(), info);
            proof {
                assert(infos_view(table_info@) =~= infos_view(infos_before).insert(
                    catalog@[i as int].0@,
                    info@,
                ));
            }
            i = i + 1;
        }
        proof {
            assert(all.take(catalog.len() as int) =~= all);
        }
        DynamicSchema { tables, table_info }
    }
}

impl SchemaView {
    /// The columns of a table, none for a table that the schema does not
    /// know.
    pub open spec fn column_names(self, table: Seq<char>) -> Seq<Seq<char>> {
        if self.infos.contains_key(table) {
            self.infos[table].columns
        } else {
            Seq::empty()
        }
    }

    /// The primary-key columns of a table, none for a table that the schema
    /// does not know.
    pub open spec fn key_names(self, table: Seq<char>) -> Seq<Seq<char>> {
        if self.infos.contains_key(table) {
            self.infos[table].pks
        } else {
            Seq::empty()
        }
    }

    /// The declared type of a column, none where the schema knows no such
    /// column.
    pub open spec fn declared_type(self, table: Seq<char>, column: Seq<char>) -> Option<
        Seq<char>,
    > {
        if self.infos.contains_key(table) && self.infos[table].column_types.contains_key(column) {
            Some(self.infos[table].column_types[column])
        } else {
            None
        }
    }
}

impl SyncSchema for DynamicSchema {
    fn tables(&self) -> (out: Vec<&str>)
        ensures
            out.deep_view() == self@.tables,
    {
        borrowed(&self.tables)
    }

    fn get_columns(&self, table: &str) -> (out: Vec<&str>)
        ensures
            out.deep_view() == self@.column_names(table@),
    {
        match self.table_info.get(table) {
            Some(info) => borrowed(info.columns()),
            None => {
                let out: Vec<&str> = Vec::new();
                proof {
                    assert(out.deep_view() =~= Seq::empty());
                }
                out
            },
        }
    }

    fn get_pks(&self, table: &str) -> (out: Vec<&str>)
        ensures
            out.deep_view() == self@.key_names(table@),
    {
        match self.table_info.get(table) {
            Some(info) => borrowed(info.pks()),
            None => {
                let out: Vec<&str> = Vec::new();
                proof {
                    assert(out.deep_view() =~= Seq::empty());
                }
                out
            },
        }
    }

    fn get_column_type(&self, table: &str, col: &str) -> (out: Option<String>)
        ensures
            out.deep_view() == self@.declared_type(table@, col@),
    {
        match self.table_info.get(table) {
            Some(info) => info.column_type(col),
            None => None,
        }
    }
}

} // verus!
