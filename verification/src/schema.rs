//! The introspected database structure: schemas, tables and columns.
use crate::chars::{chars_between, str_chars, str_eq, string_from_chars};
use vstd::prelude::*;

verus! {

/// Metadata about a PostgreSQL schema (namespace).
#[derive(Debug, Clone)]
pub struct SchemaInfo {
    pub name: String,
    pub is_default: bool,
}

/// The kind of relation in a schema.
#[derive(Debug, Clone, Copy, PartialEq, Eq, Structural)]
pub enum TableKind {
    Table,
    View,
    MaterializedView,
}

/// Metadata about a table, view, or materialized view.
#[derive(Debug, Clone)]
pub struct TableInfo {
    pub schema: String,
    pub name: String,
    pub kind: TableKind,
    pub row_estimate: Option<i64>,
}

impl TableInfo {
    /// Returns the fully qualified name: `schema.table`.
    pub fn qualified_name(&self) -> (r: String)
        ensures
            r@ == self.schema@ + seq!['.'] + self.name@,
    {
        let mut s = self.schema.clone();
        s.append(".");
        s.append(self.name.as_str());
        proof {
            reveal_strlit(".");
        }
        s
    }
}

/// Metadata about a single column in a table.
#[derive(Debug, Clone)]
pub struct ColumnInfo {
    pub name: String,
    pub data_type: String,
    pub nullable: bool,
    pub is_primary_key: bool,
    pub default_value: Option<String>,
    pub ordinal_position: i32,
}

/// A full schema tree representing the introspected database structure.
#[derive(Debug, Clone)]
pub struct SchemaTree {
    pub schemas: Vec<SchemaEntry>,
}

impl Default for SchemaTree {
    fn default() -> (t: Self)
        ensures
            t.schemas@.len() == 0,
    {
        SchemaTree { schemas: Vec::new() }
    }
}

/// A schema with its tables, views, materialized views, functions and
/// sequences.
#[derive(Debug, Clone)]
pub struct SchemaEntry {
    pub info: SchemaInfo,
    pub tables: Vec<TableEntry>,
    pub views: Vec<TableEntry>,
    pub materialized_views: Vec<TableEntry>,
    pub functions: Vec<FunctionInfo>,
    pub sequences: Vec<SequenceInfo>,
}

/// A table, view or materialized view with its columns, constraints,
/// foreign keys, indexes and triggers.
#[derive(Debug, Clone)]
pub struct TableEntry {
    pub info: TableInfo,
    pub columns: Vec<ColumnInfo>,
    pub constraints: Vec<ConstraintInfo>,
    pub foreign_keys: Vec<ForeignKeyInfo>,
    pub indexes: Vec<IndexInfo>,
    pub triggers: Vec<TriggerInfo>,
}

/// The kind of a table constraint.
#[derive(Debug, Clone, Copy, PartialEq, Eq, Structural)]
pub enum ConstraintKind {
    PrimaryKey,
    ForeignKey,
    Unique,
    Check,
    Exclusion,
}

/// How a constraint kind is written in SQL.
pub open spec fn constraint_kind_text(kind: ConstraintKind) -> Seq<char> {
    match kind {
        ConstraintKind::PrimaryKey => "PRIMARY KEY"@,
        ConstraintKind::ForeignKey => "FOREIGN KEY"@,
        ConstraintKind::Unique => "UNIQUE"@,
        ConstraintKind::Check => "CHECK"@,
        ConstraintKind::Exclusion => "EXCLUDE"@,
    }
}

impl ConstraintKind {
    /// How the kind is written in SQL.
    pub fn label(&self) -> (s: &'static str)
        ensures
            s@ == constraint_kind_text(*self),
    {
        match self {
            ConstraintKind::PrimaryKey => "PRIMARY KEY",
            ConstraintKind::ForeignKey => "FOREIGN KEY",
            ConstraintKind::Unique => "UNIQUE",
            ConstraintKind::Check => "CHECK",
            ConstraintKind::Exclusion => "EXCLUDE",
        }
    }
}

/// A named constraint of a table.
#[derive(Debug, Clone)]
pub struct ConstraintInfo {
    pub name: String,
    pub kind: ConstraintKind,
}

/// A foreign key: its name, the table it refers to, and the columns there.
#[derive(Debug, Clone)]
pub struct ForeignKeyInfo {
    pub name: String,
    pub referenced_table: String,
    pub referenced_columns: Vec<String>,
}

/// An index: its name, its access method, and whether it is unique.
#[derive(Debug, Clone)]
pub struct IndexInfo {
    pub name: String,
    pub index_type: String,
    pub is_unique: bool,
}

/// A trigger: its name, when it fires and on which event.
#[derive(Debug, Clone)]
pub struct TriggerInfo {
    pub name: String,
    pub timing: String,
    pub event: String,
}

/// A function: its name, its argument list and its return type.
#[derive(Debug, Clone)]
pub struct FunctionInfo {
    pub name: String,
    pub arguments: String,
    pub return_type: String,
}

/// A sequence.
#[derive(Debug, Clone)]
pub struct SequenceInfo {
    pub name: String,
}

/// The relation kind for an `information_schema.tables.table_type` value:
/// `VIEW` is a view, anything else a table.
pub fn table_kind_from_type(table_type: &str) -> (k: TableKind)
    ensures
        k == if table_type@ == "VIEW"@ {
            TableKind::View
        } else {
            TableKind::Table
        },
{
    if str_eq(table_type, "VIEW") {
        TableKind::View
    } else {
        TableKind::Table
    }
}

/// Whether an `information_schema.columns.is_nullable` value says the
/// column is nullable (`YES`).
pub fn is_nullable_flag(is_nullable: &str) -> (b: bool)
    ensures
        b == (is_nullable@ == "YES"@),
{
    str_eq(is_nullable, "YES")
}

/// The table described by one row of the table listing of schema `schema`:
/// its name, its `table_type` and the planner's row estimate.
pub fn table_info_from_row(
    schema: &str,
    name: String,
    table_type: &str,
    row_estimate: Option<i64>,
) -> (t: TableInfo)
    ensures
        t.schema@ == schema@,
        t.name@ == name@,
        t.kind == if table_type@ == "VIEW"@ {
            TableKind::View
        } else {
            TableKind::Table
        },
        t.row_estimate == row_estimate,
{
    TableInfo { schema: schema.to_owned(), name, kind: table_kind_from_type(table_type), row_estimate }
}

/// The column described by one row of the column listing: its name, data
/// type, `is_nullable` flag, default, position and whether it is part of
/// the primary key.
pub fn column_info_from_row(
    name: String,
    data_type: String,
    is_nullable: &str,
    default_value: Option<String>,
    ordinal_position: i32,
    is_primary_key: bool,
) -> (c: ColumnInfo)
    ensures
        c.name@ == name@,
        c.data_type@ == data_type@,
        c.nullable == (is_nullable@ == "YES"@),
        c.is_primary_key == is_primary_key,
        c.default_value == default_value,
        c.ordinal_position == ordinal_position,
{
    ColumnInfo {
        name,
        data_type,
        nullable: is_nullable_flag(is_nullable),
        is_primary_key,
        default_value,
        ordinal_position,
    }
}

/// The relations of `rels` of kind `kind`, in order.
pub open spec fn of_kind(rels: Seq<TableEntry>, kind: TableKind) -> Seq<TableEntry>
    decreases rels.len(),
{
    if rels.len() == 0 {
        Seq::empty()
    } else {
        let rest = of_kind(rels.drop_last(), kind);
        if rels.last().info.kind == kind {
            rest.push(rels.last())
        } else {
            rest
        }
    }
}

/// A schema's entry from the relations listed in it: its tables, views and
/// materialized views each keep their listed order; it has no functions or
/// sequences.
pub fn schema_entry_from_relations(info: SchemaInfo, relations: Vec<TableEntry>) -> (e: SchemaEntry)
    ensures
        e.info == info,
        e.tables@ == of_kind(relations@, TableKind::Table),
        e.views@ == of_kind(relations@, TableKind::View),
        e.materialized_views@ == of_kind(relations@, TableKind::MaterializedView),
        e.functions@.len() == 0,
        e.sequences@.len() == 0,
{
    let ghost all = relations@;
    let mut rest = relations;
    let mut tables: Vec<TableEntry> = Vec::new();
    let mut views: Vec<TableEntry> = Vec::new();
    let mut matviews: Vec<TableEntry> = Vec::new();
    let mut i: usize = 0;
    proof {
        assert(all.len() == rest.len());
        assert(all.take(0) =~= Seq::<TableEntry>::empty());
        assert(all.skip(0) =~= all);
    }
    while rest.len() > 0
        invariant
            i <= all.len(),
            all.len() <= usize::MAX,
            rest@ == all.skip(i as int),
            tables@ == of_kind(all.take(i as int), TableKind::Table),
            views@ == of_kind(all.take(i as int), TableKind::View),
            matviews@ == of_kind(all.take(i as int), TableKind::MaterializedView),
        decreases rest@.len(),
    {
        let r = rest.remove(0);
        proof {
            assert(all.take(i + 1).drop_last() =~= all.take(i as int));
            assert(all.take(i + 1).last() == r);
            assert(rest@ =~= all.skip(i + 1));
        }
        match r.info.kind {
            TableKind::Table => tables.push(r),
            TableKind::View => views.push(r),
            TableKind::MaterializedView => matviews.push(r),
        }
        i += 1;
    }
    proof {
        assert(all.take(i as int) =~= all);
    }
    SchemaEntry {
        info,
        tables,
        views,
        materialized_views: matviews,
        functions: Vec::new(),
        sequences: Vec::new(),
    }
}

/// The prefix of the ids of tree nodes that stand for a table.
pub open spec fn table_node_prefix() -> Seq<char> {
    seq!['t', 'a', 'b', 'l', 'e', ':']
}

/// Whether `c` does not occur in `s`.
pub open spec fn lacks(s: Seq<char>, c: char) -> bool {
    forall|i: int| 0 <= i < s.len() ==> s[i] != c
}

/// The schema and table named by a tree-node id of the form
/// `table:<schema>.<table>`: the schema is everything up to the first `.`
/// after the prefix, the table everything after it.
pub open spec fn table_node_parts(id: Seq<char>) -> Option<(Seq<char>, Seq<char>)> {
    let p = table_node_prefix();
    if id.len() >= p.len() && id.take(p.len() as int) == p {
        let rest = id.skip(p.len() as int);
        if exists|k: int| 0 <= k < rest.len() && rest[k] == '.' && lacks(rest.take(k), '.') {
            let k = choose|k: int| 0 <= k < rest.len() && rest[k] == '.' && lacks(rest.take(k), '.');
            Some((rest.take(k), rest.skip(k + 1)))
        } else {
            None
        }
    } else {
        None
    }
}

/// Splits a tree-node id `table:<schema>.<table>` into schema and table.
/// Any other id gives `None`.
pub fn parse_table_node_id(id: &str) -> (r: Option<(String, String)>)
    ensures
        match (r, table_node_parts(id@)) {
            (Some((schema, table)), Some((s, t))) => schema@ == s && table@ == t,
            (None, None) => true,
            _ => false,
        },
{
    let chars = str_chars(id);
    let n = chars.len();
    let prefix = ['t', 'a', 'b', 'l', 'e', ':'];
    let ghost p = table_node_prefix();
    if n < 6 {
        return None;
    }
    let mut i: usize = 0;
    while i < 6
        invariant
            i <= 6 <= n == chars@.len(),
            prefix@ == p,
            p == table_node_prefix(),
            chars@ == id@,
            forall|j: int| 0 <= j < i ==> chars@[j] == p[j],
        decreases 6 - i,
    {
        let a = chars[i];
        let b = prefix[i];
        if a != b {
            proof {
                assert(a == id@[i as int]);
                assert(b == p[i as int]);
                assert(p.len() == 6);
                assert(id@.take(6)[i as int] != p[i as int]);
                assert(id@.take(p.len() as int) != p);
                assert(table_node_parts(id@) is None);
            }
            return None;
        }
        i += 1;
    }
    proof {
        assert(id@.take(6) =~= p);
    }
    let ghost rest = id@.skip(6);
    let mut k: usize = 6;
    while k < n
        invariant
            6 <= k <= n == chars@.len(),
            chars@ == id@,
            rest == id@.skip(6),
            id@.take(6) == p,
            p == table_node_prefix(),
            p.len() == 6,
            forall|j: int| 6 <= j < k ==> chars@[j] != '.',
        decreases n - k,
    {
        if chars[k] == '.' {
            let schema = string_from_chars(chars_between(&chars, 6, k).as_slice());
            let table = string_from_chars(chars_between(&chars, k + 1, n).as_slice());
            proof {
                let kk = k - 6;
                assert(rest[kk] == '.');
                assert(lacks(rest.take(kk), '.'));
                let c = choose|c: int| 0 <= c < rest.len() && rest[c] == '.' && lacks(rest.take(c), '.');
                if c < kk {
                    assert(rest.take(kk)[c] == '.');
                } else if c > kk {
                    assert(rest.take(c)[kk] == '.');
                }
                assert(chars@.subrange(6, k as int) =~= rest.take(kk));
                assert(chars@.subrange(k + 1, n as int) =~= rest.skip(kk + 1));
            }
            return Some((schema, table));
        }
        k += 1;
    }
    proof {
        assert forall|c: int| 0 <= c < rest.len() && rest[c] == '.' implies !lacks(rest.take(c), '.') by {
            assert(chars@[c + 6] == '.');
        }
    }
    None
}

} // verus!
