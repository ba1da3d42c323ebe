//! The schema browser's tree: the introspected schemas as tree nodes.
//!
//! A schema's node holds five groups: its tables, views, materialized
//! views, functions and sequences. A table's node (and a view's) holds five
//! groups too: its columns, constraints, foreign keys, indexes and triggers.
//! Each group's label gives its count, and each item is a leaf. Node ids
//! name what a node stands for, so that a click can be traced back to it.
use crate::chars::{decimal, usize_to_decimal};
use crate::schema::{
    constraint_kind_text, lacks, table_node_parts, table_node_prefix, ColumnInfo, ConstraintInfo,
    ForeignKeyInfo, FunctionInfo, IndexInfo, SchemaEntry, SchemaTree, SequenceInfo, TableEntry,
    TableInfo, TriggerInfo,
};
use crate::tree::TreeNode;
use vstd::prelude::*;

verus! {

/// `schema.table` for a table.
pub open spec fn qualified(t: TableInfo) -> Seq<char> {
    t.schema@ + seq!['.'] + t.name@
}

/// The label of a column: `PK ` for a primary-key column, its name, a
/// space, its data type, and `?` when it is nullable.
pub open spec fn column_label(col: ColumnInfo) -> Seq<char> {
    (if col.is_primary_key {
        "PK "@
    } else {
        Seq::empty()
    }) + col.name@ + " "@ + col.data_type@ + (if col.nullable {
        "?"@
    } else {
        Seq::empty()
    })
}

/// The label of a constraint: its name and its kind in parentheses.
pub open spec fn constraint_label(c: ConstraintInfo) -> Seq<char> {
    c.name@ + " ("@ + constraint_kind_text(c.kind) + ")"@
}

/// `parts` joined with `sep` between them.
pub open spec fn joined(parts: Seq<Seq<char>>, sep: Seq<char>) -> Seq<char>
    decreases parts.len(),
{
    if parts.len() == 0 {
        Seq::empty()
    } else if parts.len() == 1 {
        parts[0]
    } else {
        joined(parts.drop_last(), sep) + sep + parts.last()
    }
}

/// The label of a foreign key: its name, an arrow, and the table and
/// columns it refers to.
pub open spec fn foreign_key_label(fk: ForeignKeyInfo) -> Seq<char> {
    fk.name@ + " -> "@ + fk.referenced_table@ + "("@ + joined(
        fk.referenced_columns@.map_values(|c: String| c@),
        ", "@,
    ) + ")"@
}

/// The label of an index: its name, its access method and `, unique` for a
/// unique one, in parentheses.
pub open spec fn index_label(i: IndexInfo) -> Seq<char> {
    i.name@ + " ("@ + i.index_type@ + (if i.is_unique {
        ", unique"@
    } else {
        Seq::empty()
    }) + ")"@
}

/// The label of a trigger: its name, and its timing and event in parentheses.
pub open spec fn trigger_label(t: TriggerInfo) -> Seq<char> {
    t.name@ + " ("@ + t.timing@ + " "@ + t.event@ + ")"@
}

/// The label of a function: its name, its arguments in parentheses, an
/// arrow and its return type.
pub open spec fn function_label(f: FunctionInfo) -> Seq<char> {
    f.name@ + "("@ + f.arguments@ + ") -> "@ + f.return_type@
}

/// `n` is a leaf with this id, label and depth, and no icon.
pub open spec fn is_leaf(n: TreeNode, id: Seq<char>, label: Seq<char>, depth: int) -> bool {
    &&& n.id@ == id
    &&& n.label@ == label
    &&& n.icon is None
    &&& n.children@.len() == 0
    &&& n.depth == depth
}

/// `g` is a group node: this id and icon, the label `open` followed by the
/// count and `)`, this depth, and `count` children.
pub open spec fn is_group(
    g: TreeNode,
    id: Seq<char>,
    open: Seq<char>,
    icon: Option<&'static str>,
    depth: int,
    count: nat,
) -> bool {
    &&& g.id@ == id
    &&& g.label@ == open + decimal(count) + ")"@
    &&& g.icon == icon
    &&& g.depth == depth
    &&& g.children@.len() == count
}

/// `n` is the node of `table` at `depth`: id `table:` and the qualified
/// name, the table's name as label, no icon, and five groups one depth
/// further down, whose leaves are the items in order, one more depth down.
pub open spec fn is_table_node(table: TableEntry, depth: int, n: TreeNode) -> bool {
    let q = qualified(table.info);
    &&& n.id@ == "table:"@ + q
    &&& n.label@ == table.info.name@
    &&& n.icon is None
    &&& n.depth == depth
    &&& n.children@.len() == 5
    &&& is_group(n.children@[0], "columns:"@ + q, "Columns ("@, None, depth + 1, table.columns@.len())
    &&& forall|k: int|
        0 <= k < table.columns@.len() ==> is_leaf(
            #[trigger] n.children@[0].children@[k],
            "col:"@ + q + "."@ + table.columns@[k].name@,
            column_label(table.columns@[k]),
            depth + 2,
        )
    &&& is_group(
        n.children@[1],
        "constraints:"@ + q,
        "Constraints ("@,
        None,
        depth + 1,
        table.constraints@.len(),
    )
    &&& forall|k: int|
        0 <= k < table.constraints@.len() ==> is_leaf(
            #[trigger] n.children@[1].children@[k],
            "constraint:"@ + q + "."@ + table.constraints@[k].name@,
            constraint_label(table.constraints@[k]),
            depth + 2,
        )
    &&& is_group(
        n.children@[2],
        "fks:"@ + q,
        "Foreign Keys ("@,
        None,
        depth + 1,
        table.foreign_keys@.len(),
    )
    &&& forall|k: int|
        0 <= k < table.foreign_keys@.len() ==> is_leaf(
            #[trigger] n.children@[2].children@[k],
            "fk:"@ + q + "."@ + table.foreign_keys@[k].name@,
            foreign_key_label(table.foreign_keys@[k]),
            depth + 2,
        )
    &&& is_group(n.children@[3], "indexes:"@ + q, "Indexes ("@, None, depth + 1, table.indexes@.len())
    &&& forall|k: int|
        0 <= k < table.indexes@.len() ==> is_leaf(
            #[trigger] n.children@[3].children@[k],
            "idx:"@ + q + "."@ + table.indexes@[k].name@,
            index_label(table.indexes@[k]),
            depth + 2,
        )
    &&& is_group(
        n.children@[4],
        "triggers:"@ + q,
        "Triggers ("@,
        None,
        depth + 1,
        table.triggers@.len(),
    )
    &&& forall|k: int|
        0 <= k < table.triggers@.len() ==> is_leaf(
            #[trigger] n.children@[4].children@[k],
            "trigger:"@ + q + "."@ + table.triggers@[k].name@,
            trigger_label(table.triggers@[k]),
            depth + 2,
        )
}

/// `n` is the node of `schema`: id `schema:` and its name, its name as
/// label, icon `S`, depth 0, and five groups at depth 1: `Tables` (icon
/// `T`), `Views` (`V`) and `Materialized Views` (`M`), whose children are
/// the nodes of those relations at depth 2, and `Functions` (`F`) and
/// `Sequences` (`#`), whose children are leaves at depth 2.
pub open spec fn is_schema_node(schema: SchemaEntry, n: TreeNode) -> bool {
    let name = schema.info.name@;
    &&& n.id@ == "schema:"@ + name
    &&& n.label@ == name
    &&& n.icon == Some("S")
    &&& n.depth == 0
    &&& n.children@.len() == 5
    &&& is_group(n.children@[0], "tables:"@ + name, "Tables ("@, Some("T"), 1, schema.tables@.len())
    &&& forall|k: int|
        0 <= k < schema.tables@.len() ==> is_table_node(
            schema.tables@[k],
            2,
            #[trigger] n.children@[0].children@[k],
        )
    &&& is_group(n.children@[1], "views:"@ + name, "Views ("@, Some("V"), 1, schema.views@.len())
    &&& forall|k: int|
        0 <= k < schema.views@.len() ==> is_table_node(
            schema.views@[k],
            2,
            #[trigger] n.children@[1].children@[k],
        )
    &&& is_group(
        n.children@[2],
        "matviews:"@ + name,
        "Materialized Views ("@,
        Some("M"),
        1,
        schema.materialized_views@.len(),
    )
    &&& forall|k: int|
        0 <= k < schema.materialized_views@.len() ==> is_table_node(
            schema.materialized_views@[k],
            2,
            #[trigger] n.children@[2].children@[k],
        )
    &&& is_group(
        n.children@[3],
        "functions:"@ + name,
        "Functions ("@,
        Some("F"),
        1,
        schema.functions@.len(),
    )
    &&& forall|k: int|
        0 <= k < schema.functions@.len() ==> is_leaf(
            #[trigger] n.children@[3].children@[k],
            "func:"@ + name + "."@ + schema.functions@[k].name@,
            function_label(schema.functions@[k]),
            2,
        )
    &&& is_group(
        n.children@[4],
        "sequences:"@ + name,
        "Sequences ("@,
        Some("#"),
        1,
        schema.sequences@.len(),
    )
    &&& forall|k: int|
        0 <= k < schema.sequences@.len() ==> is_leaf(
            #[trigger] n.children@[4].children@[k],
            "seq:"@ + name + "."@ + schema.sequences@[k].name@,
            schema.sequences@[k].name@,
            2,
        )
}

/// A leaf with id `prefix`, `scope`, `.`, `name`.
fn leaf(prefix: &str, scope: &str, name: &str, label: String, depth: usize) -> (n: TreeNode)
    ensures
        is_leaf(n, prefix@ + scope@ + "."@ + name@, label@, depth as int),
{
    let mut id = prefix.to_owned();
    id.append(scope);
    id.append(".");
    id.append(name);
    TreeNode { id, label, icon: None, children: Vec::new(), depth }
}

/// A group node with id `prefix` + `key` and label `open` + count + `)`.
fn group(
    prefix: &str,
    key: &str,
    open: &str,
    icon: Option<&'static str>,
    children: Vec<TreeNode>,
    depth: usize,
) -> (g: TreeNode)
    ensures
        is_group(g, prefix@ + key@, open@, icon, depth as int, children@.len()),
        g.children@ == children@,
{
    let mut id = prefix.to_owned();
    id.append(key);
    let mut label = open.to_owned();
    let digits = usize_to_decimal(children.len());
    label.append(digits.as_str());
    label.append(")");
    TreeNode { id, label, icon, children, depth }
}

fn column_text(col: &ColumnInfo) -> (s: String)
    ensures
        s@ == column_label(*col),
{
    let mut label = if col.is_primary_key {
        "PK ".to_owned()
    } else {
        String::new()
    };
    label.append(col.name.as_str());
    label.append(" ");
    label.append(col.data_type.as_str());
    let ghost before_null = label@;
    if col.nullable {
        label.append("?");
    }
    proof {
        if !col.nullable {
            assert(label@ =~= before_null + Seq::<char>::empty());
        }
    }
    label
}

fn constraint_text(c: &ConstraintInfo) -> (s: String)
    ensures
        s@ == constraint_label(*c),
{
    let mut s = c.name.clone();
    s.append(" (");
    s.append(c.kind.label());
    s.append(")");
    s
}

fn foreign_key_text(fk: &ForeignKeyInfo) -> (s: String)
    ensures
        s@ == foreign_key_label(*fk),
{
    let mut s = fk.name.clone();
    s.append(" -> ");
    s.append(fk.referenced_table.as_str());
    s.append("(");
    let ghost cols = fk.referenced_columns@.map_values(|c: String| c@);
    let ghost start = s@;
    let mut i: usize = 0;
    while i < fk.referenced_columns.len()
        invariant
            i <= fk.referenced_columns@.len(),
            cols == fk.referenced_columns@.map_values(|c: String| c@),
            s@ == start + joined(cols.take(i as int), ", "@),
        decreases fk.referenced_columns@.len() - i,
    {
        proof {
            assert(cols.take(i + 1).drop_last() =~= cols.take(i as int));
            assert(cols.take(i + 1).last() == fk.referenced_columns@[i as int]@);
        }
        if i > 0 {
            s.append(", ");
        } else {
            proof {
                assert(cols.take(0) =~= Seq::<Seq<char>>::empty());
                assert(cols.take(1) =~= seq![cols[0]]);
            }
        }
        s.append(fk.referenced_columns[i].as_str());
        i += 1;
    }
    proof {
        assert(cols.take(i as int) =~= cols);
    }
    s.append(")");
    s
}

fn index_text(ix: &IndexInfo) -> (s: String)
    ensures
        s@ == index_label(*ix),
{
    let mut s = ix.name.clone();
    s.append(" (");
    s.append(ix.index_type.as_str());
    let ghost before = s@;
    if ix.is_unique {
        s.append(", unique");
    }
    proof {
        if !ix.is_unique {
            assert(s@ =~= before + Seq::<char>::empty());
        }
    }
    s.append(")");
    s
}

fn trigger_text(t: &TriggerInfo) -> (s: String)
    ensures
        s@ == trigger_label(*t),
{
    let mut s = t.name.clone();
    s.append(" (");
    s.append(t.timing.as_str());
    s.append(" ");
    s.append(t.event.as_str());
    s.append(")");
    s
}

fn function_text(f: &FunctionInfo) -> (s: String)
    ensures
        s@ == function_label(*f),
{
    let mut s = f.name.clone();
    s.append("(");
    s.append(f.arguments.as_str());
    s.append(") -> ");
    s.append(f.return_type.as_str());
    s
}

/// The leaves of the columns, in order.
fn column_leaves(items: &Vec<ColumnInfo>, scope: &str, depth: usize) -> (r: Vec<TreeNode>)
    ensures
        r@.len() == items@.len(),
        forall|k: int|
            0 <= k < items@.len() ==> is_leaf(
                #[trigger] r@[k],
                "col:"@ + scope@ + "."@ + items@[k].name@,
                column_label(items@[k]),
                depth as int,
            ),
{
    let mut out: Vec<TreeNode> = Vec::new();
    let mut k: usize = 0;
    while k < items.len()
        invariant
            k <= items@.len(),
            out@.len() == k,
            forall|j: int|
                0 <= j < k ==> is_leaf(
                    #[trigger] out@[j],
                    "col:"@ + scope@ + "."@ + items@[j].name@,
                    column_label(items@[j]),
                    depth as int,
                ),
        decreases items@.len() - k,
    {
        let it = &items[k];
        let node = leaf("col:", scope, it.name.as_str(), column_text(it), depth);
        out.push(node);
        k += 1;
    }
    out
}

/// The leaves of the constraints, in order.
fn constraint_leaves(items: &Vec<ConstraintInfo>, scope: &str, depth: usize) -> (r: Vec<TreeNode>)
    ensures
        r@.len() == items@.len(),
        forall|k: int|
            0 <= k < items@.len() ==> is_leaf(
                #[trigger] r@[k],
                "constraint:"@ + scope@ + "."@ + items@[k].name@,
                constraint_label(items@[k]),
                depth as int,
            ),
{
    let mut out: Vec<TreeNode> = Vec::new();
    let mut k: usize = 0;
    while k < items.len()
        invariant
            k <= items@.len(),
            out@.len() == k,
            forall|j: int|
                0 <= j < k ==> is_leaf(
                    #[trigger] out@[j],
                    "constraint:"@ + scope@ + "."@ + items@[j].name@,
                    constraint_label(items@[j]),
                    depth as int,
                ),
        decreases items@.len() - k,
    {
        let it = &items[k];
        let node = leaf("constraint:", scope, it.name.as_str(), constraint_text(it), depth);
        out.push(node);
        k += 1;
    }
    out
}

/// The leaves of the foreign keys, in order.
fn foreign_key_leaves(items: &Vec<ForeignKeyInfo>, scope: &str, depth: usize) -> (r: Vec<TreeNode>)
    ensures
        r@.len() == items@.len(),
        forall|k: int|
            0 <= k < items@.len() ==> is_leaf(
                #[trigger] r@[k],
                "fk:"@ + scope@ + "."@ + items@[k].name@,
                foreign_key_label(items@[k]),
                depth as int,
            ),
{
    let mut out: Vec<TreeNode> = Vec::new();
    let mut k: usize = 0;
    while k < items.len()
        invariant
            k <= items@.len(),
            out@.len() == k,
            forall|j: int|
                0 <= j < k ==> is_leaf(
                    #[trigger] out@[j],
                    "fk:"@ + scope@ + "."@ + items@[j].name@,
                    foreign_key_label(items@[j]),
                    depth as int,
                ),
        decreases items@.len() - k,
    {
        let it = &items[k];
        let node = leaf("fk:", scope, it.name.as_str(), foreign_key_text(it), depth);
        out.push(node);
        k += 1;
    }
    out
}

/// The leaves of the indexes, in order.
fn index_leaves(items: &Vec<IndexInfo>, scope: &str, depth: usize) -> (r: Vec<TreeNode>)
    ensures
        r@.len() == items@.len(),
        forall|k: int|
            0 <= k < items@.len() ==> is_leaf(
                #[trigger] r@[k],
                "idx:"@ + scope@ + "."@ + items@[k].name@,
                index_label(items@[k]),
                depth as int,
            ),
{
    let mut out: Vec<TreeNode> = Vec::new();
    let mut k: usize = 0;
    while k < items.len()
        invariant
            k <= items@.len(),
            out@.len() == k,
            forall|j: int|
                0 <= j < k ==> is_leaf(
                    #[trigger] out@[j],
                    "idx:"@ + scope@ + "."@ + items@[j].name@,
                    index_label(items@[j]),
                    depth as int,
                ),
        decreases items@.len() - k,
    {
        let it = &items[k];
        let node = leaf("idx:", scope, it.name.as_str(), index_text(it), depth);
        out.push(node);
        k += 1;
    }
    out
}

/// The leaves of the triggers, in order.
fn trigger_leaves(items: &Vec<TriggerInfo>, scope: &str, depth: usize) -> (r: Vec<TreeNode>)
    ensures
        r@.len() == items@.len(),
        forall|k: int|
            0 <= k < items@.len() ==> is_leaf(
                #[trigger] r@[k],
                "trigger:"@ + scope@ + "."@ + items@[k].name@,
                trigger_label(items@[k]),
                depth as int,
            ),
{
    let mut out: Vec<TreeNode> = Vec::new();
    let mut k: usize = 0;
    while k < items.len()
        invariant
            k <= items@.len(),
            out@.len() == k,
            forall|j: int|
                0 <= j < k ==> is_leaf(
                    #[trigger] out@[j],
                    "trigger:"@ + scope@ + "."@ + items@[j].name@,
                    trigger_label(items@[j]),
                    depth as int,
                ),
        decreases items@.len() - k,
    {
        let it = &items[k];
        let node = leaf("trigger:", scope, it.name.as_str(), trigger_text(it), depth);
        out.push(node);
        k += 1;
    }
    out
}

/// The leaves of the functions, in order.
fn function_leaves(items: &Vec<FunctionInfo>, scope: &str, depth: usize) -> (r: Vec<TreeNode>)
    ensures
        r@.len() == items@.len(),
        forall|k: int|
            0 <= k < items@.len() ==> is_leaf(
                #[trigger] r@[k],
                "func:"@ + scope@ + "."@ + items@[k].name@,
                function_label(items@[k]),
                depth as int,
            ),
{
    let mut out: Vec<TreeNode> = Vec::new();
    let mut k: usize = 0;
    while k < items.len()
        invariant
            k <= items@.len(),
            out@.len() == k,
            forall|j: int|
                0 <= j < k ==> is_leaf(
                    #[trigger] out@[j],
                    "func:"@ + scope@ + "."@ + items@[j].name@,
                    function_label(items@[j]),
                    depth as int,
                ),
        decreases items@.len() - k,
    {
        let it = &items[k];
        let node = leaf("func:", scope, it.name.as_str(), function_text(it), depth);
        out.push(node);
        k += 1;
    }
    out
}

/// The label of a sequence: its name.
pub open spec fn sequence_label(s: SequenceInfo) -> Seq<char> {
    s.name@
}

fn sequence_text(s: &SequenceInfo) -> (t: String)
    ensures
        t@ == sequence_label(*s),
{
    s.name.clone()
}

/// The leaves of the sequences, in order.
fn sequence_leaves(items: &Vec<SequenceInfo>, scope: &str, depth: usize) -> (r: Vec<TreeNode>)
    ensures
        r@.len() == items@.len(),
        forall|k: int|
            0 <= k < items@.len() ==> is_leaf(
                #[trigger] r@[k],
                "seq:"@ + scope@ + "."@ + items@[k].name@,
                sequence_label(items@[k]),
                depth as int,
            ),
{
    let mut out: Vec<TreeNode> = Vec::new();
    let mut k: usize = 0;
    while k < items.len()
        invariant
            k <= items@.len(),
            out@.len() == k,
            forall|j: int|
                0 <= j < k ==> is_leaf(
                    #[trigger] out@[j],
                    "seq:"@ + scope@ + "."@ + items@[j].name@,
                    sequence_label(items@[j]),
                    depth as int,
                ),
        decreases items@.len() - k,
    {
        let it = &items[k];
        let node = leaf("seq:", scope, it.name.as_str(), sequence_text(it), depth);
        out.push(node);
        k += 1;
    }
    out
}

/// The tree node of a table (or view): the table itself at `depth`, with
/// groups of its columns, constraints, foreign keys, indexes and triggers
/// below it.
pub fn table_entry_to_node(table: &TableEntry, depth: usize) -> (r: TreeNode)
    requires
        depth + 2 <= usize::MAX,
    ensures
        is_table_node(*table, depth as int, r),
{
    let q = table.info.qualified_name();
    let qs = q.as_str();
    let columns = group(
        "columns:",
        qs,
        "Columns (",
        None,
        column_leaves(&table.columns, qs, depth + 2),
        depth + 1,
    );
    let constraints = group(
        "constraints:",
        qs,
        "Constraints (",
        None,
        constraint_leaves(&table.constraints, qs, depth + 2),
        depth + 1,
    );
    let fks = group(
        "fks:",
        qs,
        "Foreign Keys (",
        None,
        foreign_key_leaves(&table.foreign_keys, qs, depth + 2),
        depth + 1,
    );
    let indexes = group(
        "indexes:",
        qs,
        "Indexes (",
        None,
        index_leaves(&table.indexes, qs, depth + 2),
        depth + 1,
    );
    let triggers = group(
        "triggers:",
        qs,
        "Triggers (",
        None,
        trigger_leaves(&table.triggers, qs, depth + 2),
        depth + 1,
    );
    let mut id = "table:".to_owned();
    id.append(qs);
    let r = TreeNode {
        id,
        label: table.info.name.clone(),
        icon: None,
        children: vec![columns, constraints, fks, indexes, triggers],
        depth,
    };
    r
}

/// The nodes of a list of relations, in order, at depth 2.
fn relation_nodes(items: &Vec<TableEntry>) -> (r: Vec<TreeNode>)
    ensures
        r@.len() == items@.len(),
        forall|k: int| 0 <= k < items@.len() ==> is_table_node(items@[k], 2, #[trigger] r@[k]),
{
    let mut out: Vec<TreeNode> = Vec::new();
    let mut k: usize = 0;
    while k < items.len()
        invariant
            k <= items@.len(),
            out@.len() == k,
            forall|j: int| 0 <= j < k ==> is_table_node(items@[j], 2, #[trigger] out@[j]),
        decreases items@.len() - k,
    {
        let node = table_entry_to_node(&items[k], 2);
        out.push(node);
        k += 1;
    }
    out
}

/// The tree node of a schema: the schema at the top, and below it groups
/// of its tables, views, materialized views, functions and sequences.
fn schema_node(schema: &SchemaEntry) -> (r: TreeNode)
    ensures
        is_schema_node(*schema, r),
{
    let name = schema.info.name.as_str();
    let tables = group("tables:", name, "Tables (", Some("T"), relation_nodes(&schema.tables), 1);
    let views = group("views:", name, "Views (", Some("V"), relation_nodes(&schema.views), 1);
    let matviews = group(
        "matviews:",
        name,
        "Materialized Views (",
        Some("M"),
        relation_nodes(&schema.materialized_views),
        1,
    );
    let functions = group(
        "functions:",
        name,
        "Functions (",
        Some("F"),
        function_leaves(&schema.functions, name, 2),
        1,
    );
    let sequences = group(
        "sequences:",
        name,
        "Sequences (",
        Some("#"),
        sequence_leaves(&schema.sequences, name, 2),
        1,
    );
    let mut id = "schema:".to_owned();
    id.append(name);
    TreeNode {
        id,
        label: schema.info.name.clone(),
        icon: Some("S"),
        children: vec![tables, views, matviews, functions, sequences],
        depth: 0,
    }
}

/// The nodes the schema browser shows: one per schema, in order.
pub fn schema_tree_to_nodes(tree: &SchemaTree) -> (r: Vec<TreeNode>)
    ensures
        r@.len() == tree.schemas@.len(),
        forall|i: int| 0 <= i < r@.len() ==> is_schema_node(tree.schemas@[i], #[trigger] r@[i]),
{
    let mut out: Vec<TreeNode> = Vec::new();
    let mut i: usize = 0;
    while i < tree.schemas.len()
        invariant
            i <= tree.schemas@.len(),
            out@.len() == i,
            forall|j: int| 0 <= j < i ==> is_schema_node(tree.schemas@[j], #[trigger] out@[j]),
        decreases tree.schemas@.len() - i,
    {
        let node = schema_node(&tree.schemas[i]);
        out.push(node);
        i += 1;
    }
    out
}

/// A click on a table's node names the table again: its id parses back
/// into the schema and table names, as long as the schema name holds no `.`.
pub proof fn law_table_node_id_parses_back(table: TableEntry, depth: int, n: TreeNode)
    requires
        is_table_node(table, depth, n),
        lacks(table.info.schema@, '.'),
    ensures
        table_node_parts(n.id@) == Some((table.info.schema@, table.info.name@)),
{
    reveal_strlit("table:");
    let p = table_node_prefix();
    let id = n.id@;
    let schema = table.info.schema@;
    let name = table.info.name@;
    assert(id.take(p.len() as int) =~= p);
    let rest = id.skip(p.len() as int);
    assert(rest =~= schema + seq!['.'] + name);
    let k = schema.len() as int;
    assert(rest[k] == '.');
    assert(rest.take(k) =~= schema);
    let c = choose|c: int| 0 <= c < rest.len() && rest[c] == '.' && lacks(rest.take(c), '.');
    if c < k {
        assert(rest[c] == schema[c]);
    } else if c > k {
        assert(rest.take(c)[k] == '.');
    }
    assert(rest.skip(k + 1) =~= name);
}

} // verus!
