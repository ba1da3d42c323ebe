use pgblade::chars::usize_to_decimal;
use pgblade::schema::{
    parse_table_node_id, ColumnInfo, ConstraintInfo, ConstraintKind, ForeignKeyInfo, FunctionInfo,
    IndexInfo, SchemaEntry, SchemaInfo, SchemaTree, SequenceInfo, TableEntry, TableInfo, TableKind,
    TriggerInfo,
};
use pgblade::schema_tree::{schema_tree_to_nodes, table_entry_to_node};

fn column(name: &str, data_type: &str, nullable: bool, pk: bool) -> ColumnInfo {
    ColumnInfo {
        name: name.to_string(),
        data_type: data_type.to_string(),
        nullable,
        is_primary_key: pk,
        default_value: None,
        ordinal_position: 1,
    }
}

fn relation(schema: &str, name: &str, kind: TableKind, columns: Vec<ColumnInfo>) -> TableEntry {
    TableEntry {
        info: TableInfo { schema: schema.to_string(), name: name.to_string(), kind, row_estimate: None },
        columns,
        constraints: vec![],
        foreign_keys: vec![],
        indexes: vec![],
        triggers: vec![],
    }
}

fn users() -> TableEntry {
    relation(
        "public",
        "users",
        TableKind::Table,
        vec![column("id", "integer", false, true), column("email", "text", true, false)],
    )
}

fn orders() -> TableEntry {
    let mut t = relation("public", "orders", TableKind::Table, vec![column("id", "integer", false, true)]);
    t.constraints = vec![
        ConstraintInfo { name: "orders_pkey".to_string(), kind: ConstraintKind::PrimaryKey },
        ConstraintInfo { name: "qty_positive".to_string(), kind: ConstraintKind::Check },
    ];
    t.foreign_keys = vec![ForeignKeyInfo {
        name: "orders_user_fk".to_string(),
        referenced_table: "users".to_string(),
        referenced_columns: vec!["id".to_string(), "tenant".to_string()],
    }];
    t.indexes = vec![
        IndexInfo { name: "orders_pkey".to_string(), index_type: "btree".to_string(), is_unique: true },
        IndexInfo { name: "orders_at".to_string(), index_type: "brin".to_string(), is_unique: false },
    ];
    t.triggers = vec![TriggerInfo {
        name: "audit".to_string(),
        timing: "AFTER".to_string(),
        event: "INSERT".to_string(),
    }];
    t
}

#[test]
fn decimal_agrees_with_std() {
    for n in [0usize, 1, 9, 10, 11, 99, 100, 101, 1234, 65535, usize::MAX] {
        assert_eq!(usize_to_decimal(n), n.to_string());
    }
}

#[test]
fn table_node_holds_five_groups() {
    let node = table_entry_to_node(&users(), 2);
    assert_eq!(node.id, "table:public.users");
    assert_eq!(node.label, "users");
    assert_eq!(node.icon, None);
    assert_eq!(node.depth, 2);
    let ids: Vec<&str> = node.children.iter().map(|g| g.id.as_str()).collect();
    assert_eq!(
        ids,
        vec!["columns:public.users", "constraints:public.users", "fks:public.users", "indexes:public.users", "triggers:public.users"]
    );
    let labels: Vec<&str> = node.children.iter().map(|g| g.label.as_str()).collect();
    assert_eq!(labels, vec!["Columns (2)", "Constraints (0)", "Foreign Keys (0)", "Indexes (0)", "Triggers (0)"]);
    assert!(node.children.iter().all(|g| g.depth == 3 && g.icon.is_none()));
    assert!(node.children[1..].iter().all(|g| g.children.is_empty()));
    let cols: Vec<(&str, &str, usize)> = node.children[0]
        .children
        .iter()
        .map(|c| (c.id.as_str(), c.label.as_str(), c.depth))
        .collect();
    assert_eq!(
        cols,
        vec![("col:public.users.id", "PK id integer", 4), ("col:public.users.email", "email text?", 4)]
    );
}

#[test]
fn table_node_lists_constraints_keys_indexes_and_triggers() {
    let node = table_entry_to_node(&orders(), 2);
    let leaf = |g: usize, k: usize| (node.children[g].children[k].id.clone(), node.children[g].children[k].label.clone());
    assert_eq!(node.children[1].label, "Constraints (2)");
    assert_eq!(leaf(1, 0), ("constraint:public.orders.orders_pkey".to_string(), "orders_pkey (PRIMARY KEY)".to_string()));
    assert_eq!(leaf(1, 1).1, "qty_positive (CHECK)");
    assert_eq!(leaf(2, 0), ("fk:public.orders.orders_user_fk".to_string(), "orders_user_fk -> users(id, tenant)".to_string()));
    assert_eq!(leaf(3, 0), ("idx:public.orders.orders_pkey".to_string(), "orders_pkey (btree, unique)".to_string()));
    assert_eq!(leaf(3, 1).1, "orders_at (brin)");
    assert_eq!(leaf(4, 0), ("trigger:public.orders.audit".to_string(), "audit (AFTER INSERT)".to_string()));
    assert_eq!(node.children[4].children[0].depth, 4);
}

#[test]
fn foreign_key_with_one_or_no_columns() {
    let mut t = users();
    t.foreign_keys = vec![
        ForeignKeyInfo { name: "a".to_string(), referenced_table: "t".to_string(), referenced_columns: vec!["x".to_string()] },
        ForeignKeyInfo { name: "b".to_string(), referenced_table: "t".to_string(), referenced_columns: vec![] },
    ];
    let node = table_entry_to_node(&t, 0);
    assert_eq!(node.children[2].children[0].label, "a -> t(x)");
    assert_eq!(node.children[2].children[1].label, "b -> t()");
}

#[test]
fn schema_nodes_hold_five_groups() {
    let tree = SchemaTree {
        schemas: vec![
            SchemaEntry {
                info: SchemaInfo { name: "public".to_string(), is_default: true },
                tables: vec![users()],
                views: vec![relation("public", "active_users", TableKind::View, vec![])],
                materialized_views: vec![],
                functions: vec![FunctionInfo {
                    name: "add".to_string(),
                    arguments: "a integer, b integer".to_string(),
                    return_type: "integer".to_string(),
                }],
                sequences: vec![SequenceInfo { name: "users_id_seq".to_string() }],
            },
            SchemaEntry {
                info: SchemaInfo { name: "audit".to_string(), is_default: false },
                tables: vec![],
                views: vec![],
                materialized_views: vec![],
                functions: vec![],
                sequences: vec![],
            },
        ],
    };
    let nodes = schema_tree_to_nodes(&tree);
    assert_eq!(nodes.len(), 2);
    let s = &nodes[0];
    assert_eq!((s.id.as_str(), s.label.as_str(), s.icon, s.depth), ("schema:public", "public", Some("S"), 0));
    let groups: Vec<(&str, &str, Option<&str>)> =
        s.children.iter().map(|g| (g.id.as_str(), g.label.as_str(), g.icon)).collect();
    assert_eq!(
        groups,
        vec![
            ("tables:public", "Tables (1)", Some("T")),
            ("views:public", "Views (1)", Some("V")),
            ("matviews:public", "Materialized Views (0)", Some("M")),
            ("functions:public", "Functions (1)", Some("F")),
            ("sequences:public", "Sequences (1)", Some("#")),
        ]
    );
    assert!(s.children.iter().all(|g| g.depth == 1));
    assert_eq!(s.children[0].children[0].id, "table:public.users");
    assert_eq!(s.children[0].children[0].depth, 2);
    assert_eq!(s.children[1].children[0].id, "table:public.active_users");
    assert_eq!(s.children[3].children[0].id, "func:public.add");
    assert_eq!(s.children[3].children[0].label, "add(a integer, b integer) -> integer");
    assert_eq!(s.children[4].children[0].id, "seq:public.users_id_seq");
    assert_eq!(s.children[4].children[0].label, "users_id_seq");
    assert_eq!(s.children[4].children[0].depth, 2);
    assert_eq!(nodes[1].children[0].label, "Tables (0)");
}

#[test]
fn table_node_ids_parse_back() {
    let node = table_entry_to_node(&users(), 2);
    assert_eq!(parse_table_node_id(&node.id), Some(("public".to_string(), "users".to_string())));
}
