use pgblade::schema::{
    column_info_from_row, schema_entry_from_relations, table_info_from_row, is_nullable_flag, parse_table_node_id, table_kind_from_type, ColumnInfo, SchemaEntry,
    SchemaInfo, SchemaTree, TableEntry, TableInfo, TableKind,
};

fn table(schema: &str, name: &str) -> TableInfo {
    TableInfo {
        schema: schema.to_string(),
        name: name.to_string(),
        kind: TableKind::Table,
        row_estimate: Some(42),
    }
}

#[test]
fn qualified_name_joins_schema_and_table() {
    assert_eq!(table("public", "users").qualified_name(), "public.users");
    assert_eq!(table("", "t").qualified_name(), ".t");
}

#[test]
fn table_types_map_to_kinds() {
    assert_eq!(table_kind_from_type("VIEW"), TableKind::View);
    assert_eq!(table_kind_from_type("BASE TABLE"), TableKind::Table);
    assert_eq!(table_kind_from_type("view"), TableKind::Table);
}

#[test]
fn nullable_flag_is_yes() {
    assert!(is_nullable_flag("YES"));
    assert!(!is_nullable_flag("NO"));
    assert!(!is_nullable_flag("yes"));
}

#[test]
fn table_node_ids_split_at_the_first_dot() {
    assert_eq!(
        parse_table_node_id("table:public.users"),
        Some(("public".to_string(), "users".to_string()))
    );
    assert_eq!(
        parse_table_node_id("table:app.audit.log"),
        Some(("app".to_string(), "audit.log".to_string()))
    );
    assert_eq!(parse_table_node_id("schema:public"), None);
    assert_eq!(parse_table_node_id("table:nodot"), None);
}

#[test]
fn schema_tree_holds_entries() {
    let mut tree = SchemaTree::default();
    assert!(tree.schemas.is_empty());
    tree.schemas.push(SchemaEntry {
        info: SchemaInfo { name: "public".to_string(), is_default: true },
        views: vec![],
        materialized_views: vec![],
        functions: vec![],
        sequences: vec![],
        tables: vec![TableEntry {
            info: table("public", "users"),
            constraints: vec![],
            foreign_keys: vec![],
            indexes: vec![],
            triggers: vec![],
            columns: vec![ColumnInfo {
                name: "id".to_string(),
                data_type: "integer".to_string(),
                nullable: false,
                is_primary_key: true,
                default_value: None,
                ordinal_position: 1,
            }],
        }],
    });
    assert_eq!(tree.schemas[0].tables[0].info.qualified_name(), "public.users");
    assert_eq!(tree.schemas[0].tables[0].columns[0].ordinal_position, 1);
}

#[test]
fn rows_become_tables_and_columns() {
    let t = table_info_from_row("public", "v_users".to_string(), "VIEW", None);
    assert_eq!(t.kind, TableKind::View);
    assert_eq!(t.qualified_name(), "public.v_users");
    assert_eq!(t.row_estimate, None);
    let c = column_info_from_row(
        "email".to_string(),
        "text".to_string(),
        "YES",
        Some("''::text".to_string()),
        3,
        false,
    );
    assert!(c.nullable);
    assert!(!c.is_primary_key);
    assert_eq!(c.default_value.as_deref(), Some("''::text"));
    assert_eq!(c.ordinal_position, 3);
}

fn relation(name: &str, kind: TableKind) -> TableEntry {
    TableEntry {
        info: TableInfo { schema: "public".to_string(), name: name.to_string(), kind, row_estimate: None },
        columns: Vec::new(),
        constraints: Vec::new(),
        foreign_keys: Vec::new(),
        indexes: Vec::new(),
        triggers: Vec::new(),
    }
}

#[test]
fn relations_are_sorted_by_kind_in_order() {
    let info = SchemaInfo { name: "public".to_string(), is_default: true };
    let e = schema_entry_from_relations(
        info,
        vec![
            relation("orders", TableKind::Table),
            relation("v_active", TableKind::View),
            relation("mv_totals", TableKind::MaterializedView),
            relation("users", TableKind::Table),
            relation("v_old", TableKind::View),
        ],
    );
    assert_eq!(e.info.name, "public");
    let names = |v: &Vec<TableEntry>| v.iter().map(|t| t.info.name.clone()).collect::<Vec<_>>();
    assert_eq!(names(&e.tables), vec!["orders", "users"]);
    assert_eq!(names(&e.views), vec!["v_active", "v_old"]);
    assert_eq!(names(&e.materialized_views), vec!["mv_totals"]);
    assert!(e.functions.is_empty());
    assert!(e.sequences.is_empty());
    let empty = schema_entry_from_relations(SchemaInfo { name: "x".to_string(), is_default: false }, Vec::new());
    assert!(empty.tables.is_empty() && empty.views.is_empty() && empty.materialized_views.is_empty());
}
