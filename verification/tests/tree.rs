use pgblade::tree::{Chevron, TreeNode, TreeView, TreeViewEvent};

fn leaf(id: &str, depth: usize) -> TreeNode {
    TreeNode { id: id.to_string(), label: id.to_uppercase(), icon: None, children: Vec::new(), depth }
}

fn sample() -> Vec<TreeNode> {
    vec![
        TreeNode {
            id: "schema:public".to_string(),
            label: "public".to_string(),
            icon: Some("S"),
            children: vec![
                TreeNode {
                    id: "tables:public".to_string(),
                    label: "Tables (1)".to_string(),
                    icon: Some("T"),
                    children: vec![leaf("table:public.users", 2)],
                    depth: 1,
                },
                leaf("views:public", 1),
            ],
            depth: 0,
        },
        leaf("schema:audit", 0),
    ]
}

fn row_ids(t: &TreeView) -> Vec<String> {
    t.visible_rows().into_iter().map(|r| r.id).collect()
}

#[test]
fn collapsed_tree_shows_top_level_nodes() {
    let mut t = TreeView::new();
    assert!(t.visible_rows().is_empty());
    t.set_nodes(sample());
    let rows = t.visible_rows();
    assert_eq!(rows.len(), 2);
    assert_eq!(rows[0].id, "schema:public");
    assert_eq!(rows[0].chevron, Chevron::Collapsed);
    assert_eq!(rows[0].icon, Some("S"));
    assert_eq!(rows[1].chevron, Chevron::Leaf);
    assert_eq!(rows[1].depth, 0);
}

#[test]
fn expanding_shows_children_in_order() {
    let mut t = TreeView::new();
    t.set_nodes(sample());
    t.toggle_expand("schema:public");
    assert_eq!(row_ids(&t), vec!["schema:public", "tables:public", "views:public", "schema:audit"]);
    t.toggle_expand("tables:public");
    assert_eq!(
        row_ids(&t),
        vec!["schema:public", "tables:public", "table:public.users", "views:public", "schema:audit"]
    );
    let rows = t.visible_rows();
    assert_eq!(rows[0].chevron, Chevron::Expanded);
    assert_eq!(rows[2].depth, 2);
    assert_eq!(rows[2].label, "TABLE:PUBLIC.USERS");
}

#[test]
fn collapsing_a_parent_hides_expanded_children() {
    let mut t = TreeView::new();
    t.set_nodes(sample());
    t.toggle_expand("schema:public");
    t.toggle_expand("tables:public");
    t.toggle_expand("schema:public");
    assert_eq!(row_ids(&t), vec!["schema:public", "schema:audit"]);
    assert!(t.is_expanded("tables:public"));
    t.toggle_expand("schema:public");
    assert_eq!(t.visible_rows().len(), 5);
}

#[test]
fn toggling_twice_restores() {
    let mut t = TreeView::new();
    t.set_nodes(sample());
    assert!(!t.is_expanded("schema:public"));
    t.toggle_expand("schema:public");
    assert!(t.is_expanded("schema:public"));
    t.toggle_expand("schema:public");
    assert!(!t.is_expanded("schema:public"));
    assert_eq!(t.visible_rows().len(), 2);
}

#[test]
fn clicks_toggle_parents_and_report_leaves() {
    let mut t = TreeView::new();
    t.set_nodes(sample());
    assert!(t.click("schema:public", true).is_none());
    assert!(t.is_expanded("schema:public"));
    match t.click("table:public.users", false) {
        Some(TreeViewEvent::NodeClicked(id)) => assert_eq!(id, "table:public.users"),
        other => panic!("unexpected {:?}", other),
    }
    assert!(!t.is_expanded("table:public.users"));
}

#[test]
fn expanded_ids_survive_new_nodes() {
    let mut t = TreeView::new();
    t.set_nodes(sample());
    t.toggle_expand("schema:public");
    t.set_nodes(sample());
    assert_eq!(t.visible_rows().len(), 4);
    assert_eq!(t.nodes().len(), 2);
}

#[test]
fn cloned_nodes_keep_their_subtree() {
    let nodes = sample();
    let copy = nodes[0].clone();
    assert_eq!(copy.id, "schema:public");
    assert_eq!(copy.children.len(), 2);
    assert_eq!(copy.children[0].children[0].id, "table:public.users");
}
