//! The state of a collapsible tree view: its nodes, which of them are
//! expanded, and the rows it shows (a node's children only while it is
//! expanded).
use crate::chars::str_eq;
use vstd::prelude::*;

verus! {

/// A node in the tree. Each node has a label, optional icon, children, and expand state.
#[derive(Debug)]
pub struct TreeNode {
    pub id: String,
    pub label: String,
    pub icon: Option<&'static str>,
    pub children: Vec<TreeNode>,
    pub depth: usize,
}

/// `b` is a copy of `a`: the same id, label, icon and depth, and children
/// that are copies of `a`'s, in order.
pub open spec fn same_tree(a: TreeNode, b: TreeNode) -> bool
    decreases a,
{
    &&& a.id@ == b.id@
    &&& a.label@ == b.label@
    &&& a.icon == b.icon
    &&& a.depth == b.depth
    &&& same_forest(a.children@, b.children@)
}

/// `ys` holds copies of the nodes of `xs`, in order.
pub open spec fn same_forest(xs: Seq<TreeNode>, ys: Seq<TreeNode>) -> bool
    decreases xs,
{
    if xs.len() == 0 {
        ys.len() == 0
    } else {
        &&& ys.len() == xs.len()
        &&& same_forest(xs.drop_last(), ys.drop_last())
        &&& same_tree(xs.last(), ys.last())
    }
}

impl TreeNode {
    /// A copy of the node and all its descendants.
    pub fn deep_copy(&self) -> (c: TreeNode)
        ensures
            same_tree(*self, c),
        decreases self,
    {
        let mut children: Vec<TreeNode> = Vec::new();
        let mut i: usize = 0;
        proof {
            assert(self.children@.take(0) =~= Seq::<TreeNode>::empty());
        }
        while i < self.children.len()
            invariant
                i <= self.children@.len(),
                same_forest(self.children@.take(i as int), children@),
            decreases self.children@.len() - i,
        {
            proof {
                assert(decreases_to!(self => self.children));
            }
            let ghost before = children@;
            let c = self.children[i].deep_copy();
            children.push(c);
            proof {
                let t = self.children@.take(i + 1);
                assert(t.drop_last() =~= self.children@.take(i as int));
                assert(t.last() == self.children@[i as int]);
                assert(children@.drop_last() =~= before);
            }
            i += 1;
        }
        proof {
            assert(self.children@.take(self.children@.len() as int) =~= self.children@);
        }
        TreeNode {
            id: self.id.clone(),
            label: self.label.clone(),
            icon: self.icon,
            children,
            depth: self.depth,
        }
    }
}

impl Clone for TreeNode {
    fn clone(&self) -> (c: Self)
        ensures
            same_tree(*self, c),
    {
        self.deep_copy()
    }
}

/// Events emitted by the tree view.
#[derive(Debug, Clone)]
pub enum TreeViewEvent {
    /// A leaf node was clicked.
    NodeClicked(String),
}

/// The marker in front of a row: its node is expanded, collapsed, or has
/// no children.
#[derive(Debug, Clone, Copy, PartialEq, Eq, Structural)]
pub enum Chevron {
    Expanded,
    Collapsed,
    Leaf,
}

/// A row the tree shows: one node, at its depth, with its marker.
#[derive(Debug, Clone)]
pub struct TreeRow {
    pub id: String,
    pub label: String,
    pub icon: Option<&'static str>,
    pub depth: usize,
    pub chevron: Chevron,
}

/// The abstract value of a row.
pub struct TreeRowView {
    pub id: Seq<char>,
    pub label: Seq<char>,
    pub icon: Option<&'static str>,
    pub depth: usize,
    pub chevron: Chevron,
}

impl View for TreeRow {
    type V = TreeRowView;

    open spec fn view(&self) -> TreeRowView {
        TreeRowView {
            id: self.id@,
            label: self.label@,
            icon: self.icon,
            depth: self.depth,
            chevron: self.chevron,
        }
    }
}

/// The set of expanded ids after toggling `id`.
pub open spec fn toggled(expanded: Set<Seq<char>>, id: Seq<char>) -> Set<Seq<char>> {
    if expanded.contains(id) {
        expanded.remove(id)
    } else {
        expanded.insert(id)
    }
}

/// The marker of `node`'s row.
pub open spec fn chevron_of(node: TreeNode, expanded: Set<Seq<char>>) -> Chevron {
    if node.children@.len() == 0 {
        Chevron::Leaf
    } else if expanded.contains(node.id@) {
        Chevron::Expanded
    } else {
        Chevron::Collapsed
    }
}

/// The row that shows `node`.
pub open spec fn row_of(node: TreeNode, expanded: Set<Seq<char>>) -> TreeRowView {
    TreeRowView {
        id: node.id@,
        label: node.label@,
        icon: node.icon,
        depth: node.depth,
        chevron: chevron_of(node, expanded),
    }
}

/// The rows of `node` and, while it is expanded, of its children, in order.
pub open spec fn node_rows(node: TreeNode, expanded: Set<Seq<char>>) -> Seq<TreeRowView>
    decreases node,
{
    if chevron_of(node, expanded) == Chevron::Expanded {
        seq![row_of(node, expanded)] + forest_rows(node.children@, expanded)
    } else {
        seq![row_of(node, expanded)]
    }
}

/// The rows of each node of `nodes` in turn.
pub open spec fn forest_rows(nodes: Seq<TreeNode>, expanded: Set<Seq<char>>) -> Seq<TreeRowView>
    decreases nodes,
{
    if nodes.len() == 0 {
        Seq::empty()
    } else {
        forest_rows(nodes.drop_last(), expanded) + node_rows(nodes.last(), expanded)
    }
}

/// Toggling a node twice leaves the expanded nodes as they were.
pub proof fn law_toggle_twice_restores(expanded: Set<Seq<char>>, id: Seq<char>)
    ensures
        toggled(toggled(expanded, id), id) == expanded,
{
    assert(toggled(toggled(expanded, id), id) =~= expanded);
}

/// A tree of nodes, some of them expanded.
///
/// The expanded ids are kept as a list without duplicates (`wf`) and read as
/// a set (`expanded_view`). A `HashSet<String>` would do the same job, but
/// vstd's specification of the standard hash set holds only for keys known
/// to hash consistently (integers and `bool`); for `String` it would take
/// an unproved assumption, so nothing about its contents could be proved.
pub struct TreeView {
    nodes: Vec<TreeNode>,
    expanded: Vec<String>,
}

impl TreeView {
    /// The nodes at the top of the tree.
    pub closed spec fn nodes_view(&self) -> Seq<TreeNode> {
        self.nodes@
    }

    /// The ids of the expanded nodes.
    pub closed spec fn expanded_view(&self) -> Set<Seq<char>> {
        Set::new(|id: Seq<char>| exists|i: int| 0 <= i < self.expanded@.len() && #[trigger] self.expanded@[i]@ == id)
    }

    /// No id is listed twice among the expanded ones.
    pub closed spec fn wf(&self) -> bool {
        forall|i: int, j: int|
            0 <= i < j < self.expanded@.len() ==> #[trigger] self.expanded@[i]@ != #[trigger] self.expanded@[j]@
    }

    pub fn new() -> (t: Self)
        ensures
            t.wf(),
            t.nodes_view() == Seq::<TreeNode>::empty(),
            t.expanded_view() == Set::<Seq<char>>::empty(),
    {
        let t = TreeView { nodes: Vec::new(), expanded: Vec::new() };
        proof {
            assert(t.expanded_view() =~= Set::<Seq<char>>::empty());
        }
        t
    }

    /// Replaces the nodes; which ids are expanded stays as it was.
    pub fn set_nodes(&mut self, nodes: Vec<TreeNode>)
        requires
            old(self).wf(),
        ensures
            final(self).wf(),
            final(self).nodes_view() == nodes@,
            final(self).expanded_view() == old(self).expanded_view(),
    {
        self.nodes = nodes;
    }

    /// The nodes at the top of the tree.
    pub fn nodes(&self) -> (n: &[TreeNode])
        ensures
            n@ == self.nodes_view(),
    {
        self.nodes.as_slice()
    }

    /// Where `id` is listed among the expanded ids, if it is.
    fn expanded_index(&self, id: &str) -> (r: Option<usize>)
        ensures
            match r {
                Some(i) => i < self.expanded@.len() && self.expanded@[i as int]@ == id@,
                None => forall|i: int| 0 <= i < self.expanded@.len() ==> self.expanded@[i]@ != id@,
            },
    {
        let mut i: usize = 0;
        while i < self.expanded.len()
            invariant
                i <= self.expanded@.len(),
                forall|j: int| 0 <= j < i ==> self.expanded@[j]@ != id@,
            decreases self.expanded@.len() - i,
        {
            if str_eq(self.expanded[i].as_str(), id) {
                return Some(i);
            }
            i += 1;
        }
        None
    }

    /// Whether the node with this id is expanded.
    pub fn is_expanded(&self, id: &str) -> (b: bool)
        ensures
            b == self.expanded_view().contains(id@),
    {
        match self.expanded_index(id) {
            Some(i) => {
                proof {
                    assert(self.expanded@[i as int]@ == id@);
                }
                true
            },
            None => false,
        }
    }

    /// Expands a collapsed node, or collapses an expanded one.
    pub fn toggle_expand(&mut self, id: &str)
        requires
            old(self).wf(),
        ensures
            final(self).wf(),
            final(self).nodes_view() == old(self).nodes_view(),
            final(self).expanded_view() == toggled(old(self).expanded_view(), id@),
    {
        let ghost e0 = self.expanded@;
        match self.expanded_index(id) {
            Some(i) => {
                self.expanded.remove(i);
                proof {
                    assert(self.expanded@ =~= e0.remove(i as int));
                    assert forall|x: Seq<char>| #[trigger] self.expanded_view().contains(x) == toggled(
                        old(self).expanded_view(),
                        id@,
                    ).contains(x) by {
                        if self.expanded_view().contains(x) {
                            let k = choose|k: int| 0 <= k < self.expanded@.len() && #[trigger] self.expanded@[k]@ == x;
                            if k < i {
                                assert(e0[k]@ == x);
                                assert(e0[k]@ != e0[i as int]@);
                            } else {
                                assert(e0[k + 1]@ == x);
                                assert(e0[i as int]@ != e0[k + 1]@);
                            }
                        }
                        if x != id@ && old(self).expanded_view().contains(x) {
                            let k = choose|k: int| 0 <= k < e0.len() && #[trigger] e0[k]@ == x;
                            if k < i {
                                assert(self.expanded@[k]@ == x);
                            } else {
                                assert(k != i);
                                assert(self.expanded@[k - 1]@ == x);
                            }
                        }
                    }
                    assert(self.expanded_view() =~= toggled(old(self).expanded_view(), id@));
                }
            },
            None => {
                self.expanded.push(id.to_owned());
                proof {
                    let n = e0.len() as int;
                    assert(self.expanded@[n]@ == id@);
                    assert forall|x: Seq<char>| #[trigger] self.expanded_view().contains(x) == toggled(
                        old(self).expanded_view(),
                        id@,
                    ).contains(x) by {
                        if self.expanded_view().contains(x) {
                            let k = choose|k: int| 0 <= k < self.expanded@.len() && #[trigger] self.expanded@[k]@ == x;
                            if k < n {
                                assert(e0[k]@ == x);
                            }
                        }
                        if old(self).expanded_view().contains(x) {
                            let k = choose|k: int| 0 <= k < e0.len() && #[trigger] e0[k]@ == x;
                            assert(self.expanded@[k]@ == x);
                        }
                    }
                    assert(self.expanded_view() =~= toggled(old(self).expanded_view(), id@));
                }
            },
        }
    }

    /// Appends the rows of `node` (and of its children, while it is expanded).
    fn push_node_rows(&self, node: &TreeNode, out: &mut Vec<TreeRow>)
        ensures
            final(out)@.map_values(|r: TreeRow| r@) == old(out)@.map_values(|r: TreeRow| r@)
                + node_rows(*node, self.expanded_view()),
        decreases node,
    {
        let ghost ev = self.expanded_view();
        let ghost start = out@.map_values(|r: TreeRow| r@);
        let chevron = if node.children.len() == 0 {
            Chevron::Leaf
        } else if self.is_expanded(node.id.as_str()) {
            Chevron::Expanded
        } else {
            Chevron::Collapsed
        };
        out.push(
            TreeRow {
                id: node.id.clone(),
                label: node.label.clone(),
                icon: node.icon,
                depth: node.depth,
                chevron,
            },
        );
        let ghost base = start + seq![row_of(*node, ev)];
        proof {
            assert(out@.map_values(|r: TreeRow| r@) =~= base);
        }
        if chevron == Chevron::Expanded {
            let mut i: usize = 0;
            proof {
                assert(node.children@.take(0) =~= Seq::<TreeNode>::empty());
                assert(base + forest_rows(node.children@.take(0), ev) =~= base);
            }
            while i < node.children.len()
                invariant
                    i <= node.children@.len(),
                    ev == self.expanded_view(),
                    out@.map_values(|r: TreeRow| r@) == base + forest_rows(
                        node.children@.take(i as int),
                        ev,
                    ),
                decreases node.children@.len() - i,
            {
                proof {
                    assert(decreases_to!(node => node.children));
                }
                let ghost before = out@.map_values(|r: TreeRow| r@);
                self.push_node_rows(&node.children[i], out);
                proof {
                    let t = node.children@.take(i + 1);
                    assert(t.drop_last() =~= node.children@.take(i as int));
                    assert(t.last() == node.children@[i as int]);
                    assert(forest_rows(t, ev) == forest_rows(node.children@.take(i as int), ev)
                        + node_rows(node.children@[i as int], ev));
                    assert(out@.map_values(|r: TreeRow| r@) =~= base + forest_rows(t, ev));
                }
                i += 1;
            }
            proof {
                assert(node.children@.take(node.children@.len() as int) =~= node.children@);
                assert(out@.map_values(|r: TreeRow| r@) =~= start + node_rows(*node, ev));
            }
        } else {
            proof {
                assert(out@.map_values(|r: TreeRow| r@) =~= start + node_rows(*node, ev));
            }
        }
    }

    /// The rows the tree shows, top to bottom: each node, followed by the
    /// rows of its children while it is expanded.
    pub fn visible_rows(&self) -> (rows: Vec<TreeRow>)
        ensures
            rows@.map_values(|r: TreeRow| r@) == forest_rows(self.nodes_view(), self.expanded_view()),
    {
        let ghost ev = self.expanded_view();
        let mut out: Vec<TreeRow> = Vec::new();
        let mut i: usize = 0;
        proof {
            assert(self.nodes@.take(0) =~= Seq::<TreeNode>::empty());
            assert(out@.map_values(|r: TreeRow| r@) =~= Seq::<TreeRowView>::empty());
        }
        while i < self.nodes.len()
            invariant
                i <= self.nodes@.len(),
                ev == self.expanded_view(),
                out@.map_values(|r: TreeRow| r@) == forest_rows(self.nodes@.take(i as int), ev),
            decreases self.nodes@.len() - i,
        {
            self.push_node_rows(&self.nodes[i], &mut out);
            proof {
                let t = self.nodes@.take(i + 1);
                assert(t.drop_last() =~= self.nodes@.take(i as int));
                assert(t.last() == self.nodes@[i as int]);
            }
            i += 1;
        }
        proof {
            assert(self.nodes@.take(self.nodes@.len() as int) =~= self.nodes@);
        }
        out
    }

    /// A click on a row: a node with children is expanded or collapsed, a
    /// leaf is reported as clicked.
    pub fn click(&mut self, id: &str, has_children: bool) -> (event: Option<TreeViewEvent>)
        requires
            old(self).wf(),
        ensures
            final(self).wf(),
            final(self).nodes_view() == old(self).nodes_view(),
            has_children ==> final(self).expanded_view() == toggled(old(self).expanded_view(), id@)
                && event is None,
            !has_children ==> final(self).expanded_view() == old(self).expanded_view() && (event matches Some(
                TreeViewEvent::NodeClicked(s),
            ) && s@ == id@),
    {
        if has_children {
            self.toggle_expand(id);
            None
        } else {
            Some(TreeViewEvent::NodeClicked(id.to_owned()))
        }
    }
}

impl Default for TreeView {
    fn default() -> (t: Self)
        ensures
            t.wf(),
            t.nodes_view() == Seq::<TreeNode>::empty(),
            t.expanded_view() == Set::<Seq<char>>::empty(),
    {
        Self::new()
    }
}

} // verus!
