//! The mirror tree.
//!
//! `SceneTree` is the canonical representation of what JavaScript told the
//! host to render. JS owns no DOM: the React reconciler emits `Op` mutations
//! and `SceneTree::apply` reduces them onto the tree.
//!
//! The tree is specified by its model, a `SceneModel`: a finite map from node
//! ids to node models and an optional root id. `applied` says what one op
//! does to a model; `apply` is proved to do exactly that.
use std::collections::HashMap;

use vstd::prelude::*;

use crate::props::{PropMap, PropValue, PropValueModel};

verus! {

broadcast use vstd::std_specs::hash::group_hash_axioms;

/// The id JS gives a node; `ROOT_PARENT` (0) stands for the container.
pub type NodeId = u32;

/// The container's parent id, used by `appendChildToContainer` and friends.
pub const ROOT_PARENT: NodeId = 0;

/// One mutation. The JS side only sends what changed.
#[derive(Debug)]
pub enum Op {
    /// Create an element node.
    Create { id: NodeId, tag: String },
    /// Create a text node (a leaf holding a string).
    CreateText { id: NodeId, value: String },
    /// Replace the prop bundle on an existing element.
    SetProps {
        id: NodeId,
        classes: Vec<String>,
        style: PropMap<PropValue>,
        handlers: PropMap<u32>,
        attrs: PropMap<PropValue>,
    },
    /// Replace a text node's content.
    UpdateText { id: NodeId, value: String },
    /// Append `child` as the last child of `parent`; `parent == ROOT_PARENT`
    /// means the container.
    Append { parent: NodeId, child: NodeId },
    /// Insert `child` immediately before `before` under `parent`.
    Insert { parent: NodeId, child: NodeId, before: NodeId },
    /// Detach `child` from `parent`. Detached nodes stay in the table (React
    /// may attach them again); they go on `Drop`.
    Remove { parent: NodeId, child: NodeId },
    /// Drop a node and, recursively, its descendants from the table.
    Drop { id: NodeId },
    /// Set the root child of the container.
    SetRoot { id: NodeId },
}

/// The prop bundle of an element: its classes, its `style` map, its event
/// handler ids by event name and its other attributes.
#[derive(Debug)]
pub struct ElementProps {
    pub classes: Vec<String>,
    pub style: PropMap<PropValue>,
    pub handlers: PropMap<u32>,
    pub attrs: PropMap<PropValue>,
}

/// A node of the tree: an element with its props and children, or a text
/// leaf.
#[derive(Debug)]
pub enum Node {
    Element { tag: String, props: ElementProps, children: Vec<NodeId> },
    Text { value: String },
}

/// The table of nodes by id, and the root child of the container.
#[derive(Debug)]
pub struct SceneTree {
    nodes: HashMap<NodeId, Node>,
    root: Option<NodeId>,
}

/// The prop bundle of an element, by its views.
pub struct PropsModel {
    pub classes: Seq<Seq<char>>,
    pub style: Seq<(Seq<char>, PropValueModel)>,
    pub handlers: Seq<(Seq<char>, u32)>,
    pub attrs: Seq<(Seq<char>, PropValueModel)>,
}

/// A node, by its views.
pub enum NodeModel {
    Element { tag: Seq<char>, props: PropsModel, children: Seq<NodeId> },
    Text { value: Seq<char> },
}

/// A tree, by its views: the node table and the root.
pub struct SceneModel {
    pub nodes: Map<NodeId, NodeModel>,
    pub root: Option<NodeId>,
}

/// An op, by its views.
pub enum OpModel {
    Create { id: NodeId, tag: Seq<char> },
    CreateText { id: NodeId, value: Seq<char> },
    SetProps { id: NodeId, props: PropsModel },
    UpdateText { id: NodeId, value: Seq<char> },
    Append { parent: NodeId, child: NodeId },
    Insert { parent: NodeId, child: NodeId, before: NodeId },
    Remove { parent: NodeId, child: NodeId },
    Drop { id: NodeId },
    SetRoot { id: NodeId },
}

/// A list of strings by their views.
pub open spec fn strings_model(v: Seq<String>) -> Seq<Seq<char>> {
    v.map_values(|s: String| s@)
}

impl View for ElementProps {
    type V = PropsModel;

    open spec fn view(&self) -> PropsModel {
        PropsModel {
            classes: strings_model(self.classes@),
            style: self.style.pairs(),
            handlers: self.handlers.pairs(),
            attrs: self.attrs.pairs(),
        }
    }
}

impl View for Node {
    type V = NodeModel;

    open spec fn view(&self) -> NodeModel {
        match self {
            Node::Element { tag, props, children } => NodeModel::Element {
                tag: tag@,
                props: props@,
                children: children@,
            },
            Node::Text { value } => NodeModel::Text { value: value@ },
        }
    }
}

impl View for Op {
    type V = OpModel;

    open spec fn view(&self) -> OpModel {
        match self {
            Op::Create { id, tag } => OpModel::Create { id: *id, tag: tag@ },
            Op::CreateText { id, value } => OpModel::CreateText { id: *id, value: value@ },
            Op::SetProps { id, classes, style, handlers, attrs } => OpModel::SetProps {
                id: *id,
                props: PropsModel {
                    classes: strings_model(classes@),
                    style: style.pairs(),
                    handlers: handlers.pairs(),
                    attrs: attrs.pairs(),
                },
            },
            Op::UpdateText { id, value } => OpModel::UpdateText { id: *id, value: value@ },
            Op::Append { parent, child } => OpModel::Append { parent: *parent, child: *child },
            Op::Insert { parent, child, before } => OpModel::Insert {
                parent: *parent,
                child: *child,
                before: *before,
            },
            Op::Remove { parent, child } => OpModel::Remove { parent: *parent, child: *child },
            Op::Drop { id } => OpModel::Drop { id: *id },
            Op::SetRoot { id } => OpModel::SetRoot { id: *id },
        }
    }
}

impl View for SceneTree {
    type V = SceneModel;

    closed spec fn view(&self) -> SceneModel {
        SceneModel { nodes: self.nodes@.map_values(|n: Node| n@), root: self.root }
    }
}

/// The empty prop bundle.
pub open spec fn empty_props() -> PropsModel {
    PropsModel { classes: seq![], style: seq![], handlers: seq![], attrs: seq![] }
}

/// `children` without any occurrence of `c`, the others in order.
pub open spec fn without(children: Seq<NodeId>, c: NodeId) -> Seq<NodeId>
    decreases children.len(),
{
    if children.len() == 0 {
        children
    } else if children.last() == c {
        without(children.drop_last(), c)
    } else {
        without(children.drop_last(), c).push(children.last())
    }
}

/// Index of the first occurrence of `x` in `s`, or -1.
pub open spec fn first_index(s: Seq<NodeId>, x: NodeId) -> int
    decreases s.len(),
{
    if s.len() == 0 {
        -1
    } else if s[0] == x {
        0
    } else if first_index(s.skip(1), x) < 0 {
        -1
    } else {
        first_index(s.skip(1), x) + 1
    }
}

/// The children list after `Append { child, .. }`.
pub open spec fn appended(children: Seq<NodeId>, child: NodeId) -> Seq<NodeId> {
    without(children, child).push(child)
}

/// The children list after `Insert { child, before, .. }`.
pub open spec fn inserted(children: Seq<NodeId>, child: NodeId, before: NodeId) -> Seq<NodeId> {
    let cs = without(children, child);
    let k = first_index(cs, before);
    if k >= 0 {
        cs.insert(k, child)
    } else {
        cs.push(child)
    }
}

/// The children of `id`: empty unless `id` is an element of `nodes`.
pub open spec fn children_of(nodes: Map<NodeId, NodeModel>, id: NodeId) -> Seq<NodeId> {
    if nodes.contains_key(id) {
        match nodes[id] {
            NodeModel::Element { children, .. } => children,
            NodeModel::Text { .. } => seq![],
        }
    } else {
        seq![]
    }
}

/// `p` is a chain of nodes of `nodes`, each a child of the one before.
pub open spec fn is_path(nodes: Map<NodeId, NodeModel>, p: Seq<NodeId>) -> bool {
    &&& p.len() > 0
    &&& forall|i: int| 0 <= i < p.len() ==> nodes.contains_key(#[trigger] p[i])
    &&& forall|i: int|
        0 <= i < p.len() - 1 ==> #[trigger] children_of(nodes, p[i]).contains(p[i + 1])
}

/// `to` is `from` or one of its descendants in `nodes` (and is in `nodes`).
pub open spec fn reaches(nodes: Map<NodeId, NodeModel>, from: NodeId, to: NodeId) -> bool {
    exists|p: Seq<NodeId>| is_path(nodes, p) && p[0] == from && p.last() == to
}

/// The nodes of the subtree under `id`: `id` and its descendants.
pub open spec fn subtree(nodes: Map<NodeId, NodeModel>, id: NodeId) -> Set<NodeId> {
    Set::new(|x: NodeId| reaches(nodes, id, x))
}

/// The nodes in the subtree of some node of `starts`.
pub open spec fn subtrees(nodes: Map<NodeId, NodeModel>, starts: Seq<NodeId>) -> Set<NodeId> {
    Set::new(|x: NodeId| exists|j: int| 0 <= j < starts.len() && reaches(nodes, starts[j], x))
}

/// `nodes` with the element `id` given the children `children`, if `id` is
/// an element; otherwise `nodes` unchanged.
pub open spec fn with_children(
    nodes: Map<NodeId, NodeModel>,
    id: NodeId,
    children: Seq<NodeId>,
) -> Map<NodeId, NodeModel> {
    if nodes.contains_key(id) {
        match nodes[id] {
            NodeModel::Element { tag, props, .. } => nodes.insert(
                id,
                NodeModel::Element { tag, props, children },
            ),
            NodeModel::Text { .. } => nodes,
        }
    } else {
        nodes
    }
}

/// What one op does to a scene.
pub open spec fn applied(s: SceneModel, op: OpModel) -> SceneModel {
    match op {
        OpModel::Create { id, tag } => SceneModel {
            nodes: s.nodes.insert(
                id,
                NodeModel::Element { tag, props: empty_props(), children: seq![] },
            ),
            root: s.root,
        },
        OpModel::CreateText { id, value } => SceneModel {
            nodes: s.nodes.insert(id, NodeModel::Text { value }),
            root: s.root,
        },
        OpModel::SetProps { id, props } => SceneModel {
            nodes: if s.nodes.contains_key(id) {
                match s.nodes[id] {
                    NodeModel::Element { tag, children, .. } => s.nodes.insert(
                        id,
                        NodeModel::Element { tag, props, children },
                    ),
                    NodeModel::Text { .. } => s.nodes,
                }
            } else {
                s.nodes
            },
            root: s.root,
        },
        OpModel::UpdateText { id, value } => SceneModel {
            nodes: if s.nodes.contains_key(id) && s.nodes[id] is Text {
                s.nodes.insert(id, NodeModel::Text { value })
            } else {
                s.nodes
            },
            root: s.root,
        },
        OpModel::Append { parent, child } => if parent == ROOT_PARENT {
            SceneModel { nodes: s.nodes, root: Some(child) }
        } else {
            SceneModel {
                nodes: with_children(
                    s.nodes,
                    parent,
                    appended(children_of(s.nodes, parent), child),
                ),
                root: s.root,
            }
        },
        OpModel::Insert { parent, child, before } => if parent == ROOT_PARENT {
            SceneModel { nodes: s.nodes, root: Some(child) }
        } else {
            SceneModel {
                nodes: with_children(
                    s.nodes,
                    parent,
                    inserted(children_of(s.nodes, parent), child, before),
                ),
                root: s.root,
            }
        },
        OpModel::Remove { parent, child } => if parent == ROOT_PARENT {
            SceneModel {
                nodes: s.nodes,
                root: if s.root == Some(child) {
                    None
                } else {
                    s.root
                },
            }
        } else {
            SceneModel {
                nodes: with_children(s.nodes, parent, without(children_of(s.nodes, parent), child)),
                root: s.root,
            }
        },
        OpModel::Drop { id } => SceneModel {
            nodes: s.nodes.remove_keys(subtree(s.nodes, id)),
            root: s.root,
        },
        OpModel::SetRoot { id } => SceneModel { nodes: s.nodes, root: Some(id) },
    }
}

// ---------------------------------------------------------------------------
// Paths and subtrees
// ---------------------------------------------------------------------------

/// A path of a map is a path of any map that contains it.
proof fn lemma_path_submap(
    small: Map<NodeId, NodeModel>,
    big: Map<NodeId, NodeModel>,
    p: Seq<NodeId>,
)
    requires
        small.submap_of(big),
        is_path(small, p),
    ensures
        is_path(big, p),
{
    assert forall|i: int| 0 <= i < p.len() - 1 implies #[trigger] children_of(big, p[i]).contains(
        p[i + 1],
    ) by {
        assert(small.contains_key(p[i]));
        assert(children_of(small, p[i]) == children_of(big, p[i]));
    }
}

/// A path that avoids `x` is a path of the map without `x`.
proof fn lemma_path_restricted(m: Map<NodeId, NodeModel>, x: Set<NodeId>, p: Seq<NodeId>)
    requires
        is_path(m, p),
        forall|i: int| 0 <= i < p.len() ==> !x.contains(#[trigger] p[i]),
    ensures
        is_path(m.remove_keys(x), p),
{
    let n = m.remove_keys(x);
    assert forall|i: int| 0 <= i < p.len() implies n.contains_key(#[trigger] p[i]) by {}
    assert forall|i: int| 0 <= i < p.len() - 1 implies #[trigger] children_of(n, p[i]).contains(
        p[i + 1],
    ) by {
        assert(n.contains_key(p[i]));
        assert(children_of(n, p[i]) == children_of(m, p[i]));
    }
}

/// Joining a path that ends where another starts gives a path.
proof fn lemma_path_concat(m: Map<NodeId, NodeModel>, p: Seq<NodeId>, q: Seq<NodeId>)
    requires
        is_path(m, p),
        is_path(m, q),
        p.last() == q[0],
    ensures
        is_path(m, p + q.skip(1)),
        (p + q.skip(1))[0] == p[0],
        (p + q.skip(1)).last() == q.last(),
{
    let r = p + q.skip(1);
    assert forall|i: int| 0 <= i < r.len() implies m.contains_key(#[trigger] r[i]) by {
        if i >= p.len() {
            assert(r[i] == q[i - p.len() + 1]);
        }
    }
    assert forall|i: int| 0 <= i < r.len() - 1 implies #[trigger] children_of(m, r[i]).contains(
        r[i + 1],
    ) by {
        if i < p.len() - 1 {
            assert(r[i] == p[i] && r[i + 1] == p[i + 1]);
        } else if i == p.len() - 1 {
            assert(r[i] == q[0] && r[i + 1] == q[1]);
            assert(children_of(m, q[0]).contains(q[0int + 1]));
        } else {
            let j = i - p.len() + 1;
            assert(r[i] == q[j] && r[i + 1] == q[j + 1]);
            assert(children_of(m, q[j]).contains(q[j + 1]));
        }
    }
    if q.len() == 1 {
        assert(r =~= p);
    } else {
        assert(r.last() == q.skip(1).last());
    }
}

/// A suffix of a path is a path.
proof fn lemma_path_skip(m: Map<NodeId, NodeModel>, p: Seq<NodeId>, t: int)
    requires
        is_path(m, p),
        0 <= t < p.len(),
    ensures
        is_path(m, p.skip(t)),
{
    let q = p.skip(t);
    assert forall|i: int| 0 <= i < q.len() implies m.contains_key(#[trigger] q[i]) by {
        assert(q[i] == p[t + i]);
    }
    assert forall|i: int| 0 <= i < q.len() - 1 implies #[trigger] children_of(m, q[i]).contains(
        q[i + 1],
    ) by {
        assert(q[i] == p[t + i] && q[i + 1] == p[t + i + 1]);
        assert(children_of(m, p[t + i]).contains(p[t + i + 1]));
    }
}

/// The last place where a path that starts at `v` visits `v`.
proof fn lemma_last_visit(p: Seq<NodeId>, v: NodeId) -> (t: int)
    requires
        p.len() > 0,
        p[0] == v,
    ensures
        0 <= t < p.len(),
        p[t] == v,
        forall|j: int| t < j < p.len() ==> p[j] != v,
    decreases p.len(),
{
    if p.last() == v {
        p.len() - 1
    } else {
        let t = lemma_last_visit(p.drop_last(), v);
        assert forall|j: int| t < j < p.len() implies p[j] != v by {
            if j < p.len() - 1 {
                assert(p.drop_last()[j] == p[j]);
            }
        }
        t
    }
}

/// Every node reaches itself.
proof fn lemma_reaches_self(m: Map<NodeId, NodeModel>, id: NodeId)
    requires
        m.contains_key(id),
    ensures
        reaches(m, id, id),
{
    let p = seq![id];
    assert(is_path(m, p));
    assert(is_path(m, p) && p[0] == id && p.last() == id);
}

/// Nothing is reached from a node that is not there.
proof fn lemma_subtree_absent(m: Map<NodeId, NodeModel>, id: NodeId)
    requires
        !m.contains_key(id),
    ensures
        subtree(m, id) == Set::<NodeId>::empty(),
{
    assert forall|x: NodeId| !reaches(m, id, x) by {
        if reaches(m, id, x) {
            let p = choose|p: Seq<NodeId>| is_path(m, p) && p[0] == id && p.last() == x;
            assert(m.contains_key(p[0]));
        }
    }
    assert(subtree(m, id) =~= Set::<NodeId>::empty());
}

/// The subtree of a text node is the node alone.
proof fn lemma_subtree_text(m: Map<NodeId, NodeModel>, id: NodeId)
    requires
        m.contains_key(id),
        m[id] is Text,
    ensures
        subtree(m, id) == set![id],
{
    lemma_reaches_self(m, id);
    assert forall|x: NodeId| reaches(m, id, x) implies x == id by {
        let p = choose|p: Seq<NodeId>| is_path(m, p) && p[0] == id && p.last() == x;
        if p.len() > 1 {
            assert(children_of(m, p[0]).contains(p[0int + 1]));
        }
    }
    assert(subtree(m, id) =~= set![id]);
}

/// Dropping an element: its subtree is the element and the subtrees of its
/// children in the map without the element.
proof fn lemma_subtree_element(m: Map<NodeId, NodeModel>, id: NodeId)
    requires
        m.contains_key(id),
        m[id] is Element,
    ensures
        m.remove_keys(subtree(m, id)) == m.remove(id).remove_keys(
            subtrees(m.remove(id), children_of(m, id)),
        ),
{
    let m1 = m.remove(id);
    let cs = children_of(m, id);
    lemma_reaches_self(m, id);
    assert forall|k: NodeId| k != id && m.contains_key(k) implies (reaches(m, id, k) <==> exists|
        j: int,
    | 0 <= j < cs.len() && reaches(m1, cs[j], k)) by {
        if reaches(m, id, k) {
            let p = choose|p: Seq<NodeId>| is_path(m, p) && p[0] == id && p.last() == k;
            let t = lemma_last_visit(p, id);
            assert(t < p.len() - 1);
            let q = p.skip(t + 1);
            lemma_path_skip(m, p, t + 1);
            assert forall|i: int| 0 <= i < q.len() implies !set![id].contains(#[trigger] q[i]) by {
                assert(q[i] == p[t + 1 + i]);
            }
            lemma_path_restricted(m, set![id], q);
            assert(m.remove_keys(set![id]) =~= m1);
            assert(children_of(m, p[t]).contains(p[t + 1]));
            let j = choose|j: int| 0 <= j < cs.len() && cs[j] == p[t + 1];
            assert(q[0] == cs[j]);
            assert(q.last() == k);
            assert(reaches(m1, cs[j], k));
        }
        if exists|j: int| 0 <= j < cs.len() && reaches(m1, cs[j], k) {
            let j = choose|j: int| 0 <= j < cs.len() && reaches(m1, cs[j], k);
            let q = choose|q: Seq<NodeId>| is_path(m1, q) && q[0] == cs[j] && q.last() == k;
            lemma_path_submap(m1, m, q);
            let e = seq![id, cs[j]];
            assert(children_of(m, e[0]).contains(e[0int + 1]));
            assert(is_path(m, e));
            lemma_path_concat(m, e, q);
            assert(reaches(m, id, k));
        }
    }
    assert(m.remove_keys(subtree(m, id)) =~= m1.remove_keys(subtrees(m1, cs)));
}

/// Dropping one more start after a set of subtrees is gone drops exactly
/// the subtree of that start in the original map.
proof fn lemma_subtrees_push(m: Map<NodeId, NodeModel>, starts: Seq<NodeId>, c: NodeId)
    ensures
        m.remove_keys(subtrees(m, starts)).remove_keys(
            subtree(m.remove_keys(subtrees(m, starts)), c),
        ) == m.remove_keys(subtrees(m, starts.push(c))),
{
    let x = subtrees(m, starts);
    let n = m.remove_keys(x);
    let s2 = starts.push(c);
    assert forall|k: NodeId| m.contains_key(k) && !x.contains(k) implies (reaches(n, c, k)
        <==> reaches(m, c, k)) by {
        if reaches(n, c, k) {
            let p = choose|p: Seq<NodeId>| is_path(n, p) && p[0] == c && p.last() == k;
            lemma_path_submap(n, m, p);
        }
        if reaches(m, c, k) {
            let p = choose|p: Seq<NodeId>| is_path(m, p) && p[0] == c && p.last() == k;
            assert forall|i: int| 0 <= i < p.len() implies !x.contains(#[trigger] p[i]) by {
                if x.contains(p[i]) {
                    let j = choose|j: int| 0 <= j < starts.len() && reaches(m, starts[j], p[i]);
                    let q = choose|q: Seq<NodeId>|
                        is_path(m, q) && q[0] == starts[j] && q.last() == p[i];
                    lemma_path_skip(m, p, i);
                    lemma_path_concat(m, q, p.skip(i));
                    assert(p.skip(i).last() == k);
                    assert(reaches(m, starts[j], k));
                }
            }
            lemma_path_restricted(m, x, p);
        }
    }
    assert forall|k: NodeId| subtrees(m, s2).contains(k) <==> (x.contains(k) || reaches(m, c, k)) by {
        if x.contains(k) {
            let j = choose|j: int| 0 <= j < starts.len() && reaches(m, starts[j], k);
            assert(s2[j] == starts[j]);
        }
        if reaches(m, c, k) {
            assert(s2[starts.len() as int] == c);
        }
        if subtrees(m, s2).contains(k) {
            let j = choose|j: int| 0 <= j < s2.len() && reaches(m, s2[j], k);
            if j < starts.len() {
                assert(s2[j] == starts[j]);
            }
        }
    }
    assert(n.remove_keys(subtree(n, c)) =~= m.remove_keys(subtrees(m, s2)));
}

// ---------------------------------------------------------------------------
// Children lists
// ---------------------------------------------------------------------------

/// `children` without `c` (`Vec::retain(|&x| x != c)`).
fn without_child(children: &Vec<NodeId>, c: NodeId) -> (r: Vec<NodeId>)
    ensures
        r@ == without(children@, c),
{
    let mut r: Vec<NodeId> = Vec::new();
    let mut i: usize = 0;
    while i < children.len()
        invariant
            i <= children.len(),
            r@ == without(children@.take(i as int), c),
        decreases children.len() - i,
    {
        let x = children[i];
        assert(children@.take(i + 1).drop_last() =~= children@.take(i as int));
        if x != c {
            r.push(x);
        }
        i += 1;
    }
    assert(children@.take(children.len() as int) =~= children@);
    r
}

proof fn lemma_first_index(s: Seq<NodeId>, x: NodeId, k: int)
    requires
        0 <= k <= s.len(),
        forall|j: int| 0 <= j < k ==> s[j] != x,
        k < s.len() ==> s[k] == x,
    ensures
        first_index(s, x) == if k < s.len() {
            k
        } else {
            -1
        },
    decreases k,
{
    if k > 0 {
        lemma_first_index(s.skip(1), x, k - 1);
    }
}

/// Index of the first `x` in `s` (`Iterator::position`).
fn position(s: &Vec<NodeId>, x: NodeId) -> (r: Option<usize>)
    ensures
        match r {
            Some(k) => first_index(s@, x) == k && k < s.len(),
            None => first_index(s@, x) == -1,
        },
{
    let mut i: usize = 0;
    while i < s.len()
        invariant
            i <= s.len(),
            forall|j: int| 0 <= j < i ==> s@[j] != x,
        decreases s.len() - i,
    {
        if s[i] == x {
            proof {
                lemma_first_index(s@, x, i as int);
            }
            return Some(i);
        }
        i += 1;
    }
    proof {
        lemma_first_index(s@, x, s.len() as int);
    }
    None
}

fn append_child(children: &Vec<NodeId>, child: NodeId) -> (r: Vec<NodeId>)
    ensures
        r@ == appended(children@, child),
{
    let mut r = without_child(children, child);
    r.push(child);
    r
}

fn insert_child(children: &Vec<NodeId>, child: NodeId, before: NodeId) -> (r: Vec<NodeId>)
    ensures
        r@ == inserted(children@, child, before),
{
    let mut r = without_child(children, child);
    match position(&r, before) {
        Some(k) => r.insert(k, child),
        None => r.push(child),
    }
    r
}

// ---------------------------------------------------------------------------
// The tree
// ---------------------------------------------------------------------------

impl ElementProps {
    /// The empty prop bundle (`ElementProps::default()`).
    pub fn new() -> (p: Self)
        ensures
            p@ == empty_props(),
    {
        let p = ElementProps {
            classes: Vec::new(),
            style: PropMap::new(),
            handlers: PropMap::new(),
            attrs: PropMap::new(),
        };
        assert(strings_model(p.classes@) =~= Seq::<Seq<char>>::empty());
        p
    }
}

impl SceneTree {
    /// An empty tree with no root.
    pub fn new() -> (t: Self)
        ensures
            t@.nodes == Map::<NodeId, NodeModel>::empty(),
            t@.root is None,
    {
        let t = SceneTree { nodes: HashMap::new(), root: None };
        assert(t@.nodes =~= Map::<NodeId, NodeModel>::empty());
        t
    }

    /// The root child of the container, if one is set.
    pub fn root(&self) -> (r: Option<NodeId>)
        ensures
            r == self@.root,
    {
        self.root
    }

    /// Number of nodes in the table.
    pub fn len(&self) -> (n: usize)
        ensures
            n == self@.nodes.dom().len(),
    {
        assert(self.nodes@.dom() =~= self@.nodes.dom());
        self.nodes.len()
    }

    /// The table of a tree is finite.
    pub proof fn lemma_nodes_finite(&self)
        ensures
            self@.nodes.dom().finite(),
    {
        assert(self.nodes@.dom() =~= self@.nodes.dom());
    }

    /// The node with id `id`, if the table holds one.
    pub fn get(&self, id: NodeId) -> (r: Option<&Node>)
        ensures
            match r {
                Some(n) => self@.nodes.contains_key(id) && self@.nodes[id] == n@,
                None => !self@.nodes.contains_key(id),
            },
    {
        self.nodes.get(&id)
    }

    /// Gives the element `id` the children that `op` computes from its
    /// current ones; does nothing unless `id` is an element.
    fn set_children_of(&mut self, id: NodeId, op: ChildEdit)
        ensures
            final(self)@.root == old(self)@.root,
            final(self)@.nodes == with_children(
                old(self)@.nodes,
                id,
                op.result(children_of(old(self)@.nodes, id)),
            ),
    {
        let ghost m0 = self.nodes@;
        match self.nodes.remove(&id) {
            None => {
                assert(self@.nodes =~= old(self)@.nodes);
            },
            Some(node) => {
                let node = match node {
                    Node::Element { tag, props, children } => {
                        let children = match op {
                            ChildEdit::Append(c) => append_child(&children, c),
                            ChildEdit::Insert(c, b) => insert_child(&children, c, b),
                            ChildEdit::Remove(c) => without_child(&children, c),
                        };
                        Node::Element { tag, props, children }
                    },
                    other => other,
                };
                self.nodes.insert(id, node);
                assert(self.nodes@ =~= m0.insert(id, node));
                assert(self@.nodes =~= with_children(
                    old(self)@.nodes,
                    id,
                    op.result(children_of(old(self)@.nodes, id)),
                ));
            },
        }
    }

    /// Applies a single mutation.
    pub fn apply(&mut self, op: Op)
        ensures
            final(self)@ == applied(old(self)@, op@),
    {
        let ghost s = self@;
        let ghost om = op@;
        let ghost m0 = self.nodes@;
        match op {
            Op::Create { id, tag } => {
                let node = Node::Element { tag, props: ElementProps::new(), children: Vec::new() };
                assert(node@ == NodeModel::Element {
                    tag: node->tag@,
                    props: empty_props(),
                    children: seq![],
                });
                self.nodes.insert(id, node);
                assert(self@.nodes =~= applied(s, om).nodes);
            },
            Op::CreateText { id, value } => {
                let node = Node::Text { value };
                self.nodes.insert(id, node);
                assert(self@.nodes =~= applied(s, om).nodes);
            },
            Op::SetProps { id, classes, style, handlers, attrs } => {
                match self.nodes.remove(&id) {
                    None => {
                        assert(self@.nodes =~= s.nodes);
                    },
                    Some(node) => {
                        let node = match node {
                            Node::Element { tag, props: _, children } => Node::Element {
                                tag,
                                props: ElementProps { classes, style, handlers, attrs },
                                children,
                            },
                            other => other,
                        };
                        self.nodes.insert(id, node);
                        assert(self.nodes@ =~= m0.insert(id, node));
                        assert(self@.nodes =~= applied(s, om).nodes);
                    },
                }
            },
            Op::UpdateText { id, value } => {
                match self.nodes.remove(&id) {
                    None => {
                        assert(self@.nodes =~= s.nodes);
                    },
                    Some(node) => {
                        let node = match node {
                            Node::Text { .. } => Node::Text { value },
                            other => other,
                        };
                        self.nodes.insert(id, node);
                        assert(self.nodes@ =~= m0.insert(id, node));
                        assert(self@.nodes =~= applied(s, om).nodes);
                    },
                }
            },
            Op::Append { parent, child } => {
                if parent == ROOT_PARENT {
                    self.root = Some(child);
                } else {
                    self.set_children_of(parent, ChildEdit::Append(child));
                }
            },
            Op::Insert { parent, child, before } => {
                if parent == ROOT_PARENT {
                    self.root = Some(child);
                } else {
                    self.set_children_of(parent, ChildEdit::Insert(child, before));
                }
            },
            Op::Remove { parent, child } => {
                if parent == ROOT_PARENT {
                    if self.root == Some(child) {
                        self.root = None;
                    }
                } else {
                    self.set_children_of(parent, ChildEdit::Remove(child));
                }
            },
            Op::Drop { id } => {
                self.drop_recursive(id);
            },
            Op::SetRoot { id } => {
                self.root = Some(id);
            },
        }
    }

    /// Removes `id` and, recursively, everything reachable from it.
    fn drop_recursive(&mut self, id: NodeId)
        ensures
            final(self)@.root == old(self)@.root,
            final(self)@.nodes == old(self)@.nodes.remove_keys(subtree(old(self)@.nodes, id)),
        decreases old(self).nodes@.dom().len(),
    {
        let ghost m0 = self@.nodes;
        let ghost e0 = self.nodes@;
        match self.nodes.remove(&id) {
            None => {
                proof {
                    lemma_subtree_absent(m0, id);
                }
                assert(self@.nodes =~= m0.remove_keys(subtree(m0, id)));
            },
            Some(node) => {
                match node {
                    Node::Text { .. } => {
                        proof {
                            lemma_subtree_text(m0, id);
                        }
                        assert(self@.nodes =~= m0.remove_keys(subtree(m0, id)));
                    },
                    Node::Element { children, .. } => {
                        let ghost m1 = self@.nodes;
                        let ghost cs = children@;
                        assert(m1 =~= m0.remove(id));
                        assert(cs == children_of(m0, id));
                        assert(m1 =~= m1.remove_keys(subtrees(m1, cs.take(0)))) by {
                            assert(subtrees(m1, cs.take(0)) =~= Set::<NodeId>::empty());
                        }
                        let mut i: usize = 0;
                        while i < children.len()
                            invariant
                                i <= children.len(),
                                children@ == cs,
                                self@.root == old(self)@.root,
                                self@.nodes == m1.remove_keys(subtrees(m1, cs.take(i as int))),
                                self.nodes@.dom() == self@.nodes.dom(),
                                m1.dom() == e0.dom().remove(id),
                                e0.dom().contains(id),
                                e0.dom().finite(),
                                e0 == old(self).nodes@,
                            decreases children.len() - i,
                        {
                            let c = children[i];
                            proof {
                                assert(self.nodes@.dom().subset_of(e0.dom().remove(id)));
                                vstd::set_lib::lemma_len_subset(self.nodes@.dom(), e0.dom().remove(id));
                                assert(e0.dom().remove(id).len() == e0.dom().len() - 1);
                                assert(self.nodes@.dom().len() < e0.dom().len());
                                lemma_subtrees_push(m1, cs.take(i as int), c);
                                assert(cs.take(i + 1) =~= cs.take(i as int).push(c));
                            }
                            self.drop_recursive(c);
                            assert(self.nodes@.dom() =~= self@.nodes.dom());
                            i += 1;
                        }
                        proof {
                            assert(cs.take(cs.len() as int) =~= cs);
                            lemma_subtree_element(m0, id);
                        }
                    },
                }
            },
        }
    }

    /// Applies a batch of ops in order; returns whether there was any.
    pub fn apply_ops(&mut self, ops: Vec<Op>) -> (changed: bool)
        ensures
            changed == (ops@.len() > 0),
            final(self)@ == applied_all(old(self)@, ops@.map_values(|o: Op| o@)),
    {
        let ghost models = ops@.map_values(|o: Op| o@);
        let ghost start = self@;
        let changed = ops.len() > 0;
        for op in it: ops
            invariant
                models == it.seq().map_values(|o: Op| o@),
                self@ == applied_all(start, models.take(it.index() as int)),
        {
            proof {
                assert(models.take(it.index() + 1).drop_last() =~= models.take(it.index() as int));
            }
            self.apply(op);
        }
        proof {
            assert(models.take(models.len() as int) =~= models);
        }
        changed
    }
}

/// Which edit a children list receives.
enum ChildEdit {
    Append(NodeId),
    Insert(NodeId, NodeId),
    Remove(NodeId),
}

impl ChildEdit {
    spec fn result(self, children: Seq<NodeId>) -> Seq<NodeId> {
        match self {
            ChildEdit::Append(c) => appended(children, c),
            ChildEdit::Insert(c, b) => inserted(children, c, b),
            ChildEdit::Remove(c) => without(children, c),
        }
    }
}

/// The scene after applying `ops` in order.
pub open spec fn applied_all(s: SceneModel, ops: Seq<OpModel>) -> SceneModel
    decreases ops.len(),
{
    if ops.len() == 0 {
        s
    } else {
        applied(applied_all(s, ops.drop_last()), ops.last())
    }
}

// ---------------------------------------------------------------------------
// Laws of the tree
// ---------------------------------------------------------------------------

/// `without(s, c)` holds exactly the members of `s` other than `c`.
pub proof fn lemma_without_contains(s: Seq<NodeId>, c: NodeId, x: NodeId)
    ensures
        without(s, c).contains(x) <==> (s.contains(x) && x != c),
    decreases s.len(),
{
    if s.len() > 0 {
        let d = s.drop_last();
        let l = s.last();
        lemma_without_contains(d, c, x);
        assert(d.contains(x) ==> s.contains(x)) by {
            if d.contains(x) {
                let i = choose|i: int| 0 <= i < d.len() && d[i] == x;
                assert(s[i] == x);
            }
        }
        assert(s.contains(x) ==> (d.contains(x) || x == l)) by {
            if s.contains(x) && x != l {
                let i = choose|i: int| 0 <= i < s.len() && s[i] == x;
                assert(i != s.len() - 1);
                assert(d[i] == x);
            }
        }
        assert(x == l ==> s.contains(x)) by {
            if x == l {
                assert(s[s.len() - 1] == x);
            }
        }
        if l != c {
            let w = without(d, c);
            assert(w.push(l).contains(x) <==> (w.contains(x) || x == l)) by {
                if w.push(l).contains(x) && x != l {
                    let i = choose|i: int| 0 <= i < w.len() + 1 && w.push(l)[i] == x;
                    assert(w[i] == x);
                }
                if w.contains(x) {
                    let i = choose|i: int| 0 <= i < w.len() && w[i] == x;
                    assert(w.push(l)[i] == x);
                }
                if x == l {
                    assert(w.push(l)[w.len() as int] == x);
                }
            }
        }
    }
}

/// `first_index` finds a member, and finds every member.
pub proof fn lemma_first_index_found(s: Seq<NodeId>, x: NodeId)
    ensures
        first_index(s, x) >= 0 ==> first_index(s, x) < s.len() && s[first_index(s, x)] == x,
        s.contains(x) ==> first_index(s, x) >= 0,
    decreases s.len(),
{
    if s.len() > 0 && s[0] != x {
        lemma_first_index_found(s.skip(1), x);
        if s.contains(x) {
            let i = choose|i: int| 0 <= i < s.len() && s[i] == x;
            assert(s.skip(1)[i - 1] == x);
        }
    }
}

/// Creating an element makes `id` an element with the given tag, no props
/// and no children; nothing else changes.
pub proof fn law_create_makes_empty_element(s: SceneModel, id: NodeId, tag: Seq<char>)
    ensures
        ({
            let t = applied(s, OpModel::Create { id, tag });
            &&& t.nodes.contains_key(id)
            &&& t.nodes[id] == NodeModel::Element { tag, props: empty_props(), children: seq![] }
            &&& forall|k: NodeId| k != id ==> t.nodes.contains_key(k) == s.nodes.contains_key(k)
            &&& forall|k: NodeId| k != id && s.nodes.contains_key(k) ==> t.nodes[k] == s.nodes[k]
            &&& t.root == s.root
        }),
{
}

/// Text ops write what a later read gives back: `CreateText` makes `id` a
/// text node holding `value`, and `UpdateText` replaces the text of a text
/// node; `UpdateText` on an element or a missing id changes nothing. Neither
/// touches another node or the root.
pub proof fn law_text_ops_write_the_text(s: SceneModel, id: NodeId, value: Seq<char>)
    ensures
        ({
            let c = applied(s, OpModel::CreateText { id, value });
            &&& c.nodes.contains_key(id) && c.nodes[id] == NodeModel::Text { value }
            &&& c.nodes.remove(id) == s.nodes.remove(id)
            &&& c.root == s.root
        }),
        ({
            let u = applied(s, OpModel::UpdateText { id, value });
            &&& if s.nodes.contains_key(id) && s.nodes[id] is Text {
                u.nodes.contains_key(id) && u.nodes[id] == NodeModel::Text { value }
            } else {
                u.nodes == s.nodes
            }
            &&& u.nodes.remove(id) == s.nodes.remove(id)
            &&& u.root == s.root
        }),
{
    let c = applied(s, OpModel::CreateText { id, value });
    assert(c.nodes.remove(id) =~= s.nodes.remove(id));
    let u = applied(s, OpModel::UpdateText { id, value });
    assert(u.nodes.remove(id) =~= s.nodes.remove(id));
}

/// `SetRoot` sets the root and leaves the node table alone.
pub proof fn law_set_root_sets_the_root(s: SceneModel, id: NodeId)
    ensures
        applied(s, OpModel::SetRoot { id }) == (SceneModel { nodes: s.nodes, root: Some(id) }),
{
}

/// `SetProps` replaces the prop bundle of an element and keeps its tag and
/// its children.
pub proof fn law_set_props_replaces_props(s: SceneModel, id: NodeId, props: PropsModel)
    requires
        s.nodes.contains_key(id),
        s.nodes[id] is Element,
    ensures
        ({
            let t = applied(s, OpModel::SetProps { id, props });
            &&& t.nodes.contains_key(id)
            &&& t.nodes[id] == NodeModel::Element {
                tag: s.nodes[id]->tag,
                props,
                children: s.nodes[id]->children,
            }
            &&& t.nodes.dom() == s.nodes.dom()
        }),
{
    let t = applied(s, OpModel::SetProps { id, props });
    assert(t.nodes.dom() =~= s.nodes.dom());
}

/// An op that targets the container sets or clears the root and leaves the
/// node table alone.
pub proof fn law_container_ops_only_touch_root(s: SceneModel, child: NodeId, before: NodeId)
    ensures
        ({
            let a = applied(s, OpModel::Append { parent: ROOT_PARENT, child });
            let i = applied(s, OpModel::Insert { parent: ROOT_PARENT, child, before });
            let r = applied(s, OpModel::Remove { parent: ROOT_PARENT, child });
            &&& a.nodes == s.nodes && a.root == Some(child)
            &&& i.nodes == s.nodes && i.root == Some(child)
            &&& r.nodes == s.nodes
            &&& r.root == if s.root == Some(child) {
                None
            } else {
                s.root
            }
        }),
{
}

/// `Append` makes `child` the last child of an element `parent`, exactly
/// once, after the other children in their old order.
pub proof fn law_append_places_child_last(s: SceneModel, parent: NodeId, child: NodeId)
    requires
        parent != ROOT_PARENT,
        s.nodes.contains_key(parent),
        s.nodes[parent] is Element,
    ensures
        ({
            let t = applied(s, OpModel::Append { parent, child });
            let cs = children_of(t.nodes, parent);
            &&& cs.len() > 0
            &&& cs.last() == child
            &&& !cs.drop_last().contains(child)
            &&& cs.drop_last() == without(children_of(s.nodes, parent), child)
            &&& t.nodes.dom() == s.nodes.dom()
            &&& forall|k: NodeId| k != parent && s.nodes.contains_key(k) ==> t.nodes[k] == s.nodes[k]
        }),
{
    let t = applied(s, OpModel::Append { parent, child });
    let old_cs = children_of(s.nodes, parent);
    lemma_without_contains(old_cs, child, child);
    assert(children_of(t.nodes, parent).drop_last() =~= without(old_cs, child));
    assert(t.nodes.dom() =~= s.nodes.dom());
}

/// `Insert` puts `child` immediately before `before` when `before` is among
/// the children of the element `parent`, and `child` occurs there once.
pub proof fn law_insert_places_child_before(
    s: SceneModel,
    parent: NodeId,
    child: NodeId,
    before: NodeId,
)
    requires
        parent != ROOT_PARENT,
        child != before,
        s.nodes.contains_key(parent),
        s.nodes[parent] is Element,
        children_of(s.nodes, parent).contains(before),
    ensures
        ({
            let t = applied(s, OpModel::Insert { parent, child, before });
            let cs = children_of(t.nodes, parent);
            &&& exists|k: int|
                #![trigger cs[k]]
                0 <= k < cs.len() - 1 && cs[k] == child && cs[k + 1] == before && forall|j: int|
                    0 <= j < cs.len() && j != k ==> #[trigger] cs[j] != child
            &&& t.nodes.dom() == s.nodes.dom()
        }),
{
    let t = applied(s, OpModel::Insert { parent, child, before });
    let old_cs = children_of(s.nodes, parent);
    let w = without(old_cs, child);
    lemma_without_contains(old_cs, child, before);
    lemma_without_contains(old_cs, child, child);
    lemma_first_index_found(w, before);
    let k = first_index(w, before);
    let cs = children_of(t.nodes, parent);
    assert(cs == w.insert(k, child));
    assert(cs[k] == child);
    assert(cs[k + 1] == w[k]);
    assert forall|j: int| 0 <= j < cs.len() && j != k implies cs[j] != child by {
        if j < k {
            assert(cs[j] == w[j]);
        } else {
            assert(cs[j] == w[j - 1]);
        }
    }
    assert(t.nodes.dom() =~= s.nodes.dom());
}

/// `Remove` detaches `child` from the element `parent` and drops nothing:
/// every node stays in the table.
pub proof fn law_remove_detaches_without_dropping(s: SceneModel, parent: NodeId, child: NodeId)
    requires
        parent != ROOT_PARENT,
    ensures
        ({
            let t = applied(s, OpModel::Remove { parent, child });
            &&& !children_of(t.nodes, parent).contains(child)
            &&& t.nodes.dom() == s.nodes.dom()
            &&& t.root == s.root
        }),
{
    let t = applied(s, OpModel::Remove { parent, child });
    lemma_without_contains(children_of(s.nodes, parent), child, child);
    assert(t.nodes.dom() =~= s.nodes.dom());
}

/// `Drop` removes the node and every node reachable from it through
/// children lists, and keeps every other node unchanged.
pub proof fn law_drop_removes_exactly_the_subtree(s: SceneModel, id: NodeId)
    ensures
        ({
            let t = applied(s, OpModel::Drop { id });
            &&& !t.nodes.contains_key(id)
            &&& forall|x: NodeId| #[trigger]
                t.nodes.contains_key(x) <==> s.nodes.contains_key(x) && !reaches(s.nodes, id, x)
            &&& forall|x: NodeId| #[trigger] t.nodes.contains_key(x) ==> t.nodes[x] == s.nodes[x]
            &&& forall|x: NodeId|
                #![trigger children_of(s.nodes, id).contains(x)]
                children_of(s.nodes, id).contains(x) ==> !t.nodes.contains_key(x)
            &&& t.root == s.root
        }),
{
    if s.nodes.contains_key(id) {
        lemma_reaches_self(s.nodes, id);
    }
    assert forall|x: NodeId| children_of(s.nodes, id).contains(x) implies !applied(
        s,
        OpModel::Drop { id },
    ).nodes.contains_key(x) by {
        if s.nodes.contains_key(x) {
            let p = seq![id, x];
            assert(children_of(s.nodes, p[0]).contains(p[0int + 1]));
            assert(is_path(s.nodes, p) && p[0] == id && p.last() == x);
        }
    }
}

/// Ops may arrive in any number of commits: applying `a` and then `b` gives
/// the tree that applying them as one batch gives.
pub proof fn law_batches_compose(s: SceneModel, a: Seq<OpModel>, b: Seq<OpModel>)
    ensures
        applied_all(applied_all(s, a), b) == applied_all(s, a + b),
    decreases b.len(),
{
    if b.len() == 0 {
        assert(a + b =~= a);
    } else {
        law_batches_compose(s, a, b.drop_last());
        assert((a + b).drop_last() =~= a + b.drop_last());
        assert((a + b).last() == b.last());
    }
}

/// Every children list of `nodes` holds each child once.
pub open spec fn children_distinct(nodes: Map<NodeId, NodeModel>) -> bool {
    forall|id: NodeId| nodes.contains_key(id) ==> (#[trigger] children_of(nodes, id)).no_duplicates()
}

/// `without` keeps a list free of duplicates.
proof fn lemma_without_distinct(s: Seq<NodeId>, c: NodeId)
    requires
        s.no_duplicates(),
    ensures
        without(s, c).no_duplicates(),
    decreases s.len(),
{
    if s.len() > 0 {
        let d = s.drop_last();
        let l = s.last();
        assert(d.no_duplicates()) by {
            assert forall|i: int, j: int| 0 <= i < d.len() && 0 <= j < d.len() && i != j implies d[i]
                != d[j] by {
                assert(d[i] == s[i] && d[j] == s[j]);
            }
        }
        lemma_without_distinct(d, c);
        if l != c {
            let w = without(d, c);
            lemma_without_contains(d, c, l);
            assert(!d.contains(l)) by {
                if d.contains(l) {
                    let i = choose|i: int| 0 <= i < d.len() && d[i] == l;
                    assert(s[i] == s[s.len() - 1]);
                }
            }
            lemma_push_distinct(w, l);
        }
    }
}

/// Adding a new member at the end keeps a list free of duplicates.
proof fn lemma_push_distinct(s: Seq<NodeId>, x: NodeId)
    requires
        s.no_duplicates(),
        !s.contains(x),
    ensures
        s.push(x).no_duplicates(),
{
    let t = s.push(x);
    assert forall|i: int, j: int| 0 <= i < t.len() && 0 <= j < t.len() && i != j implies t[i]
        != t[j] by {
        if i < s.len() && j < s.len() {
            assert(t[i] == s[i] && t[j] == s[j]);
        } else if i < s.len() {
            assert(t[i] == s[i]);
        } else {
            assert(t[j] == s[j]);
        }
    }
}

/// Inserting a new member anywhere keeps a list free of duplicates.
proof fn lemma_insert_distinct(s: Seq<NodeId>, k: int, x: NodeId)
    requires
        s.no_duplicates(),
        !s.contains(x),
        0 <= k <= s.len(),
    ensures
        s.insert(k, x).no_duplicates(),
{
    let t = s.insert(k, x);
    assert forall|i: int, j: int| 0 <= i < t.len() && 0 <= j < t.len() && i != j implies t[i]
        != t[j] by {
        let si = if i < k { i } else { i - 1 };
        let sj = if j < k { j } else { j - 1 };
        if i != k && j != k {
            assert(t[i] == s[si] && t[j] == s[sj]);
        } else if i == k {
            assert(t[j] == s[sj]);
        } else {
            assert(t[i] == s[si]);
        }
    }
}

/// Giving an element a list without duplicates keeps the table's lists
/// free of duplicates.
proof fn lemma_with_children_distinct(nodes: Map<NodeId, NodeModel>, id: NodeId, cs: Seq<NodeId>)
    requires
        children_distinct(nodes),
        cs.no_duplicates(),
    ensures
        children_distinct(with_children(nodes, id, cs)),
{
    let n = with_children(nodes, id, cs);
    assert forall|k: NodeId| n.contains_key(k) implies (#[trigger] children_of(n, k)).no_duplicates() by {
        if k != id || !nodes.contains_key(id) || nodes[id] is Text {
            assert(children_of(n, k) == children_of(nodes, k));
        } else {
            assert(children_of(n, k) == cs);
        }
    }
}

/// No op puts a child twice into a children list: a tree whose lists hold
/// each child once keeps them so after any op.
pub proof fn law_children_stay_distinct(s: SceneModel, op: OpModel)
    requires
        children_distinct(s.nodes),
    ensures
        children_distinct(applied(s, op).nodes),
{
    let t = applied(s, op);
    match op {
        OpModel::Create { id, tag } => {
            assert forall|k: NodeId| t.nodes.contains_key(k) implies (#[trigger] children_of(
                t.nodes,
                k,
            )).no_duplicates() by {
                if k != id {
                    assert(children_of(t.nodes, k) == children_of(s.nodes, k));
                } else {
                    assert(children_of(t.nodes, k) =~= Seq::<NodeId>::empty());
                }
            }
        },
        OpModel::CreateText { id, value } => {
            assert forall|k: NodeId| t.nodes.contains_key(k) implies (#[trigger] children_of(
                t.nodes,
                k,
            )).no_duplicates() by {
                if k != id {
                    assert(children_of(t.nodes, k) == children_of(s.nodes, k));
                } else {
                    assert(children_of(t.nodes, k) =~= Seq::<NodeId>::empty());
                }
            }
        },
        OpModel::SetProps { id, props } => {
            assert forall|k: NodeId| t.nodes.contains_key(k) implies (#[trigger] children_of(
                t.nodes,
                k,
            )).no_duplicates() by {
                assert(children_of(t.nodes, k) == children_of(s.nodes, k));
            }
        },
        OpModel::UpdateText { id, value } => {
            assert forall|k: NodeId| t.nodes.contains_key(k) implies (#[trigger] children_of(
                t.nodes,
                k,
            )).no_duplicates() by {
                if k != id {
                    assert(children_of(t.nodes, k) == children_of(s.nodes, k));
                } else {
                    assert(children_of(t.nodes, k) =~= children_of(s.nodes, k));
                }
            }
        },
        OpModel::Append { parent, child } => {
            if parent != ROOT_PARENT {
                let old_cs = children_of(s.nodes, parent);
                if s.nodes.contains_key(parent) {
                    assert(old_cs.no_duplicates());
                    lemma_without_distinct(old_cs, child);
                    lemma_without_contains(old_cs, child, child);
                    lemma_push_distinct(without(old_cs, child), child);
                    lemma_with_children_distinct(s.nodes, parent, appended(old_cs, child));
                }
            }
        },
        OpModel::Insert { parent, child, before } => {
            if parent != ROOT_PARENT {
                let old_cs = children_of(s.nodes, parent);
                if s.nodes.contains_key(parent) {
                    assert(old_cs.no_duplicates());
                    let cs = without(old_cs, child);
                    lemma_without_distinct(old_cs, child);
                    lemma_without_contains(old_cs, child, child);
                    lemma_first_index_found(cs, before);
                    let k = first_index(cs, before);
                    if k >= 0 {
                        lemma_insert_distinct(cs, k, child);
                    } else {
                        lemma_push_distinct(cs, child);
                    }
                    lemma_with_children_distinct(s.nodes, parent, inserted(old_cs, child, before));
                }
            }
        },
        OpModel::Remove { parent, child } => {
            if parent != ROOT_PARENT {
                let old_cs = children_of(s.nodes, parent);
                if s.nodes.contains_key(parent) {
                    assert(old_cs.no_duplicates());
                    lemma_without_distinct(old_cs, child);
                    lemma_with_children_distinct(s.nodes, parent, without(old_cs, child));
                }
            }
        },
        OpModel::Drop { id } => {
            assert forall|k: NodeId| t.nodes.contains_key(k) implies (#[trigger] children_of(
                t.nodes,
                k,
            )).no_duplicates() by {
                assert(children_of(t.nodes, k) == children_of(s.nodes, k));
            }
        },
        OpModel::SetRoot { id } => {},
    }
}

} // verus!
