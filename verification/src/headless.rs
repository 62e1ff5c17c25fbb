//! The logic of the headless smoke test: its command line, the text of a
//! subtree, and the search for the pressable element a label names.
//!
//! Walks start at a node and follow children lists in document order. A
//! walk goes at most as many levels deep as the table holds nodes: every
//! path of a tree (or of any table without cycles) fits in that, so the
//! bound only matters for a table whose children lists form a cycle, where
//! an unbounded walk would not end.
use vstd::prelude::*;
use vstd::string::*;

use crate::scene::{children_of, is_path, Node, NodeId, NodeModel, SceneTree};
use crate::text::{
    contains_str, contains_text, str_eq, to_owned_string, trim, trimmed, utf8_len, utf8_len_of,
};
use crate::widgets::press_handler_spec;

verus! {

/// The text of the subtree under `id` in document order, walking at most
/// `depth` levels.
pub open spec fn text_of(m: Map<NodeId, NodeModel>, id: NodeId, depth: nat) -> Seq<char>
    decreases depth, 0nat,
{
    if depth == 0 || !m.contains_key(id) {
        seq![]
    } else {
        match m[id] {
            NodeModel::Text { value } => value,
            NodeModel::Element { children, .. } => texts_of(m, children, (depth - 1) as nat),
        }
    }
}

/// The texts of the subtrees under `cs`, one after the other.
pub open spec fn texts_of(m: Map<NodeId, NodeModel>, cs: Seq<NodeId>, depth: nat) -> Seq<char>
    decreases depth, cs.len(),
{
    if cs.len() == 0 {
        seq![]
    } else {
        texts_of(m, cs.drop_last(), depth) + text_of(m, cs.last(), depth)
    }
}

/// The elements of the subtree under `id` in document order (pre-order),
/// walking at most `depth` levels.
pub open spec fn elements_of(m: Map<NodeId, NodeModel>, id: NodeId, depth: nat) -> Seq<NodeId>
    decreases depth, 0nat,
{
    if depth == 0 || !m.contains_key(id) {
        seq![]
    } else {
        match m[id] {
            NodeModel::Text { .. } => seq![],
            NodeModel::Element { children, .. } => seq![id] + elements_in(
                m,
                children,
                (depth - 1) as nat,
            ),
        }
    }
}

/// The elements of the subtrees under `cs`, one after the other.
pub open spec fn elements_in(m: Map<NodeId, NodeModel>, cs: Seq<NodeId>, depth: nat) -> Seq<
    NodeId,
>
    decreases depth, cs.len(),
{
    if cs.len() == 0 {
        seq![]
    } else {
        elements_in(m, cs.drop_last(), depth) + elements_of(m, cs.last(), depth)
    }
}

/// No node of `m` is its own descendant: every path visits each node once.
pub open spec fn acyclic(m: Map<NodeId, NodeModel>) -> bool {
    forall|p: Seq<NodeId>| #[trigger] is_path(m, p) ==> p.no_duplicates()
}

/// A path of a table without cycles has at most as many nodes as the table.
proof fn lemma_path_fits(m: Map<NodeId, NodeModel>, p: Seq<NodeId>)
    requires
        m.dom().finite(),
        acyclic(m),
        is_path(m, p),
    ensures
        p.len() <= m.dom().len(),
{
    p.unique_seq_to_set();
    assert forall|x: NodeId| p.to_set().contains(x) implies m.dom().contains(x) by {
        let i = choose|i: int| 0 <= i < p.len() && p[i] == x;
        assert(m.contains_key(p[i]));
    }
    vstd::set_lib::lemma_len_subset(p.to_set(), m.dom());
}

/// Extending a path by a child of its last node that is in the table.
proof fn lemma_path_push(m: Map<NodeId, NodeModel>, q: Seq<NodeId>, c: NodeId)
    requires
        is_path(m, q),
        m.contains_key(c),
        children_of(m, q.last()).contains(c),
    ensures
        is_path(m, q.push(c)),
{
    let r = q.push(c);
    assert forall|i: int| 0 <= i < r.len() implies m.contains_key(#[trigger] r[i]) by {
        if i < q.len() {
            assert(r[i] == q[i]);
        }
    }
    assert forall|i: int| 0 <= i < r.len() - 1 implies #[trigger] children_of(m, r[i]).contains(
        r[i + 1],
    ) by {
        if i < q.len() - 1 {
            assert(r[i] == q[i] && r[i + 1] == q[i + 1]);
            assert(children_of(m, q[i]).contains(q[i + 1]));
        } else {
            assert(r[i] == q.last() && r[i + 1] == c);
        }
    }
}

/// The walks from the end of the path `q` give the same result at any two
/// depths that, added to the length of `q`, exceed the size of the table.
proof fn lemma_walk_stable(m: Map<NodeId, NodeModel>, q: Seq<NodeId>, d1: nat, d2: nat)
    requires
        m.dom().finite(),
        acyclic(m),
        is_path(m, q),
        d1 + q.len() > m.dom().len(),
        d2 + q.len() > m.dom().len(),
    ensures
        text_of(m, q.last(), d1) == text_of(m, q.last(), d2),
        elements_of(m, q.last(), d1) == elements_of(m, q.last(), d2),
    decreases m.dom().len() - q.len(), 1nat, 0nat,
{
    lemma_path_fits(m, q);
    let id = q.last();
    assert(m.contains_key(q[q.len() - 1]));
    match m[id] {
        NodeModel::Text { .. } => {},
        NodeModel::Element { children, .. } => {
            assert(children_of(m, id) == children);
            lemma_walks_stable(m, q, children, (d1 - 1) as nat, (d2 - 1) as nat);
        },
    }
}

/// The same for the walks from the children `cs` of the end of `q`.
proof fn lemma_walks_stable(
    m: Map<NodeId, NodeModel>,
    q: Seq<NodeId>,
    cs: Seq<NodeId>,
    d1: nat,
    d2: nat,
)
    requires
        m.dom().finite(),
        acyclic(m),
        is_path(m, q),
        forall|i: int| 0 <= i < cs.len() ==> children_of(m, q.last()).contains(#[trigger] cs[i]),
        d1 + q.len() + 1 > m.dom().len(),
        d2 + q.len() + 1 > m.dom().len(),
    ensures
        texts_of(m, cs, d1) == texts_of(m, cs, d2),
        elements_in(m, cs, d1) == elements_in(m, cs, d2),
    decreases m.dom().len() - q.len(), 0nat, cs.len(),
{
    lemma_path_fits(m, q);
    if cs.len() > 0 {
        let c = cs.last();
        assert(children_of(m, q.last()).contains(cs[cs.len() - 1]));
        lemma_walks_stable(m, q, cs.drop_last(), d1, d2);
        if m.contains_key(c) {
            lemma_path_push(m, q, c);
            lemma_path_fits(m, q.push(c));
            lemma_walk_stable(m, q.push(c), d1, d2);
            assert(q.push(c).last() == c);
        }
        assert(text_of(m, c, d1) == text_of(m, c, d2));
        assert(elements_of(m, c, d1) == elements_of(m, c, d2));
    }
}

/// On a table without cycles, walking deeper than the table has nodes adds
/// nothing: the walks of `subtree_text` and `find_press_handler`, bounded by
/// the number of nodes, see the whole subtree under `id`.
pub proof fn law_walks_see_whole_subtrees(m: Map<NodeId, NodeModel>, id: NodeId, d: nat)
    requires
        m.dom().finite(),
        acyclic(m),
        d >= m.dom().len(),
    ensures
        text_of(m, id, d) == text_of(m, id, m.dom().len()),
        elements_of(m, id, d) == elements_of(m, id, m.dom().len()),
{
    if m.contains_key(id) {
        let q = seq![id];
        assert(is_path(m, q));
        lemma_walk_stable(m, q, d, m.dom().len());
    }
}

fn collect_text(scene: &SceneTree, id: NodeId, depth: usize, out: &mut String)
    ensures
        final(out)@ == old(out)@ + text_of(scene@.nodes, id, depth as nat),
    decreases depth, 0nat,
{
    if depth == 0 {
        assert(final(out)@ =~= old(out)@ + text_of(scene@.nodes, id, depth as nat));
        return;
    }
    match scene.get(id) {
        None => {
            assert(out@ =~= old(out)@ + text_of(scene@.nodes, id, depth as nat));
        },
        Some(Node::Text { value }) => {
            out.append(value.as_str());
        },
        Some(Node::Element { children, .. }) => {
            let ghost start = out@;
            let ghost cs = children@;
            let mut i: usize = 0;
            assert(start =~= start + texts_of(scene@.nodes, cs.take(0), (depth - 1) as nat));
            while i < children.len()
                invariant
                    i <= children.len(),
                    cs == children@,
                    depth > 0,
                    out@ == start + texts_of(scene@.nodes, cs.take(i as int), (depth - 1) as nat),
                decreases children.len() - i,
            {
                assert(cs.take(i + 1).drop_last() =~= cs.take(i as int));
                collect_text(scene, children[i], depth - 1, out);
                i += 1;
                assert(out@ =~= start + texts_of(
                    scene@.nodes,
                    cs.take(i as int),
                    (depth - 1) as nat,
                ));
            }
            assert(cs.take(cs.len() as int) =~= cs);
        },
    }
}

/// The concatenated text of the subtree under `id`, in document order.
pub fn subtree_text(scene: &SceneTree, id: NodeId) -> (r: String)
    ensures
        r@ == text_of(scene@.nodes, id, scene@.nodes.dom().len()),
{
    let mut out = String::new();
    collect_text(scene, id, scene.len(), &mut out);
    out
}

fn collect_elements(scene: &SceneTree, id: NodeId, depth: usize, out: &mut Vec<NodeId>)
    ensures
        final(out)@ == old(out)@ + elements_of(scene@.nodes, id, depth as nat),
    decreases depth, 0nat,
{
    if depth == 0 {
        assert(final(out)@ =~= old(out)@ + elements_of(scene@.nodes, id, depth as nat));
        return;
    }
    match scene.get(id) {
        None => {
            assert(out@ =~= old(out)@ + elements_of(scene@.nodes, id, depth as nat));
        },
        Some(Node::Text { .. }) => {
            assert(out@ =~= old(out)@ + elements_of(scene@.nodes, id, depth as nat));
        },
        Some(Node::Element { children, .. }) => {
            out.push(id);
            let ghost start = out@;
            let ghost cs = children@;
            let mut i: usize = 0;
            assert(start =~= start + elements_in(scene@.nodes, cs.take(0), (depth - 1) as nat));
            while i < children.len()
                invariant
                    i <= children.len(),
                    cs == children@,
                    depth > 0,
                    out@ == start + elements_in(scene@.nodes, cs.take(i as int), (depth - 1) as nat),
                decreases children.len() - i,
            {
                assert(cs.take(i + 1).drop_last() =~= cs.take(i as int));
                collect_elements(scene, children[i], depth - 1, out);
                i += 1;
                assert(out@ =~= start + elements_in(
                    scene@.nodes,
                    cs.take(i as int),
                    (depth - 1) as nat,
                ));
            }
            assert(cs.take(cs.len() as int) =~= cs);
        },
    }
}

/// The handler a press on `id` fires, if `id` is an element with one.
pub open spec fn node_press_handler(m: Map<NodeId, NodeModel>, id: NodeId) -> Option<u32> {
    if m.contains_key(id) {
        match m[id] {
            NodeModel::Element { props, .. } => press_handler_spec(props),
            NodeModel::Text { .. } => None,
        }
    } else {
        None
    }
}

/// The state of the search: the first exact match, and the shortest
/// containing match with its length in UTF-8 bytes.
pub struct PressSearch {
    pub exact: Option<u32>,
    pub containing: Option<(nat, u32)>,
}

/// One step of the search, at the element `id`.
pub open spec fn press_step(
    m: Map<NodeId, NodeModel>,
    label: Seq<char>,
    st: PressSearch,
    id: NodeId,
) -> PressSearch {
    match node_press_handler(m, id) {
        None => st,
        Some(h) => {
            let t = trimmed(text_of(m, id, m.dom().len()));
            if t == label && st.exact is None {
                PressSearch { exact: Some(h), containing: st.containing }
            } else if contains_text(t, label) && match st.containing {
                None => true,
                Some((n, _)) => utf8_len(t) < n,
            } {
                PressSearch { exact: st.exact, containing: Some((utf8_len(t), h)) }
            } else {
                st
            }
        },
    }
}

/// The search over elements in order.
pub open spec fn press_search(
    m: Map<NodeId, NodeModel>,
    label: Seq<char>,
    order: Seq<NodeId>,
) -> PressSearch
    decreases order.len(),
{
    if order.len() == 0 {
        PressSearch { exact: None, containing: None }
    } else {
        press_step(m, label, press_search(m, label, order.drop_last()), order.last())
    }
}

/// The handler the label `label` presses: among the elements with a press
/// handler, in document order from the root, the first whose trimmed
/// subtree text is `label`; failing that, the one with the shortest trimmed
/// text (in UTF-8 bytes, the first on ties) that contains `label`.
pub open spec fn press_target(s: crate::scene::SceneModel, label: Seq<char>) -> Option<u32> {
    match s.root {
        None => None,
        Some(root) => {
            let st = press_search(s.nodes, label, elements_of(s.nodes, root, s.nodes.dom().len()));
            match st.exact {
                Some(h) => Some(h),
                None => match st.containing {
                    Some((_, h)) => Some(h),
                    None => None,
                },
            }
        },
    }
}

/// The press handler of the node `id`, if it is an element with one.
fn handler_of(scene: &SceneTree, id: NodeId) -> (r: Option<u32>)
    ensures
        r == node_press_handler(scene@.nodes, id),
{
    match scene.get(id) {
        Some(Node::Element { props, .. }) => match props.handlers.get("onPress") {
            Some(h) => Some(*h),
            None => match props.handlers.get("onClick") {
                Some(h) => Some(*h),
                None => None,
            },
        },
        _ => None,
    }
}

/// A search state by its model.
pub open spec fn search_model(exact: Option<u32>, containing: Option<(u128, u32)>) -> PressSearch {
    PressSearch {
        exact,
        containing: match containing {
            Some((n, h)) => Some((n as nat, h)),
            None => None,
        },
    }
}

fn search_step(
    scene: &SceneTree,
    label: &str,
    exact: Option<u32>,
    containing: Option<(u128, u32)>,
    id: NodeId,
) -> (r: (Option<u32>, Option<(u128, u32)>))
    ensures
        search_model(r.0, r.1) == press_step(
            scene@.nodes,
            label@,
            search_model(exact, containing),
            id,
        ),
{
    match handler_of(scene, id) {
        None => (exact, containing),
        Some(h) => {
            let full = subtree_text(scene, id);
            let t = trim(full.as_str());
            let len = utf8_len_of(t);
            if str_eq(t, label) && exact.is_none() {
                (Some(h), containing)
            } else if contains_str(t, label) && match containing {
                None => true,
                Some((n, _)) => len < n,
            } {
                (exact, Some((len, h)))
            } else {
                (exact, containing)
            }
        },
    }
}

/// The handler of the element that best matches `label` (see
/// `press_target`).
pub fn find_press_handler(scene: &SceneTree, label: &str) -> (r: Option<u32>)
    ensures
        r == press_target(scene@, label@),
{
    let root = match scene.root() {
        Some(id) => id,
        None => return None,
    };
    let mut order: Vec<NodeId> = Vec::new();
    collect_elements(scene, root, scene.len(), &mut order);
    assert(order@ =~= elements_of(scene@.nodes, root, scene@.nodes.dom().len()));
    let ghost m = scene@.nodes;
    let mut exact: Option<u32> = None;
    let mut containing: Option<(u128, u32)> = None;
    let mut i: usize = 0;
    while i < order.len()
        invariant
            i <= order.len(),
            m == scene@.nodes,
            press_search(m, label@, order@.take(i as int)) == search_model(exact, containing),
        decreases order.len() - i,
    {
        let id = order[i];
        assert(order@.take(i + 1).drop_last() =~= order@.take(i as int));
        assert(order@.take(i + 1).last() == id);
        let (e, c) = search_step(scene, label, exact, containing, id);
        exact = e;
        containing = c;
        i += 1;
    }
    assert(order@.take(order.len() as int) =~= order@);
    match exact {
        Some(h) => Some(h),
        None => match containing {
            Some((_, h)) => Some(h),
            None => None,
        },
    }
}

/// The headless command line: a bundle path, `--press LABEL` any number of
/// times, and `--quiet-ops`.
#[derive(Debug)]
pub struct Cli {
    pub bundle: String,
    pub presses: Vec<String>,
    pub quiet_ops: bool,
}

/// Why a command line is refused.
#[derive(Debug, Clone, PartialEq, Eq)]
pub enum CliError {
    /// `--press` came last, without its label.
    MissingPressLabel,
    /// A second bundle path (or any argument after the bundle path that is
    /// no option).
    UnexpectedArgument(String),
    /// No bundle path.
    MissingBundle,
}

/// A command line by its model.
pub struct CliModel {
    pub bundle: Option<Seq<char>>,
    pub presses: Seq<Seq<char>>,
    pub quiet_ops: bool,
}

/// A refusal of `cli_scan`.
pub enum CliErrorModel {
    MissingPressLabel,
    UnexpectedArgument(Seq<char>),
}

/// Reads the arguments from the left, continuing from `st`.
pub open spec fn cli_scan(args: Seq<Seq<char>>, st: CliModel) -> Result<CliModel, CliErrorModel>
    decreases args.len(),
{
    if args.len() == 0 {
        Ok(st)
    } else if args[0] == "--press"@ {
        if args.len() < 2 {
            Err(CliErrorModel::MissingPressLabel)
        } else {
            cli_scan(
                args.skip(2),
                CliModel { bundle: st.bundle, presses: st.presses.push(args[1]), quiet_ops: st.quiet_ops },
            )
        }
    } else if args[0] == "--quiet-ops"@ {
        cli_scan(
            args.skip(1),
            CliModel { bundle: st.bundle, presses: st.presses, quiet_ops: true },
        )
    } else if st.bundle is None {
        cli_scan(
            args.skip(1),
            CliModel { bundle: Some(args[0]), presses: st.presses, quiet_ops: st.quiet_ops },
        )
    } else {
        Err(CliErrorModel::UnexpectedArgument(args[0]))
    }
}

impl CliError {
    /// The error message.
    pub fn message(&self) -> (m: String)
        ensures
            m@ == match self {
                CliError::MissingPressLabel => "--press requires a LABEL argument"@,
                CliError::UnexpectedArgument(a) => "unexpected argument: "@ + a@,
                CliError::MissingBundle => "usage: valhalla-headless <bundle.js> [--quiet-ops] [--press LABEL]..."@,
            },
    {
        match self {
            CliError::MissingPressLabel => to_owned_string("--press requires a LABEL argument"),
            CliError::UnexpectedArgument(a) => {
                let mut m = to_owned_string("unexpected argument: ");
                m.append(a.as_str());
                m
            },
            CliError::MissingBundle => to_owned_string(
                "usage: valhalla-headless <bundle.js> [--quiet-ops] [--press LABEL]...",
            ),
        }
    }
}

/// Parses the headless command line (the arguments after the program name).
pub fn parse_cli(args: Vec<String>) -> (r: Result<Cli, CliError>)
    ensures
        ({
            let scanned = cli_scan(
                args@.map_values(|a: String| a@),
                CliModel { bundle: None, presses: seq![], quiet_ops: false },
            );
            match r {
                Ok(cli) => scanned matches Ok(st) && st.bundle == Some(cli.bundle@)
                    && st.presses == cli.presses@.map_values(|a: String| a@) && st.quiet_ops
                    == cli.quiet_ops,
                Err(CliError::MissingPressLabel) => scanned matches Err(
                    CliErrorModel::MissingPressLabel,
                ),
                Err(CliError::UnexpectedArgument(a)) => scanned matches Err(
                    CliErrorModel::UnexpectedArgument(x),
                ) && x == a@,
                Err(CliError::MissingBundle) => scanned matches Ok(st) && st.bundle is None,
            }
        }),
{
    let ghost all = args@.map_values(|a: String| a@);
    let n = args.len();
    let mut bundle: Option<String> = None;
    let mut presses: Vec<String> = Vec::new();
    let mut quiet_ops = false;
    let mut i: usize = 0;
    assert(all.skip(0) =~= all);
    assert(presses@.map_values(|a: String| a@) =~= Seq::<Seq<char>>::empty());
    while i < n
        invariant
            n == args.len(),
            i <= n,
            all == args@.map_values(|a: String| a@),
            cli_scan(all, CliModel { bundle: None, presses: seq![], quiet_ops: false }) == cli_scan(
                all.skip(i as int),
                CliModel {
                    bundle: match bundle {
                        Some(b) => Some(b@),
                        None => None,
                    },
                    presses: presses@.map_values(|a: String| a@),
                    quiet_ops,
                },
            ),
        decreases n - i,
    {
        let ghost rest = all.skip(i as int);
        assert(rest[0] == args[i as int]@);
        let arg = &args[i];
        if str_eq(arg.as_str(), "--press") {
            if i + 1 >= n {
                return Err(CliError::MissingPressLabel);
            }
            assert(rest[1] == args[i + 1]@);
            assert(rest.skip(2) =~= all.skip(i + 2));
            let ghost before = presses@.map_values(|a: String| a@);
            presses.push(args[i + 1].clone());
            assert(presses@.map_values(|a: String| a@) =~= before.push(args[i + 1]@));
            i += 2;
        } else if str_eq(arg.as_str(), "--quiet-ops") {
            assert(rest.skip(1) =~= all.skip(i + 1));
            quiet_ops = true;
            i += 1;
        } else if bundle.is_none() {
            assert(rest.skip(1) =~= all.skip(i + 1));
            bundle = Some(arg.clone());
            i += 1;
        } else {
            return Err(CliError::UnexpectedArgument(arg.clone()));
        }
    }
    assert(all.skip(i as int).len() == 0);
    match bundle {
        Some(b) => Ok(Cli { bundle: b, presses, quiet_ops }),
        None => Err(CliError::MissingBundle),
    }
}

/// The trimmed subtree text of `id`, as the press search compares it.
pub open spec fn press_text(m: Map<NodeId, NodeModel>, id: NodeId) -> Seq<char> {
    trimmed(text_of(m, id, m.dom().len()))
}

/// `id` has a press handler and its text contains `label`.
pub open spec fn contains_label(m: Map<NodeId, NodeModel>, label: Seq<char>, id: NodeId) -> bool {
    node_press_handler(m, id) is Some && contains_text(press_text(m, id), label)
}

/// Without an exact match the search keeps, of the pressables whose text
/// contains the label, one whose text is shortest.
proof fn lemma_search_keeps_shortest(m: Map<NodeId, NodeModel>, label: Seq<char>, order: Seq<NodeId>)
    requires
        forall|j: int|
            0 <= j < order.len() && node_press_handler(m, #[trigger] order[j]) is Some
                ==> press_text(m, order[j]) != label,
    ensures
        press_search(m, label, order).exact is None,
        press_search(m, label, order).containing is None <==> forall|j: int|
            0 <= j < order.len() ==> !contains_label(m, label, #[trigger] order[j]),
        press_search(m, label, order).containing matches Some((n, h)) ==> exists|i: int|
            0 <= i < order.len() && contains_label(m, label, #[trigger] order[i])
                && node_press_handler(m, order[i]) == Some(h) && utf8_len(press_text(m, order[i]))
                == n,
        press_search(m, label, order).containing matches Some((n, h)) ==> forall|j: int|
            0 <= j < order.len() && contains_label(m, label, #[trigger] order[j]) ==> n <= utf8_len(
                press_text(m, order[j]),
            ),
    decreases order.len(),
{
    if order.len() > 0 {
        let prev = order.drop_last();
        let x = order.last();
        assert forall|j: int|
            0 <= j < prev.len() && node_press_handler(m, #[trigger] prev[j]) is Some implies press_text(
                m,
                prev[j],
            ) != label by {
            assert(prev[j] == order[j]);
        }
        lemma_search_keeps_shortest(m, label, prev);
        let st = press_search(m, label, prev);
        let last = order.len() - 1;
        assert(order[last] == x);
        assert forall|j: int| 0 <= j < prev.len() implies #[trigger] order[j] == prev[j] by {}
        if node_press_handler(m, x) is Some {
            assert(press_text(m, x) != label);
        }
        let st2 = press_search(m, label, order);
        if let Some((n, h)) = st2.containing {
            let n0: nat = match st.containing {
                Some((a, _)) => a,
                None => 0,
            };
            if contains_label(m, label, x) && (st.containing is None || utf8_len(press_text(m, x))
                < n0) {
                assert(contains_label(m, label, order[last]));
                assert forall|j: int|
                    0 <= j < order.len() && contains_label(m, label, #[trigger] order[j]) implies n
                    <= utf8_len(press_text(m, order[j])) by {
                    if j < last {
                        assert(contains_label(m, label, prev[j]));
                    }
                }
            } else {
                let i = choose|i: int|
                    0 <= i < prev.len() && contains_label(m, label, #[trigger] prev[i])
                        && node_press_handler(m, prev[i]) == Some(h) && utf8_len(
                        press_text(m, prev[i]),
                    ) == n;
                assert(contains_label(m, label, order[i]));
                assert forall|j: int|
                    0 <= j < order.len() && contains_label(m, label, #[trigger] order[j]) implies n
                    <= utf8_len(press_text(m, order[j])) by {
                    if j < last {
                        assert(contains_label(m, label, prev[j]));
                    }
                }
            }
        } else {
            assert forall|j: int| 0 <= j < order.len() implies !contains_label(
                m,
                label,
                #[trigger] order[j],
            ) by {
                if j < last {
                    assert(!contains_label(m, label, prev[j]));
                }
            }
        }
        if st.containing is None && !contains_label(m, label, x) {
            assert forall|j: int| 0 <= j < order.len() implies !contains_label(
                m,
                label,
                #[trigger] order[j],
            ) by {
                if j < last {
                    assert(!contains_label(m, label, prev[j]));
                }
            }
        }
    }
}

/// The elements the press search visits, in document order from the root.
pub open spec fn press_order(s: crate::scene::SceneModel) -> Seq<NodeId> {
    elements_of(s.nodes, s.root->0, s.nodes.dom().len())
}

/// When no pressable's trimmed text is the label, `find_press_handler`
/// presses a pressable whose text contains the label and is no longer (in
/// UTF-8 bytes) than that of any other pressable whose text contains it;
/// it finds nothing only when no pressable's text contains the label.
pub proof fn law_press_prefers_shortest_containing(s: crate::scene::SceneModel, label: Seq<char>)
    requires
        s.root is Some,
        forall|j: int|
            0 <= j < press_order(s).len() && node_press_handler(s.nodes, #[trigger] press_order(s)[j])
                is Some ==> press_text(s.nodes, press_order(s)[j]) != label,
    ensures
        press_target(s, label) is None <==> forall|j: int|
            0 <= j < press_order(s).len() ==> !contains_label(s.nodes, label, #[trigger] press_order(s)[j]),
        press_target(s, label) matches Some(h) ==> exists|i: int|
            0 <= i < press_order(s).len() && contains_label(s.nodes, label, #[trigger] press_order(s)[i])
                && node_press_handler(s.nodes, press_order(s)[i]) == Some(h) && forall|j: int|
                0 <= j < press_order(s).len() && contains_label(s.nodes, label, #[trigger] press_order(s)[j])
                    ==> utf8_len(press_text(s.nodes, press_order(s)[i])) <= utf8_len(
                    press_text(s.nodes, press_order(s)[j]),
                ),
{
    lemma_search_keeps_shortest(s.nodes, label, press_order(s));
}

/// `id` has a press handler and its text is exactly `label`.
pub open spec fn names_label(m: Map<NodeId, NodeModel>, label: Seq<char>, id: NodeId) -> bool {
    node_press_handler(m, id) is Some && press_text(m, id) == label
}

/// The search keeps the first pressable whose text is exactly the label.
proof fn lemma_search_keeps_first_exact(
    m: Map<NodeId, NodeModel>,
    label: Seq<char>,
    order: Seq<NodeId>,
)
    ensures
        press_search(m, label, order).exact is None <==> forall|j: int|
            0 <= j < order.len() ==> !names_label(m, label, #[trigger] order[j]),
        press_search(m, label, order).exact matches Some(h) ==> exists|i: int|
            0 <= i < order.len() && names_label(m, label, #[trigger] order[i])
                && node_press_handler(m, order[i]) == Some(h) && forall|j: int|
                0 <= j < i ==> !names_label(m, label, #[trigger] order[j]),
    decreases order.len(),
{
    if order.len() > 0 {
        let prev = order.drop_last();
        let last = order.len() - 1;
        lemma_search_keeps_first_exact(m, label, prev);
        assert forall|j: int| 0 <= j < prev.len() implies #[trigger] order[j] == prev[j] by {}
        let st = press_search(m, label, prev);
        if st.exact is None {
            assert forall|j: int| 0 <= j < last implies !names_label(m, label, #[trigger] order[j]) by {
                assert(!names_label(m, label, prev[j]));
            }
        } else {
            let h = st.exact->0;
            let i = choose|i: int|
                0 <= i < prev.len() && names_label(m, label, #[trigger] prev[i])
                    && node_press_handler(m, prev[i]) == Some(h) && forall|j: int|
                    0 <= j < i ==> !names_label(m, label, #[trigger] prev[j]);
            assert(names_label(m, label, order[i]));
            assert forall|j: int| 0 <= j < i implies !names_label(m, label, #[trigger] order[j]) by {
                assert(!names_label(m, label, prev[j]));
            }
        }
    }
}

/// A pressable whose trimmed text is exactly the label wins: the first one
/// in document order is pressed.
pub proof fn law_press_prefers_first_exact(s: crate::scene::SceneModel, label: Seq<char>, i: int)
    requires
        s.root is Some,
        0 <= i < press_order(s).len(),
        names_label(s.nodes, label, press_order(s)[i]),
        forall|j: int| 0 <= j < i ==> !names_label(s.nodes, label, #[trigger] press_order(s)[j]),
    ensures
        press_target(s, label) == node_press_handler(s.nodes, press_order(s)[i]),
{
    let order = press_order(s);
    lemma_search_keeps_first_exact(s.nodes, label, order);
    let st = press_search(s.nodes, label, order);
    assert(names_label(s.nodes, label, order[i]));
    let h = st.exact->0;
    let k = choose|k: int|
        0 <= k < order.len() && names_label(s.nodes, label, #[trigger] order[k])
            && node_press_handler(s.nodes, order[k]) == Some(h) && forall|j: int|
            0 <= j < k ==> !names_label(s.nodes, label, #[trigger] order[j]);
    if k < i {
        assert(!names_label(s.nodes, label, order[k]));
    } else if i < k {
        assert(!names_label(s.nodes, label, order[i]));
    }
}

} // verus!
