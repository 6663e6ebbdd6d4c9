//! Facts about rendering that hold for every expression.
use crate::expr::{children_precede, children_text, node_text, renders_as, well_formed, ENode, ExprError, Id};
use crate::symbol::symbol_text;
use vstd::prelude::*;

verus! {

/// A node without children renders as its operator's text alone, with no
/// parentheses.
pub proof fn lemma_leaf_renders_bare(nodes: Seq<ENode>, id: int)
    requires
        0 <= id < nodes.len(),
        nodes[id].children@.len() == 0,
    ensures
        node_text(nodes, id) == symbol_text(nodes[id].symbol),
{
}

/// The children of a node with three children are rendered in the order they
/// were given, each in full, even where two of them are the same id.
pub proof fn lemma_children_in_order(nodes: Seq<ENode>, id: int)
    requires
        children_precede(nodes),
        0 <= id < nodes.len(),
        nodes[id].children@.len() == 3,
    ensures
        ({
            let n = nodes[id];
            let x = n.children@[0] as int;
            let y = n.children@[1] as int;
            let z = n.children@[2] as int;
            node_text(nodes, id) == seq!['('] + symbol_text(n.symbol) + seq![' '] + node_text(
                nodes,
                x,
            ) + seq![' '] + node_text(nodes, y) + seq![' '] + node_text(nodes, z) + seq![')']
        }),
{
    let n = nodes[id];
    assert(n.children@[0] < id);
    assert(n.children@[1] < id);
    assert(n.children@[2] < id);
    let t0 = node_text(nodes, n.children@[0] as int);
    let t1 = node_text(nodes, n.children@[1] as int);
    let t2 = node_text(nodes, n.children@[2] as int);
    assert(children_text(nodes, id, 0) == Seq::<char>::empty());
    assert(children_text(nodes, id, 1) =~= seq![' '] + t0);
    assert(children_text(nodes, id, 2) =~= seq![' '] + t0 + seq![' '] + t1);
    assert(children_text(nodes, id, 3) =~= seq![' '] + t0 + seq![' '] + t1 + seq![' '] + t2);
    assert(node_text(nodes, id) =~= seq!['('] + symbol_text(n.symbol) + seq![' '] + t0 + seq![' ']
        + t1 + seq![' '] + t2 + seq![')']);
}

/// Rendering is a function of the expression: two results that both meet
/// rendering's contract for the same expression carry the same text, or the
/// same error.
pub proof fn lemma_render_deterministic(
    e: (Id, Seq<ENode>),
    a: Result<String, ExprError>,
    b: Result<String, ExprError>,
)
    requires
        renders_as(e, a),
        renders_as(e, b),
    ensures
        a is Ok <==> b is Ok,
        a is Ok ==> a->Ok_0@ == b->Ok_0@,
        a is Err ==> a->Err_0 == b->Err_0,
{
}

/// An expression of one leaf, rooted at it, is well formed and renders as the
/// leaf's operator text.
pub proof fn lemma_single_leaf_root(n: ENode)
    requires
        n.children@.len() == 0,
    ensures
        well_formed(0, seq![n]),
        node_text(seq![n], 0) == symbol_text(n.symbol),
{
}

/// A node that names a child at or past its own id, that is one not inserted
/// before it, makes every rendering of the expression fail.
pub proof fn lemma_forward_child_rejected(root: Id, nodes: Seq<ENode>, i: int, j: int)
    requires
        0 <= i < nodes.len(),
        0 <= j < nodes[i].children@.len(),
        nodes[i].children@[j] >= i,
    ensures
        !children_precede(nodes),
        forall|r: Result<String, ExprError>| #[trigger] renders_as((root, nodes), r) ==> r is Err,
{
}

} // verus!
