//! The printer: an explicit-stack traversal that writes a node's S-expression.
use crate::expr::{children_precede, children_text, node_text, symbols_interned, ENode, Id};
use vstd::prelude::*;
use vstd::string::*;

verus! {

/// Whether every node names only children inserted before it.
pub(crate) fn check_children_precede(nodes: &Vec<ENode>) -> (r: bool)
    ensures
        r == children_precede(nodes@),
{
    let mut i: usize = 0;
    while i < nodes.len()
        invariant
            i <= nodes@.len(),
            forall|a: int, j: int|
                0 <= a < i && 0 <= j < nodes@[a].children@.len() ==> (
                #[trigger] nodes@[a].children@[j]) < a,
        decreases nodes@.len() - i,
    {
        let children = &nodes[i].children;
        let mut j: usize = 0;
        while j < children.len()
            invariant
                i < nodes@.len(),
                children@ == nodes@[i as int].children@,
                j <= children@.len(),
                forall|b: int| 0 <= b < j ==> (#[trigger] children@[b]) < i,
            decreases children@.len() - j,
        {
            if children[j] as usize >= i {
                assert(!(nodes@[i as int].children@[j as int] < i));
                return false;
            }
            j = j + 1;
        }
        i = i + 1;
    }
    true
}

/// Work left for the printer: a whole subtree, or one separator character.
#[derive(Clone, Copy)]
enum Step {
    Node(Id),
    Space,
    Close,
}

spec fn step_text(nodes: Seq<ENode>, s: Step) -> Seq<char> {
    match s {
        Step::Node(id) => node_text(nodes, id as int),
        Step::Space => seq![' '],
        Step::Close => seq![')'],
    }
}

/// The text still to be written for a stack whose top is its last element.
spec fn pending_text(nodes: Seq<ENode>, stack: Seq<Step>) -> Seq<char>
    decreases stack.len(),
{
    if stack.len() == 0 {
        Seq::empty()
    } else {
        step_text(nodes, stack.last()) + pending_text(nodes, stack.drop_last())
    }
}

/// How many steps a subtree takes to print: one to open it, one to close it,
/// and for each child a separator and the child's own steps.
spec fn node_weight(nodes: Seq<ENode>, id: int) -> nat
    decreases id, 1int, 0int,
{
    if 0 <= id < nodes.len() {
        2 + children_weight(nodes, id, nodes[id].children@.len() as int)
    } else {
        2
    }
}

spec fn children_weight(nodes: Seq<ENode>, id: int, k: int) -> nat
    decreases id, 0int, k,
{
    if k <= 0 || id < 0 || id >= nodes.len() || k > nodes[id].children@.len() {
        0
    } else {
        let c = nodes[id].children@[k - 1] as int;
        children_weight(nodes, id, k - 1) + 1 + (if c < id {
            node_weight(nodes, c)
        } else {
            0
        })
    }
}

spec fn step_weight(nodes: Seq<ENode>, s: Step) -> nat {
    match s {
        Step::Node(id) => node_weight(nodes, id as int),
        _ => 1,
    }
}

spec fn pending_weight(nodes: Seq<ENode>, stack: Seq<Step>) -> nat
    decreases stack.len(),
{
    if stack.len() == 0 {
        0
    } else {
        step_weight(nodes, stack.last()) + pending_weight(nodes, stack.drop_last())
    }
}

spec fn steps_in_range(nodes: Seq<ENode>, stack: Seq<Step>) -> bool {
    forall|i: int|
        0 <= i < stack.len() ==> match #[trigger] stack[i] {
            Step::Node(id) => id < nodes.len(),
            _ => true,
        }
}

/// Writes the S-expression of node `root` after what `out` holds, with an
/// explicit stack in place of recursion, so deep trees cannot exhaust the call
/// stack.
pub(crate) fn render_from(nodes: &Vec<ENode>, root: Id, out: &mut String)
    requires
        children_precede(nodes@),
        symbols_interned(nodes@),
        root < nodes@.len(),
    ensures
        final(out)@ == old(out)@ + node_text(nodes@, root as int),
{
    let ghost start = out@;
    let mut stack: Vec<Step> = Vec::new();
    stack.push(Step::Node(root));
    proof {
        assert(stack@.drop_last() =~= Seq::<Step>::empty());
        assert(pending_text(nodes@, stack@.drop_last()) == Seq::<char>::empty());
        assert(pending_text(nodes@, stack@) =~= node_text(nodes@, root as int));
    }
    while stack.len() > 0
        invariant
            children_precede(nodes@),
            symbols_interned(nodes@),
            steps_in_range(nodes@, stack@),
            out@ + pending_text(nodes@, stack@) == start + node_text(nodes@, root as int),
        decreases pending_weight(nodes@, stack@),
    {
        let ghost before = stack@;
        let step = stack.pop().unwrap();
        assert(stack@ == before.drop_last());
        assert(step == before.last());
        let ghost rest = stack@;
        let ghost out0 = out@;
        match step {
            Step::Space => {
                proof {
                    reveal_strlit(" ");
                    assert(" "@ =~= seq![' ']);
                }
                out.append(" ");
                assert(out@ + pending_text(nodes@, stack@) =~= out0 + pending_text(nodes@, before));
            },
            Step::Close => {
                proof {
                    reveal_strlit(")");
                    assert(")"@ =~= seq![')']);
                }
                out.append(")");
                assert(out@ + pending_text(nodes@, stack@) =~= out0 + pending_text(nodes@, before));
            },
            Step::Node(id) => {
                assert(id < nodes@.len()) by {
                    assert(before[before.len() - 1] == step);
                }
                let node = &nodes[id as usize];
                assert(crate::symbol::symbol_interned(node.symbol));
                if node.is_leaf() {
                    out.append(node.symbol.as_str());
                    assert(out@ + pending_text(nodes@, stack@) =~= out0 + pending_text(
                        nodes@,
                        before,
                    ));
                } else {
                    proof {
                        reveal_strlit("(");
                        assert("("@ =~= seq!['(']);
                    }
                    out.append("(");
                    out.append(node.symbol.as_str());
                    stack.push(Step::Close);
                    proof {
                        assert(stack@.drop_last() == rest);
                        assert(steps_in_range(nodes@, stack@)) by {
                            assert forall|i: int| 0 <= i < stack@.len() implies match #[trigger] stack@[i] {
                                Step::Node(x) => x < nodes@.len(),
                                _ => true,
                            } by {
                                if i < rest.len() {
                                    assert(stack@[i] == rest[i]);
                                    assert(rest[i] == before[i]);
                                }
                            }
                        }
                    }
                    let n = node.children.len();
                    let mut k: usize = n;
                    while k > 0
                        invariant
                            children_precede(nodes@),
                            id < nodes@.len(),
                            *node == nodes@[id as int],
                            n == node.children@.len(),
                            k <= n,
                            steps_in_range(nodes@, stack@),
                            children_text(nodes@, id as int, k as int) + pending_text(nodes@, stack@)
                                == children_text(nodes@, id as int, n as int) + seq![')']
                                + pending_text(nodes@, rest),
                            children_weight(nodes@, id as int, k as int) + pending_weight(
                                nodes@,
                                stack@,
                            ) == children_weight(nodes@, id as int, n as int) + 1
                                + pending_weight(nodes@, rest),
                        decreases k,
                    {
                        k = k - 1;
                        let c = node.children[k];
                        assert(c < id);
                        let ghost s0 = stack@;
                        stack.push(Step::Node(c));
                        let ghost s1 = stack@;
                        stack.push(Step::Space);
                        proof {
                            assert(stack@.drop_last() == s1);
                            assert(s1.drop_last() == s0);
                            assert(steps_in_range(nodes@, stack@)) by {
                                assert forall|i: int| 0 <= i < stack@.len() implies match #[trigger] stack@[i] {
                                    Step::Node(x) => x < nodes@.len(),
                                    _ => true,
                                } by {
                                    if i < s0.len() {
                                        assert(stack@[i] == s0[i]);
                                    }
                                }
                            }
                            assert(stack@.last() == Step::Space);
                            assert(s1.last() == Step::Node(c));
                            assert(pending_text(nodes@, s1) == node_text(nodes@, c as int)
                                + pending_text(nodes@, s0));
                            assert(pending_weight(nodes@, s1) == node_weight(nodes@, c as int)
                                + pending_weight(nodes@, s0));
                            assert(pending_weight(nodes@, stack@) == 1 + pending_weight(nodes@, s1));
                            assert(children_weight(nodes@, id as int, k + 1) == children_weight(
                                nodes@,
                                id as int,
                                k as int,
                            ) + 1 + node_weight(nodes@, c as int));
                            assert(pending_text(nodes@, stack@) == seq![' '] + (node_text(
                                nodes@,
                                c as int,
                            ) + pending_text(nodes@, s0)));
                            assert(children_text(nodes@, id as int, k + 1) == children_text(
                                nodes@,
                                id as int,
                                k as int,
                            ) + seq![' '] + node_text(nodes@, c as int));
                        }
                    }
                    assert(children_text(nodes@, id as int, 0) == Seq::<char>::empty());
                    assert(children_weight(nodes@, id as int, 0) == 0);
                    assert(out@ + pending_text(nodes@, stack@) =~= out0 + pending_text(
                        nodes@,
                        before,
                    ));
                }
            },
        }
    }
    assert(pending_text(nodes@, stack@) == Seq::<char>::empty());
    assert(out@ =~= start + node_text(nodes@, root as int));
}

} // verus!
