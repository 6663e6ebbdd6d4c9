use crate::print::{check_children_precede, render_from};
use crate::symbol::{symbol_interned, symbol_text};
use symbol_table::GlobalSymbol;
use vstd::prelude::*;

verus! {

/// Index of a node in the sequence that produced it.
pub type Id = u32;

/// One operator applied to the ids of earlier nodes.
#[derive(Debug, Clone)]
pub struct ENode {
    pub symbol: GlobalSymbol,
    pub children: Vec<Id>,
}

impl ENode {
    pub fn is_leaf(&self) -> (r: bool)
        ensures
            r == (self.children@.len() == 0),
    {
        self.children.len() == 0
    }
}

/// Every node refers only to nodes inserted strictly before it.
pub open spec fn children_precede(nodes: Seq<ENode>) -> bool {
    forall|i: int, j: int|
        0 <= i < nodes.len() && 0 <= j < nodes[i].children@.len() ==> (
        #[trigger] nodes[i].children@[j]) < i
}

/// Every node's operator is a handle that the symbol table handed out.
pub open spec fn symbols_interned(nodes: Seq<ENode>) -> bool {
    forall|i: int| 0 <= i < nodes.len() ==> symbol_interned(#[trigger] nodes[i].symbol)
}

/// A root inside the sequence, and no forward or self reference anywhere.
pub open spec fn well_formed(root: int, nodes: Seq<ENode>) -> bool {
    &&& 0 <= root < nodes.len()
    &&& children_precede(nodes)
}

/// The S-expression of node `id`: a leaf is its operator's text alone, an
/// interior node is `(op c1 c2 ...)`. Only ids below `id` are followed, so the
/// text is defined whatever the sequence holds.
pub open spec fn node_text(nodes: Seq<ENode>, id: int) -> Seq<char>
    decreases id, 1int, 0int,
{
    if 0 <= id < nodes.len() {
        let n = nodes[id];
        if n.children@.len() == 0 {
            symbol_text(n.symbol)
        } else {
            seq!['('] + symbol_text(n.symbol) + children_text(nodes, id, n.children@.len() as int)
                + seq![')']
        }
    } else {
        Seq::empty()
    }
}

/// The first `k` children of node `id`, each preceded by one space.
pub open spec fn children_text(nodes: Seq<ENode>, id: int, k: int) -> Seq<char>
    decreases id, 0int, k,
{
    if k <= 0 || id < 0 || id >= nodes.len() || k > nodes[id].children@.len() {
        Seq::empty()
    } else {
        let c = nodes[id].children@[k - 1] as int;
        children_text(nodes, id, k - 1) + seq![' '] + (if c < id {
            node_text(nodes, c)
        } else {
            Seq::empty()
        })
    }
}

/// A finished expression: a root and the node sequence it indexes. It offers
/// no way to change either once built.
#[derive(Debug, Clone)]
pub struct RExpr {
    root: Id,
    enodes: Vec<ENode>,
}

/// Why an expression cannot be rendered.
#[derive(Debug, Clone, Copy, PartialEq, Eq, Structural)]
pub enum ExprError {
    /// The root id names no node.
    RootOutOfRange,
    /// Some node names a child that was not inserted before it.
    ForwardReference,
}

impl View for RExpr {
    /// The root and the nodes.
    type V = (Id, Seq<ENode>);

    closed spec fn view(&self) -> (Id, Seq<ENode>) {
        (self.root, self.enodes@)
    }
}

/// What rendering `e` yields: the S-expression from the root when `e` is well
/// formed, otherwise the first failed condition.
pub open spec fn renders_as(e: (Id, Seq<ENode>), r: Result<String, ExprError>) -> bool {
    let (root, nodes) = e;
    match r {
        Ok(s) => well_formed(root as int, nodes) && s@ == node_text(nodes, root as int),
        Err(ExprError::RootOutOfRange) => root >= nodes.len(),
        Err(ExprError::ForwardReference) => root < nodes.len() && !children_precede(nodes),
    }
}

impl RExpr {
    pub fn root(&self) -> (r: Id)
        ensures
            r == self@.0,
    {
        self.root
    }

    pub fn enodes(&self) -> (r: &Vec<ENode>)
        ensures
            r@ == self@.1,
    {
        &self.enodes
    }

    /// The S-expression of the whole expression, or why it has none.
    pub fn to_sexpr(&self) -> (r: Result<String, ExprError>)
        requires
            symbols_interned(self@.1),
        ensures
            renders_as(self@, r),
    {
        if self.root as usize >= self.enodes.len() {
            return Err(ExprError::RootOutOfRange);
        }
        if !check_children_precede(&self.enodes) {
            return Err(ExprError::ForwardReference);
        }
        let mut out = String::new();
        render_from(&self.enodes, self.root, &mut out);
        assert(out@ =~= node_text(self.enodes@, self.root as int));
        Ok(out)
    }
}

/// Accumulates nodes, handing out dense ids, until it is frozen by `build`.
pub struct RExprBuilder {
    enodes: Vec<ENode>,
}

impl View for RExprBuilder {
    /// The nodes inserted so far, in insertion order.
    type V = Seq<ENode>;

    closed spec fn view(&self) -> Seq<ENode> {
        self.enodes@
    }
}

impl RExprBuilder {
    pub fn new() -> (r: Self)
        ensures
            r@ == Seq::<ENode>::empty(),
    {
        RExprBuilder { enodes: Vec::new() }
    }

    /// The number of nodes inserted so far, which is also the next id.
    pub fn len(&self) -> (r: usize)
        ensures
            r == self@.len(),
    {
        self.enodes.len()
    }

    /// Appends a node and returns its id, the number of nodes before it.
    /// Child ids are not checked here; rendering reports a bad one.
    pub fn insert(&mut self, symbol: GlobalSymbol, children: Vec<Id>) -> (r: Id)
        requires
            old(self)@.len() <= Id::MAX,
        ensures
            r == old(self)@.len(),
            final(self)@ == old(self)@.push(ENode { symbol, children }),
            final(self)@.last().symbol == symbol,
            final(self)@.last().children@ == children@,
    {
        let id = self.enodes.len() as Id;
        self.enodes.push(ENode { symbol, children });
        id
    }

    /// Freezes the nodes under `root`.
    pub fn build(self, root: Id) -> (r: RExpr)
        ensures
            r@ == (root, self@),
    {
        RExpr { root, enodes: self.enodes }
    }
}

} // verus!
