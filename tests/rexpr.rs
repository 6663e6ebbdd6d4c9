use coegraph::symbol::intern;
use coegraph::{ENode, ExprError, RExprBuilder};
use symbol_table::GlobalSymbol;

#[test]
fn test_rexpr() {
    let mut builder = RExprBuilder::new();
    let a = builder.insert(GlobalSymbol::new("a"), Vec::new());
    let b = builder.insert(GlobalSymbol::new("b"), vec![a]);
    let c = builder.insert(GlobalSymbol::new("c"), vec![a, b]);
    let d = builder.insert(GlobalSymbol::new("d"), vec![c]);

    let r = builder.build(d);
    assert_eq!(format!("{}", r.to_sexpr().unwrap()), "(d (c a (b a)))");
}

#[test]
fn ids_are_dense_and_zero_based() {
    let mut builder = RExprBuilder::new();
    for k in 0..50u32 {
        let children = if k == 0 { Vec::new() } else { vec![k - 1] };
        assert_eq!(builder.insert(GlobalSymbol::new("n"), children), k);
    }
    let r = builder.build(49);
    assert_eq!(r.enodes().len(), 50);
    assert_eq!(r.root(), 49);
}

#[test]
fn duplicate_insertions_get_distinct_ids() {
    let mut builder = RExprBuilder::new();
    let a1 = builder.insert(GlobalSymbol::new("a"), Vec::new());
    let a2 = builder.insert(GlobalSymbol::new("a"), Vec::new());
    assert_eq!(a1, 0);
    assert_eq!(a2, 1);
    let r = builder.build(a2);
    assert_eq!(r.enodes().len(), 2);
}

#[test]
fn leaf_renders_without_parentheses() {
    let mut builder = RExprBuilder::new();
    let x = builder.insert(GlobalSymbol::new("x"), Vec::new());
    let _ = builder.insert(GlobalSymbol::new("f"), vec![x]);
    let r = builder.build(x);
    assert_eq!(r.to_sexpr(), Ok("x".to_string()));
}

#[test]
fn single_leaf_root() {
    let mut builder = RExprBuilder::new();
    let only = builder.insert(GlobalSymbol::new("hello"), Vec::new());
    let r = builder.build(only);
    assert_eq!(r.to_sexpr(), Ok("hello".to_string()));
}

#[test]
fn child_order_is_kept_with_repeats() {
    let mut builder = RExprBuilder::new();
    let x = builder.insert(GlobalSymbol::new("x"), Vec::new());
    let y = builder.insert(GlobalSymbol::new("y"), Vec::new());
    let g = builder.insert(GlobalSymbol::new("g"), vec![y, x]);
    let f = builder.insert(GlobalSymbol::new("f"), vec![x, g, x]);
    let r = builder.build(f);
    assert_eq!(r.to_sexpr(), Ok("(f x (g y x) x)".to_string()));
}

#[test]
fn rendering_twice_gives_the_same_text() {
    let mut builder = RExprBuilder::new();
    let a = builder.insert(GlobalSymbol::new("a"), Vec::new());
    let b = builder.insert(GlobalSymbol::new("+"), vec![a, a]);
    let r = builder.build(b);
    let first = r.to_sexpr();
    let second = r.to_sexpr();
    assert_eq!(first, Ok("(+ a a)".to_string()));
    assert_eq!(first, second);
}

#[test]
fn forward_child_is_reported() {
    let mut builder = RExprBuilder::new();
    let a = builder.insert(GlobalSymbol::new("a"), Vec::new());
    let b = builder.insert(GlobalSymbol::new("b"), vec![a, 7]);
    let r = builder.build(b);
    assert_eq!(r.to_sexpr(), Err(ExprError::ForwardReference));
}

#[test]
fn self_reference_is_reported() {
    let mut builder = RExprBuilder::new();
    let a = builder.insert(GlobalSymbol::new("a"), vec![0]);
    let r = builder.build(a);
    assert_eq!(r.to_sexpr(), Err(ExprError::ForwardReference));
}

#[test]
fn unreachable_forward_child_is_reported() {
    let mut builder = RExprBuilder::new();
    let a = builder.insert(GlobalSymbol::new("a"), Vec::new());
    let _ = builder.insert(GlobalSymbol::new("b"), vec![5]);
    let r = builder.build(a);
    assert_eq!(r.to_sexpr(), Err(ExprError::ForwardReference));
}

#[test]
fn root_out_of_range_is_reported() {
    let mut builder = RExprBuilder::new();
    let _ = builder.insert(GlobalSymbol::new("a"), Vec::new());
    let r = builder.build(1);
    assert_eq!(r.to_sexpr(), Err(ExprError::RootOutOfRange));
    let empty = RExprBuilder::new().build(0);
    assert_eq!(empty.to_sexpr(), Err(ExprError::RootOutOfRange));
}

#[test]
fn multi_character_operators_render_in_full() {
    let mut builder = RExprBuilder::new();
    let x = builder.insert(GlobalSymbol::new("var_x"), Vec::new());
    let one = builder.insert(GlobalSymbol::new("1"), Vec::new());
    let add = builder.insert(GlobalSymbol::new("add"), vec![x, one]);
    let r = builder.build(add);
    assert_eq!(r.to_sexpr(), Ok("(add var_x 1)".to_string()));
}

#[test]
fn is_leaf_follows_children() {
    let leaf = ENode { symbol: GlobalSymbol::new("a"), children: Vec::new() };
    let inner = ENode { symbol: GlobalSymbol::new("f"), children: vec![0] };
    assert!(leaf.is_leaf());
    assert!(!inner.is_leaf());
}

#[test]
fn built_nodes_are_those_inserted() {
    let mut builder = RExprBuilder::new();
    let a = builder.insert(GlobalSymbol::new("a"), Vec::new());
    let b = builder.insert(GlobalSymbol::new("b"), vec![a, a]);
    let r = builder.build(b);
    let nodes = r.enodes();
    assert_eq!(nodes[0].symbol.as_str(), "a");
    assert!(nodes[0].children.is_empty());
    assert_eq!(nodes[1].symbol.as_str(), "b");
    assert_eq!(nodes[1].children, vec![0, 0]);
}

#[test]
fn deep_chain_renders_without_recursion() {
    let mut builder = RExprBuilder::new();
    let mut last = builder.insert(GlobalSymbol::new("a"), Vec::new());
    for _ in 0..200_000u32 {
        last = builder.insert(GlobalSymbol::new("n"), vec![last]);
    }
    let text = builder.build(last).to_sexpr().unwrap();
    assert_eq!(text.len(), 1 + 4 * 200_000);
    let expected = format!("{}a{}", "(n ".repeat(200_000), ")".repeat(200_000));
    assert!(text == expected);
}

#[test]
fn builder_len_counts_insertions() {
    let mut builder = RExprBuilder::new();
    assert_eq!(builder.len(), 0);
    let a = builder.insert(GlobalSymbol::new("a"), Vec::new());
    assert_eq!(builder.len(), 1);
    let _ = builder.insert(GlobalSymbol::new("b"), vec![a]);
    assert_eq!(builder.len(), 2);
}

#[test]
fn interned_operators_render_as_their_text() {
    let op = intern("mul".to_string());
    assert_eq!(op.as_str(), "mul");
    let mut builder = RExprBuilder::new();
    let x = builder.insert(intern("x".to_string()), Vec::new());
    let m = builder.insert(op, vec![x, x]);
    assert_eq!(builder.build(m).to_sexpr(), Ok("(mul x x)".to_string()));
}
