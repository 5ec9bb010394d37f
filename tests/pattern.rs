use clippy_lints::pattern::{checked, get, match_node, names_if_unique, Bound, Children, Pattern, Slot};
use clippy_lints::syntax::{NodeKind, SyntaxNode};

fn leaf(kind: NodeKind, lo: usize) -> SyntaxNode {
    SyntaxNode::new(kind, Vec::new(), lo, lo + 1)
}

fn continue_shape() -> Pattern {
    Pattern::Variant(NodeKind::Continue, Children::Fixed(Vec::new()))
}

fn siblings() -> SyntaxNode {
    SyntaxNode::new(
        NodeKind::Block,
        vec![
            leaf(NodeKind::Other, 0),
            leaf(NodeKind::Continue, 1),
            leaf(NodeKind::Other, 2),
            leaf(NodeKind::Continue, 3),
        ],
        0,
        4,
    )
}

#[test]
fn earliest_anchor_decides_the_tail() {
    let p = Pattern::Variant(
        NodeKind::Block,
        Children::Search(Box::new(continue_shape()), Some(7)),
    );
    let n = siblings();
    let caps = match_node(&p, &n).expect("an anchor is present");
    assert_eq!(caps.len(), 1);
    match get(&caps, 7) {
        Some(Bound::Nodes(tail)) => {
            assert_eq!(tail.len(), 2);
            assert_eq!(tail[0].lo, 2);
            assert_eq!(tail[1].lo, 3);
        }
        _ => panic!("tail not bound"),
    }
}

#[test]
fn search_without_anchor_fails() {
    let p = Pattern::Variant(
        NodeKind::Block,
        Children::Search(Box::new(continue_shape()), Some(7)),
    );
    let n = SyntaxNode::new(
        NodeKind::Block,
        vec![leaf(NodeKind::Other, 0), leaf(NodeKind::Semi, 1)],
        0,
        2,
    );
    assert!(match_node(&p, &n).is_none());
}

#[test]
fn match_is_deterministic() {
    let p = Pattern::Capture(
        1,
        Box::new(Pattern::Variant(
            NodeKind::Block,
            Children::Search(Box::new(Pattern::Capture(2, Box::new(continue_shape()))), Some(3)),
        )),
    );
    let n = siblings();
    let a = match_node(&p, &n).unwrap();
    let b = match_node(&p, &n).unwrap();
    assert_eq!(a.len(), b.len());
    for (x, y) in a.iter().zip(b.iter()) {
        assert_eq!(x.name, y.name);
        match (x.value, y.value) {
            (Bound::Node(u), Bound::Node(v)) => assert_eq!(u.lo, v.lo),
            (Bound::Nodes(u), Bound::Nodes(v)) => assert_eq!(u.len(), v.len()),
            (Bound::Absent, Bound::Absent) => {}
            _ => panic!("results differ"),
        }
    }
    match get(&a, 2) {
        Some(Bound::Node(c)) => assert_eq!(c.lo, 1),
        _ => panic!("anchor not bound"),
    }
}

#[test]
fn alternation_takes_first_success() {
    let p = Pattern::Alt(vec![
        Pattern::Capture(1, Box::new(Pattern::Variant(NodeKind::Semi, Children::Fixed(Vec::new())))),
        Pattern::Capture(2, Box::new(Pattern::Wildcard)),
        Pattern::Capture(3, Box::new(Pattern::Wildcard)),
    ]);
    let other = leaf(NodeKind::Other, 5);
    let caps = match_node(&p, &other).unwrap();
    assert_eq!(caps.len(), 1);
    assert_eq!(caps[0].name, 2);
    let semi = leaf(NodeKind::Semi, 5);
    let caps = match_node(&p, &semi).unwrap();
    assert_eq!(caps[0].name, 1);
}

#[test]
fn fixed_slots_and_optional() {
    let p = Pattern::Variant(
        NodeKind::If,
        Children::Fixed(vec![
            Slot::One(Pattern::Wildcard),
            Slot::One(Pattern::Wildcard),
            Slot::Opt(Pattern::Wildcard, Some(9)),
        ]),
    );
    let two = SyntaxNode::new(NodeKind::If, vec![leaf(NodeKind::Other, 0), leaf(NodeKind::Block, 1)], 0, 2);
    let caps = match_node(&p, &two).unwrap();
    assert!(matches!(get(&caps, 9), Some(Bound::Absent)));
    let three = SyntaxNode::new(
        NodeKind::If,
        vec![leaf(NodeKind::Other, 0), leaf(NodeKind::Block, 1), leaf(NodeKind::BlockExpr, 2)],
        0,
        3,
    );
    let caps = match_node(&p, &three).unwrap();
    match get(&caps, 9) {
        Some(Bound::Node(e)) => assert_eq!(e.lo, 2),
        _ => panic!("else not bound"),
    }
    let no_else = Pattern::Variant(
        NodeKind::If,
        Children::Fixed(vec![Slot::One(Pattern::Wildcard), Slot::One(Pattern::Wildcard), Slot::Absent]),
    );
    assert!(match_node(&no_else, &two).is_some());
    assert!(match_node(&no_else, &three).is_none());
    let one = SyntaxNode::new(NodeKind::If, vec![leaf(NodeKind::Other, 0)], 0, 1);
    assert!(match_node(&p, &one).is_none());
    assert!(match_node(&p, &leaf(NodeKind::Block, 0)).is_none());
}

#[test]
fn prefix_binds_rest() {
    let p = Pattern::Variant(NodeKind::Block, Children::Prefix(Box::new(continue_shape()), Some(4)));
    let n = SyntaxNode::new(
        NodeKind::Block,
        vec![leaf(NodeKind::Continue, 0), leaf(NodeKind::Other, 1), leaf(NodeKind::Other, 2)],
        0,
        3,
    );
    let caps = match_node(&p, &n).unwrap();
    match get(&caps, 4) {
        Some(Bound::Nodes(rest)) => assert_eq!(rest.len(), 2),
        _ => panic!("rest not bound"),
    }
    assert!(match_node(&p, &siblings()).is_none());
    assert!(get(&caps, 5).is_none());
}

#[test]
fn duplicate_capture_names_are_refused() {
    let dup = Pattern::Capture(1, Box::new(Pattern::Capture(1, Box::new(Pattern::Wildcard))));
    assert!(checked(dup).is_none());
    let slots = Pattern::Variant(
        NodeKind::If,
        Children::Fixed(vec![
            Slot::One(Pattern::Capture(2, Box::new(Pattern::Wildcard))),
            Slot::Opt(Pattern::Wildcard, Some(2)),
        ]),
    );
    assert!(checked(slots).is_none());
    let tail = Pattern::Variant(
        NodeKind::Block,
        Children::Search(Box::new(Pattern::Capture(3, Box::new(Pattern::Wildcard))), Some(3)),
    );
    assert!(checked(tail).is_none());
    let alts = Pattern::Alt(vec![
        Pattern::Capture(4, Box::new(Pattern::Wildcard)),
        Pattern::Capture(4, Box::new(Pattern::Wildcard)),
    ]);
    assert_eq!(names_if_unique(&alts), Some(vec![4, 4]));
    assert!(checked(alts).is_some());
    let fine = Pattern::Variant(
        NodeKind::If,
        Children::Fixed(vec![
            Slot::One(Pattern::Capture(5, Box::new(Pattern::Wildcard))),
            Slot::Opt(Pattern::Capture(6, Box::new(Pattern::Wildcard)), Some(7)),
        ]),
    );
    assert_eq!(names_if_unique(&fine), Some(vec![5, 7, 6]));
}

