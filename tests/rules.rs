use clippy_lints::collapsible_if::{block_starts_with_comment, CollapsibleIf};
use clippy_lints::needless_continue::{compare_labels, NeedlessContinue};
use clippy_lints::suggestion::Applicability;
use clippy_lints::syntax::{NodeKind, SyntaxNode};

/// The node of `kind` over the first occurrence of `needle` at or after `from`.
fn node(src: &str, needle: &str, from: usize, kind: NodeKind, children: Vec<SyntaxNode>) -> SyntaxNode {
    let lo = from + src[from..].find(needle).expect("needle in source");
    SyntaxNode::new(kind, children, lo, lo + needle.len())
}

fn nested_if(src: &str, outer_cond: &str, inner_text: &str, inner_cond: &str, body: &str) -> SyntaxNode {
    let inner_at = src.find(inner_text).unwrap();
    let inner = node(
        src,
        inner_text,
        0,
        NodeKind::If,
        vec![
            node(src, inner_cond, inner_at, NodeKind::Other, Vec::new()),
            node(src, body, inner_at, NodeKind::Block, Vec::new()),
        ],
    );
    let stmt = node(src, inner_text, 0, NodeKind::Expr, vec![inner]);
    let outer_block_lo = src.find('{').unwrap();
    let outer_block = SyntaxNode::new(NodeKind::Block, vec![stmt], outer_block_lo, src.len());
    SyntaxNode::new(
        NodeKind::If,
        vec![node(src, outer_cond, 0, NodeKind::Other, Vec::new()), outer_block],
        0,
        src.len(),
    )
}

#[test]
fn collapsible_nested_if_is_merged() {
    let src = "if a { if b { f(); } }";
    let n = nested_if(src, "a", "if b { f(); }", "b", "{ f(); }");
    let s = CollapsibleIf::new().collapse_nested_if(src, &n).expect("collapsible");
    assert_eq!(s.replacement, "if a && b { f(); }");
    assert_eq!((s.lo, s.hi), (0, src.len()));
    assert_eq!(s.applicability, Applicability::MachineApplicable);
    assert_eq!(s.message, "this if statement can be collapsed");
}

#[test]
fn collapsible_nested_if_kept_with_comment() {
    let src = "if a { // keep\n if b { f(); } }";
    let n = nested_if(src, "a", "if b { f(); }", "b", "{ f(); }");
    assert!(CollapsibleIf::new().collapse_nested_if(src, &n).is_none());
}

#[test]
fn collapsible_nested_if_parenthesises_or() {
    let src = "if a || c { if b { f(); } }";
    let inner_at = src.find("if b").unwrap();
    let mut n = nested_if(src, "a || c", "if b { f(); }", "b", "{ f(); }");
    n.children[0].kind = NodeKind::Or;
    let s = CollapsibleIf::new().collapse_nested_if(src, &n).unwrap();
    assert_eq!(s.replacement, "if (a || c) && b { f(); }");
    assert!(inner_at > 0);
}

#[test]
fn collapsible_nested_if_refuses_let_and_expansion() {
    let src = "if let x = y { if b { f(); } }";
    let mut n = nested_if(src, "let x = y", "if b { f(); }", "b", "{ f(); }");
    n.children[0].kind = NodeKind::Let;
    assert!(CollapsibleIf::new().collapse_nested_if(src, &n).is_none());
    let src = "if a { if b { f(); } }";
    let mut n = nested_if(src, "a", "if b { f(); }", "b", "{ f(); }");
    n.children[1].children[0].children[0].ctxt = 3;
    assert!(CollapsibleIf::new().collapse_nested_if(src, &n).is_none());
}

#[test]
fn else_if_is_collapsed() {
    let src = "if a { x(); } else { if b { y(); } }";
    let inner = node(
        src,
        "if b { y(); }",
        0,
        NodeKind::If,
        vec![node(src, "b", 20, NodeKind::Other, Vec::new()), node(src, "{ y(); }", 0, NodeKind::Block, Vec::new())],
    );
    let stmt = node(src, "if b { y(); }", 0, NodeKind::Expr, vec![inner]);
    let blk = node(src, "{ if b { y(); } }", 0, NodeKind::Block, vec![stmt]);
    let els = node(src, "{ if b { y(); } }", 0, NodeKind::BlockExpr, vec![blk]);
    let n = SyntaxNode::new(
        NodeKind::If,
        vec![node(src, "a", 0, NodeKind::Other, Vec::new()), node(src, "{ x(); }", 0, NodeKind::Block, Vec::new()), els],
        0,
        src.len(),
    );
    let s = CollapsibleIf::new().collapse_else_if(src, &n).unwrap();
    assert_eq!(s.replacement, "if b { y(); }");
    assert_eq!((s.span_lo, s.span_hi), (s.lo, s.hi));
    assert_eq!(&src[s.lo..s.hi], "{ if b { y(); } }");
    assert!(CollapsibleIf::new().collapse_nested_if(src, &n).is_none());
}

#[test]
fn comment_detection() {
    let src = "{ /* c */ x }";
    let b = SyntaxNode::new(NodeKind::Block, Vec::new(), 0, src.len());
    let text: Vec<char> = src.chars().collect();
    assert!(block_starts_with_comment(&text, &b));
    let text: Vec<char> = "{ x // c }".chars().collect();
    assert!(!block_starts_with_comment(&text, &b));
}

/// `LOOP { if c { g(); } else { continue LABEL; } h(); }`
fn loop_with_else_continue(src: &str, loop_label: Option<u64>, continue_label: Option<u64>) -> SyntaxNode {
    let mut cont = node(src, "continue", 0, NodeKind::Continue, Vec::new());
    cont.label = continue_label;
    let cont_stmt = node(src, "continue", 0, NodeKind::Semi, vec![cont]);
    let else_at = src.find("else").unwrap();
    let else_block = node(src, "{", else_at, NodeKind::Block, vec![cont_stmt]);
    let else_lo = else_block.lo;
    let close = else_lo + src[else_lo..].find('}').unwrap() + 1;
    let else_block = SyntaxNode { hi: close, ..else_block };
    let else_expr = SyntaxNode::new(NodeKind::BlockExpr, vec![else_block], else_lo, close);
    let if_lo = src.find("if").unwrap();
    let iff = SyntaxNode::new(
        NodeKind::If,
        vec![
            node(src, "c", if_lo, NodeKind::Other, Vec::new()),
            node(src, "{ g(); }", 0, NodeKind::Block, Vec::new()),
            else_expr,
        ],
        if_lo,
        close,
    );
    let stmt = SyntaxNode::new(NodeKind::Expr, vec![iff], if_lo, close);
    let tail = node(src, "h();", 0, NodeKind::Semi, Vec::new());
    let body_lo = src.find('{').unwrap();
    let body = SyntaxNode::new(NodeKind::Block, vec![stmt, tail], body_lo, src.len());
    let mut l = SyntaxNode::new(NodeKind::Loop, vec![body], 0, src.len());
    l.label = loop_label;
    l
}

#[test]
fn redundant_else_continue_is_merged() {
    let src = "loop { if c { g(); } else { continue; } h(); }";
    let n = loop_with_else_continue(src, None, None);
    let s = NeedlessContinue::new().check_and_warn_in_else_block(src, &n).expect("redundant else");
    assert_eq!(s.replacement, "if c {\ng();\nh();\n}");
    assert_eq!(&src[s.span_lo..s.span_hi], "{ continue; }");
    assert_eq!(&src[s.lo..s.hi], "if c { g(); } else { continue; } h();");
    let applied = format!("{}{}{}", &src[..s.lo], s.replacement, &src[s.hi..]);
    assert_eq!(applied, "loop { if c {\ng();\nh();\n} }");
    assert_eq!(s.applicability, Applicability::MachineApplicable);
    assert!(s.message.starts_with("This else block is redundant.\n"));
    assert!(NeedlessContinue::new().check_and_warn_in_then_block(src, &n).is_none());
}

#[test]
fn label_law() {
    let src = "loop { if c { g(); } else { continue; } h(); }";
    assert!(NeedlessContinue::new().check_and_warn_in_else_block(src, &loop_with_else_continue(src, None, None)).is_some());
    let src = "'a: loop { if c { g(); } else { continue 'b; } h(); }";
    assert!(NeedlessContinue::new().check_and_warn_in_else_block(src, &loop_with_else_continue(src, Some(1), Some(2))).is_none());
    let src = "'a: loop { if c { g(); } else { continue; } h(); }";
    assert!(NeedlessContinue::new().check_and_warn_in_else_block(src, &loop_with_else_continue(src, Some(1), None)).is_some());
    let src = "'a: loop { if c { g(); } else { continue 'a; } h(); }";
    assert!(NeedlessContinue::new().check_and_warn_in_else_block(src, &loop_with_else_continue(src, Some(1), Some(1))).is_some());
    let src = "loop { if c { g(); } else { continue 'a; } h(); }";
    assert!(NeedlessContinue::new().check_and_warn_in_else_block(src, &loop_with_else_continue(src, None, Some(1))).is_none());
}

#[test]
fn compare_labels_cases() {
    assert!(compare_labels(None, None));
    assert!(compare_labels(Some(1), None));
    assert!(!compare_labels(None, Some(1)));
    assert!(compare_labels(Some(1), Some(1)));
    assert!(!compare_labels(Some(1), Some(2)));
}

#[test]
fn then_continue_is_advisory() {
    let src = "while w { if c { continue; } else { g(); } h(); }";
    let cont = node(src, "continue", 0, NodeKind::Continue, Vec::new());
    let cont_stmt = node(src, "continue;", 0, NodeKind::Semi, vec![cont]);
    let then_block = node(src, "{ continue; }", 0, NodeKind::Block, vec![cont_stmt]);
    let else_expr = node(src, "{ g(); }", 0, NodeKind::BlockExpr, Vec::new());
    let iff = node(
        src,
        "if c { continue; } else { g(); }",
        0,
        NodeKind::If,
        vec![node(src, "c", 12, NodeKind::Other, Vec::new()), then_block, else_expr],
    );
    let stmt = node(src, "if c { continue; } else { g(); }", 0, NodeKind::Expr, vec![iff]);
    let body = SyntaxNode::new(NodeKind::Block, vec![stmt], 8, src.len());
    let n = SyntaxNode::new(NodeKind::While, vec![node(src, "w", 0, NodeKind::Other, Vec::new()), body], 0, src.len());
    let s = NeedlessContinue::new().check_and_warn_in_then_block(src, &n).unwrap();
    assert_eq!(s.applicability, Applicability::Advisory);
    assert_eq!(s.replacement, "if !(c) {\ng();\n}\n...");
    assert_eq!(&src[s.lo..s.hi], "if c { continue; } else { g(); }");
    assert_eq!((s.span_lo, s.span_hi), (s.lo, s.hi));
    assert!(NeedlessContinue::new().check_and_warn_in_else_block(src, &n).is_none());
    let expanded = n.with_ctxt(2);
    assert!(NeedlessContinue::new().check_and_warn_in_then_block(src, &expanded).is_none());
}

#[test]
fn passes_report_in_order() {
    let src = "if a { if b { f(); } }";
    let n = nested_if(src, "a", "if b { f(); }", "b", "{ f(); }");
    let all = CollapsibleIf::new().check_expr(src, &n);
    assert_eq!(all.len(), 1);
    assert_eq!(all[0].replacement, "if a && b { f(); }");
    let src = "loop { if c { g(); } else { continue; } h(); }";
    let l = loop_with_else_continue(src, None, None);
    let all = NeedlessContinue::new().check_expr(src, &l);
    assert_eq!(all.len(), 1);
    assert_eq!(all[0].applicability, Applicability::MachineApplicable);
    assert!(NeedlessContinue::new().check_expr(src, &l.with_ctxt(1)).is_empty());
}

#[test]
fn earliest_if_else_decides() {
    // two `if`/`else` with `continue` in the else branch: the first one is reported,
    // and the statements after it (including the second) are merged.
    let src = "loop { if c { g(); } else { continue; } if d { k(); } else { continue; } }";
    let mut l = loop_with_else_continue("loop { if c { g(); } else { continue; } h(); }", None, None);
    let second = {
        let at = src.find("if d").unwrap();
        let cont = SyntaxNode::new(NodeKind::Continue, Vec::new(), at + 21, at + 29);
        let cont_stmt = SyntaxNode::new(NodeKind::Semi, vec![cont], at + 21, at + 30);
        let blk = SyntaxNode::new(NodeKind::Block, vec![cont_stmt], at + 19, at + 32);
        let els = SyntaxNode::new(NodeKind::BlockExpr, vec![blk], at + 19, at + 32);
        let iff = SyntaxNode::new(
            NodeKind::If,
            vec![
                SyntaxNode::new(NodeKind::Other, Vec::new(), at + 3, at + 4),
                SyntaxNode::new(NodeKind::Block, Vec::new(), at + 5, at + 13),
                els,
            ],
            at,
            at + 32,
        );
        SyntaxNode::new(NodeKind::Expr, vec![iff], at, at + 32)
    };
    l.children[0].children[1] = second;
    l.children[0].hi = src.len();
    l.hi = src.len();
    let s = NeedlessContinue::new().check_and_warn_in_else_block(src, &l).unwrap();
    assert_eq!(&src[s.span_lo..s.span_hi], "{ continue; }");
    assert!(s.span_lo < src.find("if d").unwrap());
    assert_eq!(s.replacement, "if c {\ng();\nif d { k(); } else { continue; }\n}");
    assert_eq!(&src[s.lo..s.hi], "if c { g(); } else { continue; } if d { k(); } else { continue; }");
}

/// `if X { g(); } else { continue; }` as a statement at `at`.
fn else_continue_stmt(src: &str, at: usize) -> SyntaxNode {
    let text = &src[at..];
    let else_lo = at + text.find("else").unwrap() + 5;
    let len = else_lo + "{ continue; }".len() - at;
    let cont_lo = else_lo + 2;
    let cont = SyntaxNode::new(NodeKind::Continue, Vec::new(), cont_lo, cont_lo + 8);
    let semi = SyntaxNode::new(NodeKind::Semi, vec![cont], cont_lo, cont_lo + 9);
    let blk = SyntaxNode::new(NodeKind::Block, vec![semi], else_lo, at + len);
    let els = SyntaxNode::new(NodeKind::BlockExpr, vec![blk], else_lo, at + len);
    let then_lo = at + text.find('{').unwrap();
    let iff = SyntaxNode::new(
        NodeKind::If,
        vec![
            SyntaxNode::new(NodeKind::Other, Vec::new(), at + 3, at + 4),
            SyntaxNode::new(NodeKind::Block, Vec::new(), then_lo, then_lo + 8),
            els,
        ],
        at,
        at + len,
    );
    SyntaxNode::new(NodeKind::Expr, vec![iff], at, at + len)
}

#[test]
fn earliest_of_two_anchors_with_plain_siblings() {
    let src = "loop { a(); if x { g(); } else { continue; } b(); if y { g(); } else { continue; } }";
    let s0 = node(src, "a();", 0, NodeKind::Semi, Vec::new());
    let s1 = else_continue_stmt(src, src.find("if x").unwrap());
    let s2 = node(src, "b();", 0, NodeKind::Semi, Vec::new());
    let s3 = else_continue_stmt(src, src.find("if y").unwrap());
    let body = SyntaxNode::new(NodeKind::Block, vec![s0, s1, s2, s3], 5, src.len());
    let l = SyntaxNode::new(NodeKind::Loop, vec![body], 0, src.len());
    let all = NeedlessContinue::new().check_expr(src, &l);
    assert_eq!(all.len(), 1);
    let s = &all[0];
    let first_else = src.find("else").unwrap() + 5;
    assert_eq!(s.span_lo, first_else);
    assert_eq!(&src[s.span_lo..s.span_hi], "{ continue; }");
    assert_eq!(s.replacement, "if x {\ng();\nb();\nif y { g(); } else { continue; }\n}");
}
