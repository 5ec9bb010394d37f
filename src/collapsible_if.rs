//! Nested conditionals that can be merged: `if a { if b { .. } }` into
//! `if a && b { .. }`, and `else { if b { .. } }` into `else if b { .. }`.
use vstd::prelude::*;
use crate::pattern::{match_node, matches_children, matches_slots, pattern_matches, Children, Pattern, Slot};
use crate::shapes::{expr_or_semi, recognizes, variant1, variant2, variant3, wildcard};
use crate::suggestion::{
    collect_present, opt_view, present, push_all, snippet, snippet_block, snippet_block_of,
    snippet_of, stmt_expr, stmt_expr_of, views, Applicability, Suggestion, SuggestionView,
};
use crate::syntax::{NodeKind, SyntaxNode};
use crate::text::{chars_of, opens_with_comment, starts_with_comment, string_of};

verus! {

/// Whether `&&` needs parentheses around an operand of this kind.
pub open spec fn binds_looser_than_and(k: NodeKind) -> bool {
    k == NodeKind::Or || k == NodeKind::Assign || k == NodeKind::Range || k == NodeKind::Closure
}

pub open spec fn and_operand(src: Seq<char>, n: SyntaxNode) -> Seq<char> {
    if binds_looser_than_and(n.kind) {
        "("@ + snippet_of(src, n) + ")"@
    } else {
        snippet_of(src, n)
    }
}

/// The parts of `if C1 { if C2 { BODY } }`: `C1`, the outer block, the inner
/// `if`, `C2` and `BODY`.
pub open spec fn nested_if_parts(n: SyntaxNode) -> Option<
    (SyntaxNode, SyntaxNode, SyntaxNode, SyntaxNode, SyntaxNode),
> {
    if n.kind == NodeKind::If && n.children@.len() == 2 {
        let blk = n.children@[1];
        if blk.kind == NodeKind::Block && blk.children@.len() == 1 && stmt_expr(
            blk.children@[0],
        ) is Some {
            let inner = stmt_expr(blk.children@[0])->0;
            if inner.kind == NodeKind::If && inner.children@.len() == 2 {
                Some((n.children@[0], blk, inner, inner.children@[0], inner.children@[1]))
            } else {
                None
            }
        } else {
            None
        }
    } else {
        None
    }
}

/// What the rule proposes for `if C1 { if C2 { BODY } }`.
pub open spec fn nested_if_suggestion(src: Seq<char>, n: SyntaxNode) -> Option<SuggestionView> {
    match nested_if_parts(n) {
        Some((c1, blk, inner, c2, body)) => if n.ctxt == 0 && c1.kind != NodeKind::Let && c2.kind
            != NodeKind::Let && !opens_with_comment(snippet_of(src, blk)) && inner.ctxt == n.ctxt {
            Some(
                SuggestionView {
                    span_lo: n.lo,
                    span_hi: n.hi,
                    lo: n.lo,
                    hi: n.hi,
                    message: "this if statement can be collapsed"@,
                    replacement: "if "@ + and_operand(src, c1) + " && "@ + and_operand(src, c2)
                        + " "@ + snippet_block_of(src, body),
                    applicability: Applicability::MachineApplicable,
                },
            )
        } else {
            None
        },
        None => None,
    }
}

/// The parts of `if C { .. } else { if C2 { .. } }`: the else branch, its
/// block and the inner `if`.
pub open spec fn else_if_parts(n: SyntaxNode) -> Option<(SyntaxNode, SyntaxNode, SyntaxNode)> {
    if n.kind == NodeKind::If && n.children@.len() == 3 {
        let e = n.children@[2];
        if e.kind == NodeKind::BlockExpr && e.children@.len() == 1 {
            let blk = e.children@[0];
            if blk.kind == NodeKind::Block && blk.children@.len() == 1 && stmt_expr(
                blk.children@[0],
            ) is Some {
                let inner = stmt_expr(blk.children@[0])->0;
                if inner.kind == NodeKind::If && (inner.children@.len() == 2 || inner.children@.len() == 3) {
                    Some((e, blk, inner))
                } else {
                    None
                }
            } else {
                None
            }
        } else {
            None
        }
    } else {
        None
    }
}

/// What the rule proposes for `if C { .. } else { if C2 { .. } }`.
pub open spec fn else_if_suggestion(src: Seq<char>, n: SyntaxNode) -> Option<SuggestionView> {
    match else_if_parts(n) {
        Some((e, blk, inner)) => if n.ctxt == 0 && !opens_with_comment(snippet_of(src, blk))
            && inner.ctxt == 0 {
            Some(
                SuggestionView {
                    span_lo: e.lo,
                    span_hi: e.hi,
                    lo: e.lo,
                    hi: e.hi,
                    message: "this `else { if .. }` block can be collapsed"@,
                    replacement: snippet_block_of(src, inner),
                    applicability: Applicability::MachineApplicable,
                },
            )
        } else {
            None
        },
        None => None,
    }
}

fn and_operand_of(src: &[char], n: &SyntaxNode) -> (r: Vec<char>)
    ensures
        r@ == and_operand(src@, *n),
{
    let k = n.kind;
    if k == NodeKind::Or || k == NodeKind::Assign || k == NodeKind::Range || k == NodeKind::Closure {
        let mut v = chars_of("(");
        push_all(&mut v, snippet(src, n));
        push_all(&mut v, chars_of(")"));
        v
    } else {
        snippet(src, n)
    }
}

/// Whether the text of `blk`, once leading whitespace and opening braces are
/// gone, starts with a comment.
pub fn block_starts_with_comment(src: &[char], blk: &SyntaxNode) -> (r: bool)
    ensures
        r == opens_with_comment(snippet_of(src@, *blk)),
{
    let t = snippet(src, blk);
    starts_with_comment(t.as_slice())
}

/// `if C1 { if C2 { .. } }`, no else on either `if`. The rule reads the
/// parts of a matching node by their positions.
fn nested_if_pattern() -> (r: Pattern)
    ensures
        recognizes(r, |n: SyntaxNode| nested_if_parts(n) is Some),
{
    let ghost any = |n: SyntaxNode| true;
    let ghost inner = |n: SyntaxNode| n.kind == NodeKind::If && n.children@.len() == 2;
    let a = variant2(NodeKind::If, wildcard(), Ghost(any), wildcard(), Ghost(any));
    let b = variant2(NodeKind::If, wildcard(), Ghost(any), wildcard(), Ghost(any));
    let stmt = expr_or_semi(a, b, Ghost(inner));
    let ghost fs = |n: SyntaxNode| stmt_expr(n) is Some && inner(stmt_expr(n)->0);
    let blk = variant1(NodeKind::Block, stmt, Ghost(fs));
    let ghost fb = |n: SyntaxNode| n.kind == NodeKind::Block && n.children@.len() == 1 && fs(n.children@[0]);
    let r = variant2(NodeKind::If, wildcard(), Ghost(any), blk, Ghost(fb));
    assert forall|n: SyntaxNode| #[trigger] pattern_matches(r, n) is Some <==> nested_if_parts(n) is Some by {}
    r
}

/// `if C { .. } else { if C2 { .. } }`. The rule reads the parts of a
/// matching node by their positions.
fn else_if_pattern() -> (r: Pattern)
    ensures
        recognizes(r, |n: SyntaxNode| else_if_parts(n) is Some),
{
    let ghost any = |n: SyntaxNode| true;
    let ghost inner = |n: SyntaxNode|
        n.kind == NodeKind::If && (n.children@.len() == 2 || n.children@.len() == 3);
    let a = any_if();
    let b = any_if();
    let stmt = expr_or_semi(a, b, Ghost(inner));
    let ghost fs = |n: SyntaxNode| stmt_expr(n) is Some && inner(stmt_expr(n)->0);
    let blk = variant1(NodeKind::Block, stmt, Ghost(fs));
    let ghost fb = |n: SyntaxNode| n.kind == NodeKind::Block && n.children@.len() == 1 && fs(n.children@[0]);
    let e = variant1(NodeKind::BlockExpr, blk, Ghost(fb));
    let ghost fe = |n: SyntaxNode| n.kind == NodeKind::BlockExpr && n.children@.len() == 1 && fb(n.children@[0]);
    let r = variant3(NodeKind::If, wildcard(), Ghost(any), wildcard(), Ghost(any), e, Ghost(fe));
    assert forall|n: SyntaxNode| #[trigger] pattern_matches(r, n) is Some <==> else_if_parts(n) is Some by {}
    r
}

/// An `if`, with or without an else branch.
fn any_if() -> (r: Pattern)
    ensures
        recognizes(
            r,
            |n: SyntaxNode| n.kind == NodeKind::If && (n.children@.len() == 2 || n.children@.len() == 3),
        ),
{
    let r = Pattern::Variant(
        NodeKind::If,
        Children::Fixed(vec![Slot::One(Pattern::Wildcard), Slot::One(Pattern::Wildcard), Slot::Opt(Pattern::Wildcard, None)]),
    );
    assert forall|n: SyntaxNode| #[trigger] pattern_matches(r, n) is Some <==> (n.kind == NodeKind::If && (
        n.children@.len() == 2 || n.children@.len() == 3)) by {
        reveal_with_fuel(matches_slots, 4);
        let ch = r->Variant_1;
        assert(matches_children(ch, n.children@) == matches_slots(ch->Fixed_0@, 0, n.children@));
    }
    r
}


/// The lint pass for collapsible conditionals, with its shapes compiled.
pub struct CollapsibleIf {
    nested: Pattern,
    else_if: Pattern,
}

impl CollapsibleIf {
    /// The pass, with both of its shapes compiled once.
    pub fn new() -> (r: CollapsibleIf)
        ensures
            r.wf(),
    {
        CollapsibleIf { nested: nested_if_pattern(), else_if: else_if_pattern() }
    }

    /// Each compiled shape recognises exactly the nodes that its rule reads.
    pub closed spec fn wf(&self) -> bool {
        &&& recognizes(self.nested, |n: SyntaxNode| nested_if_parts(n) is Some)
        &&& recognizes(self.else_if, |n: SyntaxNode| else_if_parts(n) is Some)
    }

    /// `if C1 { if C2 { BODY } }` becomes `if C1 && C2 { BODY }`, unless either
    /// condition binds a pattern, the outer block opens with a comment, or the
    /// inner `if` comes from another expansion context.
    pub fn collapse_nested_if(&self, src: &str, n: &SyntaxNode) -> (r: Option<Suggestion>)
        requires
            self.wf(),
        ensures
            opt_view(r) == nested_if_suggestion(src@, *n),
    {
        if match_node(&self.nested, n).is_none() {
            assert(pattern_matches(self.nested, *n) is None);
            return None;
        }
        let text = chars_of(src);
        if n.ctxt != 0 || n.kind != NodeKind::If || n.children.len() != 2 {
            return None;
        }
        let c1 = &n.children[0];
        let blk = &n.children[1];
        if blk.kind != NodeKind::Block || blk.children.len() != 1 {
            return None;
        }
        let inner = match stmt_expr_of(&blk.children[0]) {
            Some(e) => e,
            None => {
                return None;
            },
        };
        if inner.kind != NodeKind::If || inner.children.len() != 2 {
            return None;
        }
        let c2 = &inner.children[0];
        let body = &inner.children[1];
        if c1.kind == NodeKind::Let || c2.kind == NodeKind::Let || block_starts_with_comment(
            text.as_slice(),
            blk,
        ) || inner.ctxt != n.ctxt {
            return None;
        }
        let mut rep = chars_of("if ");
        push_all(&mut rep, and_operand_of(text.as_slice(), c1));
        push_all(&mut rep, chars_of(" && "));
        push_all(&mut rep, and_operand_of(text.as_slice(), c2));
        push_all(&mut rep, chars_of(" "));
        push_all(&mut rep, snippet_block(text.as_slice(), body));
        Some(
            Suggestion {
                span_lo: n.lo,
                span_hi: n.hi,
                lo: n.lo,
                hi: n.hi,
                message: "this if statement can be collapsed".to_owned(),
                replacement: string_of(rep.as_slice()),
                applicability: Applicability::MachineApplicable,
            },
        )
    }

    /// `else { if C2 { .. } }` becomes `else if C2 { .. }`, unless the else
    /// block opens with a comment or the inner `if` comes from an expansion.
    pub fn collapse_else_if(&self, src: &str, n: &SyntaxNode) -> (r: Option<Suggestion>)
        requires
            self.wf(),
        ensures
            opt_view(r) == else_if_suggestion(src@, *n),
    {
        if match_node(&self.else_if, n).is_none() {
            assert(pattern_matches(self.else_if, *n) is None);
            return None;
        }
        let text = chars_of(src);
        if n.ctxt != 0 || n.kind != NodeKind::If || n.children.len() != 3 {
            return None;
        }
        let e = &n.children[2];
        if e.kind != NodeKind::BlockExpr || e.children.len() != 1 {
            return None;
        }
        let blk = &e.children[0];
        if blk.kind != NodeKind::Block || blk.children.len() != 1 {
            return None;
        }
        let inner = match stmt_expr_of(&blk.children[0]) {
            Some(x) => x,
            None => {
                return None;
            },
        };
        if inner.kind != NodeKind::If || (inner.children.len() != 2 && inner.children.len() != 3)
        || block_starts_with_comment(text.as_slice(), blk) || inner.ctxt
            != 0 {
            return None;
        }
        Some(
            Suggestion {
                span_lo: e.lo,
                span_hi: e.hi,
                lo: e.lo,
                hi: e.hi,
                message: "this `else { if .. }` block can be collapsed".to_owned(),
                replacement: string_of(snippet_block(text.as_slice(), inner).as_slice()),
                applicability: Applicability::MachineApplicable,
            },
        )
    }

    /// The suggestions for expression `n`: the merged nested `if`, then the
    /// collapsed `else { if .. }`, each where it applies.
    pub fn check_expr(&self, src: &str, n: &SyntaxNode) -> (r: Vec<Suggestion>)
        requires
            self.wf(),
        ensures
            views(r@) == present(nested_if_suggestion(src@, *n), else_if_suggestion(src@, *n)),
    {
        collect_present(self.collapse_nested_if(src, n), self.collapse_else_if(src, n))
    }
}

} // verus!
