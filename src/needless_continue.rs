//! `continue` that a rearrangement of the loop body makes redundant: an
//! `if`/`else` whose else branch, or whose then branch, opens with `continue`.
use vstd::prelude::*;
use crate::pattern::{match_node, pattern_matches, Pattern};
use crate::shapes::{
    any_of3, block_opening_with, block_with, expr_or_semi, leaf, recognizes, variant1,
    variant2, variant3, wildcard,
};
use crate::suggestion::{
    collect_present, opt_view, present, push_all, snippet, snippet_block, snippet_block_of,
    snippet_of, stmt_expr, stmt_expr_of, views, Applicability, Suggestion, SuggestionView,
};
use crate::syntax::{NodeKind, SyntaxNode};
use crate::text::{chars_of, erode_block, eroded_block, string_of, trim_multiline, trimmed_multiline};

verus! {

/// Whether a `continue` with `continue_label` restarts a loop with
/// `loop_label`: an unlabeled `continue` restarts any loop, a labeled one only
/// the loop of the same label.
pub open spec fn labels_agree(loop_label: Option<u64>, continue_label: Option<u64>) -> bool {
    match (loop_label, continue_label) {
        (_, None) => true,
        (None, Some(_)) => false,
        (Some(x), Some(y)) => x == y,
    }
}

/// The body of a `loop`, `for` or `while`.
pub open spec fn loop_body(n: SyntaxNode) -> Option<SyntaxNode> {
    if n.kind == NodeKind::Loop && n.children@.len() == 1 {
        Some(n.children@[0])
    } else if n.kind == NodeKind::ForLoop && n.children@.len() == 3 {
        Some(n.children@[2])
    } else if n.kind == NodeKind::While && n.children@.len() == 2 {
        Some(n.children@[1])
    } else {
        None
    }
}

/// The `continue` that opens block `b`.
pub open spec fn leading_continue(b: SyntaxNode) -> Option<SyntaxNode> {
    if b.kind == NodeKind::Block && b.children@.len() > 0 && stmt_expr(b.children@[0]) is Some
        && stmt_expr(b.children@[0])->0.kind == NodeKind::Continue
        && stmt_expr(b.children@[0])->0.children@.len() == 0 {
        stmt_expr(b.children@[0])
    } else {
        None
    }
}

/// The `continue` that opens the block of the else branch `e`.
pub open spec fn else_continue(e: SyntaxNode) -> Option<SyntaxNode> {
    if e.kind == NodeKind::BlockExpr && e.children@.len() == 1 {
        leading_continue(e.children@[0])
    } else {
        None
    }
}

/// The `if`/`else` that statement `s` holds.
pub open spec fn if_else(s: SyntaxNode) -> Option<SyntaxNode> {
    match stmt_expr(s) {
        Some(f) => if f.kind == NodeKind::If && f.children@.len() == 3 {
            Some(f)
        } else {
            None
        },
        None => None,
    }
}

/// The `continue` that opens the else branch (`in_else`) or the then branch
/// of the `if`/`else` that statement `s` holds.
pub open spec fn anchor_continue(s: SyntaxNode, in_else: bool) -> Option<SyntaxNode> {
    match if_else(s) {
        Some(f) => if in_else {
            else_continue(f.children@[2])
        } else {
            leading_continue(f.children@[1])
        },
        None => None,
    }
}

/// The earliest index from `i` on whose statement is an anchor.
pub open spec fn first_anchor(stmts: Seq<SyntaxNode>, in_else: bool, i: int) -> Option<int>
    decreases stmts.len() - i,
{
    if 0 <= i < stmts.len() {
        if anchor_continue(stmts[i], in_else) is Some {
            Some(i)
        } else {
            first_anchor(stmts, in_else, i + 1)
        }
    } else {
        None
    }
}

/// The source texts of `stmts`, one after the other on lines of their own.
pub open spec fn joined(src: Seq<char>, stmts: Seq<SyntaxNode>) -> Seq<char>
    decreases stmts.len(),
{
    if stmts.len() == 0 {
        seq![]
    } else if stmts.len() == 1 {
        snippet_block_of(src, stmts[0])
    } else {
        joined(src, stmts.drop_last()) + "\n"@ + snippet_block_of(src, stmts.last())
    }
}

/// The statements of the body of loop `n`, where it is a block.
pub open spec fn body_stmts(n: SyntaxNode) -> Option<Seq<SyntaxNode>> {
    match loop_body(n) {
        Some(b) => if b.kind == NodeKind::Block {
            Some(b.children@)
        } else {
            None
        },
        None => None,
    }
}

/// The rewrite of the loop body `stmts` of `n` around its `if`/`else` at
/// index `i`, whose else branch opens with `continue`: the `if` statement and
/// every statement after it become one `if` without else, whose block holds
/// the then branch's statements followed by those after the `if`. The
/// diagnostic points at the else block.
pub open spec fn else_block_at(src: Seq<char>, n: SyntaxNode, stmts: Seq<SyntaxNode>, i: int) -> Option<
    SuggestionView,
> {
    let f = if_else(stmts[i])->0;
    let e = f.children@[2];
    let c = else_continue(e)->0;
    let tail = stmts.skip(i + 1);
    if n.ctxt == 0 && e.ctxt == 0 && labels_agree(n.label, c.label) {
        Some(
            SuggestionView {
                span_lo: e.lo,
                span_hi: e.hi,
                lo: stmts[i].lo,
                hi: stmts.last().hi,
                message: "This else block is redundant.\n"@
                    + "Consider dropping the else clause and merging the code that follows (in the loop) with the if block, like so:\n"@,
                replacement: "if "@ + snippet_of(src, f.children@[0]) + " {\n"@ + trimmed_multiline(
                    eroded_block(snippet_of(src, f.children@[1])),
                    false,
                ) + (if tail.len() == 0 {
                    seq![]
                } else {
                    "\n"@ + joined(src, tail)
                }) + "\n}"@,
                applicability: Applicability::MachineApplicable,
            },
        )
    } else {
        None
    }
}

/// What the rule proposes where an else branch opens with `continue`: drop
/// the else branch and move the statements after the `if` into its then
/// block. Reaching the else branch restarts the loop at once and skips those
/// statements, so both paths keep their effect.
pub open spec fn else_block_suggestion(src: Seq<char>, n: SyntaxNode) -> Option<SuggestionView> {
    match body_stmts(n) {
        Some(stmts) => match first_anchor(stmts, true, 0) {
            Some(i) => else_block_at(src, n, stmts, i),
            None => None,
        },
        None => None,
    }
}

/// What the rule proposes where a then branch opens with `continue`: negate
/// the condition and make the else branch's statements its body. Negating a
/// condition by text is not always faithful, so this is advisory only.
pub open spec fn then_block_suggestion(src: Seq<char>, n: SyntaxNode) -> Option<SuggestionView> {
    match body_stmts(n) {
        Some(stmts) => match first_anchor(stmts, false, 0) {
            Some(i) => {
                let f = if_else(stmts[i])->0;
                let t = f.children@[1];
                let c = leading_continue(t)->0;
                if n.ctxt == 0 && t.ctxt == 0 && labels_agree(n.label, c.label) {
                    Some(
                        SuggestionView {
                            span_lo: f.lo,
                            span_hi: f.hi,
                            lo: f.lo,
                            hi: f.hi,
                            message: "There is no need for an explicit `else` block for this `if` expression\n"@
                                + "Consider dropping the else clause, and moving out the code in the else block, like so:\n"@,
                            replacement: "if !("@ + snippet_of(src, f.children@[0]) + ") {\n"@
                                + trimmed_multiline(eroded_block(snippet_of(src, f.children@[2])), false)
                                + "\n}\n..."@,
                            applicability: Applicability::Advisory,
                        },
                    )
                } else {
                    None
                }
            },
            None => None,
        },
        None => None,
    }
}

/// If the `continue` has a label, whether it is the label of the loop.
pub fn compare_labels(loop_label: Option<u64>, continue_label: Option<u64>) -> (r: bool)
    ensures
        r == labels_agree(loop_label, continue_label),
{
    match (loop_label, continue_label) {
        (_, None) => true,
        (None, Some(_)) => false,
        (Some(x), Some(y)) => x == y,
    }
}

fn loop_body_of(n: &SyntaxNode) -> (r: Option<&SyntaxNode>)
    ensures
        match r {
            Some(b) => loop_body(*n) == Some(*b),
            None => loop_body(*n) is None,
        },
{
    if n.kind == NodeKind::Loop && n.children.len() == 1 {
        Some(&n.children[0])
    } else if n.kind == NodeKind::ForLoop && n.children.len() == 3 {
        Some(&n.children[2])
    } else if n.kind == NodeKind::While && n.children.len() == 2 {
        Some(&n.children[1])
    } else {
        None
    }
}

fn leading_continue_of(b: &SyntaxNode) -> (r: Option<&SyntaxNode>)
    ensures
        match r {
            Some(c) => leading_continue(*b) == Some(*c),
            None => leading_continue(*b) is None,
        },
{
    if b.kind != NodeKind::Block || b.children.len() == 0 {
        return None;
    }
    match stmt_expr_of(&b.children[0]) {
        Some(c) => if c.kind == NodeKind::Continue && c.children.len() == 0 {
            Some(c)
        } else {
            None
        },
        None => None,
    }
}

fn if_else_of(s: &SyntaxNode) -> (r: Option<&SyntaxNode>)
    ensures
        match r {
            Some(f) => if_else(*s) == Some(*f) && f.children@.len() == 3,
            None => if_else(*s) is None,
        },
{
    match stmt_expr_of(s) {
        Some(f) => if f.kind == NodeKind::If && f.children.len() == 3 {
            Some(f)
        } else {
            None
        },
        None => None,
    }
}

fn anchor_continue_of(s: &SyntaxNode, in_else: bool) -> (r: Option<&SyntaxNode>)
    ensures
        match r {
            Some(c) => anchor_continue(*s, in_else) == Some(*c),
            None => anchor_continue(*s, in_else) is None,
        },
{
    match if_else_of(s) {
        Some(f) => if in_else {
            let e = &f.children[2];
            if e.kind == NodeKind::BlockExpr && e.children.len() == 1 {
                leading_continue_of(&e.children[0])
            } else {
                None
            }
        } else {
            leading_continue_of(&f.children[1])
        },
        None => None,
    }
}

/// The index of the earliest statement that is an anchor.
fn find_anchor(stmts: &Vec<SyntaxNode>, in_else: bool) -> (r: Option<usize>)
    ensures
        match r {
            Some(i) => first_anchor(stmts@, in_else, 0) == Some(i as int) && i < stmts@.len()
                && anchor_continue(stmts@[i as int], in_else) is Some,
            None => first_anchor(stmts@, in_else, 0) is None,
        },
{
    let mut i: usize = 0;
    while i < stmts.len()
        invariant
            i <= stmts@.len(),
            first_anchor(stmts@, in_else, 0) == first_anchor(stmts@, in_else, i as int),
        decreases stmts@.len() - i,
    {
        if anchor_continue_of(&stmts[i], in_else).is_some() {
            return Some(i);
        }
        i = i + 1;
    }
    None
}

/// The source texts of `stmts[from..]`, one per line.
fn join_snippets(src: &[char], stmts: &Vec<SyntaxNode>, from: usize) -> (r: Vec<char>)
    requires
        from <= stmts@.len(),
    ensures
        r@ == joined(src@, stmts@.skip(from as int)),
{
    let mut acc: Vec<char> = Vec::new();
    let mut k: usize = from;
    assert(stmts@.subrange(from as int, from as int).len() == 0);
    while k < stmts.len()
        invariant
            from <= k <= stmts@.len(),
            acc@ == joined(src@, stmts@.subrange(from as int, k as int)),
        decreases stmts@.len() - k,
    {
        let ghost part = stmts@.subrange(from as int, k + 1);
        assert(part.drop_last() =~= stmts@.subrange(from as int, k as int));
        assert(part.last() == stmts@[k as int]);
        if k > from {
            push_all(&mut acc, chars_of("\n"));
        } else {
            assert(part.len() == 1 && part[0] == stmts@[k as int]);
        }
        push_all(&mut acc, snippet_block(src, &stmts[k]));
        k = k + 1;
    }
    assert(stmts@.subrange(from as int, k as int) =~= stmts@.skip(from as int));
    acc
}

/// Whether the loop `n` has a body block with an anchor among its statements.
pub open spec fn has_anchor(n: SyntaxNode, in_else: bool) -> bool {
    body_stmts(n) is Some && exists|j: int|
        0 <= j < body_stmts(n)->0.len() && anchor_continue(#[trigger] body_stmts(n)->0[j], in_else) is Some
}

/// A block that opens with `continue`.
fn continue_block() -> (r: Pattern)
    ensures
        recognizes(r, |b: SyntaxNode| leading_continue(b) is Some),
{
    let ghost cont = |n: SyntaxNode| n.kind == NodeKind::Continue && n.children@.len() == 0;
    let a = leaf(NodeKind::Continue);
    let b = leaf(NodeKind::Continue);
    let ghost fs = |n: SyntaxNode| stmt_expr(n) is Some && cont(stmt_expr(n)->0);
    let r = block_opening_with(expr_or_semi(a, b, Ghost(cont)), Ghost(fs));
    assert forall|n: SyntaxNode| #[trigger] pattern_matches(r, n) is Some <==> leading_continue(n) is Some by {}
    r
}

/// An `if`/`else` whose else branch (`in_else`) or then branch opens with
/// `continue`.
fn if_with_continue(in_else: bool) -> (r: Pattern)
    ensures
        recognizes(
            r,
            |f: SyntaxNode|
                f.kind == NodeKind::If && f.children@.len() == 3 && (if in_else {
                    else_continue(f.children@[2]) is Some
                } else {
                    leading_continue(f.children@[1]) is Some
                }),
        ),
{
    let ghost any = |n: SyntaxNode| true;
    let ghost lc = |b: SyntaxNode| leading_continue(b) is Some;
    let ghost ec = |e: SyntaxNode| e.kind == NodeKind::BlockExpr && e.children@.len() == 1 && lc(e.children@[0]);
    let cond = wildcard();
    let r = if in_else {
        let e = variant1(NodeKind::BlockExpr, continue_block(), Ghost(lc));
        variant3(
            NodeKind::If,
            cond,
            Ghost(any),
            wildcard(),
            Ghost(any),
            e,
            Ghost(ec),
        )
    } else {
        variant3(
            NodeKind::If,
            cond,
            Ghost(any),
            continue_block(),
            Ghost(lc),
            wildcard(),
            Ghost(any),
        )
    };
    assert forall|f: SyntaxNode| #[trigger] pattern_matches(r, f) is Some <==> (f.kind == NodeKind::If
        && f.children@.len() == 3 && (if in_else {
        else_continue(f.children@[2]) is Some
    } else {
        leading_continue(f.children@[1]) is Some
    })) by {}
    r
}

/// A statement holding an `if`/`else` whose else branch (`in_else`) or then
/// branch opens with `continue`.
fn anchor_pattern(in_else: bool) -> (r: Pattern)
    ensures
        recognizes(r, |s: SyntaxNode| anchor_continue(s, in_else) is Some),
{
    let ghost fi = |f: SyntaxNode|
        f.kind == NodeKind::If && f.children@.len() == 3 && (if in_else {
            else_continue(f.children@[2]) is Some
        } else {
            leading_continue(f.children@[1]) is Some
        });
    let a = if_with_continue(in_else);
    let b = if_with_continue(in_else);
    let r = expr_or_semi(a, b, Ghost(fi));
    assert forall|s: SyntaxNode| #[trigger] pattern_matches(r, s) is Some <==> anchor_continue(s, in_else) is Some by {}
    r
}

/// A `loop`, `for` or `while` whose body holds an anchor; the statements
/// after the earliest one are left unbound.
fn loop_pattern(in_else: bool) -> (r: Pattern)
    ensures
        recognizes(r, |n: SyntaxNode| has_anchor(n, in_else)),
{
    let ghost any = |n: SyntaxNode| true;
    let ghost fa = |s: SyntaxNode| anchor_continue(s, in_else) is Some;
    let ghost fb = |b: SyntaxNode|
        b.kind == NodeKind::Block && exists|j: int| 0 <= j < b.children@.len() && fa(#[trigger] b.children@[j]);
    let body1 = block_with(anchor_pattern(in_else), Ghost(fa), None);
    let body2 = block_with(anchor_pattern(in_else), Ghost(fa), None);
    let body3 = block_with(anchor_pattern(in_else), Ghost(fa), None);
    let l = variant1(NodeKind::Loop, body1, Ghost(fb));
    let ghost fl = |n: SyntaxNode| n.kind == NodeKind::Loop && n.children@.len() == 1 && fb(n.children@[0]);
    let f = variant3(NodeKind::ForLoop, wildcard(), Ghost(any), wildcard(), Ghost(any), body2, Ghost(fb));
    let ghost ff = |n: SyntaxNode| n.kind == NodeKind::ForLoop && n.children@.len() == 3 && fb(n.children@[2]);
    let w = variant2(NodeKind::While, wildcard(), Ghost(any), body3, Ghost(fb));
    let ghost fw = |n: SyntaxNode| n.kind == NodeKind::While && n.children@.len() == 2 && fb(n.children@[1]);
    let r = any_of3(l, Ghost(fl), f, Ghost(ff), w, Ghost(fw));
    assert forall|n: SyntaxNode| #[trigger] pattern_matches(r, n) is Some <==> has_anchor(n, in_else) by {
        if has_anchor(n, in_else) {
            let j = choose|j: int|
                0 <= j < body_stmts(n)->0.len() && anchor_continue(#[trigger] body_stmts(n)->0[j], in_else) is Some;
            assert(fa(body_stmts(n)->0[j]));
        }
        if pattern_matches(r, n) is Some {
            let b = loop_body(n)->0;
            let j = choose|j: int| 0 <= j < b.children@.len() && fa(#[trigger] b.children@[j]);
            assert(anchor_continue(body_stmts(n)->0[j], in_else) is Some);
        }
    }
    r
}


/// The lint pass for redundant `continue`, with its shapes compiled.
pub struct NeedlessContinue {
    in_else: Pattern,
    in_then: Pattern,
}

impl NeedlessContinue {
    /// The pass, with both of its shapes compiled once.
    pub fn new() -> (r: NeedlessContinue)
        ensures
            r.wf(),
    {
        NeedlessContinue { in_else: loop_pattern(true), in_then: loop_pattern(false) }
    }

    /// Each compiled shape recognises exactly the loops that its rule reads.
    pub closed spec fn wf(&self) -> bool {
        &&& recognizes(self.in_else, |n: SyntaxNode| has_anchor(n, true))
        &&& recognizes(self.in_then, |n: SyntaxNode| has_anchor(n, false))
    }

    proof fn lemma_no_match(&self, src: Seq<char>, n: SyntaxNode, in_else: bool)
        requires
            self.wf(),
            pattern_matches(if in_else { self.in_else } else { self.in_then }, n) is None,
        ensures
            if in_else {
                else_block_suggestion(src, n) is None
            } else {
                then_block_suggestion(src, n) is None
            },
    {
        assert(!has_anchor(n, in_else));
        if body_stmts(n) is Some && first_anchor(body_stmts(n)->0, in_else, 0) is Some {
            lemma_first_anchor_is_anchor(body_stmts(n)->0, in_else, 0);
        }
    }

    /// Takes the earliest `if`/`else` of the loop body whose else branch opens
    /// with `continue`; where that `continue` restarts this loop, proposes to
    /// drop the else branch and move the statements after the `if` into its
    /// then block.
    pub fn check_and_warn_in_else_block(&self, src: &str, n: &SyntaxNode) -> (r: Option<Suggestion>)
        requires
            self.wf(),
        ensures
            opt_view(r) == else_block_suggestion(src@, *n),
    {
        if match_node(&self.in_else, n).is_none() {
            proof {
                self.lemma_no_match(src@, *n, true);
            }
            return None;
        }
        let text = chars_of(src);
        let body = match loop_body_of(n) {
            Some(b) => b,
            None => {
                return None;
            },
        };
        if body.kind != NodeKind::Block {
            return None;
        }
        let stmts = &body.children;
        let count = stmts.len();
        let i = match find_anchor(stmts, true) {
            Some(i) => i,
            None => {
                return None;
            },
        };
        let f = match if_else_of(&stmts[i]) {
            Some(f) => f,
            None => {
                return None;
            },
        };
        let e = &f.children[2];
        let c = match anchor_continue_of(&stmts[i], true) {
            Some(c) => c,
            None => {
                return None;
            },
        };
        if n.ctxt != 0 || e.ctxt != 0 || !compare_labels(n.label, c.label) {
            return None;
        }
        let then_text = string_of(snippet(text.as_slice(), &f.children[1]).as_slice());
        let eroded = trim_multiline(erode_block(then_text.as_str()).as_str(), false);
        let mut rep = chars_of("if ");
        push_all(&mut rep, snippet(text.as_slice(), &f.children[0]));
        push_all(&mut rep, chars_of(" {\n"));
        push_all(&mut rep, chars_of(eroded.as_str()));
        assert(i < count);
        let ghost head = rep@;
        let ghost tail = stmts@.skip(i + 1);
        let ghost tail_part = if tail.len() == 0 {
            seq![]
        } else {
            "\n"@ + joined(text@, tail)
        };
        if i + 1 < count {
            push_all(&mut rep, chars_of("\n"));
            push_all(&mut rep, join_snippets(text.as_slice(), stmts, i + 1));
            assert(rep@ =~= head + tail_part);
        } else {
            assert(tail.len() == 0);
            assert(rep@ =~= head + tail_part);
        }
        push_all(&mut rep, chars_of("\n}"));
        assert(stmts@.last() == stmts@[count - 1]);
        let mut msg = chars_of("This else block is redundant.\n");
        push_all(
            &mut msg,
            chars_of(
                "Consider dropping the else clause and merging the code that follows (in the loop) with the if block, like so:\n",
            ),
        );
        Some(
            Suggestion {
                span_lo: e.lo,
                span_hi: e.hi,
                lo: stmts[i].lo,
                hi: stmts[count - 1].hi,
                message: string_of(msg.as_slice()),
                replacement: string_of(rep.as_slice()),
                applicability: Applicability::MachineApplicable,
            },
        )
    }

    /// Takes the earliest `if`/`else` of the loop body whose then branch opens
    /// with `continue`; where that `continue` restarts this loop, proposes, as
    /// advice only, to negate the condition and make the else branch's
    /// statements the body of the `if`.
    pub fn check_and_warn_in_then_block(&self, src: &str, n: &SyntaxNode) -> (r: Option<Suggestion>)
        requires
            self.wf(),
        ensures
            opt_view(r) == then_block_suggestion(src@, *n),
    {
        if match_node(&self.in_then, n).is_none() {
            proof {
                self.lemma_no_match(src@, *n, false);
            }
            return None;
        }
        let text = chars_of(src);
        let body = match loop_body_of(n) {
            Some(b) => b,
            None => {
                return None;
            },
        };
        if body.kind != NodeKind::Block {
            return None;
        }
        let stmts = &body.children;
        let i = match find_anchor(stmts, false) {
            Some(i) => i,
            None => {
                return None;
            },
        };
        let f = match if_else_of(&stmts[i]) {
            Some(f) => f,
            None => {
                return None;
            },
        };
        let t = &f.children[1];
        let c = match anchor_continue_of(&stmts[i], false) {
            Some(c) => c,
            None => {
                return None;
            },
        };
        if n.ctxt != 0 || t.ctxt != 0 || !compare_labels(n.label, c.label) {
            return None;
        }
        let else_text = string_of(snippet(text.as_slice(), &f.children[2]).as_slice());
        let eroded = trim_multiline(erode_block(else_text.as_str()).as_str(), false);
        let mut rep = chars_of("if !(");
        push_all(&mut rep, snippet(text.as_slice(), &f.children[0]));
        push_all(&mut rep, chars_of(") {\n"));
        push_all(&mut rep, chars_of(eroded.as_str()));
        push_all(&mut rep, chars_of("\n}\n..."));
        let mut msg = chars_of("There is no need for an explicit `else` block for this `if` expression\n");
        push_all(
            &mut msg,
            chars_of(
                "Consider dropping the else clause, and moving out the code in the else block, like so:\n",
            ),
        );
        Some(
            Suggestion {
                span_lo: f.lo,
                span_hi: f.hi,
                lo: f.lo,
                hi: f.hi,
                message: string_of(msg.as_slice()),
                replacement: string_of(rep.as_slice()),
                applicability: Applicability::Advisory,
            },
        )
    }

    /// The suggestions for loop `n`: the one for a `continue` in an else
    /// branch, then the one for a `continue` in a then branch, each where it
    /// applies. A loop that comes from an expansion gets none.
    pub fn check_expr(&self, src: &str, n: &SyntaxNode) -> (r: Vec<Suggestion>)
        requires
            self.wf(),
        ensures
            views(r@) == present(else_block_suggestion(src@, *n), then_block_suggestion(src@, *n)),
            n.ctxt != 0 ==> r@.len() == 0,
    {
        let r = collect_present(
            self.check_and_warn_in_else_block(src, n),
            self.check_and_warn_in_then_block(src, n),
        );
        assert(views(r@).len() == r@.len());
        r
    }
}

/// A labeled `continue` inside an unlabeled loop, or inside a loop with
/// another label, never yields a suggestion; an unlabeled one is judged on the
/// rest alone, whatever the loop's label.
pub proof fn lemma_label_law(src: Seq<char>, n: SyntaxNode, in_else: bool)
    requires
        body_stmts(n) is Some,
        first_anchor(body_stmts(n)->0, in_else, 0) is Some,
    ensures
        ({
            let stmts = body_stmts(n)->0;
            let c = anchor_continue(stmts[first_anchor(stmts, in_else, 0)->0], in_else)->0;
            let r = if in_else {
                else_block_suggestion(src, n)
            } else {
                then_block_suggestion(src, n)
            };
            &&& (c.label is Some && n.label != c.label) ==> r is None
            &&& c.label is None ==> (r is Some <==> (n.ctxt == 0 && (if in_else {
                if_else(stmts[first_anchor(stmts, in_else, 0)->0])->0.children@[2].ctxt
            } else {
                if_else(stmts[first_anchor(stmts, in_else, 0)->0])->0.children@[1].ctxt
            }) == 0))
        }),
{
    let stmts = body_stmts(n)->0;
    lemma_first_anchor_is_anchor(stmts, in_else, 0);
}

proof fn lemma_first_anchor_is_anchor(stmts: Seq<SyntaxNode>, in_else: bool, i: int)
    requires
        first_anchor(stmts, in_else, i) is Some,
    ensures
        ({
            let k = first_anchor(stmts, in_else, i)->0;
            0 <= k < stmts.len() && anchor_continue(stmts[k], in_else) is Some && if_else(stmts[k]) is Some
        }),
    decreases stmts.len() - i,
{
    if 0 <= i < stmts.len() && anchor_continue(stmts[i], in_else) is None {
        lemma_first_anchor_is_anchor(stmts, in_else, i + 1);
    }
}

proof fn lemma_first_anchor_at(stmts: Seq<SyntaxNode>, in_else: bool, j: int, i: int)
    requires
        0 <= j <= i < stmts.len(),
        anchor_continue(stmts[i], in_else) is Some,
        forall|k: int| 0 <= k < i ==> (#[trigger] anchor_continue(stmts[k], in_else)) is None,
    ensures
        first_anchor(stmts, in_else, j) == Some(i),
    decreases i - j,
{
    if j < i {
        assert(anchor_continue(stmts[j], in_else) is None);
        lemma_first_anchor_at(stmts, in_else, j + 1, i);
    }
}

/// Where several `if`/`else` statements of a loop body have an else branch
/// that opens with `continue`, the earliest one decides: the rule rewrites
/// around it, and the statements after it, later anchors included, are what
/// moves into its then block.
pub proof fn lemma_else_rule_earliest_anchor(src: Seq<char>, n: SyntaxNode, i: int)
    requires
        body_stmts(n) is Some,
        0 <= i < body_stmts(n)->0.len(),
        anchor_continue(body_stmts(n)->0[i], true) is Some,
        forall|k: int| 0 <= k < i ==> (#[trigger] anchor_continue(body_stmts(n)->0[k], true)) is None,
    ensures
        else_block_suggestion(src, n) == else_block_at(src, n, body_stmts(n)->0, i),
{
    lemma_first_anchor_at(body_stmts(n)->0, true, 0, i);
}

} // verus!
