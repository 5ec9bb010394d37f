//! Builders that compile tree shapes into patterns, each with the set of
//! nodes that the pattern it returns recognises.
use vstd::prelude::*;
use crate::pattern::{
    matches_children, matches_first, matches_slots, pattern_matches, search, Children, Pattern, Slot, Val,
};
use crate::suggestion::stmt_expr;
use crate::syntax::{NodeKind, SyntaxNode};

verus! {

/// `p` matches exactly the nodes that satisfy `f`.
pub open spec fn recognizes(p: Pattern, f: spec_fn(SyntaxNode) -> bool) -> bool {
    forall|n: SyntaxNode| #[trigger] pattern_matches(p, n) is Some <==> f(n)
}

/// `p` is a node pattern of kind `k` whose children are given by `slots`.
pub open spec fn fixed_shape(p: Pattern, k: NodeKind, slots: Seq<Slot>) -> bool {
    &&& p is Variant
    &&& p->Variant_0 == k
    &&& p->Variant_1 is Fixed
    &&& p->Variant_1->Fixed_0@ == slots
}

/// Whether every slot from `i` on is a `One` whose pattern matches the child
/// at its position, and there are as many children as slots.
pub open spec fn all_one_match(slots: Seq<Slot>, kids: Seq<SyntaxNode>, i: int) -> bool {
    kids.len() == slots.len() && forall|j: int|
        i <= j < slots.len() ==> (#[trigger] slots[j]) is One && pattern_matches(slots[j]->One_0, kids[j]) is Some
}

proof fn lemma_all_one(slots: Seq<Slot>, kids: Seq<SyntaxNode>, i: int)
    requires
        0 <= i <= slots.len(),
        forall|j: int| i <= j < slots.len() ==> (#[trigger] slots[j]) is One,
    ensures
        matches_slots(slots, i, kids) is Some <==> (kids.len() <= slots.len() && (forall|j: int|
            i <= j < slots.len() ==> j < kids.len() && pattern_matches((#[trigger] slots[j])->One_0, kids[j]) is Some)),
    decreases slots.len() - i,
{
    if i < slots.len() {
        lemma_all_one(slots, kids, i + 1);
        assert(slots[i] is One);
        if matches_slots(slots, i, kids) is Some {
            assert forall|j: int| i <= j < slots.len() implies j < kids.len() && pattern_matches(
                (#[trigger] slots[j])->One_0,
                kids[j],
            ) is Some by {
                if j > i {
                } else {
                }
            }
        }
        if kids.len() <= slots.len() && (forall|j: int|
            i <= j < slots.len() ==> j < kids.len() && pattern_matches((#[trigger] slots[j])->One_0, kids[j]) is Some) {
            assert(pattern_matches(slots[i]->One_0, kids[i]) is Some);
        }
    }
}

/// Matches any node.
pub fn wildcard() -> (r: Pattern)
    ensures
        r == Pattern::Wildcard,
        recognizes(r, |n: SyntaxNode| true),
{
    Pattern::Wildcard
}

/// Binds what `p` matches under `name`.
pub fn capture(name: u64, p: Pattern, Ghost(f): Ghost<spec_fn(SyntaxNode) -> bool>) -> (r: Pattern)
    requires
        recognizes(p, f),
    ensures
        r == Pattern::Capture(name, Box::new(p)),
        recognizes(r, f),
        forall|n: SyntaxNode| #[trigger] pattern_matches(r, n) == match pattern_matches(p, n) {
            Some(c) => Some(seq![(name, Val::Node(n))] + c),
            None => None,
        },
{
    let r = Pattern::Capture(name, Box::new(p));
    assert forall|n: SyntaxNode| #[trigger] pattern_matches(r, n) is Some <==> f(n) by {
        assert(pattern_matches(p, n) is Some <==> f(n));
    }
    r
}

/// A node of kind `k` whose children match `slots`, one each.
fn variant_of(k: NodeKind, slots: Vec<Slot>) -> (r: Pattern)
    requires
        forall|j: int| 0 <= j < slots@.len() ==> (#[trigger] slots@[j]) is One,
    ensures
        r == Pattern::Variant(k, Children::Fixed(slots)),
        forall|n: SyntaxNode| #[trigger] pattern_matches(r, n) is Some <==> (n.kind == k && n.children@.len()
            == slots@.len() && forall|j: int|
            0 <= j < slots@.len() ==> pattern_matches((#[trigger] slots@[j])->One_0, n.children@[j]) is Some),
{
    let ghost s = slots@;
    let r = Pattern::Variant(k, Children::Fixed(slots));
    assert forall|n: SyntaxNode| #[trigger] pattern_matches(r, n) is Some <==> (n.kind == k && n.children@.len()
        == s.len() && forall|j: int|
        0 <= j < s.len() ==> pattern_matches((#[trigger] s[j])->One_0, n.children@[j]) is Some) by {
        lemma_all_one(s, n.children@, 0);
        let ch = r->Variant_1;
        assert(ch is Fixed && ch->Fixed_0@ == s);
        assert(matches_children(ch, n.children@) == matches_slots(s, 0, n.children@));
        if s.len() > 0 && matches_slots(s, 0, n.children@) is Some {
            assert(s.len() - 1 < n.children@.len() && pattern_matches(s[s.len() - 1]->One_0, n.children@[s.len() - 1]) is Some);
        }
    }
    r
}

/// A node of kind `k` with one child, which `a` matches.
pub fn variant1(k: NodeKind, a: Pattern, Ghost(fa): Ghost<spec_fn(SyntaxNode) -> bool>) -> (r: Pattern)
    requires
        recognizes(a, fa),
    ensures
        fixed_shape(r, k, seq![Slot::One(a)]),
        recognizes(r, |n: SyntaxNode| n.kind == k && n.children@.len() == 1 && fa(n.children@[0])),
{
    let ghost pa = a;
    let v = vec![Slot::One(a)];
    assert(v@ =~= seq![Slot::One(pa)]);
    let r = variant_of(k, v);
    assert forall|n: SyntaxNode| #[trigger] pattern_matches(r, n) is Some <==> (n.kind == k && n.children@.len() == 1
        && fa(n.children@[0])) by {
        if n.children@.len() == 1 {
            assert(pattern_matches(pa, n.children@[0]) is Some <==> fa(n.children@[0]));
        }
    }
    r
}

/// A node of kind `k` with two children, which `a` and `b` match.
pub fn variant2(
    k: NodeKind,
    a: Pattern,
    Ghost(fa): Ghost<spec_fn(SyntaxNode) -> bool>,
    b: Pattern,
    Ghost(fb): Ghost<spec_fn(SyntaxNode) -> bool>,
) -> (r: Pattern)
    requires
        recognizes(a, fa),
        recognizes(b, fb),
    ensures
        fixed_shape(r, k, seq![Slot::One(a), Slot::One(b)]),
        recognizes(
            r,
            |n: SyntaxNode|
                n.kind == k && n.children@.len() == 2 && fa(n.children@[0]) && fb(n.children@[1]),
        ),
{
    let ghost (pa, pb) = (a, b);
    let r = variant_of(k, vec![Slot::One(a), Slot::One(b)]);
    assert forall|n: SyntaxNode| #[trigger] pattern_matches(r, n) is Some <==> (n.kind == k && n.children@.len() == 2
        && fa(n.children@[0]) && fb(n.children@[1])) by {
        if n.children@.len() == 2 {
            assert(pattern_matches(pa, n.children@[0]) is Some <==> fa(n.children@[0]));
            assert(pattern_matches(pb, n.children@[1]) is Some <==> fb(n.children@[1]));
        }
    }
    r
}

/// A node of kind `k` with three children, which `a`, `b` and `c` match.
pub fn variant3(
    k: NodeKind,
    a: Pattern,
    Ghost(fa): Ghost<spec_fn(SyntaxNode) -> bool>,
    b: Pattern,
    Ghost(fb): Ghost<spec_fn(SyntaxNode) -> bool>,
    c: Pattern,
    Ghost(fc): Ghost<spec_fn(SyntaxNode) -> bool>,
) -> (r: Pattern)
    requires
        recognizes(a, fa),
        recognizes(b, fb),
        recognizes(c, fc),
    ensures
        fixed_shape(r, k, seq![Slot::One(a), Slot::One(b), Slot::One(c)]),
        recognizes(
            r,
            |n: SyntaxNode|
                n.kind == k && n.children@.len() == 3 && fa(n.children@[0]) && fb(n.children@[1]) && fc(
                    n.children@[2],
                ),
        ),
{
    let ghost (pa, pb, pc) = (a, b, c);
    let r = variant_of(k, vec![Slot::One(a), Slot::One(b), Slot::One(c)]);
    assert forall|n: SyntaxNode| #[trigger] pattern_matches(r, n) is Some <==> (n.kind == k && n.children@.len() == 3
        && fa(n.children@[0]) && fb(n.children@[1]) && fc(n.children@[2])) by {
        if n.children@.len() == 3 {
            assert(pattern_matches(pa, n.children@[0]) is Some <==> fa(n.children@[0]));
            assert(pattern_matches(pb, n.children@[1]) is Some <==> fb(n.children@[1]));
            assert(pattern_matches(pc, n.children@[2]) is Some <==> fc(n.children@[2]));
        }
    }
    r
}

/// A node of kind `k` without children.
pub fn leaf(k: NodeKind) -> (r: Pattern)
    ensures
        fixed_shape(r, k, seq![]),
        recognizes(r, |n: SyntaxNode| n.kind == k && n.children@.len() == 0),
{
    variant_of(k, Vec::new())
}

/// An expression statement, with or without a semicolon, whose expression
/// `a` (and `b`, which must recognise the same) matches.
pub fn expr_or_semi(
    a: Pattern,
    b: Pattern,
    Ghost(f): Ghost<spec_fn(SyntaxNode) -> bool>,
) -> (r: Pattern)
    requires
        recognizes(a, f),
        recognizes(b, f),
    ensures
        r is Alt,
        r->Alt_0@.len() == 2,
        fixed_shape(r->Alt_0@[0], NodeKind::Expr, seq![Slot::One(a)]),
        fixed_shape(r->Alt_0@[1], NodeKind::Semi, seq![Slot::One(b)]),
        recognizes(r, |n: SyntaxNode| stmt_expr(n) is Some && f(stmt_expr(n)->0)),
{
    let e = variant1(NodeKind::Expr, a, Ghost(f));
    let s = variant1(NodeKind::Semi, b, Ghost(f));
    let ghost (pe, ps) = (e, s);
    let alts = vec![e, s];
    let r = Pattern::Alt(alts);
    assert forall|n: SyntaxNode| #[trigger] pattern_matches(r, n) is Some <==> (stmt_expr(n) is Some && f(
        stmt_expr(n)->0,
    )) by {
        assert(alts@[0] == pe && alts@[1] == ps);
        assert(pattern_matches(pe, n) is Some <==> (n.kind == NodeKind::Expr && n.children@.len() == 1 && f(n.children@[0])));
        assert(pattern_matches(ps, n) is Some <==> (n.kind == NodeKind::Semi && n.children@.len() == 1 && f(n.children@[0])));
        assert(pattern_matches(r, n) == matches_first(alts@, 0, n));
        assert(matches_first(alts@, 2, n) is None);
        assert(matches_first(alts@, 1, n) is Some <==> pattern_matches(ps, n) is Some);
        assert(matches_first(alts@, 0, n) is Some <==> (pattern_matches(pe, n) is Some || pattern_matches(ps, n) is Some));
    }
    r
}

/// A block whose first statement `first` matches, whatever follows it.
pub fn block_opening_with(first: Pattern, Ghost(f): Ghost<spec_fn(SyntaxNode) -> bool>) -> (r: Pattern)
    requires
        recognizes(first, f),
    ensures
        r == Pattern::Variant(NodeKind::Block, Children::Prefix(Box::new(first), None)),
        recognizes(
            r,
            |n: SyntaxNode| n.kind == NodeKind::Block && n.children@.len() > 0 && f(n.children@[0]),
        ),
{
    let ghost pf = first;
    let r = Pattern::Variant(NodeKind::Block, Children::Prefix(Box::new(first), None));
    assert forall|n: SyntaxNode| #[trigger] pattern_matches(r, n) is Some <==> (n.kind == NodeKind::Block
        && n.children@.len() > 0 && f(n.children@[0])) by {
        reveal_with_fuel(pattern_matches, 3);
        if n.children@.len() > 0 {
            assert(pattern_matches(pf, n.children@[0]) is Some <==> f(n.children@[0]));
        }
    }
    r
}

proof fn lemma_search_some(anchor: Pattern, name: Option<u64>, kids: Seq<SyntaxNode>, i: int)
    requires
        0 <= i <= kids.len(),
    ensures
        search(anchor, name, kids, i) is Some <==> exists|j: int|
            i <= j < kids.len() && (#[trigger] pattern_matches(anchor, kids[j])) is Some,
    decreases kids.len() - i,
{
    if i < kids.len() {
        lemma_search_some(anchor, name, kids, i + 1);
        if search(anchor, name, kids, i) is Some && pattern_matches(anchor, kids[i]) is None {
            let j = choose|j: int| i + 1 <= j < kids.len() && (#[trigger] pattern_matches(anchor, kids[j])) is Some;
            assert(i <= j < kids.len() && pattern_matches(anchor, kids[j]) is Some);
        }
        if exists|j: int| i <= j < kids.len() && (#[trigger] pattern_matches(anchor, kids[j])) is Some {
            if pattern_matches(anchor, kids[i]) is None {
                let j = choose|j: int| i <= j < kids.len() && (#[trigger] pattern_matches(anchor, kids[j])) is Some;
                assert(j != i);
                assert(i + 1 <= j < kids.len() && pattern_matches(anchor, kids[j]) is Some);
            }
        }
    }
}

/// A block with some statement that `anchor` matches; the statements after
/// the earliest such one are bound under `name`, where one is given.
pub fn block_with(anchor: Pattern, Ghost(f): Ghost<spec_fn(SyntaxNode) -> bool>, name: Option<u64>) -> (r: Pattern)
    requires
        recognizes(anchor, f),
    ensures
        r == Pattern::Variant(NodeKind::Block, Children::Search(Box::new(anchor), name)),
        recognizes(
            r,
            |n: SyntaxNode|
                n.kind == NodeKind::Block && exists|j: int|
                    0 <= j < n.children@.len() && f(#[trigger] n.children@[j]),
        ),
{
    let ghost pa = anchor;
    let r = Pattern::Variant(NodeKind::Block, Children::Search(Box::new(anchor), name));
    assert forall|n: SyntaxNode| #[trigger] pattern_matches(r, n) is Some <==> (n.kind == NodeKind::Block
        && exists|j: int| 0 <= j < n.children@.len() && f(#[trigger] n.children@[j])) by {
        reveal_with_fuel(pattern_matches, 3);
        lemma_search_some(pa, name, n.children@, 0);
        if exists|j: int| 0 <= j < n.children@.len() && f(#[trigger] n.children@[j]) {
            let j = choose|j: int| 0 <= j < n.children@.len() && f(#[trigger] n.children@[j]);
            assert(pattern_matches(pa, n.children@[j]) is Some);
        }
        if exists|j: int| 0 <= j < n.children@.len() && (#[trigger] pattern_matches(pa, n.children@[j])) is Some {
            let j = choose|j: int| 0 <= j < n.children@.len() && (#[trigger] pattern_matches(pa, n.children@[j])) is Some;
            assert(f(n.children@[j]));
        }
    }
    r
}

/// The first of three alternatives that matches.
pub fn any_of3(
    a: Pattern,
    Ghost(fa): Ghost<spec_fn(SyntaxNode) -> bool>,
    b: Pattern,
    Ghost(fb): Ghost<spec_fn(SyntaxNode) -> bool>,
    c: Pattern,
    Ghost(fc): Ghost<spec_fn(SyntaxNode) -> bool>,
) -> (r: Pattern)
    requires
        recognizes(a, fa),
        recognizes(b, fb),
        recognizes(c, fc),
    ensures
        r is Alt,
        r->Alt_0@ == seq![a, b, c],
        recognizes(r, |n: SyntaxNode| fa(n) || fb(n) || fc(n)),
{
    let ghost (pa, pb, pc) = (a, b, c);
    let alts = vec![a, b, c];
    let r = Pattern::Alt(alts);
    assert forall|n: SyntaxNode| #[trigger] pattern_matches(r, n) is Some <==> (fa(n) || fb(n) || fc(n)) by {
        assert(alts@[0] == pa && alts@[1] == pb && alts@[2] == pc);
        assert(pattern_matches(pa, n) is Some <==> fa(n));
        assert(pattern_matches(pb, n) is Some <==> fb(n));
        assert(pattern_matches(pc, n) is Some <==> fc(n));
        assert(pattern_matches(r, n) == matches_first(alts@, 0, n));
        assert(matches_first(alts@, 3, n) is None);
        assert(matches_first(alts@, 2, n) is Some <==> fc(n));
        assert(matches_first(alts@, 1, n) is Some <==> (fb(n) || fc(n)));
        assert(matches_first(alts@, 0, n) is Some <==> (fa(n) || fb(n) || fc(n)));
    }
    r
}

} // verus!
