//! Declarative tree shapes and the matcher that evaluates them against a
//! syntax tree, binding named captures on success.
use vstd::prelude::*;
use vstd::slice::slice_subrange;
use crate::syntax::{NodeKind, SyntaxNode};

verus! {

/// A tree shape.
pub enum Pattern {
    /// Any single node; binds nothing.
    Wildcard,
    /// A node of the given kind whose children match.
    Variant(NodeKind, Children),
    /// The first alternative that matches.
    Alt(Vec<Pattern>),
    /// Binds the matched node under the name.
    Capture(u64, Box<Pattern>),
}

/// What a node's children must look like.
pub enum Children {
    /// One slot per child position.
    Fixed(Vec<Slot>),
    /// The first child matches; the children after it, any number, are bound
    /// under the name where one is given.
    Prefix(Box<Pattern>, Option<u64>),
    /// Some child matches the anchor; the earliest such child decides, and the
    /// children after it are bound under the name where one is given.
    Search(Box<Pattern>, Option<u64>),
}

/// One child position.
pub enum Slot {
    /// A child that matches.
    One(Pattern),
    /// No child, or a child that matches; bound under the name where one is given.
    Opt(Pattern, Option<u64>),
    /// No child.
    Absent,
}

/// A captured value, as the contracts speak of it.
pub enum Val {
    Node(SyntaxNode),
    Nodes(Seq<SyntaxNode>),
    Absent,
}

/// A captured value: borrowed from the tree that was matched.
#[derive(Clone, Copy)]
pub enum Bound<'a> {
    Node(&'a SyntaxNode),
    Nodes(&'a [SyntaxNode]),
    Absent,
}

impl<'a> Bound<'a> {
    pub open spec fn view(&self) -> Val {
        match *self {
            Bound::Node(n) => Val::Node(*n),
            Bound::Nodes(s) => Val::Nodes(s@),
            Bound::Absent => Val::Absent,
        }
    }
}

#[derive(Clone, Copy)]
pub struct Binding<'a> {
    pub name: u64,
    pub value: Bound<'a>,
}

impl<'a> Binding<'a> {
    pub open spec fn view(&self) -> (u64, Val) {
        (self.name, self.value.view())
    }
}

pub open spec fn captures_view(v: Seq<Binding>) -> Seq<(u64, Val)> {
    v.map_values(|b: Binding| b.view())
}

pub open spec fn tail_capture(name: Option<u64>, rest: Seq<SyntaxNode>) -> Seq<(u64, Val)> {
    match name {
        Some(x) => seq![(x, Val::Nodes(rest))],
        None => seq![],
    }
}

/// The captures of `p` on `n`, or `None` where `p` does not match `n`.
pub open spec fn pattern_matches(p: Pattern, n: SyntaxNode) -> Option<Seq<(u64, Val)>>
    decreases p, 0int,
{
    match p {
        Pattern::Wildcard => Some(seq![]),
        Pattern::Capture(name, inner) => match pattern_matches(*inner, n) {
            Some(c) => Some(seq![(name, Val::Node(n))] + c),
            None => None,
        },
        Pattern::Alt(ps) => matches_first(ps@, 0, n),
        Pattern::Variant(k, ch) => if n.kind == k {
            matches_children(ch, n.children@)
        } else {
            None
        },
    }
}

/// The captures of the first of `ps[i..]` that matches `n`.
pub open spec fn matches_first(ps: Seq<Pattern>, i: int, n: SyntaxNode) -> Option<Seq<(u64, Val)>>
    decreases ps, ps.len() - i,
{
    if 0 <= i < ps.len() {
        match pattern_matches(ps[i], n) {
            Some(c) => Some(c),
            None => matches_first(ps, i + 1, n),
        }
    } else {
        None
    }
}

pub open spec fn matches_children(ch: Children, kids: Seq<SyntaxNode>) -> Option<Seq<(u64, Val)>>
    decreases ch, 0int,
{
    match ch {
        Children::Fixed(slots) => matches_slots(slots@, 0, kids),
        Children::Prefix(first, name) => if kids.len() > 0 {
            match pattern_matches(*first, kids[0]) {
                Some(c) => Some(c + tail_capture(name, kids.drop_first())),
                None => None,
            }
        } else {
            None
        },
        Children::Search(anchor, name) => search(*anchor, name, kids, 0),
    }
}

/// The captures of `slots[i..]` on the child positions `i..` of `kids`.
pub open spec fn matches_slots(slots: Seq<Slot>, i: int, kids: Seq<SyntaxNode>) -> Option<
    Seq<(u64, Val)>,
>
    decreases slots, slots.len() - i,
{
    if i < 0 || i >= slots.len() {
        if kids.len() <= slots.len() {
            Some(seq![])
        } else {
            None
        }
    } else {
        let rest = matches_slots(slots, i + 1, kids);
        match slots[i] {
            Slot::One(p) => if i < kids.len() {
                match (pattern_matches(p, kids[i]), rest) {
                    (Some(c), Some(r)) => Some(c + r),
                    _ => None,
                }
            } else {
                None
            },
            Slot::Opt(p, name) => if i < kids.len() {
                match (pattern_matches(p, kids[i]), rest) {
                    (Some(c), Some(r)) => Some(
                        match name {
                            Some(x) => seq![(x, Val::Node(kids[i]))],
                            None => seq![],
                        } + c + r,
                    ),
                    _ => None,
                }
            } else {
                match rest {
                    Some(r) => Some(
                        match name {
                            Some(x) => seq![(x, Val::Absent)],
                            None => seq![],
                        } + r,
                    ),
                    None => None,
                }
            },
            Slot::Absent => if i < kids.len() {
                None
            } else {
                rest
            },
        }
    }
}

/// The captures of the anchor on the earliest of `kids[i..]` that it matches,
/// followed by the children after that one.
pub open spec fn search(anchor: Pattern, name: Option<u64>, kids: Seq<SyntaxNode>, i: int) -> Option<
    Seq<(u64, Val)>,
>
    decreases anchor, kids.len() - i,
{
    if 0 <= i < kids.len() {
        match pattern_matches(anchor, kids[i]) {
            Some(c) => Some(c + tail_capture(name, kids.skip(i + 1))),
            None => search(anchor, name, kids, i + 1),
        }
    } else {
        None
    }
}


pub open spec fn result_view(r: Option<Vec<Binding>>) -> Option<Seq<(u64, Val)>> {
    match r {
        Some(v) => Some(captures_view(v@)),
        None => None,
    }
}

pub open spec fn prepend(acc: Seq<(u64, Val)>, r: Option<Seq<(u64, Val)>>) -> Option<Seq<(u64, Val)>> {
    match r {
        Some(x) => Some(acc + x),
        None => None,
    }
}

proof fn lemma_view_concat(a: Seq<Binding>, b: Seq<Binding>)
    ensures
        captures_view(a + b) == captures_view(a) + captures_view(b),
{
    assert(captures_view(a + b) =~= captures_view(a) + captures_view(b));
}

/// `a` followed by `b`.
fn concat<'a>(a: Vec<Binding<'a>>, b: Vec<Binding<'a>>) -> (r: Vec<Binding<'a>>)
    ensures
        captures_view(r@) == captures_view(a@) + captures_view(b@),
{
    let mut a = a;
    let mut b = b;
    proof {
        lemma_view_concat(a@, b@);
    }
    a.append(&mut b);
    a
}

fn tail_binding<'a>(name: Option<u64>, rest: &'a [SyntaxNode]) -> (r: Vec<Binding<'a>>)
    ensures
        captures_view(r@) == tail_capture(name, rest@),
{
    let mut v: Vec<Binding<'a>> = Vec::new();
    match name {
        Some(x) => {
            v.push(Binding { name: x, value: Bound::Nodes(rest) });
            assert(captures_view(v@) =~= tail_capture(name, rest@));
        },
        None => {
            assert(captures_view(v@) =~= tail_capture(name, rest@));
        },
    }
    v
}

fn single<'a>(name: u64, value: Bound<'a>) -> (r: Vec<Binding<'a>>)
    ensures
        captures_view(r@) == seq![(name, value.view())],
{
    let mut v: Vec<Binding<'a>> = Vec::new();
    v.push(Binding { name, value });
    assert(captures_view(v@) =~= seq![(name, value.view())]);
    v
}

/// Matches `p` against `n`: the captures on success, `None` otherwise.
pub fn match_node<'a>(p: &Pattern, n: &'a SyntaxNode) -> (r: Option<Vec<Binding<'a>>>)
    ensures
        result_view(r) == pattern_matches(*p, *n),
    decreases p, 0int,
{
    match p {
        Pattern::Wildcard => {
            let v: Vec<Binding<'a>> = Vec::new();
            assert(captures_view(v@) =~= seq![]);
            Some(v)
        },
        Pattern::Capture(name, inner) => match match_node(inner, n) {
            Some(c) => Some(concat(single(*name, Bound::Node(n)), c)),
            None => None,
        },
        Pattern::Alt(ps) => {
            let mut i: usize = 0;
            while i < ps.len()
                invariant
                    i <= ps@.len(),
                    pattern_matches(*p, *n) == matches_first(ps@, i as int, *n),
                    *p == Pattern::Alt(*ps),
                decreases ps@.len() - i,
            {
                let r = match_node(&ps[i], n);
                if r.is_some() {
                    return r;
                }
                i = i + 1;
            }
            None
        },
        Pattern::Variant(k, ch) => {
            if n.kind == *k {
                match_children(ch, n.children.as_slice())
            } else {
                None
            }
        },
    }
}

/// Matches the children of a node against `ch`.
pub fn match_children<'a>(ch: &Children, kids: &'a [SyntaxNode]) -> (r: Option<Vec<Binding<'a>>>)
    ensures
        result_view(r) == matches_children(*ch, kids@),
    decreases ch, 1int,
{
    match ch {
        Children::Fixed(slots) => match_slots(ch, slots, kids),
        Children::Prefix(first, name) => {
            if kids.len() == 0 {
                return None;
            }
            match match_node(first, &kids[0]) {
                Some(c) => {
                    let rest = slice_subrange(kids, 1, kids.len());
                    assert(rest@ =~= kids@.drop_first());
                    Some(concat(c, tail_binding(*name, rest)))
                },
                None => None,
            }
        },
        Children::Search(anchor, name) => {
            let mut i: usize = 0;
            while i < kids.len()
                invariant
                    i <= kids@.len(),
                    matches_children(*ch, kids@) == search(**anchor, *name, kids@, i as int),
                    *ch == Children::Search(*anchor, *name),
                decreases kids@.len() - i,
            {
                match match_node(anchor, &kids[i]) {
                    Some(c) => {
                        let rest = slice_subrange(kids, i + 1, kids.len());
                        assert(rest@ =~= kids@.skip(i + 1));
                        return Some(concat(c, tail_binding(*name, rest)));
                    },
                    None => {},
                }
                i = i + 1;
            }
            None
        },
    }
}

fn match_slots<'a>(ch: &Children, slots: &Vec<Slot>, kids: &'a [SyntaxNode]) -> (r: Option<
    Vec<Binding<'a>>,
>)
    requires
        *ch == Children::Fixed(*slots),
    ensures
        result_view(r) == matches_slots(slots@, 0, kids@),
    decreases ch, 0int,
{
    let mut acc: Vec<Binding<'a>> = Vec::new();
    let mut i: usize = 0;
    assert(captures_view(acc@) =~= seq![]);
    assert(matches_slots(slots@, 0, kids@) == prepend(captures_view(acc@), matches_slots(slots@, 0, kids@))) by {
        match matches_slots(slots@, 0, kids@) {
            Some(x) => { assert(captures_view(acc@) + x =~= x); },
            None => {},
        }
    }
    while i < slots.len()
        invariant
            i <= slots@.len(),
            *ch == Children::Fixed(*slots),
            matches_slots(slots@, 0, kids@) == prepend(captures_view(acc@), matches_slots(slots@, i as int, kids@)),
        decreases slots@.len() - i,
    {
        let ghost rest = matches_slots(slots@, i + 1, kids@);
        let ghost a = captures_view(acc@);
        proof {
            assert(*ch is Fixed && ch->Fixed_0 == *slots);
            assert(decreases_to!(*ch => ch->Fixed_0));
            assert(decreases_to!(*slots => slots[i as int]));
        }
        match &slots[i] {
            Slot::One(p) => {
                if i >= kids.len() {
                    return None;
                }
                assert(decreases_to!(slots[i as int] => *p));
                match match_node(p, &kids[i]) {
                    Some(c) => {
                        proof {
                            if rest is Some {
                                assert(a + (captures_view(c@) + rest->0) =~= (a + captures_view(c@)) + rest->0);
                            }
                        }
                        acc = concat(acc, c);
                    },
                    None => {
                        return None;
                    },
                }
            },
            Slot::Opt(p, name) => {
                if i < kids.len() {
                    assert(decreases_to!(slots[i as int] => *p));
                    match match_node(p, &kids[i]) {
                        Some(c) => {
                            let head = match name {
                                Some(x) => single(*x, Bound::Node(&kids[i])),
                                None => Vec::new(),
                            };
                            let ghost h = captures_view(head@);
                            assert(h =~= match name {
                                Some(x) => seq![(*x, Val::Node(kids@[i as int]))],
                                None => seq![],
                            });
                            proof {
                                if rest is Some {
                                    assert(a + (h + captures_view(c@) + rest->0) =~= (a + h + captures_view(c@)) + rest->0);
                                }
                            }
                            acc = concat(concat(acc, head), c);
                        },
                        None => {
                            return None;
                        },
                    }
                } else {
                    let head = match name {
                        Some(x) => single(*x, Bound::Absent),
                        None => Vec::new(),
                    };
                    let ghost h = captures_view(head@);
                    assert(h =~= match name {
                        Some(x) => seq![(*x, Val::Absent)],
                        None => seq![],
                    });
                    proof {
                        if rest is Some {
                            assert(a + (h + rest->0) =~= (a + h) + rest->0);
                        }
                    }
                    acc = concat(acc, head);
                }
            },
            Slot::Absent => {
                if i < kids.len() {
                    return None;
                }
            },
        }
        i = i + 1;
    }
    if kids.len() > slots.len() {
        return None;
    }
    assert(captures_view(acc@) + seq![] =~= captures_view(acc@));
    Some(acc)
}

/// The value bound under `name`: the first binding of that name.
pub open spec fn lookup(c: Seq<(u64, Val)>, name: u64) -> Option<Val>
    decreases c.len(),
{
    if c.len() == 0 {
        None
    } else if c[0].0 == name {
        Some(c[0].1)
    } else {
        lookup(c.drop_first(), name)
    }
}

/// The value that a match bound under `name`, if any.
pub fn get<'a>(caps: &Vec<Binding<'a>>, name: u64) -> (r: Option<Bound<'a>>)
    ensures
        match r {
            Some(b) => lookup(captures_view(caps@), name) == Some(b.view()),
            None => lookup(captures_view(caps@), name) is None,
        },
{
    let mut i: usize = 0;
    assert(captures_view(caps@).skip(0) =~= captures_view(caps@));
    while i < caps.len()
        invariant
            i <= caps@.len(),
            lookup(captures_view(caps@), name) == lookup(captures_view(caps@).skip(i as int), name),
        decreases caps@.len() - i,
    {
        let ghost v = captures_view(caps@);
        assert(v.skip(i as int).drop_first() =~= v.skip(i + 1));
        if caps[i].name == name {
            return Some(caps[i].value);
        }
        i = i + 1;
    }
    assert(captures_view(caps@).skip(i as int).len() == 0);
    None
}

/// Matching is a function of the pattern and the node: the same pair always
/// gives the same captures, or always fails.
pub proof fn lemma_match_deterministic(p: Pattern, n: SyntaxNode, m: SyntaxNode)
    requires
        n == m,
    ensures
        pattern_matches(p, n) == pattern_matches(p, m),
{
}

proof fn lemma_search_skips(anchor: Pattern, name: Option<u64>, kids: Seq<SyntaxNode>, j: int, i: int)
    requires
        0 <= j <= i < kids.len(),
        forall|k: int| 0 <= k < i ==> (#[trigger] pattern_matches(anchor, kids[k])) is None,
    ensures
        search(anchor, name, kids, j) == search(anchor, name, kids, i),
    decreases i - j,
{
    if j < i {
        assert(pattern_matches(anchor, kids[j]) is None);
        lemma_search_skips(anchor, name, kids, j + 1, i);
    }
}

/// A search over siblings anchors at the earliest sibling that the anchor
/// matches: the captures are the anchor's on that sibling, then the siblings
/// after it, whatever later siblings the anchor would also match.
pub proof fn lemma_earliest_anchor(anchor: Pattern, name: u64, kids: Seq<SyntaxNode>, i: int)
    requires
        0 <= i < kids.len(),
        pattern_matches(anchor, kids[i]) is Some,
        forall|k: int| 0 <= k < i ==> (#[trigger] pattern_matches(anchor, kids[k])) is None,
    ensures
        matches_children(Children::Search(Box::new(anchor), Some(name)), kids) == Some(
            pattern_matches(anchor, kids[i])->0 + seq![(name, Val::Nodes(kids.skip(i + 1)))],
        ),
{
    lemma_search_skips(anchor, Some(name), kids, 0, i);
}

/// Without a sibling that the anchor matches, a search fails.
pub proof fn lemma_search_needs_anchor(anchor: Pattern, name: Option<u64>, kids: Seq<SyntaxNode>)
    requires
        forall|k: int| 0 <= k < kids.len() ==> (#[trigger] pattern_matches(anchor, kids[k])) is None,
    ensures
        matches_children(Children::Search(Box::new(anchor), name), kids) is None,
{
    assert forall|j: int| 0 <= j <= kids.len() implies #[trigger] search(anchor, name, kids, kids.len() - j) is None by {
        lemma_search_suffix_fails(anchor, name, kids, j);
    }
    assert(search(anchor, name, kids, kids.len() - kids.len()) is None);
}

proof fn lemma_search_suffix_fails(anchor: Pattern, name: Option<u64>, kids: Seq<SyntaxNode>, j: int)
    requires
        0 <= j <= kids.len(),
        forall|k: int| 0 <= k < kids.len() ==> (#[trigger] pattern_matches(anchor, kids[k])) is None,
    ensures
        search(anchor, name, kids, kids.len() - j) is None,
    decreases j,
{
    if j > 0 {
        assert(pattern_matches(anchor, kids[kids.len() - j]) is None);
        lemma_search_suffix_fails(anchor, name, kids, j - 1);
    }
}

pub open spec fn opt_name(name: Option<u64>) -> Seq<u64> {
    match name {
        Some(x) => seq![x],
        None => seq![],
    }
}

/// The names that `p` can bind, in order; a name that several alternatives
/// bind appears once for each of them.
pub open spec fn capture_names(p: Pattern) -> Seq<u64>
    decreases p, 0int,
{
    match p {
        Pattern::Wildcard => seq![],
        Pattern::Capture(x, q) => seq![x] + capture_names(*q),
        Pattern::Alt(ps) => alt_names(ps@, ps@.len() as int),
        Pattern::Variant(_, ch) => match ch {
            Children::Fixed(slots) => slot_names(slots@, slots@.len() as int),
            Children::Prefix(q, name) => capture_names(*q) + opt_name(name),
            Children::Search(q, name) => capture_names(*q) + opt_name(name),
        },
    }
}

/// The names of the first `n` alternatives.
pub open spec fn alt_names(ps: Seq<Pattern>, n: int) -> Seq<u64>
    decreases ps, n,
{
    if 0 < n <= ps.len() {
        alt_names(ps, n - 1) + capture_names(ps[n - 1])
    } else {
        seq![]
    }
}

/// The names that slot `s` can bind.
pub open spec fn slot_own_names(s: Slot) -> Seq<u64>
    decreases s, 0int,
{
    match s {
        Slot::One(q) => capture_names(q),
        Slot::Opt(q, name) => opt_name(name) + capture_names(q),
        Slot::Absent => seq![],
    }
}

/// The names of the first `n` slots.
pub open spec fn slot_names(slots: Seq<Slot>, n: int) -> Seq<u64>
    decreases slots, n,
{
    if 0 < n <= slots.len() {
        slot_names(slots, n - 1) + slot_own_names(slots[n - 1])
    } else {
        seq![]
    }
}

pub open spec fn disjoint(a: Seq<u64>, b: Seq<u64>) -> bool {
    forall|x: u64| a.contains(x) ==> !b.contains(x)
}

/// No match of `p` can bind a name twice: a capture's name is not bound
/// inside it, and the slots of one node bind disjoint names. Alternatives may
/// share names, since only one of them binds.
pub open spec fn unique_names(p: Pattern) -> bool
    decreases p, 0int,
{
    match p {
        Pattern::Wildcard => true,
        Pattern::Capture(x, q) => unique_names(*q) && !capture_names(*q).contains(x),
        Pattern::Alt(ps) => alts_unique(ps@, ps@.len() as int),
        Pattern::Variant(_, ch) => match ch {
            Children::Fixed(slots) => slots_unique(slots@, slots@.len() as int),
            Children::Prefix(q, name) => unique_names(*q) && disjoint(capture_names(*q), opt_name(name)),
            Children::Search(q, name) => unique_names(*q) && disjoint(capture_names(*q), opt_name(name)),
        },
    }
}

/// Each of the first `n` alternatives has unique names.
pub open spec fn alts_unique(ps: Seq<Pattern>, n: int) -> bool
    decreases ps, n,
{
    if 0 < n <= ps.len() {
        alts_unique(ps, n - 1) && unique_names(ps[n - 1])
    } else {
        true
    }
}

pub open spec fn slot_unique(s: Slot) -> bool
    decreases s, 0int,
{
    match s {
        Slot::One(q) => unique_names(q),
        Slot::Opt(q, name) => unique_names(q) && disjoint(opt_name(name), capture_names(q)),
        Slot::Absent => true,
    }
}

/// The first `n` slots each have unique names, and bind disjoint names.
pub open spec fn slots_unique(slots: Seq<Slot>, n: int) -> bool
    decreases slots, n,
{
    if 0 < n <= slots.len() {
        slots_unique(slots, n - 1) && slot_unique(slots[n - 1]) && disjoint(
            slot_names(slots, n - 1),
            slot_own_names(slots[n - 1]),
        )
    } else {
        true
    }
}

proof fn lemma_alts_unique_prefix(ps: Seq<Pattern>, i: int, n: int)
    requires
        0 <= i <= n <= ps.len(),
        alts_unique(ps, n),
    ensures
        alts_unique(ps, i),
    decreases n - i,
{
    if i < n {
        lemma_alts_unique_prefix(ps, i, n - 1);
    }
}

proof fn lemma_slots_unique_prefix(slots: Seq<Slot>, i: int, n: int)
    requires
        0 <= i <= n <= slots.len(),
        slots_unique(slots, n),
    ensures
        slots_unique(slots, i),
    decreases n - i,
{
    if i < n {
        lemma_slots_unique_prefix(slots, i, n - 1);
    }
}

fn contains_name(v: &Vec<u64>, x: u64) -> (r: bool)
    ensures
        r == v@.contains(x),
{
    let mut i: usize = 0;
    while i < v.len()
        invariant
            i <= v@.len(),
            forall|k: int| 0 <= k < i ==> v@[k] != x,
        decreases v@.len() - i,
    {
        if v[i] == x {
            assert(v@[i as int] == x);
            return true;
        }
        i = i + 1;
    }
    false
}

fn disjoint_names(a: &Vec<u64>, b: &Vec<u64>) -> (r: bool)
    ensures
        r == disjoint(a@, b@),
{
    let mut i: usize = 0;
    while i < a.len()
        invariant
            i <= a@.len(),
            forall|k: int| 0 <= k < i ==> !b@.contains(#[trigger] a@[k]),
        decreases a@.len() - i,
    {
        if contains_name(b, a[i]) {
            assert(a@.contains(a@[i as int]));
            return false;
        }
        i = i + 1;
    }
    assert forall|x: u64| a@.contains(x) implies !b@.contains(x) by {
        let k = choose|k: int| 0 <= k < a@.len() && a@[k] == x;
        assert(!b@.contains(a@[k]));
    }
    true
}

fn append_names(a: Vec<u64>, b: Vec<u64>) -> (r: Vec<u64>)
    ensures
        r@ == a@ + b@,
{
    let mut a = a;
    let mut b = b;
    a.append(&mut b);
    a
}

fn names_of_opt(name: Option<u64>) -> (r: Vec<u64>)
    ensures
        r@ == opt_name(name),
{
    let mut v: Vec<u64> = Vec::new();
    match name {
        Some(x) => {
            v.push(x);
        },
        None => {},
    }
    assert(v@ =~= opt_name(name));
    v
}

/// The names that `p` can bind, where no match of it binds a name twice;
/// `None` otherwise.
pub fn names_if_unique(p: &Pattern) -> (r: Option<Vec<u64>>)
    ensures
        match r {
            Some(v) => unique_names(*p) && v@ == capture_names(*p),
            None => !unique_names(*p),
        },
    decreases p, 0int,
{
    match p {
        Pattern::Wildcard => {
            let v: Vec<u64> = Vec::new();
            assert(v@ =~= seq![]);
            Some(v)
        },
        Pattern::Capture(x, q) => match names_if_unique(q) {
            Some(v) => {
                if contains_name(&v, *x) {
                    None
                } else {
                    let mut h: Vec<u64> = Vec::new();
                    h.push(*x);
                    assert(h@ =~= seq![*x]);
                    Some(append_names(h, v))
                }
            },
            None => None,
        },
        Pattern::Alt(ps) => {
            let mut acc: Vec<u64> = Vec::new();
            let mut i: usize = 0;
            assert(acc@ =~= alt_names(ps@, 0));
            while i < ps.len()
                invariant
                    i <= ps@.len(),
                    *p == Pattern::Alt(*ps),
                    acc@ == alt_names(ps@, i as int),
                    alts_unique(ps@, i as int),
                decreases ps@.len() - i,
            {
                proof {
                    assert(*p is Alt && p->Alt_0 == *ps);
                    assert(decreases_to!(*p => p->Alt_0));
                    assert(decreases_to!(*ps => ps[i as int]));
                }
                match names_if_unique(&ps[i]) {
                    Some(v) => {
                        acc = append_names(acc, v);
                    },
                    None => {
                        proof {
                            if alts_unique(ps@, ps@.len() as int) {
                                lemma_alts_unique_prefix(ps@, i + 1, ps@.len() as int);
                            }
                        }
                        return None;
                    },
                }
                i = i + 1;
            }
            Some(acc)
        },
        Pattern::Variant(_, ch) => match ch {
            Children::Fixed(slots) => {
                let mut acc: Vec<u64> = Vec::new();
                let mut i: usize = 0;
                assert(acc@ =~= slot_names(slots@, 0));
                while i < slots.len()
                    invariant
                        i <= slots@.len(),
                        *ch == Children::Fixed(*slots),
                        *p == Pattern::Variant(p->Variant_0, *ch),
                        acc@ == slot_names(slots@, i as int),
                        slots_unique(slots@, i as int),
                    decreases slots@.len() - i,
                {
                    proof {
                        assert(*p is Variant && p->Variant_1 == *ch);
                        assert(decreases_to!(*p => p->Variant_1));
                        assert(*ch is Fixed && ch->Fixed_0 == *slots);
                        assert(decreases_to!(*ch => ch->Fixed_0));
                        assert(decreases_to!(*slots => slots[i as int]));
                        assert(decreases_to!(*p => slots[i as int]));
                    }
                    let own: Option<Vec<u64>> = match &slots[i] {
                        Slot::One(q) => {
                            assert(decreases_to!(slots[i as int] => *q));
                            names_if_unique(q)
                        },
                        Slot::Opt(q, name) => {
                            assert(decreases_to!(slots[i as int] => *q));
                            match names_if_unique(q) {
                                Some(v) => {
                                    let h = names_of_opt(*name);
                                    if disjoint_names(&h, &v) {
                                        Some(append_names(h, v))
                                    } else {
                                        None
                                    }
                                },
                                None => None,
                            }
                        },
                        Slot::Absent => {
                            let v: Vec<u64> = Vec::new();
                            assert(v@ =~= seq![]);
                            Some(v)
                        },
                    };
                    assert(match own {
                        Some(v) => slot_unique(slots@[i as int]) && v@ == slot_own_names(slots@[i as int]),
                        None => !slot_unique(slots@[i as int]),
                    });
                    let ghost before = acc@;
                    let ok = match &own {
                        Some(v) => disjoint_names(&acc, v),
                        None => false,
                    };
                    if !ok {
                        proof {
                            if slots_unique(slots@, slots@.len() as int) {
                                lemma_slots_unique_prefix(slots@, i + 1, slots@.len() as int);
                            }
                        }
                        return None;
                    }
                    match own {
                        Some(v) => {
                            acc = append_names(acc, v);
                        },
                        None => {},
                    }
                    assert(slot_names(slots@, i + 1) == before + slot_own_names(slots@[i as int]));
                    assert(slots_unique(slots@, i + 1));
                    i = i + 1;
                }
                Some(acc)
            },
            Children::Prefix(q, name) => match names_if_unique(q) {
                Some(v) => {
                    let h = names_of_opt(*name);
                    if disjoint_names(&v, &h) {
                        Some(append_names(v, h))
                    } else {
                        None
                    }
                },
                None => None,
            },
            Children::Search(q, name) => match names_if_unique(q) {
                Some(v) => {
                    let h = names_of_opt(*name);
                    if disjoint_names(&v, &h) {
                        Some(append_names(v, h))
                    } else {
                        None
                    }
                },
                None => None,
            },
        },
    }
}

/// `p` itself where no match of it can bind a name twice; `None` where one
/// could, so that such a pattern is refused before any matching.
pub fn checked(p: Pattern) -> (r: Option<Pattern>)
    ensures
        match r {
            Some(q) => q == p && unique_names(p),
            None => !unique_names(p),
        },
{
    match names_if_unique(&p) {
        Some(_) => Some(p),
        None => None,
    }
}

} // verus!
