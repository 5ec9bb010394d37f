//! Suggestions, and the source snippets they are built from.
use vstd::prelude::*;
use crate::syntax::{NodeKind, SyntaxNode};
use crate::text::{chars_between, chars_of, string_of, trim_multiline, trimmed_multiline};

verus! {

#[derive(Clone, Copy, Debug, PartialEq, Eq, Structural)]
pub enum Applicability {
    /// Safe to apply automatically.
    MachineApplicable,
    /// To be looked over by a person before it is applied.
    Advisory,
}

/// A diagnostic at the source characters `span_lo..span_hi`, proposing to
/// replace the characters `lo..hi`.
#[derive(Debug)]
pub struct Suggestion {
    pub span_lo: usize,
    pub span_hi: usize,
    pub lo: usize,
    pub hi: usize,
    pub message: String,
    pub replacement: String,
    pub applicability: Applicability,
}

/// A suggestion, as the contracts speak of it.
pub struct SuggestionView {
    pub span_lo: usize,
    pub span_hi: usize,
    pub lo: usize,
    pub hi: usize,
    pub message: Seq<char>,
    pub replacement: Seq<char>,
    pub applicability: Applicability,
}

impl Suggestion {
    pub open spec fn view(&self) -> SuggestionView {
        SuggestionView {
            span_lo: self.span_lo,
            span_hi: self.span_hi,
            lo: self.lo,
            hi: self.hi,
            message: self.message@,
            replacement: self.replacement@,
            applicability: self.applicability,
        }
    }
}

pub open spec fn opt_view(r: Option<Suggestion>) -> Option<SuggestionView> {
    match r {
        Some(s) => Some(s.view()),
        None => None,
    }
}

/// The source text of `n`; `..` where its range lies outside the source.
pub open spec fn snippet_of(src: Seq<char>, n: SyntaxNode) -> Seq<char> {
    if n.lo <= n.hi <= src.len() {
        src.subrange(n.lo as int, n.hi as int)
    } else {
        ".."@
    }
}

/// The source text of `n`, its lines after the first aligned with it.
pub open spec fn snippet_block_of(src: Seq<char>, n: SyntaxNode) -> Seq<char> {
    trimmed_multiline(snippet_of(src, n), true)
}

/// The expression of an expression statement.
pub open spec fn stmt_expr(s: SyntaxNode) -> Option<SyntaxNode> {
    if (s.kind == NodeKind::Expr || s.kind == NodeKind::Semi) && s.children@.len() == 1 {
        Some(s.children@[0])
    } else {
        None
    }
}

/// The suggestions that are present, in order.
pub open spec fn present(a: Option<SuggestionView>, b: Option<SuggestionView>) -> Seq<SuggestionView> {
    match (a, b) {
        (Some(x), Some(y)) => seq![x, y],
        (Some(x), None) => seq![x],
        (None, Some(y)) => seq![y],
        (None, None) => seq![],
    }
}

pub open spec fn views(v: Seq<Suggestion>) -> Seq<SuggestionView> {
    v.map_values(|s: Suggestion| s.view())
}

/// The suggestions that are present, in order.
pub fn collect_present(a: Option<Suggestion>, b: Option<Suggestion>) -> (r: Vec<Suggestion>)
    ensures
        views(r@) == present(opt_view(a), opt_view(b)),
{
    let mut r: Vec<Suggestion> = Vec::new();
    match a {
        Some(x) => r.push(x),
        None => {},
    }
    match b {
        Some(y) => r.push(y),
        None => {},
    }
    assert(views(r@) =~= present(opt_view(a), opt_view(b)));
    r
}

/// The source text of `n`.
pub fn snippet(src: &[char], n: &SyntaxNode) -> (r: Vec<char>)
    ensures
        r@ == snippet_of(src@, *n),
{
    if n.lo <= n.hi && n.hi <= src.len() {
        chars_between(src, n.lo, n.hi)
    } else {
        chars_of("..")
    }
}

/// The source text of `n`, its lines after the first aligned with it.
pub fn snippet_block(src: &[char], n: &SyntaxNode) -> (r: Vec<char>)
    ensures
        r@ == snippet_block_of(src@, *n),
{
    let t = string_of(snippet(src, n).as_slice());
    chars_of(trim_multiline(t.as_str(), true).as_str())
}

/// `v` followed by `w`.
pub fn push_all(v: &mut Vec<char>, w: Vec<char>)
    ensures
        final(v)@ == old(v)@ + w@,
{
    let mut w = w;
    v.append(&mut w);
}

pub fn stmt_expr_of(s: &SyntaxNode) -> (r: Option<&SyntaxNode>)
    ensures
        match r {
            Some(e) => stmt_expr(*s) == Some(*e),
            None => stmt_expr(*s) is None,
        },
{
    if (s.kind == NodeKind::Expr || s.kind == NodeKind::Semi) && s.children.len() == 1 {
        Some(&s.children[0])
    } else {
        None
    }
}

} // verus!
