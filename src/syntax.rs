//! The syntax tree handed over by the host: each node carries a kind, its
//! ordered children, a character range into the source text, the expansion
//! context it came from and an optional label.
use vstd::prelude::*;

verus! {

#[derive(Clone, Copy, Debug, PartialEq, Eq, Structural)]
pub enum NodeKind {
    /// An expression statement without a trailing semicolon: one child.
    Expr,
    /// An expression statement with a trailing semicolon: one child.
    Semi,
    /// `if`: the condition, the then-block and, where present, the else branch.
    If,
    /// A block of statements: one child per statement.
    Block,
    /// A block standing as an expression (an `else { .. }`): one child, the block.
    BlockExpr,
    /// `loop`: one child, the body.
    Loop,
    /// `for`: the pattern, the iterated expression and the body.
    ForLoop,
    /// `while`: the condition and the body.
    While,
    /// `continue`, with the label it names, if any.
    Continue,
    /// A pattern-binding condition (`let p = e`).
    Let,
    /// A lazy `||`.
    Or,
    /// A lazy `&&`.
    And,
    /// An assignment.
    Assign,
    /// A range expression.
    Range,
    /// A closure.
    Closure,
    /// Any other node.
    Other,
}

#[derive(Debug)]
pub struct SyntaxNode {
    pub kind: NodeKind,
    pub children: Vec<SyntaxNode>,
    /// First character of the node in the source text.
    pub lo: usize,
    /// One past the last character of the node in the source text.
    pub hi: usize,
    /// The expansion context of the node's span; 0 is plain source text.
    pub ctxt: u64,
    /// The label of a loop, or the label that a `continue` names.
    pub label: Option<u64>,
}

impl SyntaxNode {
    /// A node of plain source text without a label.
    pub fn new(kind: NodeKind, children: Vec<SyntaxNode>, lo: usize, hi: usize) -> (r: SyntaxNode)
        ensures
            r.kind == kind,
            r.children == children,
            r.lo == lo,
            r.hi == hi,
            r.ctxt == 0,
            r.label is None,
    {
        SyntaxNode { kind, children, lo, hi, ctxt: 0, label: None }
    }

    /// The same node with `label` attached.
    pub fn with_label(self, label: u64) -> (r: SyntaxNode)
        ensures
            r == (SyntaxNode { label: Some(label), ..self }),
    {
        SyntaxNode { label: Some(label), ..self }
    }

    /// The same node, produced in expansion context `ctxt`.
    pub fn with_ctxt(self, ctxt: u64) -> (r: SyntaxNode)
        ensures
            r == (SyntaxNode { ctxt, ..self }),
    {
        SyntaxNode { ctxt, ..self }
    }
}

} // verus!
