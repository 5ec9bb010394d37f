//! Functions that could be declared `const fn`. The eligibility analysis
//! belongs to the host; this module decides which functions to ask it about
//! and what to report from its answer.
use vstd::prelude::*;

verus! {

#[derive(Clone, Copy, Debug, PartialEq, Eq, Structural)]
pub enum Constness {
    Const,
    NotConst,
}

/// The kind of function being checked, with what the decision reads of it.
#[derive(Clone, Copy, Debug, PartialEq, Eq, Structural)]
pub enum FnKind {
    /// A free function.
    ItemFn(Constness),
    /// A method: its constness, and whether its parent item is an `impl` of
    /// a trait other than the crate root.
    Method(Constness, bool),
    /// A closure.
    Closure,
}

/// What to report for a function once the host has judged it.
#[derive(Clone, Copy, Debug, PartialEq, Eq, Structural)]
pub enum Verdict {
    /// Suggest declaring the function `const`.
    CouldBeConst,
    /// The function is declared `const` yet breaks the const rules: report
    /// the host's error.
    ConstError,
    /// Nothing to report.
    Silent,
}

pub open spec fn spec_already_const(c: Constness) -> bool {
    c == Constness::Const
}

/// Whether `kind` is still a candidate after the checks that need no
/// const analysis.
pub open spec fn candidate(kind: FnKind, in_external_macro: bool, is_entrypoint: bool) -> bool {
    !in_external_macro && !is_entrypoint && match kind {
        FnKind::ItemFn(c) => !spec_already_const(c),
        FnKind::Method(c, in_trait_impl) => !in_trait_impl && !spec_already_const(c),
        FnKind::Closure => false,
    }
}

pub open spec fn spec_verdict(eligible: bool, declared_min_const: bool) -> Verdict {
    if eligible {
        Verdict::CouldBeConst
    } else if declared_min_const {
        Verdict::ConstError
    } else {
        Verdict::Silent
    }
}

/// Whether a function with this constness is already `const`.
pub fn already_const(c: Constness) -> (r: bool)
    ensures
        r == spec_already_const(c),
{
    c == Constness::Const
}

/// Whether a method belongs to a trait impl: its parent item is not the
/// crate root and is an `impl` that names a trait.
pub fn is_trait_method(parent_is_crate_root: bool, parent_is_trait_impl: bool) -> (r: bool)
    ensures
        r == (!parent_is_crate_root && parent_is_trait_impl),
{
    !parent_is_crate_root && parent_is_trait_impl
}

/// The lint that suggests `const fn`.
#[derive(Clone, Copy, Debug)]
pub struct MissingConstForFn;

impl MissingConstForFn {
    /// The lint pass's name.
    pub fn name(&self) -> (r: String)
        ensures
            r@ == "MissingConstForFn"@,
    {
        "MissingConstForFn".to_owned()
    }

    /// Whether to ask the host's const analysis about a function: not for
    /// one from an outside macro, an entry point, a closure, a trait method,
    /// or one that is already `const`.
    pub fn check_fn(&self, kind: FnKind, in_external_macro: bool, is_entrypoint: bool) -> (r: bool)
        ensures
            r == candidate(kind, in_external_macro, is_entrypoint),
    {
        if in_external_macro || is_entrypoint {
            return false;
        }
        match kind {
            FnKind::ItemFn(c) => !already_const(c),
            FnKind::Method(c, in_trait_impl) => !in_trait_impl && !already_const(c),
            FnKind::Closure => false,
        }
    }

    /// What to report once the host has judged a candidate: `eligible` is its
    /// const analysis's answer, `declared_min_const` whether the function is
    /// declared as a minimal `const fn`.
    pub fn verdict(&self, eligible: bool, declared_min_const: bool) -> (r: Verdict)
        ensures
            r == spec_verdict(eligible, declared_min_const),
    {
        if eligible {
            Verdict::CouldBeConst
        } else if declared_min_const {
            Verdict::ConstError
        } else {
            Verdict::Silent
        }
    }
}

} // verus!
