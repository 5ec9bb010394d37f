use clippy_lints::missing_const_for_fn::{
    already_const, is_trait_method, Constness, FnKind, MissingConstForFn, Verdict,
};

#[test]
fn candidates() {
    let l = MissingConstForFn;
    assert_eq!(l.name(), "MissingConstForFn");
    assert!(l.check_fn(FnKind::ItemFn(Constness::NotConst), false, false));
    assert!(!l.check_fn(FnKind::ItemFn(Constness::Const), false, false));
    assert!(!l.check_fn(FnKind::ItemFn(Constness::NotConst), true, false));
    assert!(!l.check_fn(FnKind::ItemFn(Constness::NotConst), false, true));
    assert!(l.check_fn(FnKind::Method(Constness::NotConst, false), false, false));
    assert!(!l.check_fn(FnKind::Method(Constness::NotConst, true), false, false));
    assert!(!l.check_fn(FnKind::Closure, false, false));
}

#[test]
fn verdicts() {
    let l = MissingConstForFn;
    assert_eq!(l.verdict(true, false), Verdict::CouldBeConst);
    assert_eq!(l.verdict(false, true), Verdict::ConstError);
    assert_eq!(l.verdict(false, false), Verdict::Silent);
    assert!(already_const(Constness::Const));
    assert!(!already_const(Constness::NotConst));
    assert!(is_trait_method(false, true));
    assert!(!is_trait_method(true, true));
    assert!(!is_trait_method(false, false));
}
