use clippy_lints::text::{erode_block, erode_from_back, erode_from_front, is_whitespace, trim_multiline};

#[test]
fn erode_block_strips_braces_and_layout() {
    let eroded = erode_block("{ a(); b(); }");
    assert_eq!(eroded, " a(); b();");
    assert_eq!(trim_multiline(&eroded, false), "a(); b();");
}

#[test]
fn erode_from_back_without_close_is_empty() {
    assert_eq!(erode_from_back("let x = 5;"), "");
    assert_eq!(erode_from_back(""), "");
    assert_eq!(erode_from_back("{ { ("), "");
}

#[test]
fn erode_from_back_keeps_last_non_whitespace() {
    assert_eq!(erode_from_back("{\n    let x = 5;\n}"), "{\n    let x = 5;");
    assert_eq!(erode_from_back("a } b } c"), "a } b");
    assert_eq!(erode_from_back("}"), "");
    assert_eq!(erode_from_back("   }"), "");
}

#[test]
fn erode_from_front_skips_whitespace_braces_newlines() {
    assert_eq!(
        erode_from_front("        {\n            something();\n        }"),
        "            something();\n        }"
    );
    assert_eq!(erode_from_front("  {{\n\nx"), "x");
    assert_eq!(erode_from_front(""), "");
    assert_eq!(erode_from_front("x { y"), "x { y");
}

#[test]
fn erode_block_without_close_is_empty() {
    assert_eq!(erode_block("{ a(); "), "");
    assert_eq!(erode_block(""), "");
}

#[test]
fn erode_block_multiline() {
    assert_eq!(erode_block("{\n    let x = 5;\n}"), "    let x = 5;");
}

#[test]
fn whitespace_class() {
    assert!(is_whitespace(' '));
    assert!(is_whitespace('\n'));
    assert!(is_whitespace('\u{3000}'));
    assert!(is_whitespace('\u{85}'));
    assert!(!is_whitespace('{'));
    assert!(!is_whitespace('\u{200b}'));
    for c in ['\t', '\r', '\u{a0}', '\u{2028}', 'a', '}', '\u{180e}'] {
        assert_eq!(is_whitespace(c), c.is_whitespace());
    }
}

#[test]
fn trim_multiline_removes_common_indent() {
    assert_eq!(trim_multiline("    a\n      b\n    c", false), "a\n  b\nc");
    assert_eq!(trim_multiline("    a\n\n    b", false), "a\n\nb");
    assert_eq!(trim_multiline("a\n    b", false), "a\n    b");
    assert_eq!(trim_multiline("\t\ta\n\tb", false), "\ta\nb");
    assert_eq!(trim_multiline("", false), "");
}

#[test]
fn trim_multiline_ignoring_first_line() {
    assert_eq!(trim_multiline("{\n        f();\n    }", true), "{\n    f();\n}");
    assert_eq!(trim_multiline("  x", true), "  x");
}
