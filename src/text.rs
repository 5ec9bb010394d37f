//! Total text transforms that strip block delimiters and layout from source
//! snippets so that they can be spliced into a suggestion.
use vstd::prelude::*;

verus! {

/// The characters that `char::is_whitespace` accepts (Unicode `White_Space`).
pub open spec fn is_ws(c: char) -> bool {
    ('\u{9}' <= c && c <= '\u{d}') || c == ' ' || c == '\u{85}' || c == '\u{a0}'
        || c == '\u{1680}' || ('\u{2000}' <= c && c <= '\u{200a}') || c == '\u{2028}'
        || c == '\u{2029}' || c == '\u{202f}' || c == '\u{205f}' || c == '\u{3000}'
}

pub open spec fn is_open_brace(c: char) -> bool {
    c == '{'
}

pub open spec fn is_newline(c: char) -> bool {
    c == '\n'
}

pub open spec fn is_ws_or_open_brace(c: char) -> bool {
    is_ws(c) || c == '{'
}

/// `s` without its longest prefix of characters satisfying `p`.
pub open spec fn drop_leading(s: Seq<char>, p: spec_fn(char) -> bool) -> Seq<char>
    decreases s.len(),
{
    if s.len() > 0 && p(s[0]) {
        drop_leading(s.drop_first(), p)
    } else {
        s
    }
}

/// `s` without its longest suffix of whitespace.
pub open spec fn drop_trailing_ws(s: Seq<char>) -> Seq<char>
    decreases s.len(),
{
    if s.len() > 0 && is_ws(s.last()) {
        drop_trailing_ws(s.drop_last())
    } else {
        s
    }
}

/// What lies before the last `}` of `s`; empty where `s` holds no `}`.
pub open spec fn before_last_close(s: Seq<char>) -> Seq<char>
    decreases s.len(),
{
    if s.len() == 0 {
        s
    } else if s.last() == '}' {
        s.drop_last()
    } else {
        before_last_close(s.drop_last())
    }
}

pub open spec fn eroded_front(s: Seq<char>) -> Seq<char> {
    drop_leading(
        drop_leading(drop_leading(s, |c: char| is_ws(c)), |c: char| is_open_brace(c)),
        |c: char| is_newline(c),
    )
}

pub open spec fn eroded_back(s: Seq<char>) -> Seq<char> {
    drop_trailing_ws(before_last_close(s))
}

pub open spec fn eroded_block(s: Seq<char>) -> Seq<char> {
    eroded_back(eroded_front(s))
}

/// Whether `s`, once leading whitespace and `{` are gone, opens a comment.
pub open spec fn opens_with_comment(s: Seq<char>) -> bool {
    let t = drop_leading(s, |c: char| is_ws_or_open_brace(c));
    t.len() >= 2 && t[0] == '/' && (t[1] == '/' || t[1] == '*')
}

pub fn is_whitespace(c: char) -> (r: bool)
    ensures
        r == is_ws(c),
{
    ('\u{9}' <= c && c <= '\u{d}') || c == ' ' || c == '\u{85}' || c == '\u{a0}' || c
        == '\u{1680}' || ('\u{2000}' <= c && c <= '\u{200a}') || c == '\u{2028}' || c
        == '\u{2029}' || c == '\u{202f}' || c == '\u{205f}' || c == '\u{3000}'
}

/// The characters of `s`, in order.
pub fn chars_of(s: &str) -> (r: Vec<char>)
    ensures
        r@ == s@,
{
    let n = s.unicode_len();
    let mut r: Vec<char> = Vec::new();
    let mut i: usize = 0;
    while i < n
        invariant
            n == s@.len(),
            i <= n,
            r@ == s@.take(i as int),
        decreases n - i,
    {
        r.push(s.get_char(i));
        assert(r@ =~= s@.take(i + 1));
        i = i + 1;
    }
    assert(r@ =~= s@);
    r
}

/// Relies on `String`'s `FromIterator<&char>`: the characters collected in order.
#[verifier::external_body]
pub(crate) fn string_of(v: &[char]) -> (r: String)
    ensures
        r@ == v@,
{
    v.iter().collect()
}

/// The characters `v[i..j]`.
pub fn chars_between(v: &[char], i: usize, j: usize) -> (r: Vec<char>)
    requires
        i <= j <= v@.len(),
    ensures
        r@ == v@.subrange(i as int, j as int),
{
    let mut r: Vec<char> = Vec::new();
    let mut k: usize = i;
    while k < j
        invariant
            i <= k <= j <= v@.len(),
            r@ == v@.subrange(i as int, k as int),
        decreases j - k,
    {
        r.push(v[k]);
        assert(r@ =~= v@.subrange(i as int, k + 1));
        k = k + 1;
    }
    r
}

proof fn lemma_skip_step(s: Seq<char>, i: int)
    requires
        0 <= i < s.len(),
    ensures
        s.skip(i).drop_first() == s.skip(i + 1),
        s.skip(i)[0] == s[i],
        s.skip(i).len() > 0,
{
    assert(s.skip(i).drop_first() =~= s.skip(i + 1));
}

proof fn lemma_take_step(s: Seq<char>, j: int)
    requires
        0 < j <= s.len(),
    ensures
        s.take(j).drop_last() == s.take(j - 1),
        s.take(j).last() == s[j - 1],
        s.take(j).len() > 0,
{
    assert(s.take(j).drop_last() =~= s.take(j - 1));
}

/// Index of the first character at or after `i` that is not whitespace.
fn skip_ws_from(v: &[char], i: usize) -> (r: usize)
    requires
        i <= v@.len(),
    ensures
        i <= r <= v@.len(),
        drop_leading(v@.skip(i as int), |c: char| is_ws(c)) == v@.skip(r as int),
{
    let mut k = i;
    while k < v.len() && is_whitespace(v[k])
        invariant
            i <= k <= v@.len(),
            drop_leading(v@.skip(i as int), |c: char| is_ws(c)) == drop_leading(
                v@.skip(k as int),
                |c: char| is_ws(c),
            ),
        decreases v@.len() - k,
    {
        proof {
            lemma_skip_step(v@, k as int);
        }
        k = k + 1;
    }
    if k == v.len() {
        assert(v@.skip(k as int).len() == 0);
    } else {
        proof {
            lemma_skip_step(v@, k as int);
        }
    }
    k
}

/// Index of the first character at or after `i` that is not `target`.
fn skip_char_from(v: &[char], i: usize, target: char) -> (r: usize)
    requires
        i <= v@.len(),
    ensures
        i <= r <= v@.len(),
        drop_leading(v@.skip(i as int), |c: char| c == target) == v@.skip(r as int),
{
    let mut k = i;
    while k < v.len() && v[k] == target
        invariant
            i <= k <= v@.len(),
            drop_leading(v@.skip(i as int), |c: char| c == target) == drop_leading(
                v@.skip(k as int),
                |c: char| c == target,
            ),
        decreases v@.len() - k,
    {
        proof {
            lemma_skip_step(v@, k as int);
        }
        k = k + 1;
    }
    if k == v.len() {
        assert(v@.skip(k as int).len() == 0);
    } else {
        proof {
            lemma_skip_step(v@, k as int);
        }
    }
    k
}

/// Eats at `s` from the front: leading whitespace, then any number of opening
/// braces, then any number of newlines.
pub fn erode_from_front(s: &str) -> (r: String)
    ensures
        r@ == eroded_front(s@),
{
    let v = chars_of(s);
    proof {
        assert(v@.skip(0) =~= v@);
    }
    let a = skip_ws_from(v.as_slice(), 0);
    let b = skip_char_from(v.as_slice(), a, '{');
    let c = skip_char_from(v.as_slice(), b, '\n');
    assert(eroded_front(s@) == v@.skip(c as int)) by {
        assert((|ch: char| is_open_brace(ch)) == (|ch: char| ch == '{'));
        assert((|ch: char| is_newline(ch)) == (|ch: char| ch == '\n'));
    }
    let rest = chars_between(v.as_slice(), c, v.len());
    assert(rest@ =~= v@.skip(c as int));
    string_of(rest.as_slice())
}

/// Eats at `s` from the back up to and including the last closing brace, then
/// any whitespace before it. Where `s` holds no closing brace nothing is left.
pub fn erode_from_back(s: &str) -> (r: String)
    ensures
        r@ == eroded_back(s@),
{
    let v = chars_of(s);
    let mut j: usize = v.len();
    assert(v@.take(j as int) =~= v@);
    while j > 0 && v[j - 1] != '}'
        invariant
            j <= v@.len(),
            before_last_close(v@) == before_last_close(v@.take(j as int)),
        decreases j,
    {
        proof {
            lemma_take_step(v@, j as int);
        }
        j = j - 1;
    }
    if j == 0 {
        assert(v@.take(0).len() == 0);
        assert(eroded_back(s@).len() == 0);
        let empty: Vec<char> = Vec::new();
        assert(empty@ =~= eroded_back(s@));
        return string_of(empty.as_slice());
    }
    proof {
        lemma_take_step(v@, j as int);
    }
    let mut m: usize = j - 1;
    while m > 0 && is_whitespace(v[m - 1])
        invariant
            m < j <= v@.len(),
            eroded_back(s@) == drop_trailing_ws(v@.take(m as int)),
        decreases m,
    {
        proof {
            lemma_take_step(v@, m as int);
        }
        m = m - 1;
    }
    if m > 0 {
        proof {
            lemma_take_step(v@, m as int);
        }
    }
    let kept = chars_between(v.as_slice(), 0, m);
    assert(kept@ =~= v@.take(m as int));
    string_of(kept.as_slice())
}

/// The contents of a brace-delimited block: `erode_from_back` after
/// `erode_from_front`. Empty where no closing brace is present.
pub fn erode_block(s: &str) -> (r: String)
    ensures
        r@ == eroded_block(s@),
{
    let front = erode_from_front(s);
    erode_from_back(front.as_str())
}

/// Whether the text of a block, once leading whitespace and opening braces
/// are gone, starts with a line or block comment.
pub fn starts_with_comment(text: &[char]) -> (r: bool)
    ensures
        r == opens_with_comment(text@),
{
    let mut k: usize = 0;
    assert(text@.skip(0) =~= text@);
    while k < text.len() && (is_whitespace(text[k]) || text[k] == '{')
        invariant
            k <= text@.len(),
            drop_leading(text@, |c: char| is_ws_or_open_brace(c)) == drop_leading(
                text@.skip(k as int),
                |c: char| is_ws_or_open_brace(c),
            ),
        decreases text@.len() - k,
    {
        proof {
            lemma_skip_step(text@, k as int);
        }
        k = k + 1;
    }
    if k < text.len() {
        proof {
            lemma_skip_step(text@, k as int);
        }
    } else {
        assert(text@.skip(k as int).len() == 0);
    }
    text.len() - k >= 2 && text[k] == '/' && (text[k + 1] == '/' || text[k + 1] == '*')
}

/// Whatever `s` is, without a closing brace the back erosion leaves nothing.
pub proof fn lemma_erode_back_without_close(s: Seq<char>)
    requires
        !s.contains('}'),
    ensures
        eroded_back(s) == Seq::<char>::empty(),
    decreases s.len(),
{
    if s.len() > 0 {
        assert(s.last() != '}') by {
            assert(s[s.len() - 1] == s.last());
        }
        assert(!s.drop_last().contains('}')) by {
            if s.drop_last().contains('}') {
                let i = choose|i: int| 0 <= i < s.drop_last().len() && s.drop_last()[i] == '}';
                assert(s[i] == '}');
            }
        }
        lemma_erode_back_without_close(s.drop_last());
    }
}

/// How many copies of `ch` follow position `j` of `s` without a break.
pub open spec fn lead(s: Seq<char>, j: int, ch: char) -> nat
    decreases s.len() - j,
{
    if 0 <= j < s.len() && s[j] == ch {
        1 + lead(s, j + 1, ch)
    } else {
        0
    }
}

/// Whether a line of `s` that is not empty starts at position `j`.
pub open spec fn opens_line(s: Seq<char>, j: int) -> bool {
    0 <= j < s.len() && s[j] != '\n' && (j == 0 || s[j - 1] == '\n')
}

pub open spec fn min_opt(a: Option<nat>, b: Option<nat>) -> Option<nat> {
    match (a, b) {
        (Some(x), Some(y)) => Some(if x <= y { x } else { y }),
        (Some(x), None) => Some(x),
        (None, _) => b,
    }
}

/// The least indentation by `ch` among the non-empty lines that start at or
/// after `j` (the first line left out where `skip_first`); `None` where there
/// is no such line.
pub open spec fn min_indent_from(s: Seq<char>, j: int, ch: char, skip_first: bool) -> Option<nat>
    decreases s.len() - j,
{
    if 0 <= j < s.len() {
        let here = if opens_line(s, j) && !(skip_first && j == 0) {
            Some(lead(s, j, ch))
        } else {
            None
        };
        min_opt(here, min_indent_from(s, j + 1, ch, skip_first))
    } else {
        None
    }
}

/// The common indentation by `ch` of the non-empty lines of `s`.
pub open spec fn common_indent(s: Seq<char>, ch: char, skip_first: bool) -> nat {
    match min_indent_from(s, 0, ch, skip_first) {
        Some(x) => x,
        None => 0,
    }
}

/// The column of position `k` within its line.
pub open spec fn column(s: Seq<char>, k: int) -> nat
    decreases k,
{
    if k <= 0 || s[k - 1] == '\n' {
        0
    } else {
        column(s, k - 1) + 1
    }
}

/// The first `n` characters of `s` without the first `x` columns of each line
/// (the first line kept whole where `skip_first`).
pub open spec fn dedent_prefix(s: Seq<char>, x: nat, skip_first: bool, n: int) -> Seq<char>
    decreases n,
{
    if n <= 0 {
        seq![]
    } else if s[n - 1] != '\n' && column(s, n - 1) < x && !(skip_first && !s.take(n - 1).contains('\n')) {
        dedent_prefix(s, x, skip_first, n - 1)
    } else {
        dedent_prefix(s, x, skip_first, n - 1).push(s[n - 1])
    }
}

/// `s` without the indentation by `ch` that all its non-empty lines share.
pub open spec fn dedented(s: Seq<char>, ch: char, skip_first: bool) -> Seq<char> {
    dedent_prefix(s, common_indent(s, ch, skip_first), skip_first, s.len() as int)
}

/// `s` without the common indentation of its lines: by spaces, then by tabs,
/// then by spaces again. Where `skip_first`, the first line neither counts
/// nor changes.
pub open spec fn trimmed_multiline(s: Seq<char>, skip_first: bool) -> Seq<char> {
    dedented(dedented(dedented(s, ' ', skip_first), '\t', skip_first), ' ', skip_first)
}

fn lead_at(v: &[char], j: usize, ch: char) -> (r: usize)
    requires
        j <= v@.len(),
    ensures
        r == lead(v@, j as int, ch),
        j + r <= v@.len(),
{
    let mut k = j;
    while k < v.len() && v[k] == ch
        invariant
            j <= k <= v@.len(),
            lead(v@, j as int, ch) == (k - j) + lead(v@, k as int, ch),
        decreases v@.len() - k,
    {
        k = k + 1;
    }
    k - j
}

fn common_indent_of(v: &[char], ch: char, skip_first: bool) -> (r: usize)
    ensures
        r == common_indent(v@, ch, skip_first),
{
    let mut best: Option<usize> = None;
    let mut j: usize = 0;
    while j < v.len()
        invariant
            j <= v@.len(),
            min_indent_from(v@, 0, ch, skip_first) == min_opt(
                match best {
                    Some(b) => Some(b as nat),
                    None => None,
                },
                min_indent_from(v@, j as int, ch, skip_first),
            ),
        decreases v@.len() - j,
    {
        if v[j] != '\n' && (j == 0 || v[j - 1] == '\n') && !(skip_first && j == 0) {
            let l = lead_at(v, j, ch);
            best = match best {
                Some(b) => Some(if b <= l { b } else { l }),
                None => Some(l),
            };
        }
        j = j + 1;
    }
    match best {
        Some(b) => b,
        None => 0,
    }
}

fn dedent_chars(v: &[char], ch: char, skip_first: bool) -> (r: Vec<char>)
    ensures
        r@ == dedented(v@, ch, skip_first),
{
    let x = common_indent_of(v, ch, skip_first);
    let mut out: Vec<char> = Vec::new();
    let mut k: usize = 0;
    let mut col: usize = 0;
    let mut in_first = true;
    assert(v@.take(0) =~= Seq::<char>::empty());
    while k < v.len()
        invariant
            k <= v@.len(),
            x == common_indent(v@, ch, skip_first),
            col == column(v@, k as int),
            col <= k,
            in_first == !v@.take(k as int).contains('\n'),
            out@ == dedent_prefix(v@, x as nat, skip_first, k as int),
        decreases v@.len() - k,
    {
        if !(v[k] != '\n' && col < x && !(skip_first && in_first)) {
            out.push(v[k]);
        }
        proof {
            let t = v@.take(k + 1);
            assert(t =~= v@.take(k as int).push(v@[k as int]));
            if v@[k as int] == '\n' {
                assert(t[k as int] == '\n');
            } else if v@.take(k as int).contains('\n') {
                let i = choose|i: int| 0 <= i < k && v@.take(k as int)[i] == '\n';
                assert(t[i] == '\n');
            } else {
                assert forall|i: int| 0 <= i < t.len() implies t[i] != '\n' by {
                    if i < k {
                        assert(t[i] == v@.take(k as int)[i]);
                    }
                }
            }
        }
        if v[k] == '\n' {
            in_first = false;
        }
        col = if v[k] == '\n' {
            0
        } else {
            col + 1
        };
        k = k + 1;
    }
    out
}

/// `s` without the common indentation of its lines (by spaces, then by tabs,
/// then by spaces again), so that it lines up where it is spliced in. Empty
/// lines and the relative indentation of the others are kept; where
/// `ignore_first`, the first line neither counts nor changes.
pub fn trim_multiline(s: &str, ignore_first: bool) -> (r: String)
    ensures
        r@ == trimmed_multiline(s@, ignore_first),
{
    let v = chars_of(s);
    let a = dedent_chars(v.as_slice(), ' ', ignore_first);
    let b = dedent_chars(a.as_slice(), '\t', ignore_first);
    let c = dedent_chars(b.as_slice(), ' ', ignore_first);
    string_of(c.as_slice())
}

} // verus!
