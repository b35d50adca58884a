//! Character-level text operations: whitespace tokenization and the small
//! scans (first `=`, leading runs of a character) that the engine's token
//! classification is built on.

use vstd::prelude::*;

verus! {

/// The whitespace characters that separate tokens on a command line: the
/// Unicode white-space set that `str::split_whitespace` splits on.
pub open spec fn is_space_char(c: char) -> bool {
    c == '\u{9}' || c == '\u{a}' || c == '\u{b}' || c == '\u{c}' || c == '\u{d}' || c == ' '
        || c == '\u{85}' || c == '\u{a0}' || c == '\u{1680}' || c == '\u{2000}'
        || c == '\u{2001}' || c == '\u{2002}' || c == '\u{2003}' || c == '\u{2004}'
        || c == '\u{2005}' || c == '\u{2006}' || c == '\u{2007}' || c == '\u{2008}'
        || c == '\u{2009}' || c == '\u{200a}' || c == '\u{2028}' || c == '\u{2029}'
        || c == '\u{202f}' || c == '\u{205f}' || c == '\u{3000}'
}

/// Index of the end of the run of non-space characters starting at `i`.
pub open spec fn run_end(s: Seq<char>, i: int) -> int
    decreases s.len() - i,
{
    if i < 0 {
        i
    } else if i >= s.len() || is_space_char(s[i]) {
        i
    } else {
        run_end(s, i + 1)
    }
}

pub proof fn lemma_run_end_bounds(s: Seq<char>, i: int)
    requires
        0 <= i <= s.len(),
    ensures
        i <= run_end(s, i) <= s.len(),
    decreases s.len() - i,
{
    if i < s.len() && !is_space_char(s[i]) {
        lemma_run_end_bounds(s, i + 1);
    }
}

/// The sequence of whitespace-separated tokens of `s`, reading from index `i`.
pub open spec fn tokens_from(s: Seq<char>, i: int) -> Seq<Seq<char>>
    decreases s.len() - i,
{
    if i < 0 || i >= s.len() {
        Seq::empty()
    } else if is_space_char(s[i]) {
        tokens_from(s, i + 1)
    } else {
        let e = run_end(s, i);
        let next = if i < e <= s.len() { e } else { i + 1 };
        seq![s.subrange(i, next)] + tokens_from(s, next)
    }
}

/// The tokens of a whole command line.
pub open spec fn spec_tokens(s: Seq<char>) -> Seq<Seq<char>> {
    tokens_from(s, 0)
}

pub proof fn lemma_run_end_all_nonspace(s: Seq<char>, i: int)
    requires
        0 <= i <= s.len(),
        forall|j: int| i <= j < s.len() ==> !is_space_char(s[j]),
    ensures
        run_end(s, i) == s.len(),
    decreases s.len() - i,
{
    if i < s.len() {
        lemma_run_end_all_nonspace(s, i + 1);
    }
}

/// A nonempty line without any whitespace is one single token.
pub proof fn lemma_single_token_line(s: Seq<char>)
    requires
        s.len() > 0,
        forall|j: int| 0 <= j < s.len() ==> !is_space_char(s[j]),
    ensures
        spec_tokens(s) == seq![s],
{
    lemma_run_end_all_nonspace(s, 0);
    assert(s.subrange(0, s.len() as int) =~= s);
    assert(tokens_from(s, s.len() as int) =~= Seq::<Seq<char>>::empty());
    assert(spec_tokens(s) =~= seq![s]);
}

/// Index of the first `=` in `t` at or after `i`; `t.len()` if there is none.
pub open spec fn eq_scan(t: Seq<char>, i: int) -> int
    decreases t.len() - i,
{
    if i < 0 {
        i
    } else if i >= t.len() || t[i] == '=' {
        i
    } else {
        eq_scan(t, i + 1)
    }
}

/// Index of the first `=` in `t`; `t.len()` if there is none.
pub open spec fn eq_index(t: Seq<char>) -> int {
    eq_scan(t, 0)
}

/// Whether the token contains an `=` anywhere, which classifies it as an
/// assignment rather than an argument.
pub open spec fn has_eq(t: Seq<char>) -> bool {
    eq_index(t) < t.len()
}

pub proof fn lemma_eq_scan_bounds(t: Seq<char>, i: int)
    requires
        0 <= i <= t.len(),
    ensures
        i <= eq_scan(t, i) <= t.len(),
        eq_scan(t, i) < t.len() ==> t[eq_scan(t, i)] == '=',
        forall|j: int| i <= j < eq_scan(t, i) ==> t[j] != '=',
    decreases t.len() - i,
{
    if i < t.len() && t[i] != '=' {
        lemma_eq_scan_bounds(t, i + 1);
    }
}

/// Index of the first character at or after `i` that differs from `c`.
pub open spec fn skip_scan(t: Seq<char>, c: char, i: int) -> int
    decreases t.len() - i,
{
    if i < 0 {
        i
    } else if i >= t.len() || t[i] != c {
        i
    } else {
        skip_scan(t, c, i + 1)
    }
}

/// `t` with every leading occurrence of `c` removed.
pub open spec fn strip_leading(t: Seq<char>, c: char) -> Seq<char> {
    t.subrange(skip_scan(t, c, 0), t.len() as int)
}

pub proof fn lemma_skip_scan_bounds(t: Seq<char>, c: char, i: int)
    requires
        0 <= i <= t.len(),
    ensures
        i <= skip_scan(t, c, i) <= t.len(),
        skip_scan(t, c, i) < t.len() ==> t[skip_scan(t, c, i)] != c,
        forall|j: int| i <= j < skip_scan(t, c, i) ==> t[j] == c,
    decreases t.len() - i,
{
    if i < t.len() && t[i] == c {
        lemma_skip_scan_bounds(t, c, i + 1);
    }
}

/// Whether `c` separates tokens on a command line.
pub fn is_space(c: char) -> (r: bool)
    ensures
        r == is_space_char(c),
{
    c == '\u{9}' || c == '\u{a}' || c == '\u{b}' || c == '\u{c}' || c == '\u{d}' || c == ' '
        || c == '\u{85}' || c == '\u{a0}' || c == '\u{1680}' || c == '\u{2000}'
        || c == '\u{2001}' || c == '\u{2002}' || c == '\u{2003}' || c == '\u{2004}'
        || c == '\u{2005}' || c == '\u{2006}' || c == '\u{2007}' || c == '\u{2008}'
        || c == '\u{2009}' || c == '\u{200a}' || c == '\u{2028}' || c == '\u{2029}'
        || c == '\u{202f}' || c == '\u{205f}' || c == '\u{3000}'
}

/// Character-by-character string equality, proved against the string views.
pub fn str_eq(a: &str, b: &str) -> (r: bool)
    ensures
        r == (a@ == b@),
{
    let na = a.unicode_len();
    let nb = b.unicode_len();
    if na != nb {
        return false;
    }
    let mut i: usize = 0;
    while i < na
        invariant
            i <= na,
            na == a@.len(),
            na == b@.len(),
            forall|j: int| 0 <= j < i ==> a@[j] == b@[j],
        decreases na - i,
    {
        if a.get_char(i) != b.get_char(i) {
            return false;
        }
        i += 1;
    }
    proof {
        assert(a@ =~= b@);
    }
    true
}

/// Split a line into its whitespace-separated tokens.
pub fn tokenize(line: &str) -> (toks: Vec<String>)
    ensures
        toks.deep_view() == spec_tokens(line@),
{
    let n = line.unicode_len();
    let mut toks: Vec<String> = Vec::new();
    let mut i: usize = 0;
    while i < n
        invariant
            i <= n,
            n == line@.len(),
            toks.deep_view() + tokens_from(line@, i as int) =~= spec_tokens(line@),
        decreases n - i,
    {
        let c = line.get_char(i);
        if is_space(c) {
            i += 1;
        } else {
            let ghost start_g: int = i as int;
            let start = i;
            while i < n && !is_space(line.get_char(i))
                invariant
                    start <= i <= n,
                    n == line@.len(),
                    start_g == start as int,
                    run_end(line@, start_g) == run_end(line@, i as int),
                decreases n - i,
            {
                i += 1;
            }
            proof {
                lemma_run_end_bounds(line@, start_g);
                assert(run_end(line@, i as int) == i as int);
                assert(run_end(line@, start_g) == i as int);
            }
            let tok = line.substring_char(start, i).to_owned();
            proof {
                let s = line@;
                assert(tokens_from(s, start_g) =~= seq![s.subrange(start_g, i as int)]
                    + tokens_from(s, i as int));
            }
            let ghost old_deep = toks.deep_view();
            toks.push(tok);
            proof {
                assert(toks.deep_view() =~= old_deep.push(tok@));
                assert(old_deep.push(tok@) =~= old_deep + seq![tok@]);
            }
        }
    }
    proof {
        assert(toks.deep_view() =~= spec_tokens(line@));
    }
    toks
}

/// First `=` of a token, if any.
pub fn find_eq(t: &str) -> (r: Option<usize>)
    ensures
        match r {
            Some(i) => i as int == eq_index(t@) && i < t@.len(),
            None => !has_eq(t@),
        },
{
    let n = t.unicode_len();
    let mut i: usize = 0;
    while i < n
        invariant
            i <= n,
            n == t@.len(),
            eq_scan(t@, 0) == eq_scan(t@, i as int),
        decreases n - i,
    {
        if t.get_char(i) == '=' {
            return Some(i);
        }
        i += 1;
    }
    None
}

/// The token with every leading occurrence of `c` removed.
pub fn strip_leading_char(t: &str, c: char) -> (r: String)
    ensures
        r@ == strip_leading(t@, c),
{
    let n = t.unicode_len();
    let mut i: usize = 0;
    while i < n && t.get_char(i) == c
        invariant
            i <= n,
            n == t@.len(),
            skip_scan(t@, c, 0) == skip_scan(t@, c, i as int),
        decreases n - i,
    {
        i += 1;
    }
    proof {
        assert(skip_scan(t@, c, i as int) == i as int);
    }
    t.substring_char(i, n).to_owned()
}

} // verus!
