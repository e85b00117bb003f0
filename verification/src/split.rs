//! Splitting text at separator characters, as `str::split` with a set of
//! characters and `str::split_whitespace` do.
use vstd::prelude::*;

use crate::text::{char_is_space, is_space};

verus! {

/// Which characters separate pieces.
#[derive(Clone, Copy, Debug)]
pub enum SplitMode {
    /// The separators of title segments: `| — - · • : / \`.
    TitleSeparators,
    /// Unicode whitespace.
    Whitespace,
    /// The line feed.
    Newline,
    /// The path separator `/`.
    PathSeparator,
}

/// The separators of title segments.
pub open spec fn is_title_sep(c: char) -> bool {
    c == '|' || c == '—' || c == '-' || c == '·' || c == '•' || c == ':' || c == '/' || c == '\\'
}

/// Whether `c` separates pieces in `mode`.
pub open spec fn is_sep(mode: SplitMode, c: char) -> bool {
    match mode {
        SplitMode::TitleSeparators => is_title_sep(c),
        SplitMode::Whitespace => is_space(c),
        SplitMode::Newline => c == '\n',
        SplitMode::PathSeparator => c == '/',
    }
}

/// Returns whether `c` separates pieces in `mode`.
pub fn char_is_sep(mode: SplitMode, c: char) -> (b: bool)
    ensures
        b == is_sep(mode, c),
{
    match mode {
        SplitMode::TitleSeparators => c == '|' || c == '—' || c == '-' || c == '·' || c == '•' || c
            == ':' || c == '/' || c == '\\',
        SplitMode::Whitespace => char_is_space(c),
        SplitMode::Newline => c == '\n',
        SplitMode::PathSeparator => c == '/',
    }
}

/// After reading `s[..n]`: the finished pieces and the piece being read.
pub open spec fn split_state(s: Seq<char>, n: nat, mode: SplitMode) -> (Seq<Seq<char>>, Seq<char>)
    decreases n,
{
    if n == 0 {
        (seq![], seq![])
    } else {
        let prev = split_state(s, (n - 1) as nat, mode);
        if is_sep(mode, s[n - 1]) {
            (prev.0.push(prev.1), seq![])
        } else {
            (prev.0, prev.1.push(s[n - 1]))
        }
    }
}

/// The pieces of `s` between separators, empty ones included (`str::split`).
pub open spec fn split_on(s: Seq<char>, mode: SplitMode) -> Seq<Seq<char>> {
    let st = split_state(s, s.len(), mode);
    st.0.push(st.1)
}

/// The characters at which a title is cut into segments, written out.
pub open spec fn title_separator_list() -> Seq<char> {
    seq!['|', '—', '-', '·', '•', ':', '/', '\\']
}

proof fn lemma_split_prefix(a: Seq<char>, s: Seq<char>, n: nat)
    requires
        n <= a.len() <= s.len(),
        s.take(a.len() as int) == a,
        forall|i: int| 0 <= i < a.len() ==> !is_sep(SplitMode::TitleSeparators, #[trigger] a[i]),
    ensures
        split_state(s, n, SplitMode::TitleSeparators) == (Seq::<Seq<char>>::empty(), a.take(n as int)),
    decreases n,
{
    if n > 0 {
        lemma_split_prefix(a, s, (n - 1) as nat);
        assert(s[n - 1] == a[n - 1]);
        assert(a.take(n - 1).push(a[n - 1]) =~= a.take(n as int));
    } else {
        assert(a.take(0) =~= Seq::<char>::empty());
    }
}

proof fn lemma_split_first_stays(s: Seq<char>, m: nat, k: nat, first: Seq<char>)
    requires
        k <= m <= s.len(),
        split_state(s, k, SplitMode::TitleSeparators).0.len() > 0,
        split_state(s, k, SplitMode::TitleSeparators).0[0] == first,
    ensures
        split_state(s, m, SplitMode::TitleSeparators).0.len() > 0,
        split_state(s, m, SplitMode::TitleSeparators).0[0] == first,
    decreases m - k,
{
    if m > k {
        lemma_split_first_stays(s, (m - 1) as nat, k, first);
    }
}

/// A title is cut at each of `| — - · • : / \`: when the text before one of
/// these characters holds none of them, that text is the first segment.
pub proof fn lemma_title_cut_at_separators(a: Seq<char>, c: char, b: Seq<char>)
    requires
        title_separator_list().contains(c),
        forall|i: int| 0 <= i < a.len() ==> !title_separator_list().contains(#[trigger] a[i]),
    ensures
        split_on(a + seq![c] + b, SplitMode::TitleSeparators)[0] == a,
{
    let s = a + seq![c] + b;
    let l = title_separator_list();
    assert(l =~= seq!['|', '—', '-', '·', '•', ':', '/', '\\']);
    assert(is_title_sep(c));
    assert forall|i: int| 0 <= i < a.len() implies !is_sep(SplitMode::TitleSeparators, #[trigger] a[i]) by {
        if is_title_sep(a[i]) {
            let x = a[i];
            if x == '|' { assert(l[0] == x); } else if x == '—' { assert(l[1] == x); }
            else if x == '-' { assert(l[2] == x); } else if x == '·' { assert(l[3] == x); }
            else if x == '•' { assert(l[4] == x); } else if x == ':' { assert(l[5] == x); }
            else if x == '/' { assert(l[6] == x); } else { assert(l[7] == x); }
        }
    }
    assert(s.take(a.len() as int) =~= a);
    lemma_split_prefix(a, s, a.len());
    assert(a.take(a.len() as int) =~= a);
    assert(s[a.len() as int] == c);
    let k = (a.len() + 1) as nat;
    assert(split_state(s, k, SplitMode::TitleSeparators).0 == seq![a]);
    lemma_split_first_stays(s, s.len(), k, a);
}

/// The non-empty pieces of `ps`, in order.
pub open spec fn nonempty(ps: Seq<Seq<char>>) -> Seq<Seq<char>>
    decreases ps.len(),
{
    if ps.len() == 0 {
        seq![]
    } else {
        let r = nonempty(ps.drop_last());
        if ps.last().len() > 0 {
            r.push(ps.last())
        } else {
            r
        }
    }
}

/// The words of `s` (`str::split_whitespace`).
pub open spec fn words_of(s: Seq<char>) -> Seq<Seq<char>> {
    nonempty(split_on(s, SplitMode::Whitespace))
}

/// The views of a list of character vectors.
pub open spec fn vviews(v: Seq<Vec<char>>) -> Seq<Seq<char>> {
    v.map_values(|x: Vec<char>| x@)
}

/// Splits `v` at the separators of `mode`, keeping empty pieces.
pub fn split_chars(v: &[char], mode: SplitMode) -> (r: Vec<Vec<char>>)
    ensures
        vviews(r@) == split_on(v@, mode),
{
    let mut done: Vec<Vec<char>> = Vec::new();
    let mut cur: Vec<char> = Vec::new();
    let mut i: usize = 0;
    while i < v.len()
        invariant
            i <= v@.len(),
            vviews(done@) == split_state(v@, i as nat, mode).0,
            cur@ == split_state(v@, i as nat, mode).1,
        decreases v.len() - i,
    {
        if char_is_sep(mode, v[i]) {
            let finished = cur;
            cur = Vec::new();
            let ghost before = done@;
            done.push(finished);
            proof {
                assert(vviews(done@) =~= vviews(before).push(finished@));
            }
        } else {
            cur.push(v[i]);
        }
        i = i + 1;
    }
    let ghost before = done@;
    done.push(cur);
    proof {
        assert(vviews(done@) =~= vviews(before).push(split_state(v@, v@.len(), mode).1));
    }
    done
}

/// The words of `v`.
pub fn split_words(v: &[char]) -> (r: Vec<Vec<char>>)
    ensures
        vviews(r@) == words_of(v@),
{
    let pieces = split_chars(v, SplitMode::Whitespace);
    let ghost ps = vviews(pieces@);
    let mut out: Vec<Vec<char>> = Vec::new();
    let mut i: usize = 0;
    while i < pieces.len()
        invariant
            i <= pieces@.len(),
            ps == vviews(pieces@),
            vviews(out@) == nonempty(ps.take(i as int)),
        decreases pieces.len() - i,
    {
        proof {
            assert(ps.take(i + 1).drop_last() =~= ps.take(i as int));
            assert(ps.take(i + 1).last() == pieces@[i as int]@);
        }
        if pieces[i].len() > 0 {
            let ghost before = out@;
            out.push(pieces[i].clone());
            proof {
                assert(vviews(out@) =~= vviews(before).push(pieces@[i as int]@));
            }
        }
        i = i + 1;
    }
    proof {
        assert(ps.take(i as int) =~= ps);
    }
    out
}

} // verus!
