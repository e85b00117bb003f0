//! Small text transformations used when showing rules and windows.
use vstd::prelude::*;

use crate::text::{chars_of, is_blank, str_blank, string_of};

verus! {

/// `s` cut to at most `max` characters, the last shown one replaced by `…`
/// when something was cut (with `max == 0` only the `…` remains).
pub open spec fn truncated(s: Seq<char>, max: nat) -> Seq<char> {
    if s.len() <= max {
        s
    } else {
        s.take(if max == 0 { 0 } else { max - 1 }).push('…')
    }
}

/// A cut text keeps the start of the text and never exceeds the width it
/// was cut to (for a width of at least one); a text that fits stays as it
/// is, and one that does not ends in `…`.
pub proof fn lemma_truncated_fits(s: Seq<char>, max: nat)
    ensures
        max > 0 ==> truncated(s, max).len() <= max,
        s.len() <= max ==> truncated(s, max) == s,
        s.len() > max ==> truncated(s, max).last() == '…' && truncated(s, max).drop_last()
            == s.take(if max == 0 { 0 } else { max - 1 }),
{
    if s.len() > max {
        let k: int = if max == 0 { 0 } else { max - 1 };
        assert(s.take(k).push('…').drop_last() =~= s.take(k));
    }
}

/// Cuts `input` to `max` characters as `truncated` says.
pub fn truncate(input: &str, max: usize) -> (r: String)
    ensures
        r@ == truncated(input@, max as nat),
{
    let v = chars_of(input);
    if v.len() <= max {
        return string_of(v.as_slice());
    }
    let keep: usize = if max == 0 {
        0
    } else {
        max - 1
    };
    let mut out: Vec<char> = Vec::new();
    let mut i: usize = 0;
    while i < keep
        invariant
            i <= keep,
            keep < v@.len(),
            out@ == v@.take(i as int),
        decreases keep - i,
    {
        out.push(v[i]);
        proof {
            assert(v@.take(i + 1) =~= v@.take(i as int).push(v@[i as int]));
        }
        i = i + 1;
    }
    out.push('…');
    string_of(out.as_slice())
}

/// `-` for a blank text, the text itself otherwise.
pub open spec fn dash_if_blank(s: Seq<char>) -> Seq<char> {
    if is_blank(s) {
        seq!['-']
    } else {
        s
    }
}

/// Shows a blank text as `-`.
pub fn empty_dash(input: &str) -> (r: String)
    ensures
        r@ == dash_if_blank(input@),
{
    if str_blank(input) {
        let v: Vec<char> = vec!['-'];
        proof {
            assert(v@ =~= seq!['-']);
        }
        string_of(v.as_slice())
    } else {
        crate::text::string_from(input)
    }
}

} // verus!
