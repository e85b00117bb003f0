//! Proposing the title piece and the label of a captured window: short,
//! stable pieces of the title are preferred, and among them the first that
//! no other window of the same class shows.
use vstd::prelude::*;

use crate::model::{join_with, WindowInfo};
use crate::presentation::{truncate, truncated};
use crate::split::{split_chars, split_on, split_words, vviews, words_of, SplitMode};
use crate::text::{
    append_chars, chars_blank, chars_of, contains_chars, contains_seq, find_chars,
    first_occurrence, is_blank, normalize_chars, normalized, string_of, trim, trim_chars,
};

verus! {

// ---------------------------------------------------------------------------
// Dropping a date suffix
// ---------------------------------------------------------------------------

/// The characters that `strip_common_date_suffix` trims around a prefix.
pub open spec fn is_mark(c: char) -> bool {
    c == '_' || c == '-' || c == ' '
}

/// `s` without leading marks.
pub open spec fn strip_marks_start(s: Seq<char>) -> Seq<char>
    decreases s.len(),
{
    if s.len() > 0 && is_mark(s[0]) {
        strip_marks_start(s.drop_first())
    } else {
        s
    }
}

/// `s` without trailing marks.
pub open spec fn strip_marks_end(s: Seq<char>) -> Seq<char>
    decreases s.len(),
{
    if s.len() > 0 && is_mark(s.last()) {
        strip_marks_end(s.drop_last())
    } else {
        s
    }
}

/// `str::trim_matches(['_', '-', ' '])`.
pub open spec fn strip_marks(s: Seq<char>) -> Seq<char> {
    strip_marks_end(strip_marks_start(s))
}

proof fn lemma_strip_start_skip(s: Seq<char>, i: int)
    requires
        0 <= i <= s.len(),
        forall|k: int| 0 <= k < i ==> is_mark(#[trigger] s[k]),
    ensures
        strip_marks_start(s) == strip_marks_start(s.subrange(i, s.len() as int)),
    decreases i,
{
    if i > 0 {
        assert(s.drop_first() =~= s.subrange(1, s.len() as int));
        lemma_strip_start_skip(s.drop_first(), i - 1);
        assert(s.drop_first().subrange(i - 1, s.drop_first().len() as int) =~= s.subrange(
            i,
            s.len() as int,
        ));
    } else {
        assert(s.subrange(0, s.len() as int) =~= s);
    }
}

proof fn lemma_strip_end_skip(s: Seq<char>, j: int)
    requires
        0 <= j <= s.len(),
        forall|k: int| j <= k < s.len() ==> is_mark(#[trigger] s[k]),
    ensures
        strip_marks_end(s) == strip_marks_end(s.subrange(0, j)),
    decreases s.len() - j,
{
    if j < s.len() {
        assert(s.drop_last() =~= s.subrange(0, s.len() - 1));
        lemma_strip_end_skip(s.drop_last(), j);
        assert(s.drop_last().subrange(0, j) =~= s.subrange(0, j));
    } else {
        assert(s.subrange(0, s.len() as int) =~= s);
    }
}

fn char_is_mark(c: char) -> (b: bool)
    ensures
        b == is_mark(c),
{
    c == '_' || c == '-' || c == ' '
}

/// `v` without leading and trailing `_`, `-` and spaces.
pub fn strip_mark_chars(v: &[char]) -> (r: Vec<char>)
    ensures
        r@ == strip_marks(v@),
{
    let mut a: usize = 0;
    while a < v.len() && char_is_mark(v[a])
        invariant
            a <= v.len(),
            forall|k: int| 0 <= k < a ==> is_mark(#[trigger] v@[k]),
        decreases v.len() - a,
    {
        a = a + 1;
    }
    proof {
        lemma_strip_start_skip(v@, a as int);
        let rest = v@.subrange(a as int, v@.len() as int);
        if rest.len() > 0 {
            assert(rest[0] == v@[a as int]);
        }
        assert(strip_marks_start(v@) == rest);
    }
    let mut b: usize = v.len();
    while b > a && char_is_mark(v[b - 1])
        invariant
            a <= b <= v.len(),
            forall|k: int| b <= k < v.len() ==> is_mark(#[trigger] v@[k]),
        decreases b,
    {
        b = b - 1;
    }
    proof {
        let rest = v@.subrange(a as int, v@.len() as int);
        assert forall|k: int| (b - a) <= k < rest.len() implies is_mark(#[trigger] rest[k]) by {
            assert(rest[k] == v@[a + k]);
        }
        lemma_strip_end_skip(rest, b - a);
        let mid = rest.subrange(0, b - a);
        assert(mid =~= v@.subrange(a as int, b as int));
        if mid.len() > 0 {
            assert(mid.last() == v@[b - 1]);
        }
        assert(strip_marks_end(mid) == mid);
    }
    crate::text::slice_chars(v, a, b)
}

/// The month markers that start a date suffix, in the order they are tried.
#[verifier::opaque]
pub open spec fn date_marker_spec(k: int) -> Seq<char> {
    if k == 0 { "_Jan"@ } else if k == 1 { "_Feb"@ } else if k == 2 { "_Mar"@ } else if k == 3 {
        "_Apr"@
    } else if k == 4 { "_May"@ } else if k == 5 { "_Jun"@ } else if k == 6 { "_Jul"@ } else if k
        == 7 { "_Aug"@ } else if k == 8 { "_Sep"@ } else if k == 9 { "_Oct"@ } else if k == 10 {
        "_Nov"@
    } else if k == 11 { "_Dec"@ } else if k == 12 { "-Jan"@ } else if k == 13 { "-Feb"@ } else if k
        == 14 { "-Mar"@ } else if k == 15 { "-Apr"@ } else if k == 16 { "-May"@ } else if k == 17 {
        "-Jun"@
    } else if k == 18 { "-Jul"@ } else if k == 19 { "-Aug"@ } else if k == 20 { "-Sep"@ } else if k
        == 21 { "-Oct"@ } else if k == 22 { "-Nov"@ } else { "-Dec"@ }
}

/// The number of month markers.
pub const DATE_MARKER_COUNT: usize = 24;

fn date_marker(k: usize) -> (r: &'static str)
    requires
        k < 24,
    ensures
        r@ == date_marker_spec(k as int),
{
    reveal(date_marker_spec);
    if k == 0 { "_Jan" } else if k == 1 { "_Feb" } else if k == 2 { "_Mar" } else if k == 3 {
        "_Apr"
    } else if k == 4 { "_May" } else if k == 5 { "_Jun" } else if k == 6 { "_Jul" } else if k
        == 7 { "_Aug" } else if k == 8 { "_Sep" } else if k == 9 { "_Oct" } else if k == 10 {
        "_Nov"
    } else if k == 11 { "_Dec" } else if k == 12 { "-Jan" } else if k == 13 { "-Feb" } else if k
        == 14 { "-Mar" } else if k == 15 { "-Apr" } else if k == 16 { "-May" } else if k == 17 {
        "-Jun"
    } else if k == 18 { "-Jul" } else if k == 19 { "-Aug" } else if k == 20 { "-Sep" } else if k
        == 21 { "-Oct" } else if k == 22 { "-Nov" } else { "-Dec" }
}

/// The stable prefix that marker `k` cuts off, when it occurs and leaves
/// three or more characters.
pub open spec fn date_prefix(input: Seq<char>, k: int) -> Option<Seq<char>> {
    date_prefix_with(input, date_marker_spec(k))
}

/// The stable prefix before the first occurrence of `marker`, trimmed of
/// marks and whitespace, when three or more characters remain.
pub open spec fn date_prefix_with(input: Seq<char>, marker: Seq<char>) -> Option<Seq<char>> {
    match first_occurrence(input, marker) {
        Some(i) => {
            let p = trim(strip_marks(input.take(i)));
            if p.len() >= 3 {
                Some(p)
            } else {
                None
            }
        },
        None => None,
    }
}

/// The first date prefix, trying the markers from `k` on.
pub open spec fn date_prefix_from(input: Seq<char>, k: int) -> Option<Seq<char>>
    decreases 24 - k,
{
    if k >= 24 || k < 0 {
        None
    } else {
        match date_prefix(input, k) {
            Some(p) => Some(p),
            None => date_prefix_from(input, k + 1),
        }
    }
}

/// The text before a month-name date suffix such as `_Apr16-2026`, trimmed
/// of `_`, `-` and whitespace, when three or more characters remain.
pub fn strip_common_date_suffix(input: &str) -> (r: Option<String>)
    ensures
        match r {
            Some(p) => date_prefix_from(input@, 0) == Some(p@),
            None => date_prefix_from(input@, 0) is None,
        },
{
    let v = chars_of(input);
    let mut k: usize = 0;
    while k < DATE_MARKER_COUNT
        invariant
            k <= 24,
            v@ == input@,
            date_prefix_from(input@, 0) == date_prefix_from(input@, k as int),
        decreases 24 - k,
    {
        let marker = chars_of(date_marker(k));
        if let Some(prefix) = date_prefix_at(v.as_slice(), marker.as_slice()) {
            return Some(string_of(prefix.as_slice()));
        }
        k = k + 1;
    }
    None
}

/// The prefix that marker `k` cuts off `v` (see `date_prefix`).
fn date_prefix_at(v: &[char], marker: &[char]) -> (r: Option<Vec<char>>)
    ensures
        match r {
            Some(p) => date_prefix_with(v@, marker@) == Some(p@),
            None => date_prefix_with(v@, marker@) is None,
        },
{
    match find_chars(v, marker) {
        Some(index) => {
            let head = crate::text::slice_chars(v, 0, index);
            proof {
                assert(head@ =~= v@.take(index as int));
            }
            let stripped = strip_mark_chars(head.as_slice());
            let prefix = trim_chars(stripped.as_slice());
            if prefix.len() >= 3 {
                Some(prefix)
            } else {
                None
            }
        },
        None => None,
    }
}

// ---------------------------------------------------------------------------
// Title pieces
// ---------------------------------------------------------------------------

/// The views of a list of strings.
pub open spec fn sviews(v: Seq<String>) -> Seq<Seq<char>> {
    v.map_values(|s: String| s@)
}

/// The forms of a title part: without its date suffix (where one is found),
/// then the part itself, trimmed.
pub open spec fn part_variants(part: Seq<char>) -> Seq<Seq<char>> {
    match date_prefix_from(part, 0) {
        Some(p) => seq![p, trim(part)],
        None => seq![trim(part)],
    }
}

/// Returns the forms of a title part (see `part_variants`).
pub fn title_part_variants(part: &str) -> (r: Vec<String>)
    ensures
        sviews(r@) == part_variants(part@),
{
    let mut variants: Vec<String> = Vec::new();
    if let Some(stable_prefix) = strip_common_date_suffix(part) {
        variants.push(stable_prefix);
    }
    let v = chars_of(part);
    let t = trim_chars(v.as_slice());
    variants.push(string_of(t.as_slice()));
    proof {
        assert(sviews(variants@) =~= part_variants(part@));
    }
    variants
}

/// `cs` with `cand` (trimmed) added at the end, unless it is blank or some
/// entry is equal to it once both are normalized.
pub open spec fn push_unique(cs: Seq<Seq<char>>, cand: Seq<char>) -> Seq<Seq<char>> {
    let c = trim(cand);
    if c.len() == 0 || exists|i: int| 0 <= i < cs.len() && normalized(cs[i]) == normalized(c) {
        cs
    } else {
        cs.push(c)
    }
}

/// Adds a candidate unless it is blank or already present up to case and
/// surrounding whitespace.
pub fn push_unique_candidate(candidates: &mut Vec<String>, candidate: &str)
    ensures
        sviews(final(candidates)@) == push_unique(sviews(old(candidates)@), candidate@),
{
    let raw = chars_of(candidate);
    let c = trim_chars(raw.as_slice());
    if c.len() == 0 {
        return;
    }
    let nc = normalize_chars(c.as_slice());
    let mut i: usize = 0;
    while i < candidates.len()
        invariant
            i <= candidates@.len(),
            candidates@ == old(candidates)@,
            nc@ == normalized(c@),
            c@ == trim(candidate@),
            forall|k: int| 0 <= k < i ==> normalized(#[trigger] candidates@[k]@) != nc@,
        decreases candidates.len() - i,
    {
        let e = chars_of(candidates[i].as_str());
        let ne = normalize_chars(e.as_slice());
        if ne.len() == nc.len() && crate::text::matches_at(ne.as_slice(), nc.as_slice(), 0) {
            proof {
                assert(ne@.subrange(0, nc@.len() as int) =~= ne@);
                let cs = sviews(old(candidates)@);
                assert(cs[i as int] == candidates@[i as int]@);
            }
            return;
        }
        proof {
            if ne@ == nc@ {
                assert(ne@.subrange(0, nc@.len() as int) =~= ne@);
            }
        }
        i = i + 1;
    }
    let ghost before = candidates@;
    candidates.push(string_of(c.as_slice()));
    proof {
        let cs = sviews(before);
        assert forall|k: int| 0 <= k < cs.len() implies normalized(cs[k]) != normalized(c@) by {
            assert(cs[k] == before[k]@);
        }
        assert(sviews(candidates@) =~= cs.push(c@));
    }
}

/// The forms contributed by the title parts, in order.
pub open spec fn part_items(parts: Seq<Seq<char>>) -> Seq<Seq<char>>
    decreases parts.len(),
{
    if parts.len() == 0 {
        seq![]
    } else {
        let p = trim(parts.last());
        part_items(parts.drop_last()) + if p.len() >= 3 {
            part_variants(p)
        } else {
            seq![]
        }
    }
}

/// The first `1..=n` words joined by spaces, each of three or more characters.
pub open spec fn word_items(words: Seq<Seq<char>>, n: nat) -> Seq<Seq<char>>
    decreases n,
{
    if n == 0 {
        seq![]
    } else {
        let j = join_with(words.take(n as int), " "@);
        word_items(words, (n - 1) as nat) + if j.len() >= 3 {
            seq![j]
        } else {
            seq![]
        }
    }
}

/// The number of leading words tried.
pub open spec fn word_limit(words: Seq<Seq<char>>) -> nat {
    if words.len() < 6 {
        words.len()
    } else {
        6
    }
}

/// Every piece offered for a trimmed title, before duplicates are dropped:
/// the parts between separators, the first words, and the title itself.
pub open spec fn raw_items(t: Seq<char>) -> Seq<Seq<char>> {
    let words = words_of(t);
    part_items(split_on(t, SplitMode::TitleSeparators)) + word_items(words, word_limit(words))
        + seq![t]
}

/// `push_unique` applied to each item in turn.
pub open spec fn push_all(acc: Seq<Seq<char>>, items: Seq<Seq<char>>) -> Seq<Seq<char>>
    decreases items.len(),
{
    if items.len() == 0 {
        acc
    } else {
        push_unique(push_all(acc, items.drop_last()), items.last())
    }
}

/// The candidate pieces of a title, most specific first, without duplicates.
pub open spec fn title_candidates(title: Seq<char>) -> Seq<Seq<char>> {
    let t = trim(title);
    if t.len() == 0 {
        seq![]
    } else {
        push_all(seq![], raw_items(t))
    }
}

/// Returns the candidate pieces of a title (see `title_candidates`).
pub fn title_key_candidates(title: &str) -> (r: Vec<String>)
    ensures
        sviews(r@) == title_candidates(title@),
{
    let raw = chars_of(title);
    let trimmed = trim_chars(raw.as_slice());
    if trimmed.len() == 0 {
        let r: Vec<String> = Vec::new();
        proof {
            assert(sviews(r@) =~= Seq::<Seq<char>>::empty());
        }
        return r;
    }
    let mut candidates: Vec<String> = Vec::new();
    let ghost mut items: Seq<Seq<char>> = seq![];
    proof {
        assert(sviews(candidates@) =~= push_all(seq![], items));
    }
    let parts = split_chars(trimmed.as_slice(), SplitMode::TitleSeparators);
    let ghost ps = vviews(parts@);
    let mut i: usize = 0;
    while i < parts.len()
        invariant
            i <= parts@.len(),
            ps == vviews(parts@),
            items == part_items(ps.take(i as int)),
            sviews(candidates@) == push_all(seq![], items),
        decreases parts.len() - i,
    {
        proof {
            assert(ps.take(i + 1).drop_last() =~= ps.take(i as int));
            assert(ps.take(i + 1).last() == parts@[i as int]@);
        }
        let part = trim_chars(parts[i].as_slice());
        if part.len() >= 3 {
            let part_str = string_of(part.as_slice());
            let variants = title_part_variants(part_str.as_str());
            let ghost vs = sviews(variants@);
            let ghost base = items;
            let mut j: usize = 0;
            while j < variants.len()
                invariant
                    j <= variants@.len(),
                    vs == sviews(variants@),
                    items == base + vs.take(j as int),
                    sviews(candidates@) == push_all(seq![], items),
                decreases variants.len() - j,
            {
                push_unique_candidate(&mut candidates, variants[j].as_str());
                proof {
                    let next = items.push(variants@[j as int]@);
                    assert(next.drop_last() =~= items);
                    assert(base + vs.take(j + 1) =~= next);
                    items = next;
                }
                j = j + 1;
            }
            proof {
                assert(vs.take(j as int) =~= vs);
                assert(part@ == trim(ps.take(i + 1).last()));
            }
        }
        i = i + 1;
    }
    proof {
        assert(ps.take(i as int) =~= ps);
    }
    let words = split_words(trimmed.as_slice());
    let ghost ws = vviews(words@);
    let limit: usize = if words.len() < 6 {
        words.len()
    } else {
        6
    };
    let ghost base = items;
    let mut joined: Vec<char> = Vec::new();
    let mut len: usize = 0;
    proof {
        assert(ws.take(0) =~= Seq::<Seq<char>>::empty());
    }
    while len < limit
        invariant
            len <= limit,
            limit == word_limit(ws),
            limit <= ws.len(),
            ws == vviews(words@),
            joined@ == join_with(ws.take(len as int), " "@),
            items == base + word_items(ws, len as nat),
            sviews(candidates@) == push_all(seq![], items),
        decreases limit - len,
    {
        if len > 0 {
            crate::text::append_str(&mut joined, " ");
        }
        append_chars(&mut joined, words[len].as_slice());
        proof {
            assert(ws.take(len + 1).drop_last() =~= ws.take(len as int));
            assert(ws.take(len + 1).last() == words@[len as int]@);
            if len == 0 {
                assert(joined@ =~= join_with(ws.take(1), " "@));
            } else {
                assert(joined@ =~= join_with(ws.take(len as int), " "@) + " "@ + ws[len as int]);
            }
        }
        if joined.len() >= 3 {
            let js = string_of(joined.as_slice());
            push_unique_candidate(&mut candidates, js.as_str());
            proof {
                let next = items.push(joined@);
                assert(next.drop_last() =~= items);
                assert(base + word_items(ws, (len + 1) as nat) =~= next);
                items = next;
            }
        } else {
            proof {
                assert(base + word_items(ws, (len + 1) as nat) =~= items);
            }
        }
        len = len + 1;
    }
    let ts = string_of(trimmed.as_slice());
    push_unique_candidate(&mut candidates, ts.as_str());
    proof {
        let next = items.push(trimmed@);
        assert(next.drop_last() =~= items);
        assert(next =~= raw_items(trim(title@)));
    }
    candidates
}

// ---------------------------------------------------------------------------
// The suggestion
// ---------------------------------------------------------------------------

/// Whether `o` is another window of the same class as `w`.
pub open spec fn is_other(w: WindowInfo, o: WindowInfo) -> bool {
    o.id != w.id && o.wm_class@ == w.wm_class@
}

/// Whether another window of the same class exists.
pub open spec fn has_other(w: WindowInfo, ws: Seq<WindowInfo>) -> bool {
    exists|i: int| 0 <= i < ws.len() && is_other(w, #[trigger] ws[i])
}

/// Whether no other window of the same class shows `c` in its title (both
/// normalized).
pub open spec fn distinct_candidate(c: Seq<char>, w: WindowInfo, ws: Seq<WindowInfo>) -> bool {
    forall|i: int|
        0 <= i < ws.len() && is_other(w, #[trigger] ws[i]) ==> !contains_seq(
            normalized(ws[i].title@),
            normalized(c),
        )
}

/// The first distinct candidate from index `k` on.
pub open spec fn first_distinct(cs: Seq<Seq<char>>, w: WindowInfo, ws: Seq<WindowInfo>, k: int) -> Option<
    int,
>
    decreases cs.len() - k,
{
    if k < 0 || k >= cs.len() {
        None
    } else if distinct_candidate(cs[k], w, ws) {
        Some(k)
    } else {
        first_distinct(cs, w, ws, k + 1)
    }
}

/// The suggested title piece for `w` among the windows `ws`: the title when
/// it has no candidate; the first candidate when no other window has the
/// same class; else the first candidate that no such window shows, or the
/// last candidate.
pub open spec fn suggestion(w: WindowInfo, ws: Seq<WindowInfo>) -> Seq<char> {
    let cs = title_candidates(w.title@);
    if cs.len() == 0 {
        w.title@
    } else if !has_other(w, ws) {
        cs[0]
    } else {
        match first_distinct(cs, w, ws, 0) {
            Some(k) => cs[k],
            None => cs.last(),
        }
    }
}

/// Returns whether no other window of the class shows the candidate.
fn candidate_is_distinct(c: &str, window: &WindowInfo, windows: &[WindowInfo]) -> (b: bool)
    ensures
        b == distinct_candidate(c@, *window, windows@),
{
    let raw = chars_of(c);
    let needle = normalize_chars(raw.as_slice());
    let mut i: usize = 0;
    while i < windows.len()
        invariant
            i <= windows@.len(),
            needle@ == normalized(c@),
            forall|k: int|
                0 <= k < i && is_other(*window, #[trigger] windows@[k]) ==> !contains_seq(
                    normalized(windows@[k].title@),
                    normalized(c@),
                ),
        decreases windows.len() - i,
    {
        let o = &windows[i];
        if o.id != window.id && o.wm_class == window.wm_class {
            let t = chars_of(o.title.as_str());
            let nt = normalize_chars(t.as_slice());
            if contains_chars(nt.as_slice(), needle.as_slice()) {
                return false;
            }
        }
        i = i + 1;
    }
    true
}

/// Returns whether another window of the same class exists.
fn another_of_class(window: &WindowInfo, windows: &[WindowInfo]) -> (b: bool)
    ensures
        b == has_other(*window, windows@),
{
    let mut i: usize = 0;
    while i < windows.len()
        invariant
            i <= windows@.len(),
            forall|k: int| 0 <= k < i ==> !is_other(*window, #[trigger] windows@[k]),
        decreases windows.len() - i,
    {
        if windows[i].id != window.id && windows[i].wm_class == window.wm_class {
            proof {
                assert(is_other(*window, windows@[i as int]));
            }
            return true;
        }
        i = i + 1;
    }
    false
}

/// Proposes a title piece for `window` (see `suggestion`).
pub fn suggest_title_contains(window: &WindowInfo, windows: &[WindowInfo]) -> (r: String)
    ensures
        r@ == suggestion(*window, windows@),
{
    let candidates = title_key_candidates(window.title.as_str());
    let ghost cs = sviews(candidates@);
    if candidates.len() == 0 {
        return window.title.clone();
    }
    proof {
        assert(cs[0] == candidates@[0]@);
    }
    if !another_of_class(window, windows) {
        return candidates[0].clone();
    }
    let mut k: usize = 0;
    while k < candidates.len()
        invariant
            k <= candidates@.len(),
            candidates@.len() > 0,
            has_other(*window, windows@),
            cs == title_candidates(window.title@),
            cs == sviews(candidates@),
            first_distinct(cs, *window, windows@, 0) == first_distinct(
                cs,
                *window,
                windows@,
                k as int,
            ),
        decreases candidates.len() - k,
    {
        proof {
            assert(cs[k as int] == candidates@[k as int]@);
        }
        if candidate_is_distinct(candidates[k].as_str(), window, windows) {
            proof {
                assert(distinct_candidate(cs[k as int], *window, windows@));
                assert(first_distinct(cs, *window, windows@, k as int) == Some(k as int));
            }
            return candidates[k].clone();
        }
        k = k + 1;
    }
    let last = candidates.len() - 1;
    proof {
        assert(cs[last as int] == candidates@[last as int]@);
    }
    candidates[last].clone()
}

/// The label proposed for a captured window: its title, or its class when
/// the title is blank, trimmed and cut to 48 characters.
pub open spec fn default_label_of(w: WindowInfo) -> Seq<char> {
    let source = if !is_blank(w.title@) {
        trim(w.title@)
    } else {
        trim(w.wm_class@)
    };
    truncated(source, 48)
}

/// Returns the label proposed for a captured window.
pub fn default_label(window: &WindowInfo) -> (r: String)
    ensures
        r@ == default_label_of(*window),
{
    let title = chars_of(window.title.as_str());
    let source = if !chars_blank(title.as_slice()) {
        trim_chars(title.as_slice())
    } else {
        let class = chars_of(window.wm_class.as_str());
        trim_chars(class.as_slice())
    };
    let s = string_of(source.as_slice());
    truncate(s.as_str(), 48)
}

} // verus!
