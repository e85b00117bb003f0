//! Finding the window of a slot: a rule matches a window by its exact
//! `WM_CLASS` and a case-insensitive piece of its title; among several
//! matches the hints of the last activation decide, and when they do not
//! the slot is reported ambiguous rather than guessed.
use vstd::prelude::*;

use crate::model::{SlotRule, SlotState, WindowInfo};
use crate::numfmt::{decimal_of, push_decimal_i64};
use crate::presentation::{dash_if_blank, empty_dash};
use crate::text::{
    append_str, ascii_lower, char_ascii_lower, chars_of, contains_chars, contains_seq, is_blank,
    normalize_chars, normalized, str_blank, string_of,
};

verus! {

/// Whether `rule` matches `w`: the class is set and equal, and the title
/// piece is blank or occurs in the title, both trimmed and in lower case.
pub open spec fn rule_matches_spec(rule: SlotRule, w: WindowInfo) -> bool {
    &&& !is_blank(rule.wm_class@)
    &&& rule.wm_class@ == w.wm_class@
    &&& (is_blank(rule.title_contains@) || contains_seq(
        normalized(w.title@),
        normalized(rule.title_contains@),
    ))
}

/// Returns whether `rule` matches `window`.
pub fn rule_matches(rule: &SlotRule, window: &WindowInfo) -> (b: bool)
    ensures
        b == rule_matches_spec(*rule, *window),
{
    if str_blank(rule.wm_class.as_str()) {
        return false;
    }
    if rule.wm_class != window.wm_class {
        return false;
    }
    if str_blank(rule.title_contains.as_str()) {
        return true;
    }
    let needle_raw = chars_of(rule.title_contains.as_str());
    let needle = normalize_chars(needle_raw.as_slice());
    let hay_raw = chars_of(window.title.as_str());
    let hay = normalize_chars(hay_raw.as_slice());
    contains_chars(hay.as_slice(), needle.as_slice())
}

/// Case-insensitive equality of ASCII letters (`str::eq_ignore_ascii_case`).
pub open spec fn eq_ignore_ascii_case(a: Seq<char>, b: Seq<char>) -> bool {
    a.len() == b.len() && forall|i: int| 0 <= i < a.len() ==> ascii_lower(a[i]) == ascii_lower(b[i])
}

/// Returns whether `a` and `b` are equal up to the case of ASCII letters.
pub fn chars_eq_ignore_ascii_case(a: &[char], b: &[char]) -> (r: bool)
    ensures
        r == eq_ignore_ascii_case(a@, b@),
{
    if a.len() != b.len() {
        return false;
    }
    let mut i: usize = 0;
    while i < a.len()
        invariant
            a.len() == b.len(),
            i <= a.len(),
            forall|k: int| 0 <= k < i ==> ascii_lower(a@[k]) == ascii_lower(b@[k]),
        decreases a.len() - i,
    {
        if char_ascii_lower(a[i]) != char_ascii_lower(b[i]) {
            return false;
        }
        i = i + 1;
    }
    true
}

/// The indices of `idx` (in order) whose windows satisfy `pred`.
pub open spec fn filter_idx(
    ws: Seq<WindowInfo>,
    idx: Seq<usize>,
    pred: spec_fn(WindowInfo) -> bool,
) -> Seq<usize>
    decreases idx.len(),
{
    if idx.len() == 0 {
        seq![]
    } else {
        let p = filter_idx(ws, idx.drop_last(), pred);
        if pred(ws[idx.last() as int]) {
            p.push(idx.last())
        } else {
            p
        }
    }
}

/// `0, 1, …, n - 1`.
pub open spec fn all_indices(n: nat) -> Seq<usize> {
    Seq::new(n, |i: int| i as usize)
}

/// The indices of the windows that `rule` matches.
pub open spec fn candidates_of(rule: SlotRule, ws: Seq<WindowInfo>) -> Seq<usize> {
    filter_idx(ws, all_indices(ws.len()), |w: WindowInfo| rule_matches_spec(rule, w))
}

/// The candidates whose id equals the remembered one (ignoring ASCII case).
pub open spec fn same_id_of(ws: Seq<WindowInfo>, cand: Seq<usize>, st: Option<SlotState>) -> Seq<
    usize,
> {
    match st {
        Some(s) => match s.last_window_id {
            Some(id) => filter_idx(
                ws,
                cand,
                |w: WindowInfo| eq_ignore_ascii_case(w.id_hex@, id@),
            ),
            None => seq![],
        },
        None => seq![],
    }
}

/// The candidates on the remembered desktop.
pub open spec fn same_desktop_of(ws: Seq<WindowInfo>, cand: Seq<usize>, st: Option<SlotState>) -> Seq<
    usize,
> {
    match st {
        Some(s) => match s.desktop_hint {
            Some(d) => filter_idx(ws, cand, |w: WindowInfo| w.desktop == d),
            None => seq![],
        },
        None => seq![],
    }
}

/// How the search for a slot's window ends.
#[derive(Debug)]
pub enum Outcome {
    /// The window at this index was chosen.
    Chosen(usize),
    /// The rule has no class.
    Unusable,
    /// No window matches.
    NotFound,
    /// Several windows match and the hints do not single one out.
    Ambiguous,
}

/// The result of `resolve_slot`: the only matching window; among several,
/// the only one with the remembered id, else the only one on the remembered
/// desktop; otherwise an error.
pub open spec fn resolve_outcome(rule: SlotRule, st: Option<SlotState>, ws: Seq<WindowInfo>) -> Outcome {
    if !rule.usable() {
        Outcome::Unusable
    } else {
        let c = candidates_of(rule, ws);
        if c.len() == 0 {
            Outcome::NotFound
        } else if c.len() == 1 {
            Outcome::Chosen(c[0])
        } else if same_id_of(ws, c, st).len() == 1 {
            Outcome::Chosen(same_id_of(ws, c, st)[0])
        } else if same_desktop_of(ws, c, st).len() == 1 {
            Outcome::Chosen(same_desktop_of(ws, c, st)[0])
        } else {
            Outcome::Ambiguous
        }
    }
}

/// The remembered window id breaks ties before the desktop hint does: when
/// exactly one of the matching windows has the remembered id (ignoring ASCII
/// case), that window is chosen, whatever the desktop hint says and however
/// many windows match.
pub proof fn lemma_remembered_id_breaks_ties(rule: SlotRule, st: SlotState, ws: Seq<WindowInfo>, k: int)
    requires
        ws.len() <= usize::MAX,
        0 <= k < ws.len(),
        rule_matches_spec(rule, ws[k]),
        st.last_window_id is Some,
        eq_ignore_ascii_case(ws[k].id_hex@, st.last_window_id->0@),
        forall|j: int|
            0 <= j < ws.len() && j != k && rule_matches_spec(rule, #[trigger] ws[j])
                ==> !eq_ignore_ascii_case(ws[j].id_hex@, st.last_window_id->0@),
    ensures
        resolve_outcome(rule, Some(st), ws) == Outcome::Chosen(k as usize),
{
    let n = ws.len();
    let all = all_indices(n);
    let pred = |w: WindowInfo| rule_matches_spec(rule, w);
    let c = candidates_of(rule, ws);
    assert forall|a: int, b: int| 0 <= a < b < all.len() implies all[a] < all[b] by {}
    lemma_filter_idx_increasing(ws, all, pred);
    lemma_filter_idx_from(ws, all, pred);
    assert(all[k] == k as usize);
    lemma_filter_idx_keeps(ws, all, pred, k);
    let pos = choose|pos: int| 0 <= pos < c.len() && c[pos] == k as usize;
    assert forall|q: int| 0 <= q < c.len() implies (#[trigger] c[q]) < n && rule_matches_spec(
        rule,
        ws[c[q] as int],
    ) by {
        let j = choose|j: int| 0 <= j < all.len() && all[j] == c[q];
        assert(pred(ws[c[q] as int]));
    }
    if c.len() == 1 {
        assert(pos == 0);
    } else {
        let id = st.last_window_id->0;
        let p = |w: WindowInfo| eq_ignore_ascii_case(w.id_hex@, id@);
        assert(p(ws[c[pos] as int]));
        assert forall|q: int| 0 <= q < c.len() && q != pos implies !p(#[trigger] ws[c[q] as int]) by {
            if q < pos {
                assert(c[q] < c[pos]);
            } else {
                assert(c[pos] < c[q]);
            }
            assert(rule_matches_spec(rule, ws[c[q] as int]));
        }
        lemma_filter_idx_single(ws, c, p, pos);
        assert(same_id_of(ws, c, Some(st)) == seq![k as usize]);
    }
}

/// The windows of a filtered index list, as a multiset, are those of the
/// list that satisfy the predicate.
proof fn lemma_filter_idx_multiset(ws: Seq<WindowInfo>, idx: Seq<usize>, pred: spec_fn(WindowInfo) -> bool)
    ensures
        windows_at(ws, filter_idx(ws, idx, pred)).to_multiset() =~= windows_at(ws, idx).to_multiset().filter(
            pred,
        ),
    decreases idx.len(),
{
    broadcast use vstd::seq_lib::group_to_multiset_ensures, vstd::multiset::group_multiset_axioms;

    if idx.len() == 0 {
        assert(windows_at(ws, idx) =~= Seq::<WindowInfo>::empty());
        assert(windows_at(ws, filter_idx(ws, idx, pred)) =~= Seq::<WindowInfo>::empty());
    } else {
        let init = idx.drop_last();
        let x = idx.last();
        lemma_filter_idx_multiset(ws, init, pred);
        assert(windows_at(ws, idx) =~= windows_at(ws, init).push(ws[x as int]));
        let f0 = filter_idx(ws, init, pred);
        if pred(ws[x as int]) {
            assert(windows_at(ws, f0.push(x)) =~= windows_at(ws, f0).push(ws[x as int]));
        }
    }
}

/// Filtering a filtered list filters by both predicates.
proof fn lemma_filter_idx_twice(
    ws: Seq<WindowInfo>,
    idx: Seq<usize>,
    p: spec_fn(WindowInfo) -> bool,
    q: spec_fn(WindowInfo) -> bool,
)
    ensures
        filter_idx(ws, filter_idx(ws, idx, p), q) == filter_idx(
            ws,
            idx,
            |w: WindowInfo| p(w) && q(w),
        ),
    decreases idx.len(),
{
    if idx.len() > 0 {
        let init = idx.drop_last();
        lemma_filter_idx_twice(ws, init, p, q);
        let f0 = filter_idx(ws, init, p);
        if p(ws[idx.last() as int]) {
            assert(f0.push(idx.last()).drop_last() =~= f0);
        }
    }
}

/// The windows of the first `n` indices are the windows themselves.
proof fn lemma_windows_at_all(ws: Seq<WindowInfo>)
    requires
        ws.len() <= usize::MAX,
    ensures
        windows_at(ws, all_indices(ws.len())) =~= ws,
{
}

/// Over two lists of the same windows in any order, filtering by a
/// predicate keeps as many windows, and one and the same window when it
/// keeps exactly one.
proof fn lemma_filter_agrees(ws: Seq<WindowInfo>, ws2: Seq<WindowInfo>, pred: spec_fn(WindowInfo) -> bool)
    requires
        ws.len() <= usize::MAX,
        ws2.len() <= usize::MAX,
        ws.to_multiset() == ws2.to_multiset(),
    ensures
        filter_idx(ws, all_indices(ws.len()), pred).len() == filter_idx(
            ws2,
            all_indices(ws2.len()),
            pred,
        ).len(),
        filter_idx(ws, all_indices(ws.len()), pred).len() == 1 ==> ws[filter_idx(
            ws,
            all_indices(ws.len()),
            pred,
        )[0] as int] == ws2[filter_idx(ws2, all_indices(ws2.len()), pred)[0] as int],
{
    broadcast use vstd::seq_lib::group_to_multiset_ensures, vstd::multiset::group_multiset_axioms;

    let f = filter_idx(ws, all_indices(ws.len()), pred);
    let f2 = filter_idx(ws2, all_indices(ws2.len()), pred);
    lemma_filter_idx_multiset(ws, all_indices(ws.len()), pred);
    lemma_filter_idx_multiset(ws2, all_indices(ws2.len()), pred);
    lemma_windows_at_all(ws);
    lemma_windows_at_all(ws2);
    let a = windows_at(ws, f);
    let b = windows_at(ws2, f2);
    assert(a.to_multiset() == b.to_multiset());
    assert(a.len() == f.len());
    assert(b.len() == f2.len());
    assert(a.to_multiset().len() == a.len());
    assert(b.to_multiset().len() == b.len());
    if f.len() == 1 {
        assert(a[0] == ws[f[0] as int]);
        assert(a.contains(a[0]));
        assert(a.to_multiset().count(a[0]) > 0);
        assert(b.to_multiset().count(a[0]) > 0);
        assert(b.contains(a[0]));
        let k = choose|k: int| 0 <= k < b.len() && b[k] == a[0];
        assert(k == 0);
        assert(b[0] == ws2[f2[0] as int]);
    }
}

/// The matching windows whose id is `id` (ignoring ASCII case).
spec fn id_pred(rule: SlotRule, id: String) -> spec_fn(WindowInfo) -> bool {
    |w: WindowInfo| rule_matches_spec(rule, w) && eq_ignore_ascii_case(w.id_hex@, id@)
}

/// The matching windows on desktop `d`.
spec fn desk_pred(rule: SlotRule, d: i32) -> spec_fn(WindowInfo) -> bool {
    |w: WindowInfo| rule_matches_spec(rule, w) && w.desktop == d
}

/// The result of resolving a slot does not depend on the order of the
/// windows: over the same windows listed in another order, the search ends
/// the same way, and when it chooses a window it chooses the same one.
pub proof fn lemma_resolve_ignores_window_order(
    rule: SlotRule,
    st: Option<SlotState>,
    ws: Seq<WindowInfo>,
    ws2: Seq<WindowInfo>,
)
    requires
        ws.len() <= usize::MAX,
        ws2.to_multiset() == ws.to_multiset(),
    ensures
        match (resolve_outcome(rule, st, ws), resolve_outcome(rule, st, ws2)) {
            (Outcome::Chosen(i), Outcome::Chosen(j)) => ws[i as int] == ws2[j as int],
            (Outcome::Unusable, Outcome::Unusable) => true,
            (Outcome::NotFound, Outcome::NotFound) => true,
            (Outcome::Ambiguous, Outcome::Ambiguous) => true,
            _ => false,
        },
{
    broadcast use vstd::seq_lib::group_to_multiset_ensures;

    assert(ws2.len() == ws.len()) by {
        assert(ws2.to_multiset().len() == ws2.len());
        assert(ws.to_multiset().len() == ws.len());
    }
    let p = |w: WindowInfo| rule_matches_spec(rule, w);
    let all = all_indices(ws.len());
    let all2 = all_indices(ws2.len());
    let c = candidates_of(rule, ws);
    let c2 = candidates_of(rule, ws2);
    lemma_filter_agrees(ws, ws2, p);
    if rule.usable() && c.len() > 1 {
        match st {
            Some(s) => {
                match s.last_window_id {
                    Some(id) => {
                        let q = |w: WindowInfo| eq_ignore_ascii_case(w.id_hex@, id@);
                        lemma_filter_idx_twice(ws, all, p, q);
                        lemma_filter_idx_twice(ws2, all2, p, q);
                        assert((|w: WindowInfo| p(w) && q(w)) == id_pred(rule, id));
                        lemma_filter_agrees(ws, ws2, id_pred(rule, id));
                    },
                    None => {},
                }
                match s.desktop_hint {
                    Some(d) => {
                        let q = |w: WindowInfo| w.desktop == d;
                        lemma_filter_idx_twice(ws, all, p, q);
                        lemma_filter_idx_twice(ws2, all2, p, q);
                        assert((|w: WindowInfo| p(w) && q(w)) == desk_pred(rule, d));
                        lemma_filter_agrees(ws, ws2, desk_pred(rule, d));
                    },
                    None => {},
                }
            },
            None => {},
        }
    }
}

/// The message of the error that `resolve_slot` gives (empty when a window
/// is chosen).
pub open spec fn resolve_failure_text(rule: SlotRule, st: Option<SlotState>, ws: Seq<WindowInfo>) -> Seq<
    char,
> {
    match resolve_outcome(rule, st, ws) {
        Outcome::Chosen(_) => seq![],
        Outcome::Unusable => "WM_CLASS が未設定です"@,
        Outcome::NotFound => "一致候補が見つかりません。class="@ + dash_if_blank(rule.wm_class@)
            + " title_contains="@ + dash_if_blank(rule.title_contains@),
        Outcome::Ambiguous => "複数候補が存在します。title_contains をもう少し具体化してください:\n"@
            + candidate_lines(windows_at(ws, candidates_of(rule, ws))),
    }
}

/// Why a slot could not be resolved.
#[derive(Debug)]
pub enum ResolveError {
    /// The rule has no class.
    Unusable,
    /// No window matches the rule's class and title piece.
    NotFound { wm_class: String, title_contains: String },
    /// Several windows match; they are listed.
    Ambiguous { candidates: Vec<WindowInfo> },
}

/// The slot state behind an optional reference.
pub open spec fn opt_state(o: Option<&SlotState>) -> Option<SlotState> {
    match o {
        Some(s) => Some(*s),
        None => None,
    }
}

/// The windows at the given indices.
pub open spec fn windows_at(ws: Seq<WindowInfo>, idx: Seq<usize>) -> Seq<WindowInfo> {
    idx.map_values(|i: usize| ws[i as int])
}

/// Collects the indices of `idx` whose windows the rule matches.
pub(crate) fn collect_matching(rule: &SlotRule, windows: &[WindowInfo]) -> (r: Vec<usize>)
    ensures
        r@ == candidates_of(*rule, windows@),
        forall|k: int| 0 <= k < r@.len() ==> (#[trigger] r@[k]) < windows@.len(),
{
    let ghost pred = |w: WindowInfo| rule_matches_spec(*rule, w);
    let mut r: Vec<usize> = Vec::new();
    let mut i: usize = 0;
    while i < windows.len()
        invariant
            i <= windows@.len(),
            pred == (|w: WindowInfo| rule_matches_spec(*rule, w)),
            r@ == filter_idx(windows@, all_indices(i as nat), pred),
            forall|k: int| 0 <= k < r@.len() ==> (#[trigger] r@[k]) < i,
        decreases windows.len() - i,
    {
        proof {
            assert(all_indices((i + 1) as nat).drop_last() =~= all_indices(i as nat));
            assert(all_indices((i + 1) as nat).last() == i);
        }
        if rule_matches(rule, &windows[i]) {
            r.push(i);
        }
        i = i + 1;
    }
    proof {
        assert(all_indices(windows@.len()) =~= all_indices(i as nat));
    }
    r
}

/// Every index in a filtered list comes from the list it filters.
proof fn lemma_filter_idx_from(ws: Seq<WindowInfo>, idx: Seq<usize>, pred: spec_fn(WindowInfo) -> bool)
    ensures
        forall|k: int|
            0 <= k < filter_idx(ws, idx, pred).len() ==> idx.contains(
                #[trigger] filter_idx(ws, idx, pred)[k],
            ) && pred(ws[filter_idx(ws, idx, pred)[k] as int]),
    decreases idx.len(),
{
    if idx.len() > 0 {
        lemma_filter_idx_from(ws, idx.drop_last(), pred);
        let p = filter_idx(ws, idx.drop_last(), pred);
        assert forall|k: int| 0 <= k < filter_idx(ws, idx, pred).len() implies idx.contains(
            #[trigger] filter_idx(ws, idx, pred)[k],
        ) && pred(ws[filter_idx(ws, idx, pred)[k] as int]) by {
            if k < p.len() {
                let j = choose|j: int| 0 <= j < idx.drop_last().len() && idx.drop_last()[j] == p[k];
                assert(idx[j] == p[k]);
            } else {
                assert(idx[idx.len() - 1] == idx.last());
            }
        }
    }
}

/// The indices in `cand` whose windows have the id `id` (ignoring ASCII case).
fn collect_same_id(windows: &[WindowInfo], cand: &Vec<usize>, id: &String) -> (r: Vec<usize>)
    requires
        forall|k: int| 0 <= k < cand@.len() ==> (#[trigger] cand@[k]) < windows@.len(),
    ensures
        r@ == filter_idx(windows@, cand@, |w: WindowInfo| eq_ignore_ascii_case(w.id_hex@, id@)),
{
    let ghost pred = |w: WindowInfo| eq_ignore_ascii_case(w.id_hex@, id@);
    let idc = chars_of(id.as_str());
    let mut r: Vec<usize> = Vec::new();
    let mut i: usize = 0;
    while i < cand.len()
        invariant
            i <= cand@.len(),
            idc@ == id@,
            forall|k: int| 0 <= k < cand@.len() ==> (#[trigger] cand@[k]) < windows@.len(),
            pred == (|w: WindowInfo| eq_ignore_ascii_case(w.id_hex@, id@)),
            r@ == filter_idx(windows@, cand@.take(i as int), pred),
        decreases cand.len() - i,
    {
        proof {
            assert(cand@.take(i + 1).drop_last() =~= cand@.take(i as int));
            assert(cand@.take(i + 1).last() == cand@[i as int]);
        }
        let w = &windows[cand[i]];
        let hx = chars_of(w.id_hex.as_str());
        if chars_eq_ignore_ascii_case(hx.as_slice(), idc.as_slice()) {
            r.push(cand[i]);
        }
        i = i + 1;
    }
    proof {
        assert(cand@.take(i as int) =~= cand@);
    }
    r
}

/// The indices in `cand` whose windows are on desktop `d`.
fn collect_same_desktop(windows: &[WindowInfo], cand: &Vec<usize>, d: i32) -> (r: Vec<usize>)
    requires
        forall|k: int| 0 <= k < cand@.len() ==> (#[trigger] cand@[k]) < windows@.len(),
    ensures
        r@ == filter_idx(windows@, cand@, |w: WindowInfo| w.desktop == d),
{
    let ghost pred = |w: WindowInfo| w.desktop == d;
    let mut r: Vec<usize> = Vec::new();
    let mut i: usize = 0;
    while i < cand.len()
        invariant
            i <= cand@.len(),
            forall|k: int| 0 <= k < cand@.len() ==> (#[trigger] cand@[k]) < windows@.len(),
            pred == (|w: WindowInfo| w.desktop == d),
            r@ == filter_idx(windows@, cand@.take(i as int), pred),
        decreases cand.len() - i,
    {
        proof {
            assert(cand@.take(i + 1).drop_last() =~= cand@.take(i as int));
            assert(cand@.take(i + 1).last() == cand@[i as int]);
        }
        if windows[cand[i]].desktop == d {
            r.push(cand[i]);
        }
        i = i + 1;
    }
    proof {
        assert(cand@.take(i as int) =~= cand@);
    }
    r
}

/// Copies of the windows at `idx`.
pub(crate) fn clone_windows_at(windows: &[WindowInfo], idx: &Vec<usize>) -> (r: Vec<WindowInfo>)
    requires
        forall|k: int| 0 <= k < idx@.len() ==> (#[trigger] idx@[k]) < windows@.len(),
    ensures
        r@ == windows_at(windows@, idx@),
{
    let mut r: Vec<WindowInfo> = Vec::new();
    let mut i: usize = 0;
    while i < idx.len()
        invariant
            i <= idx@.len(),
            forall|k: int| 0 <= k < idx@.len() ==> (#[trigger] idx@[k]) < windows@.len(),
            r@ == windows_at(windows@, idx@.take(i as int)),
        decreases idx.len() - i,
    {
        r.push(windows[idx[i]].clone());
        proof {
            assert(windows_at(windows@, idx@.take(i + 1)) =~= windows_at(
                windows@,
                idx@.take(i as int),
            ).push(windows@[idx@[i as int] as int]));
        }
        i = i + 1;
    }
    proof {
        assert(idx@.take(i as int) =~= idx@);
    }
    r
}

/// Finds the window of a slot: see `resolve_outcome`. On success the window
/// is the chosen one; each error says why, an ambiguity with the matching
/// windows in order.
pub fn resolve_slot<'a>(rule: &SlotRule, state: Option<&SlotState>, windows: &'a [WindowInfo]) -> (r:
    Result<&'a WindowInfo, ResolveError>)
    ensures
        match resolve_outcome(*rule, opt_state(state), windows@) {
            Outcome::Chosen(i) => i < windows@.len() && (r matches Ok(w) && *w == windows@[i as int]),
            Outcome::Unusable => r matches Err(ResolveError::Unusable),
            Outcome::NotFound => r matches Err(ResolveError::NotFound { wm_class, title_contains })
                && wm_class@ == rule.wm_class@ && title_contains@ == rule.title_contains@,
            Outcome::Ambiguous => r matches Err(ResolveError::Ambiguous { candidates })
                && candidates@ == windows_at(windows@, candidates_of(*rule, windows@)),
        },
        r matches Err(e) ==> resolve_error_text(e) == resolve_failure_text(
            *rule,
            opt_state(state),
            windows@,
        ),
{
    if !rule.is_usable() {
        return Err(ResolveError::Unusable);
    }
    let cand = collect_matching(rule, windows);
    if cand.len() == 0 {
        return Err(
            ResolveError::NotFound {
                wm_class: rule.wm_class.clone(),
                title_contains: rule.title_contains.clone(),
            },
        );
    }
    if cand.len() == 1 {
        return Ok(&windows[cand[0]]);
    }
    let ghost st = opt_state(state);
    if let Some(s) = state {
        if let Some(id) = &s.last_window_id {
            let same_id = collect_same_id(windows, &cand, id);
            proof {
                lemma_filter_idx_from(
                    windows@,
                    cand@,
                    |w: WindowInfo| eq_ignore_ascii_case(w.id_hex@, id@),
                );
                if same_id@.len() == 1 {
                    assert(same_id@[0] == same_id@[0]);
                    assert(cand@.contains(same_id@[0]));
                }
            }
            if same_id.len() == 1 {
                return Ok(&windows[same_id[0]]);
            }
        }
    }
    if let Some(s) = state {
        if let Some(d) = s.desktop_hint {
            let same_desk = collect_same_desktop(windows, &cand, d);
            proof {
                lemma_filter_idx_from(windows@, cand@, |w: WindowInfo| w.desktop == d);
                if same_desk@.len() == 1 {
                    assert(same_desk@[0] == same_desk@[0]);
                    assert(cand@.contains(same_desk@[0]));
                }
            }
            if same_desk.len() == 1 {
                return Ok(&windows[same_desk[0]]);
            }
        }
    }
    let listed = clone_windows_at(windows, &cand);
    Err(ResolveError::Ambiguous { candidates: listed })
}

/// The window that the search chooses is always one that the rule matches:
/// the hints only pick among matching windows, never add one.
pub proof fn lemma_chosen_window_matches(rule: SlotRule, st: Option<SlotState>, ws: Seq<WindowInfo>)
    ensures
        resolve_outcome(rule, st, ws) matches Outcome::Chosen(i) ==> i < ws.len()
            && rule_matches_spec(rule, ws[i as int]),
{
    let pred = |w: WindowInfo| rule_matches_spec(rule, w);
    let c = candidates_of(rule, ws);
    lemma_filter_idx_from(ws, all_indices(ws.len()), pred);
    assert forall|k: int| 0 <= k < c.len() implies (#[trigger] c[k]) < ws.len() && rule_matches_spec(
        rule,
        ws[c[k] as int],
    ) by {
        let j = choose|j: int| 0 <= j < all_indices(ws.len()).len() && all_indices(ws.len())[j] == c[k];
        assert(pred(ws[c[k] as int]));
    }
    if c.len() > 1 {
        match st {
            Some(s) => {
                match s.last_window_id {
                    Some(id) => {
                        let p = |w: WindowInfo| eq_ignore_ascii_case(w.id_hex@, id@);
                        lemma_filter_idx_from(ws, c, p);
                        let f = same_id_of(ws, c, st);
                        if f.len() == 1 {
                            assert(c.contains(f[0]));
                        }
                    },
                    None => {},
                }
                match s.desktop_hint {
                    Some(d) => {
                        let p = |w: WindowInfo| w.desktop == d;
                        lemma_filter_idx_from(ws, c, p);
                        let f = same_desktop_of(ws, c, st);
                        if f.len() == 1 {
                            assert(c.contains(f[0]));
                        }
                    },
                    None => {},
                }
            },
            None => {},
        }
    }
}

/// Filtering keeps the order: from increasing indices come increasing ones.
proof fn lemma_filter_idx_increasing(
    ws: Seq<WindowInfo>,
    idx: Seq<usize>,
    pred: spec_fn(WindowInfo) -> bool,
)
    requires
        forall|a: int, b: int| 0 <= a < b < idx.len() ==> idx[a] < idx[b],
    ensures
        forall|a: int, b: int|
            0 <= a < b < filter_idx(ws, idx, pred).len() ==> filter_idx(ws, idx, pred)[a]
                < filter_idx(ws, idx, pred)[b],
    decreases idx.len(),
{
    if idx.len() > 0 {
        let init = idx.drop_last();
        lemma_filter_idx_increasing(ws, init, pred);
        lemma_filter_idx_from(ws, init, pred);
        let p = filter_idx(ws, init, pred);
        assert forall|a: int| 0 <= a < p.len() implies p[a] < idx.last() by {
            let j = choose|j: int| 0 <= j < init.len() && init[j] == p[a];
            assert(idx[j] == init[j]);
        }
    }
}

/// An index whose window satisfies the predicate is kept.
proof fn lemma_filter_idx_keeps(
    ws: Seq<WindowInfo>,
    idx: Seq<usize>,
    pred: spec_fn(WindowInfo) -> bool,
    q: int,
)
    requires
        0 <= q < idx.len(),
        pred(ws[idx[q] as int]),
    ensures
        filter_idx(ws, idx, pred).contains(idx[q]),
    decreases idx.len(),
{
    let f = filter_idx(ws, idx, pred);
    if q == idx.len() - 1 {
        assert(f[f.len() - 1] == idx[q]);
    } else {
        let init = idx.drop_last();
        assert(init[q] == idx[q]);
        lemma_filter_idx_keeps(ws, init, pred, q);
        let p = filter_idx(ws, init, pred);
        let j = choose|j: int| 0 <= j < p.len() && p[j] == idx[q];
        assert(f[j] == p[j]);
    }
}

/// When no index satisfies the predicate, nothing is kept.
proof fn lemma_filter_idx_none(ws: Seq<WindowInfo>, idx: Seq<usize>, pred: spec_fn(WindowInfo) -> bool)
    requires
        forall|q: int| 0 <= q < idx.len() ==> !pred(#[trigger] ws[idx[q] as int]),
    ensures
        filter_idx(ws, idx, pred).len() == 0,
    decreases idx.len(),
{
    if idx.len() > 0 {
        let init = idx.drop_last();
        assert forall|q: int| 0 <= q < init.len() implies !pred(#[trigger] ws[init[q] as int]) by {
            assert(init[q] == idx[q]);
        }
        lemma_filter_idx_none(ws, init, pred);
        assert(!pred(ws[idx[idx.len() - 1] as int]));
    }
}

/// When exactly one position satisfies the predicate, only its index is kept.
proof fn lemma_filter_idx_single(
    ws: Seq<WindowInfo>,
    idx: Seq<usize>,
    pred: spec_fn(WindowInfo) -> bool,
    pos: int,
)
    requires
        0 <= pos < idx.len(),
        pred(ws[idx[pos] as int]),
        forall|q: int| 0 <= q < idx.len() && q != pos ==> !pred(#[trigger] ws[idx[q] as int]),
    ensures
        filter_idx(ws, idx, pred) == seq![idx[pos]],
    decreases idx.len(),
{
    let init = idx.drop_last();
    if pos == idx.len() - 1 {
        assert forall|q: int| 0 <= q < init.len() implies !pred(#[trigger] ws[init[q] as int]) by {
            assert(init[q] == idx[q]);
        }
        lemma_filter_idx_none(ws, init, pred);
        assert(filter_idx(ws, init, pred) =~= seq![]);
        assert(filter_idx(ws, idx, pred) =~= seq![idx[pos]]);
    } else {
        assert(init[pos] == idx[pos]);
        assert forall|q: int| 0 <= q < init.len() && q != pos implies !pred(
            #[trigger] ws[init[q] as int],
        ) by {
            assert(init[q] == idx[q]);
        }
        lemma_filter_idx_single(ws, init, pred, pos);
        assert(!pred(ws[idx[idx.len() - 1] as int]));
    }
}

/// The hints that activating or capturing a window records single it out
/// the next time: as long as the rule still matches it and no other listed
/// window has the same id (ignoring case), the window last used is found
/// again, even when several windows match the rule.
pub proof fn lemma_recorded_window_found_again(rule: SlotRule, ws: Seq<WindowInfo>, k: int)
    requires
        ws.len() <= usize::MAX,
        0 <= k < ws.len(),
        rule_matches_spec(rule, ws[k]),
        forall|j: int|
            0 <= j < ws.len() && j != k ==> !eq_ignore_ascii_case(
                #[trigger] ws[j].id_hex@,
                ws[k].id_hex@,
            ),
    ensures
        resolve_outcome(rule, Some(crate::model::state_for_window(ws[k])), ws) == Outcome::Chosen(
            k as usize,
        ),
{
    let n = ws.len();
    let all = all_indices(n);
    let pred = |w: WindowInfo| rule_matches_spec(rule, w);
    let c = candidates_of(rule, ws);
    assert forall|a: int, b: int| 0 <= a < b < all.len() implies all[a] < all[b] by {}
    lemma_filter_idx_increasing(ws, all, pred);
    lemma_filter_idx_from(ws, all, pred);
    assert(all[k] == k as usize);
    lemma_filter_idx_keeps(ws, all, pred, k);
    let pos = choose|pos: int| 0 <= pos < c.len() && c[pos] == k as usize;
    assert forall|q: int| 0 <= q < c.len() implies (#[trigger] c[q]) < n by {
        let j = choose|j: int| 0 <= j < all.len() && all[j] == c[q];
    }
    if c.len() == 1 {
        assert(pos == 0);
    } else {
        let id = ws[k].id_hex;
        let p = |w: WindowInfo| eq_ignore_ascii_case(w.id_hex@, id@);
        assert(p(ws[c[pos] as int]));
        assert forall|q: int| 0 <= q < c.len() && q != pos implies !p(#[trigger] ws[c[q] as int]) by {
            if q < pos {
                assert(c[q] < c[pos]);
            } else {
                assert(c[pos] < c[q]);
            }
        }
        lemma_filter_idx_single(ws, c, p, pos);
        let st = Some(crate::model::state_for_window(ws[k]));
        assert(same_id_of(ws, c, st) == seq![k as usize]);
    }
}

/// The text of a resolve error, as the command line prints it.
pub open spec fn resolve_error_text(e: ResolveError) -> Seq<char> {
    match e {
        ResolveError::Unusable => "WM_CLASS が未設定です"@,
        ResolveError::NotFound { wm_class, title_contains } => "一致候補が見つかりません。class="@
            + dash_if_blank(wm_class@) + " title_contains="@ + dash_if_blank(title_contains@),
        ResolveError::Ambiguous { candidates } => "複数候補が存在します。title_contains をもう少し具体化してください:\n"@
            + candidate_lines(candidates@),
    }
}

/// `- {id} D{desktop} [{class}] {title}` and a line break, for each window.
pub open spec fn candidate_lines(ws: Seq<WindowInfo>) -> Seq<char>
    decreases ws.len(),
{
    if ws.len() == 0 {
        seq![]
    } else {
        candidate_lines(ws.drop_last()) + candidate_line(ws.last())
    }
}

/// One line of the ambiguity report.
pub open spec fn candidate_line(w: WindowInfo) -> Seq<char> {
    "- "@ + w.id_hex@ + " D"@ + decimal_of(w.desktop as int) + " ["@ + w.wm_class@ + "] "@
        + w.title@ + "\n"@
}

impl ResolveError {
    /// The message of the error.
    pub fn to_string(&self) -> (r: String)
        ensures
            r@ == resolve_error_text(*self),
    {
        match self {
            ResolveError::Unusable => crate::text::string_from("WM_CLASS が未設定です"),
            ResolveError::NotFound { wm_class, title_contains } => {
                let mut out: Vec<char> = Vec::new();
                append_str(&mut out, "一致候補が見つかりません。class=");
                let a = empty_dash(wm_class.as_str());
                append_str(&mut out, a.as_str());
                append_str(&mut out, " title_contains=");
                let b = empty_dash(title_contains.as_str());
                append_str(&mut out, b.as_str());
                string_of(out.as_slice())
            },
            ResolveError::Ambiguous { candidates } => {
                let mut out: Vec<char> = Vec::new();
                append_str(&mut out, "複数候補が存在します。title_contains をもう少し具体化してください:\n");
                let ghost head = out@;
                let mut i: usize = 0;
                while i < candidates.len()
                    invariant
                        i <= candidates@.len(),
                        out@ == head + candidate_lines(candidates@.take(i as int)),
                    decreases candidates.len() - i,
                {
                    let w = &candidates[i];
                    let ghost before = out@;
                    append_str(&mut out, "- ");
                    append_str(&mut out, w.id_hex.as_str());
                    append_str(&mut out, " D");
                    push_decimal_i64(&mut out, w.desktop as i64);
                    append_str(&mut out, " [");
                    append_str(&mut out, w.wm_class.as_str());
                    append_str(&mut out, "] ");
                    append_str(&mut out, w.title.as_str());
                    append_str(&mut out, "\n");
                    proof {
                        assert(candidates@.take(i + 1).drop_last() =~= candidates@.take(i as int));
                        assert(candidates@.take(i + 1).last() == candidates@[i as int]);
                        assert(out@ =~= before + candidate_line(candidates@[i as int]));
                    }
                    i = i + 1;
                }
                proof {
                    assert(candidates@.take(i as int) =~= candidates@);
                }
                string_of(out.as_slice())
            },
        }
    }

    /// Whether the error reports several matching windows.
    pub fn is_ambiguous(&self) -> (b: bool)
        ensures
            b == (*self is Ambiguous),
    {
        match self {
            ResolveError::Ambiguous { .. } => true,
            _ => false,
        }
    }
}

/// The length from which a title piece is considered too long.
pub open spec fn title_piece_too_long(s: Seq<char>) -> bool {
    s.len() >= 70
}

/// A warning for a title piece of 70 or more characters, which is likely a
/// whole, changing title rather than a short stable word.
pub fn title_contains_warning(title_contains: &str) -> (r: Option<String>)
    ensures
        r is Some <==> title_piece_too_long(title_contains@),
        r matches Some(m) ==> m@ == "title_contains が長めです。変化しやすいフルタイトルではなく、短く安定した語を推奨します。"@,
{
    let v = chars_of(title_contains);
    if v.len() >= 70 {
        Some(
            crate::text::string_from(
                "title_contains が長めです。変化しやすいフルタイトルではなく、短く安定した語を推奨します。",
            ),
        )
    } else {
        None
    }
}

} // verus!
