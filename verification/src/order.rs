//! The order in which windows are listed: by desktop, then by class and by
//! title (both in lower case, compared character by character), then by id.
use vstd::prelude::*;
use vstd::multiset::Multiset;

use crate::model::WindowInfo;
use crate::text::{chars_of, lowercase_chars, lowercase_of};
use crate::wmctrl::{parse_listing, parse_window_lines, view_of, views_of, WindowView};

verus! {

/// Three-way comparison of integers: -1, 0 or 1.
pub open spec fn int_order(a: int, b: int) -> int {
    if a < b {
        -1
    } else if a > b {
        1
    } else {
        0
    }
}

/// Three-way lexicographic comparison of texts by character code, which is
/// also the order of their UTF-8 bytes.
pub open spec fn lex_order(a: Seq<char>, b: Seq<char>) -> int
    decreases a.len(),
{
    if a.len() == 0 && b.len() == 0 {
        0
    } else if a.len() == 0 {
        -1
    } else if b.len() == 0 {
        1
    } else if a[0] < b[0] {
        -1
    } else if a[0] > b[0] {
        1
    } else {
        lex_order(a.drop_first(), b.drop_first())
    }
}

/// Three-way comparison of windows by the listing key.
pub open spec fn window_order(a: WindowView, b: WindowView) -> int {
    let c1 = int_order(a.desktop as int, b.desktop as int);
    if c1 != 0 {
        c1
    } else {
        let c2 = lex_order(lowercase_of(a.wm_class), lowercase_of(b.wm_class));
        if c2 != 0 {
            c2
        } else {
            let c3 = lex_order(lowercase_of(a.title), lowercase_of(b.title));
            if c3 != 0 {
                c3
            } else {
                int_order(a.id as int, b.id as int)
            }
        }
    }
}

/// The listing order goes by desktop first, then by class and title
/// (compared in lower case), then by id: a window on a lower desktop comes
/// first, and on the same desktop a smaller class, then a smaller title, then
/// a smaller id.
pub proof fn lemma_listing_order_by_key(a: WindowView, b: WindowView)
    ensures
        a.desktop < b.desktop ==> window_order(a, b) < 0,
        a.desktop == b.desktop && lex_order(lowercase_of(a.wm_class), lowercase_of(b.wm_class)) < 0
            ==> window_order(a, b) < 0,
        a.desktop == b.desktop && lowercase_of(a.wm_class) == lowercase_of(b.wm_class) && lex_order(
            lowercase_of(a.title),
            lowercase_of(b.title),
        ) < 0 ==> window_order(a, b) < 0,
        a.desktop == b.desktop && lowercase_of(a.wm_class) == lowercase_of(b.wm_class)
            && lowercase_of(a.title) == lowercase_of(b.title) && a.id < b.id ==> window_order(a, b)
            < 0,
{
    lemma_lex_antisym(lowercase_of(a.wm_class), lowercase_of(a.wm_class));
    lemma_lex_antisym(lowercase_of(a.title), lowercase_of(a.title));
}

/// In a listing in listing order the desktops never go down.
pub proof fn lemma_sorted_listing_by_desktop(vs: Seq<WindowView>)
    requires
        sorted_windows(vs),
    ensures
        forall|i: int, j: int| 0 <= i < j < vs.len() ==> vs[i].desktop <= vs[j].desktop,
{
    assert forall|i: int, j: int| 0 <= i < j < vs.len() implies vs[i].desktop <= vs[j].desktop by {
        if vs[i].desktop > vs[j].desktop {
            lemma_listing_order_by_key(vs[j], vs[i]);
            lemma_window_order_antisym(vs[i], vs[j]);
        }
    }
}

/// Whether the windows are in listing order.
pub open spec fn sorted_windows(ws: Seq<WindowView>) -> bool {
    forall|i: int, j: int| 0 <= i < j < ws.len() ==> window_order(ws[i], ws[j]) <= 0
}

/// Lexicographic comparison is antisymmetric and only equal texts compare equal.
pub proof fn lemma_lex_antisym(a: Seq<char>, b: Seq<char>)
    ensures
        lex_order(a, b) == -lex_order(b, a),
        -1 <= lex_order(a, b) <= 1,
        lex_order(a, b) == 0 ==> a == b,
    decreases a.len(),
{
    if a.len() > 0 && b.len() > 0 && a[0] == b[0] {
        lemma_lex_antisym(a.drop_first(), b.drop_first());
        if lex_order(a, b) == 0 {
            assert(a[0] == b[0]);
            assert(a =~= seq![a[0]] + a.drop_first());
            assert(b =~= seq![b[0]] + b.drop_first());
        }
    }
    if a.len() == 0 && b.len() == 0 {
        assert(a =~= b);
    }
}

/// Lexicographic comparison is transitive.
pub proof fn lemma_lex_trans(a: Seq<char>, b: Seq<char>, c: Seq<char>)
    requires
        lex_order(a, b) <= 0,
        lex_order(b, c) <= 0,
    ensures
        lex_order(a, c) <= 0,
        lex_order(a, b) < 0 || lex_order(b, c) < 0 ==> lex_order(a, c) < 0,
    decreases a.len(),
{
    if a.len() > 0 && b.len() > 0 && c.len() > 0 {
        if a[0] == b[0] && b[0] == c[0] {
            lemma_lex_trans(a.drop_first(), b.drop_first(), c.drop_first());
        }
    }
}

/// The listing order is antisymmetric.
pub proof fn lemma_window_order_antisym(a: WindowView, b: WindowView)
    ensures
        window_order(a, b) == -window_order(b, a),
{
    lemma_lex_antisym(lowercase_of(a.wm_class), lowercase_of(b.wm_class));
    lemma_lex_antisym(lowercase_of(a.title), lowercase_of(b.title));
}

/// The listing order is transitive.
pub proof fn lemma_window_order_trans(a: WindowView, b: WindowView, c: WindowView)
    requires
        window_order(a, b) <= 0,
        window_order(b, c) <= 0,
    ensures
        window_order(a, c) <= 0,
        window_order(a, b) < 0 ==> window_order(a, c) < 0,
{
    let (ca, cb, cc) = (lowercase_of(a.wm_class), lowercase_of(b.wm_class), lowercase_of(c.wm_class));
    let (ta, tb, tc) = (lowercase_of(a.title), lowercase_of(b.title), lowercase_of(c.title));
    lemma_lex_antisym(ca, cb);
    lemma_lex_antisym(cb, cc);
    lemma_lex_antisym(ca, cc);
    lemma_lex_antisym(ta, tb);
    lemma_lex_antisym(tb, tc);
    lemma_lex_antisym(ta, tc);
    if a.desktop == b.desktop && b.desktop == c.desktop {
        if lex_order(ca, cb) <= 0 && lex_order(cb, cc) <= 0 {
            lemma_lex_trans(ca, cb, cc);
        }
        if lex_order(ta, tb) <= 0 && lex_order(tb, tc) <= 0 {
            lemma_lex_trans(ta, tb, tc);
        }
    }
}

/// Compares two character slices by `lex_order`.
pub fn compare_chars(a: &[char], b: &[char]) -> (r: i8)
    ensures
        r as int == lex_order(a@, b@),
{
    let mut i: usize = 0;
    assert(a@.skip(0) =~= a@);
    assert(b@.skip(0) =~= b@);
    while i < a.len() && i < b.len() && a[i] == b[i]
        invariant
            i <= a@.len(),
            i <= b@.len(),
            lex_order(a@, b@) == lex_order(a@.skip(i as int), b@.skip(i as int)),
        decreases a.len() - i,
    {
        proof {
            assert(a@.skip(i as int).drop_first() =~= a@.skip(i + 1));
            assert(b@.skip(i as int).drop_first() =~= b@.skip(i + 1));
            assert(a@.skip(i as int)[0] == a@[i as int]);
            assert(b@.skip(i as int)[0] == b@[i as int]);
        }
        i = i + 1;
    }
    proof {
        if i < a.len() {
            assert(a@.skip(i as int)[0] == a@[i as int]);
        }
        if i < b.len() {
            assert(b@.skip(i as int)[0] == b@[i as int]);
        }
    }
    if i == a.len() && i == b.len() {
        0
    } else if i == a.len() {
        -1
    } else if i == b.len() {
        1
    } else if a[i] < b[i] {
        -1
    } else {
        1
    }
}

/// A window with its sort keys.
struct KeyedWindow {
    window: WindowInfo,
    class_key: Vec<char>,
    title_key: Vec<char>,
}

impl KeyedWindow {
    spec fn keys_ok(self) -> bool {
        &&& self.class_key@ == lowercase_of(self.window.wm_class@)
        &&& self.title_key@ == lowercase_of(self.window.title@)
    }
}

spec fn keyed_views(ks: Seq<KeyedWindow>) -> Seq<WindowView> {
    ks.map_values(|k: KeyedWindow| view_of(k.window))
}

/// Compares two keyed windows by `window_order`.
fn compare_keyed(a: &KeyedWindow, b: &KeyedWindow) -> (r: i8)
    requires
        a.keys_ok(),
        b.keys_ok(),
    ensures
        r as int == window_order(view_of(a.window), view_of(b.window)),
{
    if a.window.desktop < b.window.desktop {
        return -1;
    }
    if a.window.desktop > b.window.desktop {
        return 1;
    }
    let c2 = compare_chars(a.class_key.as_slice(), b.class_key.as_slice());
    if c2 != 0 {
        return c2;
    }
    let c3 = compare_chars(a.title_key.as_slice(), b.title_key.as_slice());
    if c3 != 0 {
        return c3;
    }
    if a.window.id < b.window.id {
        -1
    } else if a.window.id > b.window.id {
        1
    } else {
        0
    }
}

/// The windows of `s` whose listing key equals that of `v`, in their order
/// in `s`.
pub open spec fn same_key_windows(s: Seq<WindowView>, v: WindowView) -> Seq<WindowView>
    decreases s.len(),
{
    if s.len() == 0 {
        seq![]
    } else {
        let r = same_key_windows(s.drop_last(), v);
        if window_order(s.last(), v) == 0 {
            r.push(s.last())
        } else {
            r
        }
    }
}

proof fn lemma_same_key_concat(a: Seq<WindowView>, b: Seq<WindowView>, v: WindowView)
    ensures
        same_key_windows(a + b, v) == same_key_windows(a, v) + same_key_windows(b, v),
    decreases b.len(),
{
    if b.len() == 0 {
        assert(a + b =~= a);
        assert(same_key_windows(a, v) + same_key_windows(b, v) =~= same_key_windows(a, v));
    } else {
        lemma_same_key_concat(a, b.drop_last(), v);
        assert((a + b).drop_last() =~= a + b.drop_last());
        assert((a + b).last() == b.last());
        if window_order(b.last(), v) == 0 {
            assert(same_key_windows(a, v) + same_key_windows(b.drop_last(), v).push(b.last())
                =~= (same_key_windows(a, v) + same_key_windows(b.drop_last(), v)).push(b.last()));
        }
    }
}

proof fn lemma_same_key_none(s: Seq<WindowView>, v: WindowView)
    requires
        forall|k: int| 0 <= k < s.len() ==> window_order(#[trigger] s[k], v) != 0,
    ensures
        same_key_windows(s, v) == Seq::<WindowView>::empty(),
    decreases s.len(),
{
    if s.len() > 0 {
        assert forall|k: int| 0 <= k < s.drop_last().len() implies window_order(
            #[trigger] s.drop_last()[k],
            v,
        ) != 0 by {
            assert(s.drop_last()[k] == s[k]);
        }
        lemma_same_key_none(s.drop_last(), v);
        assert(window_order(s[s.len() - 1], v) != 0);
    }
}

/// Windows with the key of the same window have the same key as each other.
proof fn lemma_same_key_shared(a: WindowView, b: WindowView, c: WindowView)
    requires
        window_order(a, b) == 0,
        window_order(c, b) == 0,
    ensures
        window_order(a, c) == 0,
{
    lemma_window_order_antisym(a, b);
    lemma_window_order_antisym(c, b);
    lemma_window_order_trans(a, b, c);
    lemma_window_order_trans(c, b, a);
    lemma_window_order_antisym(a, c);
}

/// Inserting `x` in front of every window that comes after it keeps the
/// order of the windows with each key and puts `x` last among its own.
proof fn lemma_same_key_insert(s: Seq<WindowView>, p: int, x: WindowView, v: WindowView)
    requires
        0 <= p <= s.len(),
        forall|k: int| p <= k < s.len() ==> window_order(x, #[trigger] s[k]) < 0,
    ensures
        same_key_windows(s.insert(p, x), v) == if window_order(x, v) == 0 {
            same_key_windows(s, v).push(x)
        } else {
            same_key_windows(s, v)
        },
{
    let head = s.take(p);
    let tail = s.skip(p);
    assert(s =~= head + tail);
    assert(s.insert(p, x) =~= (head + seq![x]) + tail);
    lemma_same_key_concat(head, tail, v);
    lemma_same_key_concat(head + seq![x], tail, v);
    lemma_same_key_concat(head, seq![x], v);
    assert(seq![x].drop_last() =~= Seq::<WindowView>::empty());
    assert(seq![x].last() == x);
    assert(same_key_windows(Seq::<WindowView>::empty(), v) == Seq::<WindowView>::empty());
    assert(same_key_windows(seq![x], v) == if window_order(x, v) == 0 {
        Seq::<WindowView>::empty().push(x)
    } else {
        Seq::<WindowView>::empty()
    });
    assert(Seq::<WindowView>::empty().push(x) =~= seq![x]);
    if window_order(x, v) == 0 {
        assert(same_key_windows(head, v) + seq![x] =~= same_key_windows(head, v).push(x));
        assert forall|k: int| 0 <= k < tail.len() implies window_order(#[trigger] tail[k], v)
            != 0 by {
            assert(tail[k] == s[p + k]);
            if window_order(tail[k], v) == 0 {
                lemma_same_key_shared(x, v, tail[k]);
            }
        }
        lemma_same_key_none(tail, v);
        assert(same_key_windows(head, v) + same_key_windows(tail, v) =~= same_key_windows(head, v));
        assert(same_key_windows(head + seq![x], v) + same_key_windows(tail, v) =~= same_key_windows(
            head,
            v,
        ).push(x));
    } else {
        assert(same_key_windows(seq![x], v) =~= Seq::<WindowView>::empty());
        assert(same_key_windows(head, v) + Seq::<WindowView>::empty() =~= same_key_windows(
            head,
            v,
        ));
    }
}

proof fn lemma_insert_multiset<A>(s: Seq<A>, p: int, x: A)
    requires
        0 <= p <= s.len(),
    ensures
        s.insert(p, x).to_multiset() =~= s.to_multiset().insert(x),
{
    broadcast use vstd::seq_lib::group_to_multiset_ensures;

    let t = s.insert(p, x);
    assert(t.remove(p) =~= s);
    assert(t[p] == x);
    assert(t.contains(x));
    let mt = t.to_multiset();
    assert(mt.remove(x) =~= s.to_multiset());
    assert(mt.count(x) > 0);
    assert forall|y: A| mt.count(y) == s.to_multiset().insert(x).count(y) by {
        if y == x {
            assert(mt.remove(x).count(x) == mt.count(x) - 1);
        } else {
            assert(mt.remove(x).count(y) == mt.count(y));
        }
    }
}

/// Sorts windows into listing order, keeping the listing's order among
/// windows whose keys are equal (a stable insertion sort).
pub fn sort_windows(windows: Vec<WindowInfo>) -> (r: Vec<WindowInfo>)
    ensures
        sorted_windows(views_of(r@)),
        views_of(r@).to_multiset() == views_of(windows@).to_multiset(),
        forall|v: WindowView|
            #[trigger] same_key_windows(views_of(r@), v) == same_key_windows(views_of(windows@), v),
{
    broadcast use vstd::seq_lib::group_to_multiset_ensures;

    let mut out: Vec<KeyedWindow> = Vec::new();
    let mut i: usize = 0;
    while i < windows.len()
        invariant
            i <= windows@.len(),
            forall|k: int| 0 <= k < out@.len() ==> (#[trigger] out@[k]).keys_ok(),
            sorted_windows(keyed_views(out@)),
            keyed_views(out@).to_multiset() == views_of(windows@.take(i as int)).to_multiset(),
            forall|v: WindowView|
                #[trigger] same_key_windows(keyed_views(out@), v) == same_key_windows(
                    views_of(windows@.take(i as int)),
                    v,
                ),
        decreases windows.len() - i,
    {
        let w = windows[i].clone();
        let c = chars_of(w.wm_class.as_str());
        let ck = lowercase_chars(c.as_slice());
        let t = chars_of(w.title.as_str());
        let tk = lowercase_chars(t.as_slice());
        let item = KeyedWindow { window: w, class_key: ck, title_key: tk };
        let ghost x = view_of(item.window);
        let mut p: usize = 0;
        while p < out.len() && compare_keyed(&item, &out[p]) >= 0
            invariant
                p <= out@.len(),
                item.keys_ok(),
                x == view_of(item.window),
                forall|k: int| 0 <= k < out@.len() ==> (#[trigger] out@[k]).keys_ok(),
                forall|k: int| 0 <= k < p ==> window_order(x, #[trigger] keyed_views(out@)[k]) >= 0,
            decreases out.len() - p,
        {
            p = p + 1;
        }
        let ghost old_views = keyed_views(out@);
        let ghost old_items = out@;
        proof {
            if p < out@.len() {
                assert(window_order(x, old_views[p as int]) < 0);
            }
        }
        out.insert(p, item);
        proof {
            let nv = keyed_views(out@);
            assert(nv =~= old_views.insert(p as int, x));
            assert forall|a: int, b: int| 0 <= a < b < nv.len() implies window_order(
                nv[a],
                nv[b],
            ) <= 0 by {
                if b < p {
                    assert(nv[a] == old_views[a] && nv[b] == old_views[b]);
                } else if b == p {
                    assert(nv[a] == old_views[a]);
                    lemma_window_order_antisym(x, old_views[a]);
                } else if a == p {
                    assert(nv[b] == old_views[b - 1]);
                    assert(window_order(x, old_views[p as int]) < 0);
                    if b - 1 > p {
                        lemma_window_order_trans(x, old_views[p as int], old_views[b - 1]);
                    }
                } else if a < p {
                    assert(nv[a] == old_views[a] && nv[b] == old_views[b - 1]);
                } else {
                    assert(nv[a] == old_views[a - 1] && nv[b] == old_views[b - 1]);
                }
            }
            assert forall|k: int| p <= k < old_views.len() implies window_order(
                x,
                #[trigger] old_views[k],
            ) < 0 by {
                if k > p {
                    lemma_window_order_trans(x, old_views[p as int], old_views[k]);
                }
            }
            assert forall|v: WindowView|
                #[trigger] same_key_windows(nv, v) == same_key_windows(
                    views_of(windows@.take(i + 1)),
                    v,
                ) by {
                lemma_same_key_insert(old_views, p as int, x, v);
                assert(views_of(windows@.take(i + 1)).drop_last() =~= views_of(
                    windows@.take(i as int),
                ));
                assert(views_of(windows@.take(i + 1)).last() == x);
            }
            lemma_insert_multiset(old_views, p as int, x);
            assert(x == view_of(windows@[i as int]));
            assert(nv.to_multiset() == old_views.to_multiset().insert(x));
            assert(windows@.take(i + 1) =~= windows@.take(i as int).push(windows@[i as int]));
            assert(views_of(windows@.take(i + 1)) =~= views_of(windows@.take(i as int)).push(
                view_of(windows@[i as int]),
            ));
            views_of(windows@.take(i as int)).to_multiset_ensures();
            assert(views_of(windows@.take(i as int)).push(view_of(windows@[i as int])).to_multiset()
                =~= views_of(windows@.take(i as int)).to_multiset().insert(
                view_of(windows@[i as int]),
            ));
            assert(keyed_views(out@).to_multiset() =~= views_of(windows@.take(i + 1)).to_multiset());
            assert forall|k: int| 0 <= k < out@.len() implies (#[trigger] out@[k]).keys_ok() by {
                assert(out@ == old_items.insert(p as int, item));
                if k < p {
                    assert(out@[k] == old_items[k]);
                } else if k > p {
                    assert(out@[k] == old_items[k - 1]);
                }
            }
        }
        i = i + 1;
    }
    let mut r: Vec<WindowInfo> = Vec::new();
    let mut j: usize = 0;
    while j < out.len()
        invariant
            j <= out@.len(),
            views_of(r@) == keyed_views(out@).take(j as int),
        decreases out.len() - j,
    {
        let ghost before = r@;
        r.push(out[j].window.clone());
        proof {
            assert(views_of(r@) =~= views_of(before).push(view_of(out@[j as int].window)));
            assert(keyed_views(out@).take(j + 1) =~= keyed_views(out@).take(j as int).push(
                view_of(out@[j as int].window),
            ));
        }
        j = j + 1;
    }
    proof {
        assert(keyed_views(out@).take(j as int) =~= keyed_views(out@));
        assert(windows@.take(windows@.len() as int) =~= windows@);
        assert(views_of(r@) == keyed_views(out@));
    }
    r
}

} // verus!

verus! {

/// Reads a `wmctrl -lpxG` listing and puts the windows in listing order: on
/// success the windows are exactly those of the listing's lines, sorted, with
/// windows of equal keys in the order of their lines; otherwise the message of the first line that cannot be read.
pub fn windows_from_listing(output: &str) -> (r: Result<Vec<WindowInfo>, String>)
    ensures
        match r {
            Ok(ws) => parse_listing(output@) matches Ok(vs) && sorted_windows(views_of(ws@))
                && views_of(ws@).to_multiset() == vs.to_multiset() && forall|v: WindowView|
                #[trigger] same_key_windows(views_of(ws@), v) == same_key_windows(vs, v),
            Err(e) => parse_listing(output@) == Err::<Seq<WindowView>, Seq<char>>(e@),
        },
{
    match parse_window_lines(output) {
        Ok(ws) => Ok(sort_windows(ws)),
        Err(e) => Err(e),
    }
}

} // verus!
