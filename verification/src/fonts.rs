//! Choosing the font of the Japanese user interface among the font files
//! found on the system: a fixed list of well-known fonts is preferred, in
//! order; otherwise the file whose name scores highest wins.
use vstd::prelude::*;

use crate::matching::{chars_eq_ignore_ascii_case, eq_ignore_ascii_case};
use crate::order::{compare_chars, lemma_lex_antisym, lemma_lex_trans, lex_order};
use crate::shell::{file_name, file_name_of, opt_chars};
use crate::store::path_join;
use crate::suggest::sviews;
use crate::text::{
    append_str, ascii_lower, ascii_lower_seq, char_ascii_lower, chars_of, contains_chars,
    contains_seq, slice_chars, string_of,
};

verus! {

/// The outcome of looking for a Japanese UI font.
#[derive(Debug, Clone)]
pub struct FontCheck {
    pub font_path: Option<String>,
}

impl FontCheck {
    /// The status line shown in the GUI.
    pub open spec fn status_text(self) -> Seq<char> {
        match self.font_path {
            Some(p) => "日本語 UI フォント: "@ + p@,
            None => "日本語 UI フォントを自動検出できませんでした。システム既定フォントを使います。"@,
        }
    }

    /// Describes which font the UI uses.
    pub fn status_line(&self) -> (r: String)
        ensures
            r@ == self.status_text(),
    {
        let mut out: Vec<char> = Vec::new();
        match &self.font_path {
            Some(p) => {
                append_str(&mut out, "日本語 UI フォント: ");
                append_str(&mut out, p.as_str());
            },
            None => {
                append_str(
                    &mut out,
                    "日本語 UI フォントを自動検出できませんでした。システム既定フォントを使います。",
                );
            },
        }
        string_of(out.as_slice())
    }
}

// ---------------------------------------------------------------------------
// Paths
// ---------------------------------------------------------------------------

/// The directories searched for fonts, before `~` is expanded.
pub open spec fn font_dir_names() -> Seq<Seq<char>> {
    seq![
        "/usr/share/fonts"@,
        "/usr/local/share/fonts"@,
        "~/.local/share/fonts"@,
        "~/.fonts"@,
    ]
}

/// The directories searched for fonts.
pub fn font_dirs() -> (r: Vec<&'static str>)
    ensures
        r@.map_values(|s: &str| s@) == font_dir_names(),
{
    let mut r: Vec<&'static str> = Vec::new();
    r.push("/usr/share/fonts");
    r.push("/usr/local/share/fonts");
    r.push("~/.local/share/fonts");
    r.push("~/.fonts");
    proof {
        assert(r@.map_values(|s: &str| s@) =~= font_dir_names());
    }
    r
}

/// `PathBuf::join`: an absolute `name` replaces `base`.
pub open spec fn join_any(base: Seq<char>, name: Seq<char>) -> Seq<char> {
    if name.len() > 0 && name[0] == '/' {
        name
    } else {
        path_join(base, name)
    }
}

/// `~` and a leading `~/` stand for the home directory, when it is known.
pub open spec fn expand_home_of(path: Seq<char>, home: Option<Seq<char>>) -> Seq<char> {
    if path == seq!['~'] {
        match home {
            Some(h) => h,
            None => path,
        }
    } else if path.len() >= 2 && path[0] == '~' && path[1] == '/' {
        match home {
            Some(h) => join_any(h, path.skip(2)),
            None => path,
        }
    } else {
        path
    }
}

/// Expands a leading `~` of `path` with `home` (the value of `$HOME`).
pub fn expand_home(path: &str, home: Option<String>) -> (r: String)
    ensures
        r@ == expand_home_of(path@, opt_chars(home)),
{
    let v = chars_of(path);
    let is_tilde = v.len() == 1 && v[0] == '~';
    proof {
        if v@.len() == 1 && v@[0] == '~' {
            assert(v@ =~= seq!['~']);
        }
        if v@ == seq!['~'] {
            assert(v@[0] == '~');
        }
    }
    if is_tilde {
        return match home {
            Some(h) => h,
            None => string_of(v.as_slice()),
        };
    }
    if v.len() >= 2 && v[0] == '~' && v[1] == '/' {
        match home {
            Some(h) => {
                let rest = slice_chars(v.as_slice(), 2, v.len());
                proof {
                    assert(rest@ =~= v@.skip(2));
                }
                let mut out: Vec<char> = Vec::new();
                if rest.len() > 0 && rest[0] == '/' {
                    append_chars_all(&mut out, &rest);
                } else {
                    let hv = chars_of(h.as_str());
                    append_str(&mut out, h.as_str());
                    if hv.len() > 0 && hv[hv.len() - 1] != '/' {
                        out.push('/');
                    }
                    append_chars_all(&mut out, &rest);
                    proof {
                        if hv@.len() == 0 {
                            assert(out@ =~= rest@);
                        } else if hv@.last() != '/' {
                            assert(out@ =~= h@ + seq!['/'] + rest@);
                        } else {
                            assert(out@ =~= h@ + rest@);
                        }
                    }
                }
                proof {
                    if rest@.len() > 0 && rest@[0] == '/' {
                        assert(out@ =~= rest@);
                    }
                }
                string_of(out.as_slice())
            },
            None => string_of(v.as_slice()),
        }
    } else {
        string_of(v.as_slice())
    }
}

fn append_chars_all(out: &mut Vec<char>, v: &Vec<char>)
    ensures
        final(out)@ == old(out)@ + v@,
{
    crate::text::append_chars(out, v.as_slice());
}

// ---------------------------------------------------------------------------
// File names
// ---------------------------------------------------------------------------

/// The index of the last `.` of `f`, or -1.
pub open spec fn last_dot(f: Seq<char>) -> int
    decreases f.len(),
{
    if f.len() == 0 {
        -1
    } else if f.last() == '.' {
        f.len() - 1
    } else {
        last_dot(f.drop_last())
    }
}

/// `Path::extension`: what follows the last `.` of the file name, unless
/// that dot is the name's first character or there is none.
pub open spec fn extension_of(path: Seq<char>) -> Option<Seq<char>> {
    match file_name_of(path) {
        None => None,
        Some(f) => if last_dot(f) <= 0 {
            None
        } else {
            Some(f.skip(last_dot(f) + 1))
        },
    }
}

proof fn lemma_last_dot_bounds(f: Seq<char>)
    ensures
        -1 <= last_dot(f) < f.len(),
        last_dot(f) >= 0 ==> f[last_dot(f)] == '.',
    decreases f.len(),
{
    if f.len() > 0 && f.last() != '.' {
        lemma_last_dot_bounds(f.drop_last());
    }
}

fn last_dot_index(v: &[char]) -> (r: Option<usize>)
    ensures
        match r {
            Some(k) => last_dot(v@) == k as int,
            None => last_dot(v@) == -1,
        },
{
    let mut i: usize = v.len();
    proof {
        assert(v@.take(i as int) =~= v@);
    }
    while i > 0
        invariant
            i <= v@.len(),
            last_dot(v@) == last_dot(v@.take(i as int)),
        decreases i,
    {
        proof {
            assert(v@.take(i as int).drop_last() =~= v@.take(i - 1));
            assert(v@.take(i as int).last() == v@[i - 1]);
        }
        if v[i - 1] == '.' {
            return Some(i - 1);
        }
        i = i - 1;
    }
    None
}

/// The extension of `path` (see `extension_of`).
pub fn extension(path: &str) -> (r: Option<Vec<char>>)
    ensures
        match r {
            Some(e) => extension_of(path@) == Some(e@),
            None => extension_of(path@) is None,
        },
{
    match file_name(path) {
        None => None,
        Some(f) => {
            let v = chars_of(f.as_str());
            proof {
                lemma_last_dot_bounds(v@);
            }
            match last_dot_index(v.as_slice()) {
                None => None,
                Some(k) => {
                    proof {
                        assert(k < v@.len());
                    }
                    if k == 0 {
                        None
                    } else {
                        let e = slice_chars(v.as_slice(), k + 1, v.len());
                        proof {
                            assert(e@ =~= v@.skip(k + 1));
                        }
                        Some(e)
                    }
                },
            }
        },
    }
}

/// Whether `path` names a font file: its extension is `ttf`, `otf` or `ttc`
/// in any case.
pub open spec fn supported_font(path: Seq<char>) -> bool {
    match extension_of(path) {
        Some(e) => eq_ignore_ascii_case(e, "ttf"@) || eq_ignore_ascii_case(e, "otf"@)
            || eq_ignore_ascii_case(e, "ttc"@),
        None => false,
    }
}

fn ext_is(e: &Vec<char>, s: &str) -> (b: bool)
    ensures
        b == eq_ignore_ascii_case(e@, s@),
{
    let t = chars_of(s);
    chars_eq_ignore_ascii_case(e.as_slice(), t.as_slice())
}

/// Returns whether `path` names a font file (see `supported_font`).
pub fn is_supported_font_file(path: &str) -> (b: bool)
    ensures
        b == supported_font(path@),
{
    match extension(path) {
        Some(e) => ext_is(&e, "ttf") || ext_is(&e, "otf") || ext_is(&e, "ttc"),
        None => false,
    }
}

/// Whether the last component of `path` is `name`, up to ASCII case.
pub open spec fn has_name(path: Seq<char>, name: Seq<char>) -> bool {
    match file_name_of(path) {
        Some(f) => eq_ignore_ascii_case(f, name),
        None => false,
    }
}

fn file_name_is(path: &str, name: &str) -> (b: bool)
    ensures
        b == has_name(path@, name@),
{
    match file_name(path) {
        Some(f) => {
            let a = chars_of(f.as_str());
            let b = chars_of(name);
            chars_eq_ignore_ascii_case(a.as_slice(), b.as_slice())
        },
        None => false,
    }
}

// ---------------------------------------------------------------------------
// Scores
// ---------------------------------------------------------------------------

/// Twenty points for each marker of a Japanese font in the (lower-case) name.
pub open spec fn marker_points(name: Seq<char>) -> int {
    (if contains_seq(name, "cjk"@) { 20int } else { 0int }) + (if contains_seq(name, "japanese"@) {
        20int
    } else {
        0int
    }) + (if contains_seq(name, "jp"@) { 20int } else { 0int }) + (if contains_seq(name, "ipa"@) {
        20int
    } else {
        0int
    }) + (if contains_seq(name, "takao"@) { 20int } else { 0int }) + (if contains_seq(
        name,
        "vl-gothic"@,
    ) {
        20int
    } else {
        0int
    }) + (if contains_seq(name, "sourcehan"@) { 20int } else { 0int }) + (if contains_seq(
        name,
        "migu"@,
    ) {
        20int
    } else {
        0int
    }) + (if contains_seq(name, "ume"@) { 20int } else { 0int })
}

/// The score of a font file: `None` for a file that is no font or whose
/// name carries no marker of a Japanese font; otherwise the marker points,
/// 8 more for a sans-serif face, 6 more for a regular one, 4 less for a bold,
/// black or thin one, and 2 less for a `.ttc` collection.
pub open spec fn font_score(path: Seq<char>) -> Option<int> {
    let name = ascii_lower_seq(
        match file_name_of(path) {
            Some(f) => f,
            None => seq![],
        },
    );
    let m = marker_points(name);
    if !supported_font(path) || m == 0 {
        None
    } else {
        Some(
            m + (if contains_seq(name, "sans"@) || contains_seq(name, "gothic"@) || contains_seq(
                name,
                "goth"@,
            ) {
                8int
            } else {
                0int
            }) + (if contains_seq(name, "regular"@) || contains_seq(name, "ipaexg"@) || name
                == "ipag.ttf"@ {
                6int
            } else {
                0int
            }) - (if contains_seq(name, "bold"@) || contains_seq(name, "black"@) || contains_seq(
                name,
                "thin"@,
            ) {
                4int
            } else {
                0int
            }) - (if extension_of(path) == Some("ttc"@) {
                2int
            } else {
                0int
            }),
        )
    }
}

/// The ASCII lower-case form of `v`.
pub fn ascii_lower_chars(v: &[char]) -> (r: Vec<char>)
    ensures
        r@ == ascii_lower_seq(v@),
{
    let mut r: Vec<char> = Vec::new();
    let mut i: usize = 0;
    while i < v.len()
        invariant
            i <= v@.len(),
            r@ =~= Seq::new(i as nat, |k: int| ascii_lower(v@[k])),
        decreases v.len() - i,
    {
        r.push(char_ascii_lower(v[i]));
        i = i + 1;
    }
    r
}

fn has_marker(name: &Vec<char>, marker: &str) -> (b: bool)
    ensures
        b == contains_seq(name@, marker@),
{
    let m = chars_of(marker);
    contains_chars(name.as_slice(), m.as_slice())
}

fn chars_equal(v: &Vec<char>, s: &str) -> (b: bool)
    ensures
        b == (v@ == s@),
{
    let t = string_of(v.as_slice());
    crate::text::str_equals(t.as_str(), s)
}

fn points(name: &Vec<char>, marker: &str) -> (p: i32)
    ensures
        p == (if contains_seq(name@, marker@) { 20int } else { 0int }),
{
    if has_marker(name, marker) {
        20
    } else {
        0
    }
}

/// Scores `path` as a Japanese UI font (see `font_score`).
pub fn cjk_font_score(path: &str) -> (r: Option<i32>)
    ensures
        match r {
            Some(s) => font_score(path@) == Some(s as int),
            None => font_score(path@) is None,
        },
{
    let supported = is_supported_font_file(path);
    let raw: Vec<char> = match file_name(path) {
        Some(f) => chars_of(f.as_str()),
        None => Vec::new(),
    };
    proof {
        if file_name_of(path@) is None {
            assert(raw@ =~= seq![]);
        }
    }
    let name = ascii_lower_chars(raw.as_slice());
    let m: i32 = points(&name, "cjk") + points(&name, "japanese") + points(&name, "jp") + points(
        &name,
        "ipa",
    ) + points(&name, "takao") + points(&name, "vl-gothic") + points(&name, "sourcehan")
        + points(&name, "migu") + points(&name, "ume");
    if !supported || m == 0 {
        return None;
    }
    let mut score: i32 = m;
    if has_marker(&name, "sans") || has_marker(&name, "gothic") || has_marker(&name, "goth") {
        score = score + 8;
    }
    if has_marker(&name, "regular") || has_marker(&name, "ipaexg") || chars_equal(
        &name,
        "ipag.ttf",
    ) {
        score = score + 6;
    }
    if has_marker(&name, "bold") || has_marker(&name, "black") || has_marker(&name, "thin") {
        score = score - 4;
    }
    let ttc = match extension(path) {
        Some(e) => chars_equal(&e, "ttc"),
        None => false,
    };
    if ttc {
        score = score - 2;
    }
    Some(score)
}

// ---------------------------------------------------------------------------
// Choosing
// ---------------------------------------------------------------------------

/// The fonts that win over any other, in order of preference.
pub open spec fn preferred_font_names() -> Seq<Seq<char>> {
    seq![
        "ipaexg.ttf"@,
        "ipag.ttf"@,
        "TakaoGothic.ttf"@,
        "VL-Gothic-Regular.ttf"@,
        "NotoSansJP-Regular.otf"@,
        "NotoSansCJK-Regular.ttc"@,
        "NotoSansCJKjp-Regular.otf"@,
        "SourceHanSansJP-Regular.otf"@,
    ]
}

/// The preferred font file names, in order.
pub fn preferred_fonts() -> (r: Vec<&'static str>)
    ensures
        r@.map_values(|s: &str| s@) == preferred_font_names(),
{
    let mut r: Vec<&'static str> = Vec::new();
    r.push("ipaexg.ttf");
    r.push("ipag.ttf");
    r.push("TakaoGothic.ttf");
    r.push("VL-Gothic-Regular.ttf");
    r.push("NotoSansJP-Regular.otf");
    r.push("NotoSansCJK-Regular.ttc");
    r.push("NotoSansCJKjp-Regular.otf");
    r.push("SourceHanSansJP-Regular.otf");
    proof {
        assert(r@.map_values(|s: &str| s@) =~= preferred_font_names());
    }
    r
}

/// The first candidate named `name`.
pub open spec fn first_named(cands: Seq<Seq<char>>, name: Seq<char>) -> Option<Seq<char>>
    decreases cands.len(),
{
    if cands.len() == 0 {
        None
    } else if has_name(cands[0], name) {
        Some(cands[0])
    } else {
        first_named(cands.drop_first(), name)
    }
}

/// The first candidate named after the first of `names` that any candidate
/// is named after.
pub open spec fn preferred_pick(cands: Seq<Seq<char>>, names: Seq<Seq<char>>) -> Option<Seq<char>>
    decreases names.len(),
{
    if names.len() == 0 {
        None
    } else {
        match first_named(cands, names[0]) {
            Some(c) => Some(c),
            None => preferred_pick(cands, names.drop_first()),
        }
    }
}

/// The order of the keys `(score, path)`: by score, then by path.
pub open spec fn key_le(s1: int, p1: Seq<char>, s2: int, p2: Seq<char>) -> bool {
    s1 < s2 || (s1 == s2 && lex_order(p1, p2) <= 0)
}

/// The scored candidate with the greatest key `(score, path)`; among equal
/// keys the last one.
pub open spec fn best_scored(cands: Seq<Seq<char>>) -> Option<(int, Seq<char>)>
    decreases cands.len(),
{
    if cands.len() == 0 {
        None
    } else {
        let prev = best_scored(cands.drop_last());
        let c = cands.last();
        match font_score(c) {
            None => prev,
            Some(s) => match prev {
                None => Some((s, c)),
                Some(b) => if key_le(b.0, b.1, s, c) {
                    Some((s, c))
                } else {
                    prev
                },
            },
        }
    }
}

/// The font chosen among `cands`: a preferred one if any, else the best
/// scored one.
pub open spec fn font_choice(cands: Seq<Seq<char>>) -> Option<Seq<char>> {
    match preferred_pick(cands, preferred_font_names()) {
        Some(p) => Some(p),
        None => match best_scored(cands) {
            Some(b) => Some(b.1),
            None => None,
        },
    }
}

fn first_named_in(candidates: &[String], name: &str) -> (r: Option<usize>)
    ensures
        match r {
            Some(j) => j < candidates@.len() && first_named(sviews(candidates@), name@) == Some(
                candidates@[j as int]@,
            ),
            None => first_named(sviews(candidates@), name@) is None,
        },
{
    let ghost cv = sviews(candidates@);
    let mut j: usize = 0;
    proof {
        assert(cv.skip(0) =~= cv);
    }
    while j < candidates.len()
        invariant
            j <= candidates@.len(),
            cv == sviews(candidates@),
            first_named(cv, name@) == first_named(cv.skip(j as int), name@),
        decreases candidates.len() - j,
    {
        proof {
            assert(cv.skip(j as int)[0] == candidates@[j as int]@);
            assert(cv.skip(j as int).drop_first() =~= cv.skip(j + 1));
        }
        if file_name_is(candidates[j].as_str(), name) {
            return Some(j);
        }
        j = j + 1;
    }
    None
}

/// Chooses the UI font among the font files `candidates` (see `font_choice`).
pub fn select_cjk_font(candidates: &[String]) -> (r: Option<String>)
    ensures
        opt_chars(r) == font_choice(sviews(candidates@)),
{
    let ghost cv = sviews(candidates@);
    let names = preferred_fonts();
    let ghost nv = names@.map_values(|s: &str| s@);
    let mut k: usize = 0;
    proof {
        assert(nv.skip(0) =~= nv);
    }
    while k < names.len()
        invariant
            k <= names@.len(),
            cv == sviews(candidates@),
            nv == names@.map_values(|s: &str| s@),
            nv == preferred_font_names(),
            preferred_pick(cv, nv) == preferred_pick(cv, nv.skip(k as int)),
        decreases names.len() - k,
    {
        proof {
            assert(nv.skip(k as int)[0] == names@[k as int]@);
            assert(nv.skip(k as int).drop_first() =~= nv.skip(k + 1));
        }
        match first_named_in(candidates, names[k]) {
            Some(j) => {
                return Some(candidates[j].clone());
            },
            None => {},
        }
        k = k + 1;
    }
    proof {
        assert(nv.skip(k as int).len() == 0);
    }
    let mut best: Option<(i32, usize)> = None;
    let mut i: usize = 0;
    while i < candidates.len()
        invariant
            i <= candidates@.len(),
            cv == sviews(candidates@),
            best_scored(cv.take(i as int)) == match best {
                Some(b) => Some((b.0 as int, cv[b.1 as int])),
                None => None,
            },
            match best {
                Some(b) => b.1 < i,
                None => true,
            },
        decreases candidates.len() - i,
    {
        proof {
            assert(cv.take(i + 1).drop_last() =~= cv.take(i as int));
            assert(cv.take(i + 1).last() == cv[i as int]);
            assert(cv[i as int] == candidates@[i as int]@);
        }
        match cjk_font_score(candidates[i].as_str()) {
            None => {},
            Some(s) => {
                match best {
                    None => {
                        best = Some((s, i));
                    },
                    Some(b) => {
                        let take = if b.0 < s {
                            true
                        } else if b.0 == s {
                            let x = chars_of(candidates[b.1].as_str());
                            let y = chars_of(candidates[i].as_str());
                            compare_chars(x.as_slice(), y.as_slice()) <= 0
                        } else {
                            false
                        };
                        if take {
                            best = Some((s, i));
                        }
                    },
                }
            },
        }
        i = i + 1;
    }
    proof {
        assert(cv.take(i as int) =~= cv);
    }
    match best {
        Some(b) => Some(candidates[b.1].clone()),
        None => None,
    }
}

/// `font_path: {path}`, or `font_path: -` when no font was found.
pub fn font_path_line(check: &FontCheck) -> (r: String)
    ensures
        r@ == "font_path: "@ + match check.font_path {
            Some(p) => p@,
            None => seq!['-'],
        },
{
    let mut out: Vec<char> = Vec::new();
    append_str(&mut out, "font_path: ");
    match &check.font_path {
        Some(p) => append_str(&mut out, p.as_str()),
        None => out.push('-'),
    }
    string_of(out.as_slice())
}

/// Looks for the Japanese UI font among the font files `candidates`.
pub fn detect_system_cjk_font(candidates: &[String]) -> (r: FontCheck)
    ensures
        opt_chars(r.font_path) == font_choice(sviews(candidates@)),
{
    FontCheck { font_path: select_cjk_font(candidates) }
}

// ---------------------------------------------------------------------------
// Laws
// ---------------------------------------------------------------------------

/// Without a preferred font, the chosen font is a scored candidate whose key
/// `(score, path)` is at least that of every other scored candidate; when no
/// candidate is scored, none is chosen.
pub proof fn lemma_best_scored_is_greatest(cands: Seq<Seq<char>>)
    ensures
        match best_scored(cands) {
            Some(b) => cands.contains(b.1) && font_score(b.1) == Some(b.0) && forall|i: int|
                0 <= i < cands.len() && #[trigger] font_score(cands[i]) is Some ==> key_le(
                    font_score(cands[i])->0,
                    cands[i],
                    b.0,
                    b.1,
                ),
            None => forall|i: int| 0 <= i < cands.len() ==> #[trigger] font_score(cands[i]) is None,
        },
    decreases cands.len(),
{
    if cands.len() > 0 {
        let init = cands.drop_last();
        lemma_best_scored_is_greatest(init);
        let c = cands.last();
        let n = cands.len() - 1;
        assert forall|i: int| 0 <= i < n implies cands[i] == init[i] by {}
        match font_score(c) {
            None => {
                match best_scored(init) {
                    Some(b) => {
                        let j = choose|j: int| 0 <= j < init.len() && init[j] == b.1;
                        assert(cands[j] == b.1);
                    },
                    None => {},
                }
            },
            Some(s) => {
                match best_scored(init) {
                    None => {
                        assert(cands[n] == c);
                        lemma_lex_antisym(c, c);
                    },
                    Some(b) => {
                        let j = choose|j: int| 0 <= j < init.len() && init[j] == b.1;
                        assert(cands[j] == b.1);
                        assert(cands[n] == c);
                        lemma_lex_antisym(b.1, c);
                        lemma_lex_antisym(c, c);
                        if key_le(b.0, b.1, s, c) {
                            assert forall|i: int|
                                0 <= i < cands.len() && #[trigger] font_score(
                                    cands[i],
                                ) is Some implies key_le(
                                font_score(cands[i])->0,
                                cands[i],
                                s,
                                c,
                            ) by {
                                if i < n {
                                    let t = font_score(cands[i])->0;
                                    if t == b.0 && b.0 == s {
                                        lemma_lex_trans(cands[i], b.1, c);
                                    }
                                }
                            }
                        } else {
                            assert forall|i: int|
                                0 <= i < cands.len() && #[trigger] font_score(
                                    cands[i],
                                ) is Some implies key_le(
                                font_score(cands[i])->0,
                                cands[i],
                                b.0,
                                b.1,
                            ) by {
                                if i == n {
                                    lemma_lex_antisym(c, b.1);
                                }
                            }
                        }
                    },
                }
            },
        }
    }
}

/// A candidate named after a preferred font is found: the chosen font is a
/// candidate named after that font or after one preferred before it.
pub proof fn lemma_preferred_font_wins(cands: Seq<Seq<char>>, k: int, i: int)
    requires
        0 <= k < preferred_font_names().len(),
        0 <= i < cands.len(),
        has_name(cands[i], preferred_font_names()[k]),
    ensures
        font_choice(cands) is Some,
        exists|kk: int|
            0 <= kk <= k && has_name(font_choice(cands)->0, #[trigger] preferred_font_names()[kk]),
        cands.contains(font_choice(cands)->0),
{
    lemma_preferred_pick(cands, preferred_font_names(), k, i);
}

proof fn lemma_first_named(cands: Seq<Seq<char>>, name: Seq<char>, i: int)
    requires
        0 <= i < cands.len(),
        has_name(cands[i], name),
    ensures
        first_named(cands, name) is Some,
        has_name(first_named(cands, name)->0, name),
        cands.contains(first_named(cands, name)->0),
    decreases cands.len(),
{
    if !has_name(cands[0], name) {
        lemma_first_named(cands.drop_first(), name, i - 1);
        let p = first_named(cands, name)->0;
        let j = choose|j: int| 0 <= j < cands.drop_first().len() && cands.drop_first()[j] == p;
        assert(cands[j + 1] == p);
    } else {
        assert(cands[0] == cands[0]);
    }
}

proof fn lemma_first_named_found(cands: Seq<Seq<char>>, name: Seq<char>)
    ensures
        first_named(cands, name) is Some ==> has_name(first_named(cands, name)->0, name)
            && cands.contains(first_named(cands, name)->0),
    decreases cands.len(),
{
    if cands.len() > 0 && !has_name(cands[0], name) {
        lemma_first_named_found(cands.drop_first(), name);
        if first_named(cands, name) is Some {
            let p = first_named(cands, name)->0;
            let j = choose|j: int| 0 <= j < cands.drop_first().len() && cands.drop_first()[j] == p;
            assert(cands[j + 1] == p);
        }
    } else if cands.len() > 0 {
        assert(cands[0] == cands[0]);
    }
}

proof fn lemma_preferred_pick(cands: Seq<Seq<char>>, names: Seq<Seq<char>>, k: int, i: int)
    requires
        0 <= k < names.len(),
        0 <= i < cands.len(),
        has_name(cands[i], names[k]),
    ensures
        preferred_pick(cands, names) is Some,
        exists|kk: int| 0 <= kk <= k && has_name(preferred_pick(cands, names)->0, #[trigger] names[kk]),
        cands.contains(preferred_pick(cands, names)->0),
    decreases names.len(),
{
    lemma_first_named_found(cands, names[0]);
    if first_named(cands, names[0]) is Some {
        assert(has_name(preferred_pick(cands, names)->0, names[0]));
    } else {
        if k == 0 {
            lemma_first_named(cands, names[0], i);
        }
        lemma_preferred_pick(cands, names.drop_first(), k - 1, i);
        let p = preferred_pick(cands, names)->0;
        let kk = choose|kk: int| 0 <= kk <= k - 1 && has_name(p, #[trigger] names.drop_first()[kk]);
        assert(names.drop_first()[kk] == names[kk + 1]);
        assert(has_name(p, names[kk + 1]));
    }
}

} // verus!
