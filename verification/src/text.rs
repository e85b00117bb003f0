//! Character-level text helpers shared by the matching, suggestion and
//! formatting code. Text is handled as sequences of Unicode scalar values.
use vstd::prelude::*;

verus! {

// ---------------------------------------------------------------------------
// Character classes
// ---------------------------------------------------------------------------

/// Unicode `White_Space`, the set that `char::is_whitespace` and `str::trim`
/// use.
pub open spec fn is_space(c: char) -> bool {
    let n = c as u32;
    ||| 0x9 <= n <= 0xd
    ||| n == 0x20
    ||| n == 0x85
    ||| n == 0xa0
    ||| n == 0x1680
    ||| 0x2000 <= n <= 0x200a
    ||| n == 0x2028
    ||| n == 0x2029
    ||| n == 0x202f
    ||| n == 0x205f
    ||| n == 0x3000
}

/// ASCII whitespace in the sense of `u8::is_ascii_whitespace`.
pub open spec fn is_ascii_space(c: char) -> bool {
    c == ' ' || c == '\t' || c == '\n' || c == '\u{c}' || c == '\r'
}

/// Returns whether `c` is Unicode whitespace.
pub fn char_is_space(c: char) -> (b: bool)
    ensures
        b == is_space(c),
{
    let n = c as u32;
    (0x9 <= n && n <= 0xd) || n == 0x20 || n == 0x85 || n == 0xa0 || n == 0x1680 || (0x2000 <= n
        && n <= 0x200a) || n == 0x2028 || n == 0x2029 || n == 0x202f || n == 0x205f || n == 0x3000
}

/// Returns whether `c` is ASCII whitespace.
pub fn char_is_ascii_space(c: char) -> (b: bool)
    ensures
        b == is_ascii_space(c),
{
    c == ' ' || c == '\t' || c == '\n' || c == '\u{c}' || c == '\r'
}

/// The ASCII lower-case form of `c`; other characters are unchanged.
pub open spec fn ascii_lower(c: char) -> char {
    if 'A' <= c && c <= 'Z' {
        ((c as u32) + 32) as char
    } else {
        c
    }
}

/// Maps `c` to its ASCII lower-case form.
pub fn char_ascii_lower(c: char) -> (r: char)
    ensures
        r == ascii_lower(c),
{
    if 'A' <= c && c <= 'Z' {
        let n: u32 = (c as u32) + 32;
        proof {
            assert(0x61 <= n <= 0x7a);
        }
        (n as u8) as char
    } else {
        c
    }
}

/// The ASCII lower-case form of every character of `s`.
pub open spec fn ascii_lower_seq(s: Seq<char>) -> Seq<char> {
    Seq::new(s.len(), |i: int| ascii_lower(s[i]))
}

// ---------------------------------------------------------------------------
// Conversions between `str`/`String` and `Vec<char>`
// ---------------------------------------------------------------------------

/// Appends one character to a `String` (std `String::push`).
#[verifier::external_body]
fn push_char(s: &mut String, c: char)
    ensures
        final(s)@ == old(s)@.push(c),
{
    s.push(c);
}

/// The characters of `s`, in order.
pub fn chars_of(s: &str) -> (v: Vec<char>)
    ensures
        v@ == s@,
{
    let mut v: Vec<char> = Vec::new();
    for c in it: s.chars()
        invariant
            it.seq() == s@,
            v@.len() == it.index(),
            forall|k: int| 0 <= k < v@.len() ==> v@[k] == s@[k],
    {
        v.push(c);
    }
    assert(v@ =~= s@);
    v
}

/// A `String` holding the characters of `v`.
pub fn string_of(v: &[char]) -> (s: String)
    ensures
        s@ == v@,
{
    let mut s = String::new();
    let mut i: usize = 0;
    while i < v.len()
        invariant
            i <= v.len(),
            s@ == v@.take(i as int),
        decreases v.len() - i,
    {
        push_char(&mut s, v[i]);
        proof {
            assert(v@.take(i + 1) =~= v@.take(i as int).push(v@[i as int]));
        }
        i = i + 1;
    }
    proof {
        assert(v@.take(v.len() as int) =~= v@);
    }
    s
}

/// A `String` holding the characters of `s`.
pub fn string_from(s: &str) -> (r: String)
    ensures
        r@ == s@,
{
    let v = chars_of(s);
    string_of(v.as_slice())
}

/// Appends the characters of `v` to `out`.
pub fn append_chars(out: &mut Vec<char>, v: &[char])
    ensures
        final(out)@ == old(out)@ + v@,
{
    let mut i: usize = 0;
    while i < v.len()
        invariant
            i <= v.len(),
            out@ == old(out)@ + v@.take(i as int),
        decreases v.len() - i,
    {
        out.push(v[i]);
        proof {
            assert(v@.take(i + 1) =~= v@.take(i as int).push(v@[i as int]));
        }
        i = i + 1;
    }
    proof {
        assert(v@.take(v.len() as int) =~= v@);
    }
}

/// Appends the characters of `s` to `out`.
pub fn append_str(out: &mut Vec<char>, s: &str)
    ensures
        final(out)@ == old(out)@ + s@,
{
    let v = chars_of(s);
    append_chars(out, v.as_slice());
}

// ---------------------------------------------------------------------------
// Lower case
// ---------------------------------------------------------------------------

/// What `str::to_lowercase` gives for a text: the Unicode lower-case mapping,
/// which depends on context (a final capital sigma) and may change lengths.
pub uninterp spec fn lowercase_of(s: Seq<char>) -> Seq<char>;

/// std `str::to_lowercase`.
#[verifier::external_body]
fn str_to_lowercase(s: &str) -> (r: String)
    ensures
        r@ == lowercase_of(s@),
{
    s.to_lowercase()
}

/// The Unicode lower-case form of the characters `v`.
pub fn lowercase_chars(v: &[char]) -> (r: Vec<char>)
    ensures
        r@ == lowercase_of(v@),
{
    let s = string_of(v);
    let l = str_to_lowercase(s.as_str());
    chars_of(l.as_str())
}

// ---------------------------------------------------------------------------
// Trimming
// ---------------------------------------------------------------------------

/// `s` without its leading whitespace.
pub open spec fn trim_start(s: Seq<char>) -> Seq<char>
    decreases s.len(),
{
    if s.len() > 0 && is_space(s[0]) {
        trim_start(s.drop_first())
    } else {
        s
    }
}

/// `s` without its trailing whitespace.
pub open spec fn trim_end(s: Seq<char>) -> Seq<char>
    decreases s.len(),
{
    if s.len() > 0 && is_space(s.last()) {
        trim_end(s.drop_last())
    } else {
        s
    }
}

/// `s` without leading and trailing whitespace, as `str::trim` gives it.
pub open spec fn trim(s: Seq<char>) -> Seq<char> {
    trim_end(trim_start(s))
}

/// The trimmed text as normalized for case-insensitive comparison.
pub open spec fn normalized(s: Seq<char>) -> Seq<char> {
    lowercase_of(trim(s))
}

/// Whether the text is empty after trimming.
pub open spec fn is_blank(s: Seq<char>) -> bool {
    trim(s).len() == 0
}

proof fn lemma_trim_start_skip(s: Seq<char>, i: int)
    requires
        0 <= i <= s.len(),
        forall|k: int| 0 <= k < i ==> is_space(#[trigger] s[k]),
    ensures
        trim_start(s) == trim_start(s.subrange(i, s.len() as int)),
    decreases i,
{
    if i > 0 {
        assert(s.drop_first() =~= s.subrange(1, s.len() as int));
        lemma_trim_start_skip(s.drop_first(), i - 1);
        assert(s.drop_first().subrange(i - 1, s.drop_first().len() as int) =~= s.subrange(
            i,
            s.len() as int,
        ));
    } else {
        assert(s.subrange(0, s.len() as int) =~= s);
    }
}

proof fn lemma_trim_end_skip(s: Seq<char>, j: int)
    requires
        0 <= j <= s.len(),
        forall|k: int| j <= k < s.len() ==> is_space(#[trigger] s[k]),
    ensures
        trim_end(s) == trim_end(s.subrange(0, j)),
    decreases s.len() - j,
{
    if j < s.len() {
        assert(s.drop_last() =~= s.subrange(0, s.len() - 1));
        lemma_trim_end_skip(s.drop_last(), j);
        assert(s.drop_last().subrange(0, j) =~= s.subrange(0, j));
    } else {
        assert(s.subrange(0, s.len() as int) =~= s);
    }
}

/// The bounds `(a, b)` of the trimmed part of `v`: `trim(v@) == v@[a..b]`.
pub fn trim_bounds(v: &[char]) -> (r: (usize, usize))
    ensures
        r.0 <= r.1 <= v@.len(),
        trim(v@) == v@.subrange(r.0 as int, r.1 as int),
{
    let mut a: usize = 0;
    while a < v.len() && char_is_space(v[a])
        invariant
            a <= v.len(),
            forall|k: int| 0 <= k < a ==> is_space(#[trigger] v@[k]),
        decreases v.len() - a,
    {
        a = a + 1;
    }
    proof {
        lemma_trim_start_skip(v@, a as int);
        let rest = v@.subrange(a as int, v@.len() as int);
        if rest.len() > 0 {
            assert(rest[0] == v@[a as int]);
        }
        assert(trim_start(v@) == rest);
    }
    let mut b: usize = v.len();
    while b > a && char_is_space(v[b - 1])
        invariant
            a <= b <= v.len(),
            forall|k: int| b <= k < v.len() ==> is_space(#[trigger] v@[k]),
        decreases b,
    {
        b = b - 1;
    }
    proof {
        let rest = v@.subrange(a as int, v@.len() as int);
        assert forall|k: int| (b - a) <= k < rest.len() implies is_space(#[trigger] rest[k]) by {
            assert(rest[k] == v@[a + k]);
        }
        lemma_trim_end_skip(rest, b - a);
        let mid = rest.subrange(0, b - a);
        assert(mid =~= v@.subrange(a as int, b as int));
        if mid.len() > 0 {
            assert(mid.last() == v@[b - 1]);
        }
        assert(trim_end(mid) == mid);
    }
    (a, b)
}

/// The characters of `v` without leading and trailing whitespace.
pub fn trim_chars(v: &[char]) -> (r: Vec<char>)
    ensures
        r@ == trim(v@),
{
    let (a, b) = trim_bounds(v);
    slice_chars(v, a, b)
}

/// A copy of `v[a..b]`.
pub fn slice_chars(v: &[char], a: usize, b: usize) -> (r: Vec<char>)
    requires
        a <= b <= v@.len(),
    ensures
        r@ == v@.subrange(a as int, b as int),
{
    let mut r: Vec<char> = Vec::new();
    let mut i: usize = a;
    while i < b
        invariant
            a <= i <= b,
            b <= v@.len(),
            r@ == v@.subrange(a as int, i as int),
        decreases b - i,
    {
        r.push(v[i]);
        proof {
            assert(v@.subrange(a as int, i + 1) =~= v@.subrange(a as int, i as int).push(
                v@[i as int],
            ));
        }
        i = i + 1;
    }
    r
}

/// Whether `v` is empty after trimming.
pub fn chars_blank(v: &[char]) -> (b: bool)
    ensures
        b == is_blank(v@),
{
    let (a, e) = trim_bounds(v);
    a == e
}

/// Whether the text `s` is empty after trimming.
pub fn str_blank(s: &str) -> (b: bool)
    ensures
        b == is_blank(s@),
{
    let v = chars_of(s);
    chars_blank(v.as_slice())
}

/// `input.trim().to_lowercase()`.
pub fn normalize(input: &str) -> (r: String)
    ensures
        r@ == normalized(input@),
{
    let v = chars_of(input);
    let t = trim_chars(v.as_slice());
    let l = lowercase_chars(t.as_slice());
    string_of(l.as_slice())
}

/// Normalized characters of `v`.
pub fn normalize_chars(v: &[char]) -> (r: Vec<char>)
    ensures
        r@ == normalized(v@),
{
    let t = trim_chars(v);
    lowercase_chars(t.as_slice())
}

// ---------------------------------------------------------------------------
// Searching
// ---------------------------------------------------------------------------

/// Whether `needle` occurs in `hay` starting at index `i`.
pub open spec fn occurs_at(hay: Seq<char>, needle: Seq<char>, i: int) -> bool {
    0 <= i && i + needle.len() <= hay.len() && hay.subrange(i, i + needle.len()) == needle
}

/// Whether `needle` occurs somewhere in `hay` (as `str::contains`).
pub open spec fn contains_seq(hay: Seq<char>, needle: Seq<char>) -> bool {
    exists|i: int| occurs_at(hay, needle, i)
}

/// The first index at which `needle` occurs in `hay` (as `str::find`).
pub open spec fn first_occurrence(hay: Seq<char>, needle: Seq<char>) -> Option<int> {
    if contains_seq(hay, needle) {
        Some(
            choose|i: int|
                occurs_at(hay, needle, i) && forall|j: int|
                    0 <= j < i ==> !occurs_at(hay, needle, j),
        )
    } else {
        None
    }
}

/// Whether `needle` occurs in `hay` at index `i`.
pub fn matches_at(hay: &[char], needle: &[char], i: usize) -> (b: bool)
    ensures
        b == occurs_at(hay@, needle@, i as int),
{
    if i > hay.len() || needle.len() > hay.len() - i {
        return false;
    }
    let mut k: usize = 0;
    while k < needle.len()
        invariant
            k <= needle.len(),
            i + needle.len() <= hay.len(),
            forall|m: int| 0 <= m < k ==> hay@[i + m] == needle@[m],
        decreases needle.len() - k,
    {
        if hay[i + k] != needle[k] {
            proof {
                assert(hay@.subrange(i as int, i + needle.len())[k as int] != needle@[k as int]);
            }
            return false;
        }
        k = k + 1;
    }
    proof {
        assert(hay@.subrange(i as int, i + needle.len()) =~= needle@);
    }
    true
}

/// The first index at which `needle` occurs in `hay`.
pub fn find_chars(hay: &[char], needle: &[char]) -> (r: Option<usize>)
    ensures
        match r {
            Some(i) => first_occurrence(hay@, needle@) == Some(i as int) && occurs_at(
                hay@,
                needle@,
                i as int,
            ),
            None => first_occurrence(hay@, needle@) is None,
        },
{
    if needle.len() > hay.len() {
        proof {
            assert forall|i: int| !occurs_at(hay@, needle@, i) by {}
        }
        return None;
    }
    let last = hay.len() - needle.len();
    let mut i: usize = 0;
    loop
        invariant
            last + needle.len() == hay.len(),
            i <= last,
            forall|j: int| 0 <= j < i ==> !occurs_at(hay@, needle@, j),
        decreases last - i,
    {
        if matches_at(hay, needle, i) {
            proof {
                let c = choose|k: int|
                    occurs_at(hay@, needle@, k) && forall|j: int|
                        0 <= j < k ==> !occurs_at(hay@, needle@, j);
                assert(occurs_at(hay@, needle@, c));
                if c < i {
                } else if c > i {
                    assert(!occurs_at(hay@, needle@, i as int));
                }
            }
            return Some(i);
        }
        if i == last {
            proof {
                assert forall|j: int| !occurs_at(hay@, needle@, j) by {
                    if j > last {
                    }
                }
            }
            return None;
        }
        i = i + 1;
    }
}

/// Whether `needle` occurs in `hay`.
pub fn contains_chars(hay: &[char], needle: &[char]) -> (b: bool)
    ensures
        b == contains_seq(hay@, needle@),
{
    match find_chars(hay, needle) {
        Some(_) => true,
        None => false,
    }
}

/// Whether `a` and `b` hold the same characters.
pub fn str_equals(a: &str, b: &str) -> (r: bool)
    ensures
        r == (a@ == b@),
{
    let v = chars_of(a);
    let t = chars_of(b);
    if v.len() != t.len() {
        return false;
    }
    let mut i: usize = 0;
    while i < v.len()
        invariant
            v@.len() == t@.len(),
            v@ == a@,
            t@ == b@,
            i <= v@.len(),
            forall|k: int| 0 <= k < i ==> v@[k] == t@[k],
        decreases v.len() - i,
    {
        if v[i] != t[i] {
            proof {
                assert(v@[i as int] != t@[i as int]);
            }
            return false;
        }
        i = i + 1;
    }
    proof {
        assert(v@ =~= t@);
    }
    true
}

} // verus!
