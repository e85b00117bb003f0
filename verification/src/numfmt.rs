//! Formatting and parsing of integers in decimal and hexadecimal, with the
//! rules of `format!` and of std's integer parsers (`str::parse`,
//! `u64::from_str_radix`).
use vstd::prelude::*;

verus! {

// ---------------------------------------------------------------------------
// Digits
// ---------------------------------------------------------------------------

/// The lower-case digit character for `d < 16`.
pub open spec fn digit_char(d: nat) -> char {
    if d < 10 {
        ((d + 48) as u32) as char
    } else {
        ((d + 87) as u32) as char
    }
}

/// The value of `c` as a digit in `radix` (10 or 16); hexadecimal digits may
/// be upper or lower case.
pub open spec fn digit_value(c: char, radix: nat) -> Option<nat> {
    let n = c as u32;
    if 48 <= n <= 57 && n - 48 < radix {
        Some((n - 48) as nat)
    } else if radix == 16 && 97 <= n <= 102 {
        Some((n - 87) as nat)
    } else if radix == 16 && 65 <= n <= 70 {
        Some((n - 55) as nat)
    } else {
        None
    }
}

/// Whether every character of `s` is a digit in `radix`.
pub open spec fn all_digits(s: Seq<char>, radix: nat) -> bool {
    forall|i: int| 0 <= i < s.len() ==> (#[trigger] digit_value(s[i], radix)) is Some
}

/// The value of the digit string `s` (most significant digit first).
pub open spec fn digits_value(s: Seq<char>, radix: nat) -> nat
    decreases s.len(),
{
    if s.len() == 0 {
        0
    } else {
        digits_value(s.drop_last(), radix) * radix + match digit_value(s.last(), radix) {
            Some(d) => d,
            None => 0,
        }
    }
}

/// The digits of `n` in `radix` without leading zeros ("0" for zero).
pub open spec fn digits_of(n: nat, radix: nat) -> Seq<char>
    recommends
        radix == 10 || radix == 16,
    decreases n,
{
    if n < radix || radix < 2 {
        seq![digit_char(n)]
    } else {
        proof {
            assert(n / radix < n) by (nonlinear_arith)
                requires
                    n >= radix,
                    radix >= 2,
            ;
        }
        digits_of(n / radix, radix).push(digit_char(n % radix))
    }
}

/// `format!("{}", n)` for an integer `n`.
pub open spec fn decimal_of(n: int) -> Seq<char> {
    if n < 0 {
        seq!['-'] + digits_of((-n) as nat, 10)
    } else {
        digits_of(n as nat, 10)
    }
}

/// `format!("0x{:x}", n)`.
pub open spec fn hex_id_of(n: nat) -> Seq<char> {
    seq!['0', 'x'] + digits_of(n, 16)
}

// ---------------------------------------------------------------------------
// Formatting
// ---------------------------------------------------------------------------

fn digit_to_char(d: u64) -> (c: char)
    requires
        d < 16,
    ensures
        c == digit_char(d as nat),
{
    if d < 10 {
        ((d + 48) as u8) as char
    } else {
        ((d + 87) as u8) as char
    }
}

/// Appends the digits of `n` in `radix` to `out`.
pub fn push_digits(out: &mut Vec<char>, n: u64, radix: u64)
    requires
        radix == 10 || radix == 16,
    ensures
        final(out)@ == old(out)@ + digits_of(n as nat, radix as nat),
    decreases n,
{
    if n < radix {
        out.push(digit_to_char(n));
        proof {
            assert(old(out)@.push(digit_char(n as nat)) =~= old(out)@ + seq![digit_char(n as nat)]);
        }
    } else {
        push_digits(out, n / radix, radix);
        out.push(digit_to_char(n % radix));
        proof {
            let d = digits_of((n / radix) as nat, radix as nat);
            assert(old(out)@ + d.push(digit_char((n % radix) as nat)) =~= (old(out)@ + d).push(
                digit_char((n % radix) as nat),
            ));
        }
    }
}

/// `format!("{}", n)` appended to `out`.
pub fn push_decimal_i64(out: &mut Vec<char>, n: i64)
    requires
        n > i64::MIN,
    ensures
        final(out)@ == old(out)@ + decimal_of(n as int),
{
    if n < 0 {
        out.push('-');
        let m: u64 = (-n) as u64;
        push_digits(out, m, 10);
        proof {
            assert(old(out)@.push('-') + digits_of(m as nat, 10) =~= old(out)@ + (seq!['-']
                + digits_of(m as nat, 10)));
        }
    } else {
        push_digits(out, n as u64, 10);
    }
}

/// `format!("{}", n)` for an unsigned `n`.
pub fn decimal_u64(n: u64) -> (r: Vec<char>)
    ensures
        r@ == decimal_of(n as int),
{
    let mut out: Vec<char> = Vec::new();
    push_digits(&mut out, n, 10);
    proof {
        assert(out@ =~= decimal_of(n as int));
    }
    out
}

/// `format!("{}", n)` for a signed 32-bit `n`.
pub fn decimal_i32(n: i32) -> (r: Vec<char>)
    ensures
        r@ == decimal_of(n as int),
{
    let mut out: Vec<char> = Vec::new();
    push_decimal_i64(&mut out, n as i64);
    proof {
        assert(out@ =~= decimal_of(n as int));
    }
    out
}

/// `format!("0x{id:x}")`: the window id as X11 tools print it.
pub fn hex_id_chars(id: u64) -> (r: Vec<char>)
    ensures
        r@ == hex_id_of(id as nat),
{
    let mut out: Vec<char> = Vec::new();
    out.push('0');
    out.push('x');
    push_digits(&mut out, id, 16);
    proof {
        assert(out@ =~= hex_id_of(id as nat));
    }
    out
}

// ---------------------------------------------------------------------------
// Parsing
// ---------------------------------------------------------------------------

/// The digits that std's unsigned parsers read from `s`: a leading `+` is
/// dropped when something follows it.
pub open spec fn unsigned_body(s: Seq<char>) -> Seq<char> {
    if s.len() > 1 && s[0] == '+' {
        s.drop_first()
    } else {
        s
    }
}

/// What std's parser for an unsigned integer type whose largest value is
/// `max` returns for `s` in `radix`: the value, or `None` for an error.
pub open spec fn parse_unsigned(s: Seq<char>, radix: nat, max: nat) -> Option<nat> {
    let d = unsigned_body(s);
    if d.len() > 0 && all_digits(d, radix) && digits_value(d, radix) <= max {
        Some(digits_value(d, radix))
    } else {
        None
    }
}

/// What std's parser for a signed integer type with range `[-min_abs, max]`
/// returns for `s` in decimal.
pub open spec fn parse_signed(s: Seq<char>, min_abs: nat, max: nat) -> Option<int> {
    if s.len() > 1 && s[0] == '-' {
        let d = s.drop_first();
        if all_digits(d, 10) && digits_value(d, 10) <= min_abs {
            Some(-(digits_value(d, 10) as int))
        } else {
            None
        }
    } else {
        match parse_unsigned(s, 10, max) {
            Some(v) => Some(v as int),
            None => None,
        }
    }
}

/// The value of `c` as a digit in `radix`.
pub fn char_digit_value(c: char, radix: u64) -> (r: Option<u64>)
    requires
        radix == 10 || radix == 16,
    ensures
        match r {
            Some(d) => digit_value(c, radix as nat) == Some(d as nat) && d < radix,
            None => digit_value(c, radix as nat) is None,
        },
{
    let n = c as u32;
    if 48 <= n && n <= 57 && ((n - 48) as u64) < radix {
        Some((n - 48) as u64)
    } else if radix == 16 && 97 <= n && n <= 102 {
        Some((n - 87) as u64)
    } else if radix == 16 && 65 <= n && n <= 70 {
        Some((n - 55) as u64)
    } else {
        None
    }
}

proof fn lemma_digits_value_grows(s: Seq<char>, radix: nat)
    requires
        radix >= 2,
        s.len() > 0,
    ensures
        digits_value(s, radix) >= digits_value(s.drop_last(), radix),
{
    let p = digits_value(s.drop_last(), radix);
    assert(p * radix >= p) by (nonlinear_arith)
        requires
            radix >= 2,
    ;
}

proof fn lemma_digits_value_prefix_bound(s: Seq<char>, k: int, radix: nat)
    requires
        radix >= 2,
        0 <= k <= s.len(),
    ensures
        digits_value(s, radix) >= digits_value(s.take(k), radix),
    decreases s.len() - k,
{
    if k < s.len() {
        lemma_digits_value_prefix_bound(s, k + 1, radix);
        assert(s.take(k + 1).drop_last() =~= s.take(k));
        lemma_digits_value_grows(s.take(k + 1), radix);
    } else {
        assert(s.take(k) =~= s);
    }
}

/// Reads the digits `d[start..]` in `radix`; `Some(v)` exactly when they are
/// all digits and their value `v` is at most `max`.
pub fn parse_digits(d: &[char], start: usize, radix: u64, max: u64) -> (r: Option<u64>)
    requires
        radix == 10 || radix == 16,
        start <= d@.len(),
    ensures
        ({
            let s = d@.subrange(start as int, d@.len() as int);
            match r {
                Some(v) => all_digits(s, radix as nat) && digits_value(s, radix as nat) == v && v
                    <= max,
                None => !(all_digits(s, radix as nat) && digits_value(s, radix as nat) <= max),
            }
        }),
{
    let ghost s = d@.subrange(start as int, d@.len() as int);
    let mut acc: u64 = 0;
    let mut i: usize = start;
    while i < d.len()
        invariant
            start <= i <= d@.len(),
            radix == 10 || radix == 16,
            s == d@.subrange(start as int, d@.len() as int),
            all_digits(s.take(i - start), radix as nat),
            digits_value(s.take(i - start), radix as nat) == acc,
            acc <= max,
        decreases d.len() - i,
    {
        let k: Ghost<int> = Ghost(i - start);
        proof {
            assert(s.take(k@ + 1).drop_last() =~= s.take(k@));
            assert(s.take(k@ + 1).last() == d@[i as int]);
        }
        match char_digit_value(d[i], radix) {
            None => {
                proof {
                    assert(s[k@] == d@[i as int]);
                }
                return None;
            },
            Some(dv) => {
                let ghost next = acc as nat * radix as nat + dv as nat;
                assert(digits_value(s.take(k@ + 1), radix as nat) == next);
                if dv > max || acc > (max - dv) / radix {
                    proof {
                        let a = acc as int;
                        let m = max as int;
                        let dd = dv as int;
                        let rr = radix as int;
                        assert(a * rr + dd > m) by (nonlinear_arith)
                            requires
                                dd > m || a > (m - dd) / rr,
                                rr > 0,
                                a >= 0,
                                dd >= 0,
                        ;
                        lemma_digits_value_prefix_bound(s, k@ + 1, radix as nat);
                    }
                    return None;
                }
                proof {
                    let a = acc as int;
                    let m = max as int;
                    let dd = dv as int;
                    let rr = radix as int;
                    assert(a * rr + dd <= m) by (nonlinear_arith)
                        requires
                            a <= (m - dd) / rr,
                            rr > 0,
                            dd <= m,
                    ;
                    assert forall|j: int| 0 <= j < k@ + 1 implies (#[trigger] digit_value(
                        s.take(k@ + 1)[j],
                        radix as nat,
                    )) is Some by {
                        if j < k@ {
                            assert(s.take(k@ + 1)[j] == s.take(k@)[j]);
                        }
                    }
                }
                acc = acc * radix + dv;
                i = i + 1;
            },
        }
    }
    proof {
        assert(s.take(i - start) =~= s);
    }
    Some(acc)
}

/// `u64` parsing in `radix` as std does it (`str::parse::<u64>` for 10,
/// `u64::from_str_radix` for 16).
pub fn parse_u64_radix(s: &[char], radix: u64) -> (r: Option<u64>)
    requires
        radix == 10 || radix == 16,
    ensures
        match r {
            Some(v) => parse_unsigned(s@, radix as nat, u64::MAX as nat) == Some(v as nat),
            None => parse_unsigned(s@, radix as nat, u64::MAX as nat) is None,
        },
{
    parse_unsigned_max(s, radix, u64::MAX)
}

/// std's unsigned parsing with largest value `max`.
pub fn parse_unsigned_max(s: &[char], radix: u64, max: u64) -> (r: Option<u64>)
    requires
        radix == 10 || radix == 16,
    ensures
        match r {
            Some(v) => parse_unsigned(s@, radix as nat, max as nat) == Some(v as nat),
            None => parse_unsigned(s@, radix as nat, max as nat) is None,
        },
{
    let start: usize = if s.len() > 1 && s[0] == '+' {
        1
    } else {
        0
    };
    proof {
        assert(s@.subrange(start as int, s@.len() as int) =~= unsigned_body(s@));
    }
    if start >= s.len() {
        return None;
    }
    parse_digits(s, start, radix, max)
}

/// `str::parse::<u32>`.
pub fn parse_u32(s: &[char]) -> (r: Option<u32>)
    ensures
        match r {
            Some(v) => parse_unsigned(s@, 10, u32::MAX as nat) == Some(v as nat),
            None => parse_unsigned(s@, 10, u32::MAX as nat) is None,
        },
{
    match parse_unsigned_max(s, 10, u32::MAX as u64) {
        Some(v) => Some(v as u32),
        None => None,
    }
}

/// `str::parse::<i32>`.
pub fn parse_i32(s: &[char]) -> (r: Option<i32>)
    ensures
        match r {
            Some(v) => parse_signed(s@, 0x8000_0000, i32::MAX as nat) == Some(v as int),
            None => parse_signed(s@, 0x8000_0000, i32::MAX as nat) is None,
        },
{
    if s.len() > 1 && s[0] == '-' {
        proof {
            assert(s@.subrange(1, s@.len() as int) =~= s@.drop_first());
        }
        match parse_digits(s, 1, 10, 0x8000_0000) {
            Some(v) => {
                let n: i64 = 0 - (v as i64);
                Some(n as i32)
            },
            None => None,
        }
    } else {
        match parse_unsigned_max(s, 10, i32::MAX as u64) {
            Some(v) => Some(v as i32),
            None => None,
        }
    }
}

} // verus!

verus! {

/// A digit character reads back as its value.
pub proof fn lemma_digit_round_trip(d: nat, radix: nat)
    requires
        d < radix,
        radix == 10 || radix == 16,
    ensures
        digit_value(digit_char(d), radix) == Some(d),
{
    if d < 10 {
        assert((((d + 48) as u32) as char) as u32 == d + 48);
    } else {
        assert((((d + 87) as u32) as char) as u32 == d + 87);
    }
}

/// The digits of `n` read back as `n`.
pub proof fn lemma_digits_round_trip(n: nat, radix: nat)
    requires
        radix == 10 || radix == 16,
    ensures
        all_digits(digits_of(n, radix), radix),
        digits_value(digits_of(n, radix), radix) == n,
        digits_of(n, radix).len() > 0,
    decreases n,
{
    if n < radix {
        lemma_digit_round_trip(n, radix);
        let s = digits_of(n, radix);
        assert(s.drop_last() =~= Seq::<char>::empty());
        assert(digits_value(s.drop_last(), radix) == 0);
        assert(s.last() == digit_char(n));
        assert(0 * radix == 0) by (nonlinear_arith);
    } else {
        assert(n / radix < n) by (nonlinear_arith)
            requires
                n >= radix,
                radix >= 2,
        ;
        lemma_digits_round_trip(n / radix, radix);
        lemma_digit_round_trip(n % radix, radix);
        let p = digits_of(n / radix, radix);
        let s = digits_of(n, radix);
        assert(s.drop_last() =~= p);
        assert(s.last() == digit_char(n % radix));
        assert(digits_value(s, radix) == digits_value(p, radix) * radix + n % radix);
        assert(n == (n / radix) * radix + n % radix) by (nonlinear_arith)
            requires
                radix > 0,
        ;
        assert forall|i: int| 0 <= i < s.len() implies (#[trigger] digit_value(s[i], radix)) is Some by {
            if i < p.len() {
                assert(s[i] == p[i]);
            }
        }
    }
}

/// The upper-case form of a hexadecimal digit (`a`..`f` become `A`..`F`).
pub open spec fn upper_digit(c: char) -> char {
    if 97 <= c as u32 <= 102 {
        (((c as u32) - 32) as u32) as char
    } else {
        c
    }
}

/// `format!("{:X}", n)`: the hexadecimal digits of `n` in upper case.
pub open spec fn hex_upper_of(n: nat) -> Seq<char> {
    digits_of(n, 16).map_values(|c: char| upper_digit(c))
}

/// Upper-case hexadecimal digits have the value of their lower-case forms.
pub proof fn lemma_upper_digits_value(s: Seq<char>)
    requires
        all_digits(s, 16),
    ensures
        all_digits(s.map_values(|c: char| upper_digit(c)), 16),
        digits_value(s.map_values(|c: char| upper_digit(c)), 16) == digits_value(s, 16),
    decreases s.len(),
{
    let u = s.map_values(|c: char| upper_digit(c));
    assert forall|i: int| 0 <= i < u.len() implies #[trigger] digit_value(u[i], 16) == digit_value(
        s[i],
        16,
    ) by {
        let c = s[i];
        assert(digit_value(c, 16) is Some);
        if 97 <= c as u32 <= 102 {
            assert(((((c as u32) - 32) as u32) as char) as u32 == (c as u32) - 32);
        }
    }
    if s.len() > 0 {
        let init = s.drop_last();
        assert forall|i: int| 0 <= i < init.len() implies (#[trigger] digit_value(init[i], 16)) is Some by {
            assert(init[i] == s[i]);
        }
        lemma_upper_digits_value(init);
        assert(u.drop_last() =~= init.map_values(|c: char| upper_digit(c)));
        assert(digit_value(u[u.len() - 1], 16) == digit_value(s[s.len() - 1], 16));
    }
}

} // verus!
