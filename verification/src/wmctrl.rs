//! Reading what the X11 tools print: window ids (`0x…` or decimal) and the
//! listing of `wmctrl -lpxG`, one window per line.
use vstd::prelude::*;

use crate::model::WindowInfo;
use crate::numfmt::{
    decimal_of, hex_id_chars, hex_id_of, parse_i32, parse_signed, parse_u32, parse_u64_radix, parse_unsigned,
};
use crate::split::{split_chars, split_on, vviews, SplitMode};
use crate::text::{
    append_chars, append_str, char_is_ascii_space, chars_blank, chars_of, is_ascii_space,
    is_blank, slice_chars, string_of, trim, trim_chars,
};

verus! {

// ---------------------------------------------------------------------------
// Window ids
// ---------------------------------------------------------------------------

/// Whether the trimmed text starts with `0x` or `0X`.
pub open spec fn has_hex_prefix(t: Seq<char>) -> bool {
    t.len() >= 2 && t[0] == '0' && (t[1] == 'x' || t[1] == 'X')
}

/// The window id that `parse_window_id` reads from `raw`: after trimming,
/// hexadecimal behind `0x`/`0X`, decimal otherwise; `None` on an error.
pub open spec fn window_id_of(raw: Seq<char>) -> Option<nat> {
    let t = trim(raw);
    if t.len() == 0 {
        None
    } else if has_hex_prefix(t) {
        parse_unsigned(t.subrange(2, t.len() as int), 16, u64::MAX as nat)
    } else {
        parse_unsigned(t, 10, u64::MAX as nat)
    }
}

/// Why a window id could not be read.
#[derive(Debug)]
pub enum WindowIdError {
    /// Nothing but whitespace.
    Empty,
    /// `0x…` that is not a hexadecimal `u64`.
    InvalidHex { text: String },
    /// Not a decimal `u64`.
    InvalidDecimal { text: String },
}

/// The message of a window id error for the text `raw`.
pub open spec fn window_id_error_text(raw: Seq<char>) -> Seq<char> {
    let t = trim(raw);
    if t.len() == 0 {
        "window id が空です"@
    } else if has_hex_prefix(t) {
        "16 進 window id を解釈できませんでした: "@ + t
    } else {
        "10 進 window id を解釈できませんでした: "@ + t
    }
}

/// The message of a window id error.
pub open spec fn window_id_error_message(e: WindowIdError) -> Seq<char> {
    match e {
        WindowIdError::Empty => "window id が空です"@,
        WindowIdError::InvalidHex { text } => "16 進 window id を解釈できませんでした: "@ + text@,
        WindowIdError::InvalidDecimal { text } => "10 進 window id を解釈できませんでした: "@
            + text@,
    }
}

impl WindowIdError {
    /// The message of the error.
    pub fn to_string(&self) -> (r: String)
        ensures
            r@ == window_id_error_message(*self),
    {
        match self {
            WindowIdError::Empty => crate::text::string_from("window id が空です"),
            WindowIdError::InvalidHex { text } => {
                let mut out: Vec<char> = Vec::new();
                append_str(&mut out, "16 進 window id を解釈できませんでした: ");
                append_str(&mut out, text.as_str());
                string_of(out.as_slice())
            },
            WindowIdError::InvalidDecimal { text } => {
                let mut out: Vec<char> = Vec::new();
                append_str(&mut out, "10 進 window id を解釈できませんでした: ");
                append_str(&mut out, text.as_str());
                string_of(out.as_slice())
            },
        }
    }
}

/// Reads a window id as `xdotool` and `wmctrl` print it.
pub fn parse_window_id(raw: &str) -> (r: Result<u64, WindowIdError>)
    ensures
        match r {
            Ok(id) => window_id_of(raw@) == Some(id as nat),
            Err(e) => window_id_of(raw@) is None && window_id_error_message(e)
                == window_id_error_text(raw@),
        },
{
    let v = chars_of(raw);
    let t = trim_chars(v.as_slice());
    if t.len() == 0 {
        return Err(WindowIdError::Empty);
    }
    if t.len() >= 2 && t[0] == '0' && (t[1] == 'x' || t[1] == 'X') {
        let digits = slice_chars(t.as_slice(), 2, t.len());
        match parse_u64_radix(digits.as_slice(), 16) {
            Some(id) => Ok(id),
            None => Err(WindowIdError::InvalidHex { text: string_of(t.as_slice()) }),
        }
    } else {
        match parse_u64_radix(t.as_slice(), 10) {
            Some(id) => Ok(id),
            None => Err(WindowIdError::InvalidDecimal { text: string_of(t.as_slice()) }),
        }
    }
}

/// `format!("0x{id:x}")`.
pub fn format_window_id_hex(id: u64) -> (r: String)
    ensures
        r@ == hex_id_of(id as nat),
{
    let v = hex_id_chars(id);
    string_of(v.as_slice())
}

// ---------------------------------------------------------------------------
// Fields of a line
// ---------------------------------------------------------------------------

/// The first index from `i` on that is not ASCII whitespace (or the end).
pub open spec fn skip_spaces(s: Seq<char>, i: int) -> int
    decreases s.len() - i,
{
    if i < 0 || i >= s.len() || !is_ascii_space(s[i]) {
        i
    } else {
        skip_spaces(s, i + 1)
    }
}

/// The first index from `i` on that is ASCII whitespace (or the end).
pub open spec fn field_end(s: Seq<char>, i: int) -> int
    decreases s.len() - i,
{
    if i < 0 || i >= s.len() || is_ascii_space(s[i]) {
        i
    } else {
        field_end(s, i + 1)
    }
}

/// The first `n` whitespace-separated fields of `s` and the index after the
/// last of them, or `None` when `s` has fewer fields.
pub open spec fn fields_state(s: Seq<char>, n: nat) -> Option<(Seq<Seq<char>>, int)>
    decreases n,
{
    if n == 0 {
        Some((seq![], 0))
    } else {
        match fields_state(s, (n - 1) as nat) {
            Some(st) => {
                let start = skip_spaces(s, st.1);
                if start >= s.len() {
                    None
                } else {
                    let end = field_end(s, start);
                    Some((st.0.push(s.subrange(start, end)), end))
                }
            },
            None => None,
        }
    }
}

/// The first `count` fields of `line` and the rest of it after the
/// whitespace that follows them (where the title of a window starts).
pub open spec fn prefix_fields(line: Seq<char>, count: nat) -> Option<(Seq<Seq<char>>, Seq<char>)> {
    match fields_state(line, count) {
        Some(st) => Some((st.0, line.subrange(skip_spaces(line, st.1), line.len() as int))),
        None => None,
    }
}

proof fn lemma_skip_spaces_bounds(s: Seq<char>, i: int)
    requires
        0 <= i <= s.len(),
    ensures
        i <= skip_spaces(s, i) <= s.len(),
        skip_spaces(s, i) < s.len() ==> !is_ascii_space(s[skip_spaces(s, i)]),
        forall|k: int| i <= k < skip_spaces(s, i) ==> is_ascii_space(#[trigger] s[k]),
    decreases s.len() - i,
{
    if i < s.len() && is_ascii_space(s[i]) {
        lemma_skip_spaces_bounds(s, i + 1);
    }
}

proof fn lemma_field_end_bounds(s: Seq<char>, i: int)
    requires
        0 <= i <= s.len(),
    ensures
        i <= field_end(s, i) <= s.len(),
        field_end(s, i) < s.len() ==> is_ascii_space(s[field_end(s, i)]),
        forall|k: int| i <= k < field_end(s, i) ==> !is_ascii_space(#[trigger] s[k]),
    decreases s.len() - i,
{
    if i < s.len() && !is_ascii_space(s[i]) {
        lemma_field_end_bounds(s, i + 1);
    }
}

proof fn lemma_skip_from(s: Seq<char>, i: int, j: int)
    requires
        0 <= i <= j <= s.len(),
        forall|k: int| i <= k < j ==> is_ascii_space(#[trigger] s[k]),
    ensures
        skip_spaces(s, i) == skip_spaces(s, j),
    decreases j - i,
{
    if i < j {
        lemma_skip_from(s, i + 1, j);
    }
}

proof fn lemma_end_from(s: Seq<char>, i: int, j: int)
    requires
        0 <= i <= j <= s.len(),
        forall|k: int| i <= k < j ==> !is_ascii_space(#[trigger] s[k]),
    ensures
        field_end(s, i) == field_end(s, j),
    decreases j - i,
{
    if i < j {
        lemma_end_from(s, i + 1, j);
    }
}

proof fn lemma_fields_state_bound(s: Seq<char>, n: nat)
    ensures
        fields_state(s, n) matches Some(st) ==> 0 <= st.1 <= s.len() && st.0.len() == n,
    decreases n,
{
    if n > 0 {
        lemma_fields_state_bound(s, (n - 1) as nat);
        if let Some(st) = fields_state(s, (n - 1) as nat) {
            lemma_skip_spaces_bounds(s, st.1);
            let start = skip_spaces(s, st.1);
            if start < s.len() {
                lemma_field_end_bounds(s, start);
            }
        }
    }
}

proof fn lemma_fields_none_stays(s: Seq<char>, n: nat, m: nat)
    requires
        n <= m,
        fields_state(s, n) is None,
    ensures
        fields_state(s, m) is None,
    decreases m - n,
{
    if n < m {
        lemma_fields_none_stays(s, n, (m - 1) as nat);
    }
}

/// Splits off the first `count` whitespace-separated fields of `line` and
/// returns them with the rest of the line (see `prefix_fields`).
pub fn split_prefix_fields(line: &str, count: usize) -> (r: Option<(Vec<String>, String)>)
    ensures
        match r {
            Some(res) => prefix_fields(line@, count as nat) matches Some(p) && p.0 == res.0@.map_values(
                |f: String| f@,
            ) && p.1 == res.1@,
            None => prefix_fields(line@, count as nat) is None,
        },
{
    let v = chars_of(line);
    let mut cursor: usize = 0;
    let mut fields: Vec<String> = Vec::new();
    let mut n: usize = 0;
    while n < count
        invariant
            n <= count,
            v@ == line@,
            fields_state(v@, n as nat) matches Some(st) && st.1 == cursor as int
                && st.0 == fields@.map_values(|f: String| f@),
            cursor <= v@.len(),
        decreases count - n,
    {
        let ghost start_cursor = cursor;
        while cursor < v.len() && char_is_ascii_space(v[cursor])
            invariant
                start_cursor <= cursor <= v@.len(),
                forall|k: int| start_cursor <= k < cursor ==> is_ascii_space(#[trigger] v@[k]),
            decreases v.len() - cursor,
        {
            cursor = cursor + 1;
        }
        proof {
            lemma_skip_from(v@, start_cursor as int, cursor as int);
            assert(skip_spaces(v@, cursor as int) == cursor);
            lemma_fields_state_bound(v@, (n + 1) as nat);
        }
        if cursor >= v.len() {
            proof {
                lemma_fields_none_stays(v@, (n + 1) as nat, count as nat);
            }
            return None;
        }
        let start = cursor;
        while cursor < v.len() && !char_is_ascii_space(v[cursor])
            invariant
                start <= cursor <= v@.len(),
                forall|k: int| start <= k < cursor ==> !is_ascii_space(#[trigger] v@[k]),
            decreases v.len() - cursor,
        {
            cursor = cursor + 1;
        }
        proof {
            lemma_end_from(v@, start as int, cursor as int);
        }
        let f = slice_chars(v.as_slice(), start, cursor);
        let ghost before = fields@;
        fields.push(string_of(f.as_slice()));
        proof {
            assert(fields@.map_values(|f: String| f@) =~= before.map_values(|f: String| f@).push(
                v@.subrange(start as int, cursor as int),
            ));
        }
        n = n + 1;
    }
    let ghost end_fields = cursor;
    while cursor < v.len() && char_is_ascii_space(v[cursor])
        invariant
            end_fields <= cursor <= v@.len(),
            forall|k: int| end_fields <= k < cursor ==> is_ascii_space(#[trigger] v@[k]),
        decreases v.len() - cursor,
    {
        cursor = cursor + 1;
    }
    proof {
        lemma_skip_from(v@, end_fields as int, cursor as int);
    }
    let rest = slice_chars(v.as_slice(), cursor, v.len());
    Some((fields, string_of(rest.as_slice())))
}

// ---------------------------------------------------------------------------
// Lines
// ---------------------------------------------------------------------------

/// `l` without one trailing carriage return.
pub open spec fn strip_cr(l: Seq<char>) -> Seq<char> {
    if l.len() > 0 && l.last() == '\r' {
        l.drop_last()
    } else {
        l
    }
}

/// The lines of `s` as `str::lines` gives them: split at `\n`, a `\r`
/// before a `\n` dropped, and no empty line after a final `\n`.
pub open spec fn lines_of(s: Seq<char>) -> Seq<Seq<char>> {
    let pieces = split_on(s, SplitMode::Newline);
    let ended = pieces.drop_last().map_values(|l: Seq<char>| strip_cr(l));
    if pieces.last().len() > 0 {
        ended.push(pieces.last())
    } else {
        ended
    }
}

/// The lines of `v` (see `lines_of`).
pub fn split_lines(v: &[char]) -> (r: Vec<Vec<char>>)
    ensures
        vviews(r@) == lines_of(v@),
{
    let pieces = split_chars(v, SplitMode::Newline);
    let ghost ps = vviews(pieces@);
    let mut out: Vec<Vec<char>> = Vec::new();
    let last = pieces.len() - 1;
    proof {
        assert(ps.len() > 0);
    }
    let mut i: usize = 0;
    while i < last
        invariant
            i <= last,
            last + 1 == pieces@.len(),
            ps == vviews(pieces@),
            vviews(out@) == ps.take(i as int).map_values(|l: Seq<char>| strip_cr(l)),
        decreases last - i,
    {
        let p = &pieces[i];
        let mut line = p.clone();
        if line.len() > 0 && line[line.len() - 1] == '\r' {
            line.pop();
            proof {
                assert(line@ =~= p@.drop_last());
            }
        }
        assert(ps[i as int] == p@);
        assert(line@ == strip_cr(ps[i as int]));
        let ghost before = out@;
        out.push(line);
        proof {
            assert(ps.take(i + 1) =~= ps.take(i as int).push(ps[i as int]));
            assert(vviews(out@) =~= vviews(before).push(line@));
            assert(ps.take(i + 1).map_values(|l: Seq<char>| strip_cr(l)) =~= ps.take(
                i as int,
            ).map_values(|l: Seq<char>| strip_cr(l)).push(strip_cr(ps[i as int])));
        }
        i = i + 1;
    }
    proof {
        assert(ps.take(last as int) =~= ps.drop_last());
    }
    if pieces[last].len() > 0 {
        let ghost before = out@;
        out.push(pieces[last].clone());
        proof {
            assert(vviews(out@) =~= vviews(before).push(ps.last()));
        }
    }
    out
}

// ---------------------------------------------------------------------------
// The listing
// ---------------------------------------------------------------------------

/// A window as plain values.
pub struct WindowView {
    pub id: u64,
    pub id_hex: Seq<char>,
    pub desktop: i32,
    pub pid: Option<u32>,
    pub x: i32,
    pub y: i32,
    pub width: i32,
    pub height: i32,
    pub wm_class: Seq<char>,
    pub host: Seq<char>,
    pub title: Seq<char>,
}

/// The plain values of a window.
pub open spec fn view_of(w: WindowInfo) -> WindowView {
    WindowView {
        id: w.id,
        id_hex: w.id_hex@,
        desktop: w.desktop,
        pid: w.pid,
        x: w.x,
        y: w.y,
        width: w.width,
        height: w.height,
        wm_class: w.wm_class@,
        host: w.host@,
        title: w.title@,
    }
}

/// The plain values of a list of windows.
pub open spec fn views_of(ws: Seq<WindowInfo>) -> Seq<WindowView> {
    ws.map_values(|w: WindowInfo| view_of(w))
}

/// `str::parse::<i32>` as a spec.
pub open spec fn i32_of(s: Seq<char>) -> Option<int> {
    parse_signed(s, 0x8000_0000, i32::MAX as nat)
}

/// The message for a field that is not a number.
pub open spec fn field_error(name: Seq<char>, f: Seq<char>) -> Seq<char> {
    name + "を解釈できませんでした: "@ + f
}

/// The window described by one line of `wmctrl -lpxG`:
/// `id desktop pid x y width height class host title`, or the message of
/// the first problem.
pub open spec fn parse_listing_line(line: Seq<char>) -> Result<WindowView, Seq<char>> {
    match prefix_fields(line, 9) {
        None => Err("wmctrl の出力行を解釈できませんでした: "@ + line),
        Some(p) => {
            let fs = p.0;
            match window_id_of(fs[0]) {
                None => Err(window_id_error_text(fs[0])),
                Some(id) => match i32_of(fs[1]) {
                    None => Err(field_error("desktop "@, fs[1])),
                    Some(desktop) => match i32_of(fs[3]) {
                        None => Err(field_error("x "@, fs[3])),
                        Some(x) => match i32_of(fs[4]) {
                            None => Err(field_error("y "@, fs[4])),
                            Some(y) => match i32_of(fs[5]) {
                                None => Err(field_error("width "@, fs[5])),
                                Some(width) => match i32_of(fs[6]) {
                                    None => Err(field_error("height "@, fs[6])),
                                    Some(height) => Ok(
                                        WindowView {
                                            id: id as u64,
                                            id_hex: hex_id_of(id),
                                            desktop: desktop as i32,
                                            pid: match parse_unsigned(
                                                fs[2],
                                                10,
                                                u32::MAX as nat,
                                            ) {
                                                Some(v) => Some(v as u32),
                                                None => None,
                                            },
                                            x: x as i32,
                                            y: y as i32,
                                            width: width as i32,
                                            height: height as i32,
                                            wm_class: fs[7],
                                            host: fs[8],
                                            title: p.1,
                                        },
                                    ),
                                },
                            },
                        },
                    },
                },
            }
        },
    }
}

/// The window read from a listing line takes each value from its own field:
/// the id from the first, the desktop from the second, x, y, width and
/// height from the fourth to the seventh, the class and the host from the
/// eighth and ninth, and the title from the rest of the line.
pub proof fn lemma_listing_line_fields(line: Seq<char>)
    ensures
        parse_listing_line(line) matches Ok(v) ==> prefix_fields(line, 9) matches Some(p) && {
            let fs = p.0;
            &&& window_id_of(fs[0]) == Some(v.id as nat)
            &&& i32_of(fs[1]) == Some(v.desktop as int)
            &&& i32_of(fs[3]) == Some(v.x as int)
            &&& i32_of(fs[4]) == Some(v.y as int)
            &&& i32_of(fs[5]) == Some(v.width as int)
            &&& i32_of(fs[6]) == Some(v.height as int)
            &&& v.wm_class == fs[7]
            &&& v.host == fs[8]
            &&& v.title == p.1
        },
{
    match prefix_fields(line, 9) {
        Some(p) => {
            let fs = p.0;
            lemma_i32_of_range(fs[1]);
            lemma_i32_of_range(fs[3]);
            lemma_i32_of_range(fs[4]);
            lemma_i32_of_range(fs[5]);
            lemma_i32_of_range(fs[6]);
        },
        None => {},
    }
}

/// What `i32_of` reads lies in the range of `i32`.
proof fn lemma_i32_of_range(s: Seq<char>)
    ensures
        i32_of(s) matches Some(v) ==> i32::MIN <= v <= i32::MAX,
{
}

/// The windows of the first `n` lines, blank lines skipped, or the message
/// of the first line that cannot be read.
pub open spec fn parse_lines(lines: Seq<Seq<char>>, n: nat) -> Result<Seq<WindowView>, Seq<char>>
    decreases n,
{
    if n == 0 {
        Ok(seq![])
    } else {
        match parse_lines(lines, (n - 1) as nat) {
            Err(e) => Err(e),
            Ok(ws) => if is_blank(lines[n - 1]) {
                Ok(ws)
            } else {
                match parse_listing_line(lines[n - 1]) {
                    Ok(w) => Ok(ws.push(w)),
                    Err(e) => Err(e),
                }
            },
        }
    }
}

/// The windows of a whole listing, in the order of its lines.
pub open spec fn parse_listing(s: Seq<char>) -> Result<Seq<WindowView>, Seq<char>> {
    parse_lines(lines_of(s), lines_of(s).len())
}

/// The message of a field error.
fn field_error_string(name: &str, f: &String) -> (r: String)
    ensures
        r@ == field_error(name@, f@),
{
    let mut out: Vec<char> = Vec::new();
    append_str(&mut out, name);
    append_str(&mut out, "を解釈できませんでした: ");
    append_str(&mut out, f.as_str());
    string_of(out.as_slice())
}

/// Reads one non-blank line of the listing (see `parse_listing_line`).
pub fn parse_window_line(line: &str) -> (r: Result<WindowInfo, String>)
    ensures
        match r {
            Ok(w) => parse_listing_line(line@) == Ok::<WindowView, Seq<char>>(view_of(w)),
            Err(e) => parse_listing_line(line@) == Err::<WindowView, Seq<char>>(e@),
        },
{
    let (fields, title) = match split_prefix_fields(line, 9) {
        Some(p) => p,
        None => {
            let mut out: Vec<char> = Vec::new();
            append_str(&mut out, "wmctrl の出力行を解釈できませんでした: ");
            append_str(&mut out, line);
            return Err(string_of(out.as_slice()));
        },
    };
    proof {
        lemma_fields_state_bound(line@, 9);
    }
    let ghost fs = fields@.map_values(|f: String| f@);
    assert(fs[0] == fields@[0]@);
    assert(fs[1] == fields@[1]@);
    assert(fs[2] == fields@[2]@);
    assert(fs[3] == fields@[3]@);
    assert(fs[4] == fields@[4]@);
    assert(fs[5] == fields@[5]@);
    assert(fs[6] == fields@[6]@);
    assert(fs[7] == fields@[7]@);
    assert(fs[8] == fields@[8]@);
    let id = match parse_window_id(fields[0].as_str()) {
        Ok(id) => id,
        Err(e) => {
            return Err(e.to_string());
        },
    };
    let f1 = chars_of(fields[1].as_str());
    let desktop = match parse_i32(f1.as_slice()) {
        Some(d) => d,
        None => {
            return Err(field_error_string("desktop ", &fields[1]));
        },
    };
    let f2 = chars_of(fields[2].as_str());
    let pid = parse_u32(f2.as_slice());
    let f3 = chars_of(fields[3].as_str());
    let x = match parse_i32(f3.as_slice()) {
        Some(v) => v,
        None => {
            return Err(field_error_string("x ", &fields[3]));
        },
    };
    let f4 = chars_of(fields[4].as_str());
    let y = match parse_i32(f4.as_slice()) {
        Some(v) => v,
        None => {
            return Err(field_error_string("y ", &fields[4]));
        },
    };
    let f5 = chars_of(fields[5].as_str());
    let width = match parse_i32(f5.as_slice()) {
        Some(v) => v,
        None => {
            return Err(field_error_string("width ", &fields[5]));
        },
    };
    let f6 = chars_of(fields[6].as_str());
    let height = match parse_i32(f6.as_slice()) {
        Some(v) => v,
        None => {
            return Err(field_error_string("height ", &fields[6]));
        },
    };
    let w = WindowInfo {
        id,
        id_hex: format_window_id_hex(id),
        desktop,
        pid,
        x,
        y,
        width,
        height,
        wm_class: fields[7].clone(),
        host: fields[8].clone(),
        title,
    };
    Ok(w)
}

/// Reads a whole `wmctrl -lpxG` listing, keeping the order of its lines
/// (see `parse_listing`).
pub fn parse_window_lines(output: &str) -> (r: Result<Vec<WindowInfo>, String>)
    ensures
        match r {
            Ok(ws) => parse_listing(output@) == Ok::<Seq<WindowView>, Seq<char>>(views_of(ws@)),
            Err(e) => parse_listing(output@) == Err::<Seq<WindowView>, Seq<char>>(e@),
        },
{
    let v = chars_of(output);
    let lines = split_lines(v.as_slice());
    let ghost ls = vviews(lines@);
    let mut windows: Vec<WindowInfo> = Vec::new();
    assert(views_of(windows@) =~= Seq::<WindowView>::empty());
    let mut i: usize = 0;
    while i < lines.len()
        invariant
            i <= lines@.len(),
            ls == vviews(lines@),
            ls == lines_of(output@),
            parse_lines(ls, i as nat) == Ok::<Seq<WindowView>, Seq<char>>(views_of(windows@)),
        decreases lines.len() - i,
    {
        assert(ls[i as int] == lines@[i as int]@);
        if !chars_blank(lines[i].as_slice()) {
            let line = string_of(lines[i].as_slice());
            match parse_window_line(line.as_str()) {
                Ok(w) => {
                    let ghost before = windows@;
                    windows.push(w);
                    proof {
                        assert(views_of(windows@) =~= views_of(before).push(view_of(w)));
                    }
                },
                Err(e) => {
                    proof {
                        lemma_parse_lines_err_stays(ls, (i + 1) as nat, ls.len(), e@);
                    }
                    return Err(e);
                },
            }
        }
        i = i + 1;
    }
    Ok(windows)
}

/// Once a line fails, the listing fails with its message.
proof fn lemma_parse_lines_err_stays(ls: Seq<Seq<char>>, n: nat, m: nat, e: Seq<char>)
    requires
        n <= m,
        parse_lines(ls, n) == Err::<Seq<WindowView>, Seq<char>>(e),
    ensures
        parse_lines(ls, m) == Err::<Seq<WindowView>, Seq<char>>(e),
    decreases m - n,
{
    if n < m {
        lemma_parse_lines_err_stays(ls, n, (m - 1) as nat, e);
    }
}

/// The first window with the id `id`.
pub fn find_window_by_id(windows: &[WindowInfo], id: u64) -> (r: Option<usize>)
    ensures
        match r {
            Some(i) => i < windows@.len() && windows@[i as int].id == id && forall|j: int|
                0 <= j < i ==> windows@[j].id != id,
            None => forall|j: int| 0 <= j < windows@.len() ==> windows@[j].id != id,
        },
{
    let mut i: usize = 0;
    while i < windows.len()
        invariant
            i <= windows@.len(),
            forall|j: int| 0 <= j < i ==> windows@[j].id != id,
        decreases windows.len() - i,
    {
        if windows[i].id == id {
            return Some(i);
        }
        i = i + 1;
    }
    None
}

} // verus!

verus! {

/// The text that `format_window_id_hex` gives reads back as the same id:
/// `parse_window_id(&format_window_id_hex(id)) == Ok(id)`.
pub proof fn lemma_window_id_round_trip(id: u64)
    ensures
        window_id_of(hex_id_of(id as nat)) == Some(id as nat),
{
    let s = hex_id_of(id as nat);
    let d = crate::numfmt::digits_of(id as nat, 16);
    crate::numfmt::lemma_digits_round_trip(id as nat, 16);
    assert(s[0] == '0');
    assert(s.last() == d.last());
    assert(crate::numfmt::digit_value(d[d.len() - 1], 16) is Some);
    assert(crate::text::trim_start(s) == s);
    assert(crate::text::trim_end(s) == s);
    assert(trim(s) == s);
    assert(s.subrange(2, s.len() as int) =~= d);
    assert(crate::numfmt::digit_value(d[0], 16) is Some);
    assert(crate::numfmt::unsigned_body(d) == d);
}

/// The decimal text of an id reads back as the id:
/// `parse_window_id(&id.to_string()) == Ok(id)`.
pub proof fn lemma_window_id_decimal_round_trip(id: u64)
    ensures
        window_id_of(decimal_of(id as int)) == Some(id as nat),
{
    let d = crate::numfmt::digits_of(id as nat, 10);
    crate::numfmt::lemma_digits_round_trip(id as nat, 10);
    assert(decimal_of(id as int) == d);
    assert(crate::numfmt::digit_value(d[0], 10) is Some);
    assert(crate::numfmt::digit_value(d[d.len() - 1], 10) is Some);
    assert(d.last() == d[d.len() - 1]);
    assert(crate::text::trim_start(d) == d);
    assert(crate::text::trim_end(d) == d);
    assert(trim(d) == d);
    if d.len() >= 2 {
        assert(crate::numfmt::digit_value(d[1], 10) is Some);
    }
    assert(!has_hex_prefix(d));
    assert(crate::numfmt::unsigned_body(d) == d);
}

/// Upper-case hexadecimal behind `0X`, with whitespace around it, reads back
/// as the id: `parse_window_id(&format!("  0X{:X} ", id)) == Ok(id)`.
pub proof fn lemma_window_id_upper_hex_round_trip(id: u64)
    ensures
        window_id_of(
            seq![' ', ' ', '0', 'X'] + crate::numfmt::hex_upper_of(id as nat) + seq![' '],
        ) == Some(id as nat),
{
    let d = crate::numfmt::digits_of(id as nat, 16);
    crate::numfmt::lemma_digits_round_trip(id as nat, 16);
    crate::numfmt::lemma_upper_digits_value(d);
    let u = crate::numfmt::hex_upper_of(id as nat);
    assert(crate::numfmt::digit_value(u[0], 16) is Some);
    assert(crate::numfmt::digit_value(u[u.len() - 1], 16) is Some);
    let s = seq![' ', ' ', '0', 'X'] + u + seq![' '];
    let core = seq!['0', 'X'] + u;
    let t = core + seq![' '];
    assert(s.drop_first().drop_first() =~= t);
    assert(s.drop_first()[0] == ' ');
    assert(t[0] == '0');
    assert(crate::text::trim_start(t) == t);
    assert(s[0] == ' ');
    assert(crate::text::is_space(' '));
    assert(crate::text::trim_start(s.drop_first()) == crate::text::trim_start(t));
    assert(crate::text::trim_start(s) == crate::text::trim_start(s.drop_first()));
    assert(crate::text::trim_start(s) == t);
    assert(t.drop_last() =~= core);
    assert(core.last() == u[u.len() - 1]);
    assert(crate::text::trim_end(core) == core);
    assert(crate::text::trim_end(t) == core);
    assert(trim(s) == core);
    assert(has_hex_prefix(core));
    assert(core.subrange(2, core.len() as int) =~= u);
    assert(crate::numfmt::unsigned_body(u) == u);
}

/// `window id {id} は wmctrl 一覧にありません`, for a window that the listing
/// does not hold.
pub fn window_not_listed(id: u64) -> (r: String)
    ensures
        r@ == "window id "@ + hex_id_of(id as nat) + " は wmctrl 一覧にありません"@,
{
    let mut out: Vec<char> = Vec::new();
    append_str(&mut out, "window id ");
    let h = hex_id_chars(id);
    crate::text::append_chars(&mut out, h.as_slice());
    append_str(&mut out, " は wmctrl 一覧にありません");
    string_of(out.as_slice())
}

} // verus!
