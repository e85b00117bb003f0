//! What the `window-jump` commands decide and print: capturing a window
//! into a slot, checking a slot before activation, clearing a slot, and the
//! text of the listings.
use vstd::prelude::*;

use crate::model::{
    state_for_window, update_slot_state, AppConfig, AppState, SlotRule, WindowInfo, SLOT_MAX,
    SLOT_MIN, geometry_of,
};
use crate::numfmt::{decimal_of, push_decimal_i64, push_digits};
use crate::presentation::{dash_if_blank, empty_dash, truncate, truncated};
use crate::suggest::{default_label, default_label_of, sviews, suggest_title_contains, suggestion};
use crate::text::{append_chars, append_str, chars_of, is_blank, str_blank, string_from, string_of};

verus! {

// ---------------------------------------------------------------------------
// Capturing
// ---------------------------------------------------------------------------

/// Captures `window` into `slot`: the label is the one given, else the old
/// label, else the proposed one; the class is the window's; the title piece
/// is the one given, else the proposed one; the notes stay. The slot's hints
/// become the window's. Returns the new rule.
pub fn apply_capture(
    config: &mut AppConfig,
    state: &mut AppState,
    slot: u8,
    window: &WindowInfo,
    windows: &[WindowInfo],
    label: Option<String>,
    title_contains: Option<String>,
) -> (rule: SlotRule)
    ensures
        rule.label@ == match label {
            Some(l) => l@,
            None => if old(config).slots@.contains_key(slot) && !is_blank(
                old(config).slots@[slot].label@,
            ) {
                old(config).slots@[slot].label@
            } else {
                default_label_of(*window)
            },
        },
        rule.wm_class@ == window.wm_class@,
        rule.title_contains@ == match title_contains {
            Some(t) => t@,
            None => suggestion(*window, windows@),
        },
        if old(config).slots@.contains_key(slot) {
            rule.notes == old(config).slots@[slot].notes
        } else {
            rule.notes@.len() == 0
        },
        final(config).version == old(config).version,
        final(config).slots@ == if rule.effectively_empty() {
            old(config).slots@.remove(slot)
        } else {
            old(config).slots@.insert(slot, rule)
        },
        final(state).version == old(state).version,
        final(state).slots@ == old(state).slots@.insert(slot, state_for_window(*window)),
{
    let mut rule = config.rule_or_default(slot);
    match label {
        Some(l) => {
            rule.label = l;
        },
        None => {
            if str_blank(rule.label.as_str()) {
                rule.label = default_label(window);
            }
        },
    }
    rule.wm_class = window.wm_class.clone();
    rule.title_contains = match title_contains {
        Some(t) => t,
        None => suggest_title_contains(window, windows),
    };
    update_slot_state(state, slot, window);
    config.set_slot(slot, rule.clone());
    rule
}

/// `slot {slot} を更新しました: {id} [{class}] {title}`, printed after a capture.
pub open spec fn capture_line_text(slot: u8, w: WindowInfo, wm_class: Seq<char>) -> Seq<char> {
    "slot "@ + decimal_of(slot as int) + " を更新しました: "@ + w.id_hex@ + " ["@ + wm_class + "] "@
        + w.title@
}

/// The line printed after a capture.
pub fn capture_line(slot: u8, window: &WindowInfo, rule: &SlotRule) -> (r: String)
    ensures
        r@ == capture_line_text(slot, *window, rule.wm_class@),
{
    let mut out: Vec<char> = Vec::new();
    append_str(&mut out, "slot ");
    push_digits(&mut out, slot as u64, 10);
    append_str(&mut out, " を更新しました: ");
    append_str(&mut out, window.id_hex.as_str());
    append_str(&mut out, " [");
    append_str(&mut out, rule.wm_class.as_str());
    append_str(&mut out, "] ");
    append_str(&mut out, window.title.as_str());
    string_of(out.as_slice())
}

// ---------------------------------------------------------------------------
// Activating and clearing
// ---------------------------------------------------------------------------

/// Why a slot cannot be activated before any window is looked at.
pub open spec fn activation_rule_error(config: AppConfig, slot: u8) -> Option<Seq<char>> {
    if !config.slots@.contains_key(slot) {
        Some("slot "@ + decimal_of(slot as int) + " は未登録です"@)
    } else if !config.slots@[slot].usable() {
        Some(
            "slot "@ + decimal_of(slot as int)
                + " のルールが不完全です。GUI から class を設定してください"@,
        )
    } else {
        None
    }
}

/// The rule to activate `slot` with: it must be registered and have a class.
pub fn activation_rule(config: &AppConfig, slot: u8) -> (r: Result<SlotRule, String>)
    ensures
        match r {
            Ok(rule) => activation_rule_error(*config, slot) is None && rule
                == config.slots@[slot],
            Err(e) => activation_rule_error(*config, slot) == Some(e@),
        },
{
    match config.slots.get(&slot) {
        None => {
            let mut out: Vec<char> = Vec::new();
            append_str(&mut out, "slot ");
            push_digits(&mut out, slot as u64, 10);
            append_str(&mut out, " は未登録です");
            Err(string_of(out.as_slice()))
        },
        Some(rule) => {
            if !rule.is_usable() {
                let mut out: Vec<char> = Vec::new();
                append_str(&mut out, "slot ");
                push_digits(&mut out, slot as u64, 10);
                append_str(&mut out, " のルールが不完全です。GUI から class を設定してください");
                Err(string_of(out.as_slice()))
            } else {
                Ok(rule.clone())
            }
        },
    }
}

/// `slot {slot} -> {id} [{class}] {title}`, printed after an activation.
pub open spec fn activation_line_text(slot: u8, w: WindowInfo) -> Seq<char> {
    "slot "@ + decimal_of(slot as int) + " -> "@ + w.id_hex@ + " ["@ + w.wm_class@ + "] "@
        + w.title@
}

/// The line printed after an activation.
pub fn activation_line(slot: u8, window: &WindowInfo) -> (r: String)
    ensures
        r@ == activation_line_text(slot, *window),
{
    let mut out: Vec<char> = Vec::new();
    append_str(&mut out, "slot ");
    push_digits(&mut out, slot as u64, 10);
    append_str(&mut out, " -> ");
    append_str(&mut out, window.id_hex.as_str());
    append_str(&mut out, " [");
    append_str(&mut out, window.wm_class.as_str());
    append_str(&mut out, "] ");
    append_str(&mut out, window.title.as_str());
    string_of(out.as_slice())
}

/// Removes the rule and the hints of `slot`.
pub fn clear_slot(config: &mut AppConfig, state: &mut AppState, slot: u8)
    ensures
        final(config).version == old(config).version,
        final(config).slots@ == old(config).slots@.remove(slot),
        final(state).version == old(state).version,
        final(state).slots@ == old(state).slots@.remove(slot),
{
    config.slots.remove(&slot);
    state.slots.remove(&slot);
}

// ---------------------------------------------------------------------------
// Listings
// ---------------------------------------------------------------------------

/// `s` padded with spaces on the right to `width` characters (as `{:<w}`).
pub open spec fn pad_right(s: Seq<char>, width: nat) -> Seq<char> {
    if s.len() >= width {
        s
    } else {
        s + Seq::new((width - s.len()) as nat, |i: int| ' ')
    }
}

/// Appends `s` padded to `width`.
pub fn push_padded(out: &mut Vec<char>, s: &[char], width: usize)
    ensures
        final(out)@ == old(out)@ + pad_right(s@, width as nat),
{
    append_chars(out, s);
    let mut n: usize = s.len();
    let ghost base = out@;
    while n < width
        invariant
            s@.len() <= n <= width || (n == s@.len() && n >= width),
            base == old(out)@ + s@,
            out@ == base + Seq::new((n - s@.len()) as nat, |i: int| ' '),
        decreases width - n,
    {
        out.push(' ');
        proof {
            assert(out@ =~= base + Seq::new((n + 1 - s@.len()) as nat, |i: int| ' '));
        }
        n = n + 1;
    }
    proof {
        if s@.len() >= width {
            assert(out@ =~= old(out)@ + s@);
        } else {
            assert(out@ =~= old(out)@ + pad_right(s@, width as nat));
        }
    }
}

/// `-` for an absent value, else the value.
pub open spec fn opt_text(o: Option<Seq<char>>) -> Seq<char> {
    match o {
        Some(s) => s,
        None => seq!['-'],
    }
}

/// The header of the window list.
pub open spec fn window_table_header() -> Seq<char> {
    pad_right("WINDOW_ID"@, 12) + " "@ + pad_right("DSK"@, 4) + " "@ + pad_right("PID"@, 7) + " "@
        + pad_right("WM_CLASS"@, 28) + " "@ + pad_right("GEOMETRY"@, 18) + " TITLE"@
}

/// One row of the window list.
pub open spec fn window_table_row(w: WindowInfo) -> Seq<char> {
    pad_right(w.id_hex@, 12) + " "@ + pad_right(decimal_of(w.desktop as int), 4) + " "@ + pad_right(
        opt_text(
            match w.pid {
                Some(p) => Some(decimal_of(p as int)),
                None => None,
            },
        ),
        7,
    ) + " "@ + pad_right(truncated(w.wm_class@, 28), 28) + " "@ + pad_right(geometry_of(w), 18)
        + " "@ + w.title@
}

/// The lines that `list-windows` prints.
pub open spec fn window_table(ws: Seq<WindowInfo>) -> Seq<Seq<char>> {
    if ws.len() == 0 {
        seq!["ウィンドウは見つかりませんでした"@]
    } else {
        seq![window_table_header()] + ws.map_values(|w: WindowInfo| window_table_row(w))
    }
}

fn table_header_line() -> (r: String)
    ensures
        r@ == window_table_header(),
{
    let mut out: Vec<char> = Vec::new();
    let a = chars_of("WINDOW_ID");
    push_padded(&mut out, a.as_slice(), 12);
    append_str(&mut out, " ");
    let b = chars_of("DSK");
    push_padded(&mut out, b.as_slice(), 4);
    append_str(&mut out, " ");
    let c = chars_of("PID");
    push_padded(&mut out, c.as_slice(), 7);
    append_str(&mut out, " ");
    let d = chars_of("WM_CLASS");
    push_padded(&mut out, d.as_slice(), 28);
    append_str(&mut out, " ");
    let e = chars_of("GEOMETRY");
    push_padded(&mut out, e.as_slice(), 18);
    append_str(&mut out, " TITLE");
    proof {
        assert(out@ =~= window_table_header());
    }
    string_of(out.as_slice())
}

/// One row of the window list.
pub fn window_table_line(w: &WindowInfo) -> (r: String)
    ensures
        r@ == window_table_row(*w),
{
    let mut out: Vec<char> = Vec::new();
    let id = chars_of(w.id_hex.as_str());
    push_padded(&mut out, id.as_slice(), 12);
    append_str(&mut out, " ");
    let d = crate::numfmt::decimal_i32(w.desktop);
    push_padded(&mut out, d.as_slice(), 4);
    append_str(&mut out, " ");
    let pid: Vec<char> = match w.pid {
        Some(p) => crate::numfmt::decimal_u64(p as u64),
        None => {
            let v: Vec<char> = vec!['-'];
            proof {
                assert(v@ =~= seq!['-']);
            }
            v
        },
    };
    push_padded(&mut out, pid.as_slice(), 7);
    append_str(&mut out, " ");
    let class = truncate(w.wm_class.as_str(), 28);
    let cc = chars_of(class.as_str());
    push_padded(&mut out, cc.as_slice(), 28);
    append_str(&mut out, " ");
    let geo = w.geometry();
    let gc = chars_of(geo.as_str());
    push_padded(&mut out, gc.as_slice(), 18);
    append_str(&mut out, " ");
    append_str(&mut out, w.title.as_str());
    proof {
        assert(out@ =~= window_table_row(*w));
    }
    string_of(out.as_slice())
}

/// The lines that `list-windows` prints for `windows`.
pub fn window_table_lines(windows: &[WindowInfo]) -> (r: Vec<String>)
    ensures
        sviews(r@) == window_table(windows@),
{
    let mut lines: Vec<String> = Vec::new();
    if windows.len() == 0 {
        lines.push(string_from("ウィンドウは見つかりませんでした"));
        proof {
            assert(sviews(lines@) =~= window_table(windows@));
        }
        return lines;
    }
    lines.push(table_header_line());
    let mut i: usize = 0;
    while i < windows.len()
        invariant
            i <= windows@.len(),
            windows@.len() > 0,
            sviews(lines@) == seq![window_table_header()] + windows@.take(i as int).map_values(
                |w: WindowInfo| window_table_row(w),
            ),
        decreases windows.len() - i,
    {
        let ghost before = lines@;
        lines.push(window_table_line(&windows[i]));
        proof {
            assert(windows@.take(i + 1).map_values(|w: WindowInfo| window_table_row(w))
                =~= windows@.take(i as int).map_values(|w: WindowInfo| window_table_row(w)).push(
                window_table_row(windows@[i as int]),
            ));
            assert(sviews(lines@) =~= sviews(before).push(
                window_table_row(windows@[i as int]),
            ));
        }
        i = i + 1;
    }
    proof {
        assert(windows@.take(i as int) =~= windows@);
    }
    lines
}

/// The lines that `inspect-active` prints.
pub open spec fn inspect_text(w: WindowInfo) -> Seq<Seq<char>> {
    seq![
        "window_id     : "@ + w.id_hex@,
        "desktop       : "@ + decimal_of(w.desktop as int),
        "pid           : "@ + opt_text(
            match w.pid {
                Some(p) => Some(decimal_of(p as int)),
                None => None,
            },
        ),
        "wm_class      : "@ + w.wm_class@,
        "geometry      : "@ + geometry_of(w),
        "title         : "@ + w.title@,
    ]
}

/// The lines that `inspect-active` prints for `w`.
pub fn inspect_lines(w: &WindowInfo) -> (r: Vec<String>)
    ensures
        sviews(r@) == inspect_text(*w),
{
    let mut lines: Vec<String> = Vec::new();
    let mut a: Vec<char> = Vec::new();
    append_str(&mut a, "window_id     : ");
    append_str(&mut a, w.id_hex.as_str());
    lines.push(string_of(a.as_slice()));
    let mut b: Vec<char> = Vec::new();
    append_str(&mut b, "desktop       : ");
    push_decimal_i64(&mut b, w.desktop as i64);
    lines.push(string_of(b.as_slice()));
    let mut c: Vec<char> = Vec::new();
    append_str(&mut c, "pid           : ");
    match w.pid {
        Some(p) => push_digits(&mut c, p as u64, 10),
        None => c.push('-'),
    }
    proof {
        assert(c@ =~= "pid           : "@ + opt_text(
            match w.pid {
                Some(p) => Some(decimal_of(p as int)),
                None => None,
            },
        ));
    }
    lines.push(string_of(c.as_slice()));
    let mut d: Vec<char> = Vec::new();
    append_str(&mut d, "wm_class      : ");
    append_str(&mut d, w.wm_class.as_str());
    lines.push(string_of(d.as_slice()));
    let mut e: Vec<char> = Vec::new();
    append_str(&mut e, "geometry      : ");
    let g = w.geometry();
    append_str(&mut e, g.as_str());
    lines.push(string_of(e.as_slice()));
    let mut f: Vec<char> = Vec::new();
    append_str(&mut f, "title         : ");
    append_str(&mut f, w.title.as_str());
    lines.push(string_of(f.as_slice()));
    proof {
        assert(sviews(lines@) =~= inspect_text(*w));
    }
    lines
}

/// The optional text behind an optional string.
pub open spec fn opt_string_view(o: Option<String>) -> Option<Seq<char>> {
    match o {
        Some(s) => Some(s@),
        None => None,
    }
}

/// The block that `list-slots` prints for a registered slot.
pub open spec fn slot_block(config: AppConfig, state: AppState, slot: u8) -> Seq<Seq<char>> {
    let rule = config.slots@[slot];
    let st = state.slots@.contains_key(slot);
    seq![
        "slot "@ + decimal_of(slot as int),
        "  label          : "@ + dash_if_blank(rule.label@),
        "  wm_class       : "@ + dash_if_blank(rule.wm_class@),
        "  title_contains : "@ + dash_if_blank(rule.title_contains@),
        "  desktop_hint   : "@ + opt_text(
            if st {
                match state.slots@[slot].desktop_hint {
                    Some(d) => Some(decimal_of(d as int)),
                    None => None,
                }
            } else {
                None
            },
        ),
        "  last_window_id : "@ + opt_text(
            if st {
                opt_string_view(state.slots@[slot].last_window_id)
            } else {
                None
            },
        ),
        "  last_seen_title: "@ + opt_text(
            if st {
                opt_string_view(state.slots@[slot].last_seen_title)
            } else {
                None
            },
        ),
        "  notes          : "@ + dash_if_blank(rule.notes@),
    ]
}

/// The blocks of the registered slots among `SLOT_MIN..=k`, in order.
pub open spec fn slot_blocks(config: AppConfig, state: AppState, k: int) -> Seq<Seq<char>>
    decreases k,
{
    if k < SLOT_MIN {
        seq![]
    } else {
        slot_blocks(config, state, k - 1) + if config.slots@.contains_key(k as u8) {
            slot_block(config, state, k as u8)
        } else {
            seq![]
        }
    }
}

/// The lines that `list-slots` prints.
pub open spec fn slot_listing(config: AppConfig, state: AppState) -> Seq<Seq<char>> {
    if config.slots@.is_empty() {
        seq!["登録済み slot はありません"@]
    } else {
        slot_blocks(config, state, SLOT_MAX as int)
    }
}

fn opt_line(prefix: &str, value: Option<&String>) -> (r: String)
    ensures
        r@ == prefix@ + opt_text(
            match value {
                Some(s) => Some(s@),
                None => None,
            },
        ),
{
    let mut out: Vec<char> = Vec::new();
    append_str(&mut out, prefix);
    match value {
        Some(s) => append_str(&mut out, s.as_str()),
        None => out.push('-'),
    }
    proof {
        assert(out@ =~= prefix@ + opt_text(
            match value {
                Some(s) => Some(s@),
                None => None,
            },
        ));
    }
    string_of(out.as_slice())
}

fn dash_line(prefix: &str, value: &String) -> (r: String)
    ensures
        r@ == prefix@ + dash_if_blank(value@),
{
    let mut out: Vec<char> = Vec::new();
    append_str(&mut out, prefix);
    let d = empty_dash(value.as_str());
    append_str(&mut out, d.as_str());
    string_of(out.as_slice())
}

/// The block that `list-slots` prints for `slot`, which must be registered.
pub fn slot_block_lines(config: &AppConfig, state: &AppState, slot: u8) -> (r: Vec<String>)
    requires
        config.slots@.contains_key(slot),
    ensures
        sviews(r@) == slot_block(*config, *state, slot),
{
    let rule = config.slots.get(&slot).unwrap();
    let st = state.slots.get(&slot);
    let mut lines: Vec<String> = Vec::new();
    let mut head: Vec<char> = Vec::new();
    append_str(&mut head, "slot ");
    push_digits(&mut head, slot as u64, 10);
    lines.push(string_of(head.as_slice()));
    lines.push(dash_line("  label          : ", &rule.label));
    lines.push(dash_line("  wm_class       : ", &rule.wm_class));
    lines.push(dash_line("  title_contains : ", &rule.title_contains));
    let mut dh: Vec<char> = Vec::new();
    append_str(&mut dh, "  desktop_hint   : ");
    let hint: Option<i32> = match st {
        Some(s) => s.desktop_hint,
        None => None,
    };
    match hint {
        Some(d) => push_decimal_i64(&mut dh, d as i64),
        None => dh.push('-'),
    }
    proof {
        assert(dh@ =~= "  desktop_hint   : "@ + opt_text(
            if state.slots@.contains_key(slot) {
                match state.slots@[slot].desktop_hint {
                    Some(d) => Some(decimal_of(d as int)),
                    None => None,
                }
            } else {
                None
            },
        ));
    }
    lines.push(string_of(dh.as_slice()));
    let last_id: Option<&String> = match st {
        Some(s) => match &s.last_window_id {
            Some(v) => Some(v),
            None => None,
        },
        None => None,
    };
    lines.push(opt_line("  last_window_id : ", last_id));
    let last_title: Option<&String> = match st {
        Some(s) => match &s.last_seen_title {
            Some(v) => Some(v),
            None => None,
        },
        None => None,
    };
    lines.push(opt_line("  last_seen_title: ", last_title));
    lines.push(dash_line("  notes          : ", &rule.notes));
    proof {
        assert(sviews(lines@) =~= slot_block(*config, *state, slot));
    }
    lines
}

/// The lines that `list-slots` prints.
pub fn slot_listing_lines(config: &AppConfig, state: &AppState) -> (r: Vec<String>)
    ensures
        sviews(r@) == slot_listing(*config, *state),
{
    let mut lines: Vec<String> = Vec::new();
    if config.slots.is_empty() {
        lines.push(string_from("登録済み slot はありません"));
        proof {
            assert(sviews(lines@) =~= slot_listing(*config, *state));
        }
        return lines;
    }
    let mut slot: u8 = SLOT_MIN;
    proof {
        assert(sviews(lines@) =~= slot_blocks(*config, *state, SLOT_MIN - 1));
    }
    while slot <= SLOT_MAX
        invariant
            SLOT_MIN <= slot <= SLOT_MAX + 1,
            !config.slots@.is_empty(),
            sviews(lines@) == slot_blocks(*config, *state, slot - 1),
        decreases SLOT_MAX + 1 - slot,
    {
        if config.slots.contains_key(&slot) {
            let block = slot_block_lines(config, state, slot);
            let mut j: usize = 0;
            let ghost base = sviews(lines@);
            while j < block.len()
                invariant
                    j <= block@.len(),
                    sviews(lines@) == base + sviews(block@).take(j as int),
                decreases block.len() - j,
            {
                let ghost before = lines@;
                lines.push(block[j].clone());
                proof {
                    assert(sviews(lines@) =~= sviews(before).push(block@[j as int]@));
                    assert(sviews(block@).take(j + 1) =~= sviews(block@).take(j as int).push(
                        block@[j as int]@,
                    ));
                }
                j = j + 1;
            }
            proof {
                assert(sviews(block@).take(j as int) =~= sviews(block@));
                assert(slot as int == (slot as int - 1) + 1);
            }
        } else {
            proof {
                assert(slot_blocks(*config, *state, slot as int) =~= slot_blocks(
                    *config,
                    *state,
                    slot - 1,
                ));
            }
        }
        slot = slot + 1;
    }
    lines
}

// ---------------------------------------------------------------------------
// The GUI's command line
// ---------------------------------------------------------------------------

/// What the GUI program does with its arguments.
#[derive(Debug)]
pub enum GuiArgs {
    /// Print the version.
    Version,
    /// Print the usage.
    Help,
    /// Refuse this argument.
    Unknown(String),
    /// Open the window.
    Run,
}

/// Whether `args` holds `a` or `b`.
pub open spec fn has_flag(args: Seq<Seq<char>>, a: Seq<char>, b: Seq<char>) -> bool {
    exists|i: int| 0 <= i < args.len() && (args[i] == a || args[i] == b)
}

fn find_flag(args: &[String], a: &str, b: &str) -> (r: bool)
    ensures
        r == has_flag(sviews(args@), a@, b@),
{
    let mut i: usize = 0;
    while i < args.len()
        invariant
            i <= args@.len(),
            forall|k: int| 0 <= k < i ==> !(sviews(args@)[k] == a@ || sviews(args@)[k] == b@),
        decreases args.len() - i,
    {
        let s = args[i].as_str();
        if crate::text::str_equals(s, a) || crate::text::str_equals(s, b) {
            proof {
                assert(sviews(args@)[i as int] == args@[i as int]@);
            }
            return true;
        }
        i = i + 1;
    }
    false
}

/// Decides what the GUI program does with its arguments.
pub fn gui_args(args: &[String]) -> (r: GuiArgs)
    ensures
        has_flag(sviews(args@), "--version"@, "-V"@) ==> r is Version,
        !has_flag(sviews(args@), "--version"@, "-V"@) && has_flag(sviews(args@), "--help"@, "-h"@)
            ==> r is Help,
        !has_flag(sviews(args@), "--version"@, "-V"@) && !has_flag(sviews(args@), "--help"@, "-h"@)
            ==> match r {
            GuiArgs::Unknown(a) => args@.len() > 0 && a@ == args@[0]@,
            GuiArgs::Run => args@.len() == 0,
            _ => false,
        },
{
    if find_flag(args, "--version", "-V") {
        GuiArgs::Version
    } else if find_flag(args, "--help", "-h") {
        GuiArgs::Help
    } else if args.len() > 0 {
        GuiArgs::Unknown(args[0].clone())
    } else {
        GuiArgs::Run
    }
}

/// `unknown argument for GUI binary: {arg}`.
pub fn unknown_gui_argument(arg: &str) -> (r: String)
    ensures
        r@ == "unknown argument for GUI binary: "@ + arg@,
{
    let mut out: Vec<char> = Vec::new();
    append_str(&mut out, "unknown argument for GUI binary: ");
    append_str(&mut out, arg);
    string_of(out.as_slice())
}

// ---------------------------------------------------------------------------
// Failing external commands
// ---------------------------------------------------------------------------

/// `{program} が失敗しました: {stderr}` (a blank error output shown as `-`),
/// for a command whose output was wanted.
pub fn command_failure(program: &str, stderr: &str) -> (r: String)
    ensures
        r@ == program@ + " が失敗しました: "@ + dash_if_blank(stderr@),
{
    let mut out: Vec<char> = Vec::new();
    append_str(&mut out, program);
    append_str(&mut out, " が失敗しました: ");
    let e = empty_dash(stderr);
    append_str(&mut out, e.as_str());
    string_of(out.as_slice())
}

/// `{program} が exit status {status} で失敗しました。stderr={stderr}
/// stdout={stdout}`, blank outputs shown as `-`.
pub fn command_status_failure(program: &str, status: &str, stderr: &str, stdout: &str) -> (r:
    String)
    ensures
        r@ == program@ + " が exit status "@ + status@ + " で失敗しました。stderr="@ + dash_if_blank(
            stderr@,
        ) + " stdout="@ + dash_if_blank(stdout@),
{
    let mut out: Vec<char> = Vec::new();
    append_str(&mut out, program);
    append_str(&mut out, " が exit status ");
    append_str(&mut out, status);
    append_str(&mut out, " で失敗しました。stderr=");
    let e = empty_dash(stderr);
    append_str(&mut out, e.as_str());
    append_str(&mut out, " stdout=");
    let o = empty_dash(stdout);
    append_str(&mut out, o.as_str());
    string_of(out.as_slice())
}

} // verus!
