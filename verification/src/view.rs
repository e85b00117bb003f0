//! What the panels of the configuration GUI show and which of their buttons
//! are enabled: every text that the GUI draws is built here from the editor
//! state; the GUI shell only lays it out.
use vstd::prelude::*;

use crate::cli::{opt_text, pad_right, push_padded};
use crate::editor::{rule_in, WindowJumpApp};
use crate::matching::{
    candidates_of, clone_windows_at, collect_matching, rule_matches, rule_matches_spec, windows_at,
};
use crate::model::{geometry_of, AppState, SlotRule, WindowInfo};
use crate::numfmt::{decimal_of, push_decimal_i64, push_digits};
use crate::presentation::{truncate, truncated};
use crate::text::{
    append_str, chars_of, contains_chars, contains_seq, is_blank, normalize_chars, normalized,
    str_blank, string_from, string_of,
};

verus! {

// ---------------------------------------------------------------------------
// Window lines
// ---------------------------------------------------------------------------

/// The decimal text of an optional pid, `-` when absent.
pub open spec fn pid_text(pid: Option<u32>) -> Seq<char> {
    opt_text(
        match pid {
            Some(p) => Some(decimal_of(p as int)),
            None => None,
        },
    )
}

/// An optional pid as `{:?}` shows it: `Some(42)` or `None`.
pub open spec fn pid_debug_text(pid: Option<u32>) -> Seq<char> {
    match pid {
        Some(p) => "Some("@ + decimal_of(p as int) + ")"@,
        None => "None"@,
    }
}

fn push_pid(out: &mut Vec<char>, pid: Option<u32>)
    ensures
        final(out)@ == old(out)@ + pid_text(pid),
{
    match pid {
        Some(p) => push_digits(out, p as u64, 10),
        None => out.push('-'),
    }
    proof {
        assert(final(out)@ =~= old(out)@ + pid_text(pid));
    }
}

/// `ACTIVE: {id} [{class}] {title}` for the active window (title cut to 90
/// characters), `ACTIVE: 不明` when it is unknown.
pub open spec fn active_summary_text(w: Option<WindowInfo>) -> Seq<char> {
    match w {
        Some(w) => "ACTIVE: "@ + w.id_hex@ + " ["@ + w.wm_class@ + "] "@ + truncated(w.title@, 90),
        None => "ACTIVE: 不明"@,
    }
}

/// The line naming the active window.
pub fn active_summary(window: Option<&WindowInfo>) -> (r: String)
    ensures
        r@ == active_summary_text(
            match window {
                Some(w) => Some(*w),
                None => None,
            },
        ),
{
    match window {
        Some(w) => {
            let mut out: Vec<char> = Vec::new();
            append_str(&mut out, "ACTIVE: ");
            append_str(&mut out, w.id_hex.as_str());
            append_str(&mut out, " [");
            append_str(&mut out, w.wm_class.as_str());
            append_str(&mut out, "] ");
            let t = w.short_title(90);
            append_str(&mut out, t.as_str());
            string_of(out.as_slice())
        },
        None => string_from("ACTIVE: 不明"),
    }
}

/// `LIVE SELECTED: {id} [{class}] {title}` (title cut to 90 characters).
pub open spec fn live_selected_text(w: WindowInfo) -> Seq<char> {
    "LIVE SELECTED: "@ + w.id_hex@ + " ["@ + w.wm_class@ + "] "@ + truncated(w.title@, 90)
}

/// The line naming the window chosen in the catalog.
pub fn live_selected_line(w: &WindowInfo) -> (r: String)
    ensures
        r@ == live_selected_text(*w),
{
    let mut out: Vec<char> = Vec::new();
    append_str(&mut out, "LIVE SELECTED: ");
    append_str(&mut out, w.id_hex.as_str());
    append_str(&mut out, " [");
    append_str(&mut out, w.wm_class.as_str());
    append_str(&mut out, "] ");
    let t = w.short_title(90);
    append_str(&mut out, t.as_str());
    string_of(out.as_slice())
}

/// The details of a registration candidate's window, one field per line.
pub open spec fn candidate_detail_text(w: WindowInfo) -> Seq<char> {
    "window_id : "@ + w.id_hex@ + "\ndesktop   : "@ + decimal_of(w.desktop as int)
        + "\npid       : "@ + pid_text(w.pid) + "\nwm_class  : "@ + w.wm_class@
        + "\ngeometry  : "@ + geometry_of(w) + "\ntitle     : "@ + w.title@
}

/// Describes the window of a registration candidate.
pub fn candidate_detail(w: &WindowInfo) -> (r: String)
    ensures
        r@ == candidate_detail_text(*w),
{
    let mut out: Vec<char> = Vec::new();
    append_str(&mut out, "window_id : ");
    append_str(&mut out, w.id_hex.as_str());
    append_str(&mut out, "\ndesktop   : ");
    push_decimal_i64(&mut out, w.desktop as i64);
    append_str(&mut out, "\npid       : ");
    push_pid(&mut out, w.pid);
    append_str(&mut out, "\nwm_class  : ");
    append_str(&mut out, w.wm_class.as_str());
    append_str(&mut out, "\ngeometry  : ");
    let g = w.geometry();
    append_str(&mut out, g.as_str());
    append_str(&mut out, "\ntitle     : ");
    append_str(&mut out, w.title.as_str());
    proof {
        assert(out@ =~= candidate_detail_text(*w));
    }
    string_of(out.as_slice())
}

/// The details of a window chosen in the catalog, one field per line.
pub open spec fn window_detail_text(w: WindowInfo) -> Seq<char> {
    "id       : "@ + w.id_hex@ + "\ndesktop  : "@ + decimal_of(w.desktop as int) + "\npid      : "@
        + pid_text(w.pid) + "\napp      : "@ + w.wm_class@ + "\nhost     : "@ + w.host@
        + "\ngeometry : "@ + geometry_of(w) + "\ntitle    : "@ + w.title@
}

/// Describes the window chosen in the catalog.
pub fn window_detail(w: &WindowInfo) -> (r: String)
    ensures
        r@ == window_detail_text(*w),
{
    let mut out: Vec<char> = Vec::new();
    append_str(&mut out, "id       : ");
    append_str(&mut out, w.id_hex.as_str());
    append_str(&mut out, "\ndesktop  : ");
    push_decimal_i64(&mut out, w.desktop as i64);
    append_str(&mut out, "\npid      : ");
    push_pid(&mut out, w.pid);
    append_str(&mut out, "\napp      : ");
    append_str(&mut out, w.wm_class.as_str());
    append_str(&mut out, "\nhost     : ");
    append_str(&mut out, w.host.as_str());
    append_str(&mut out, "\ngeometry : ");
    let g = w.geometry();
    append_str(&mut out, g.as_str());
    append_str(&mut out, "\ntitle    : ");
    append_str(&mut out, w.title.as_str());
    proof {
        assert(out@ =~= window_detail_text(*w));
    }
    string_of(out.as_slice())
}

// ---------------------------------------------------------------------------
// Slot list
// ---------------------------------------------------------------------------

/// The title of a slot in the slot list: its label, else its class (cut to
/// 26 characters), else `<empty>`.
pub open spec fn slot_list_title_text(slot: u8, rule: SlotRule) -> Seq<char> {
    "slot "@ + decimal_of(slot as int) + "  "@ + if !is_blank(rule.label@) {
        truncated(rule.label@, 26)
    } else if !is_blank(rule.wm_class@) {
        truncated(rule.wm_class@, 26)
    } else {
        "<empty>"@
    }
}

/// The title of a slot in the slot list.
pub fn slot_list_title(slot: u8, rule: &SlotRule) -> (r: String)
    ensures
        r@ == slot_list_title_text(slot, *rule),
{
    let mut out: Vec<char> = Vec::new();
    append_str(&mut out, "slot ");
    push_digits(&mut out, slot as u64, 10);
    append_str(&mut out, "  ");
    if !str_blank(rule.label.as_str()) {
        let t = truncate(rule.label.as_str(), 26);
        append_str(&mut out, t.as_str());
    } else if !str_blank(rule.wm_class.as_str()) {
        let t = truncate(rule.wm_class.as_str(), 26);
        append_str(&mut out, t.as_str());
    } else {
        append_str(&mut out, "<empty>");
    }
    string_of(out.as_slice())
}

/// `last: {title}`, the title cut to 34 characters.
pub fn last_title_line(title: &str) -> (r: String)
    ensures
        r@ == "last: "@ + truncated(title@, 34),
{
    let mut out: Vec<char> = Vec::new();
    append_str(&mut out, "last: ");
    let t = truncate(title, 34);
    append_str(&mut out, t.as_str());
    string_of(out.as_slice())
}

// ---------------------------------------------------------------------------
// Slot editor
// ---------------------------------------------------------------------------

/// What the editor shows about the registration candidate for the slot on
/// screen.
#[derive(Debug)]
pub enum CandidateView {
    /// There is no candidate.
    Nothing,
    /// The candidate is meant for another slot.
    OtherSlot(u8),
    /// The candidate is meant for this slot and can be edited.
    Editable,
}

/// The note shown when the candidate is meant for `slot`, not the one on
/// screen.
pub open spec fn other_candidate_text(slot: u8) -> Seq<char> {
    "slot "@ + decimal_of(slot as int) + " に未登録の候補があります。左の slot "@ + decimal_of(
        slot as int,
    ) + " を選んで確認してください。"@
}

/// The note about a candidate meant for another slot.
pub fn other_candidate_note(slot: u8) -> (r: String)
    ensures
        r@ == other_candidate_text(slot),
{
    let mut out: Vec<char> = Vec::new();
    append_str(&mut out, "slot ");
    push_digits(&mut out, slot as u64, 10);
    append_str(&mut out, " に未登録の候補があります。左の slot ");
    push_digits(&mut out, slot as u64, 10);
    append_str(&mut out, " を選んで確認してください。");
    string_of(out.as_slice())
}

/// The label of the save button.
pub open spec fn save_label_text(dirty: bool) -> Seq<char> {
    if dirty {
        "Save"@
    } else {
        "Save (変更なし)"@
    }
}

/// The label of the save button: whether there is anything to save shows.
pub fn save_label(dirty: bool) -> (r: &'static str)
    ensures
        r@ == save_label_text(dirty),
{
    if dirty {
        "Save"
    } else {
        "Save (変更なし)"
    }
}

/// The label of the button that opens or closes the window catalog.
pub fn catalog_button_label(open: bool) -> (r: &'static str)
    ensures
        r@ == if open {
            "Window catalog を閉じる"@
        } else {
            "Window catalog を開く"@
        },
{
    if open {
        "Window catalog を閉じる"
    } else {
        "Window catalog を開く"
    }
}

/// The three hint lines of a slot: desktop, window id and title, `-` where
/// none is recorded.
pub open spec fn metadata_text(state: AppState, slot: u8) -> Seq<Seq<char>> {
    let st = state.slots@.contains_key(slot);
    seq![
        "desktop_hint   : "@ + opt_text(
            if st {
                match state.slots@[slot].desktop_hint {
                    Some(d) => Some(decimal_of(d as int)),
                    None => None,
                }
            } else {
                None
            },
        ),
        "last_window_id : "@ + opt_text(
            if st {
                match state.slots@[slot].last_window_id {
                    Some(s) => Some(s@),
                    None => None,
                }
            } else {
                None
            },
        ),
        "last_seen_title: "@ + opt_text(
            if st {
                match state.slots@[slot].last_seen_title {
                    Some(s) => Some(s@),
                    None => None,
                }
            } else {
                None
            },
        ),
    ]
}

fn opt_string_line(prefix: &str, value: &Option<String>) -> (r: String)
    ensures
        r@ == prefix@ + opt_text(
            match *value {
                Some(s) => Some(s@),
                None => None,
            },
        ),
{
    let mut out: Vec<char> = Vec::new();
    append_str(&mut out, prefix);
    match value {
        Some(s) => append_str(&mut out, s.as_str()),
        None => out.push('-'),
    }
    proof {
        assert(out@ =~= prefix@ + opt_text(
            match *value {
                Some(s) => Some(s@),
                None => None,
            },
        ));
    }
    string_of(out.as_slice())
}

/// The hint lines of `slot`.
pub fn metadata_lines(state: &AppState, slot: u8) -> (r: Vec<String>)
    ensures
        r@.map_values(|s: String| s@) == metadata_text(*state, slot),
{
    let st = state.slots.get(&slot);
    let mut dh: Vec<char> = Vec::new();
    append_str(&mut dh, "desktop_hint   : ");
    let hint: Option<i32> = match st {
        Some(s) => s.desktop_hint,
        None => None,
    };
    match hint {
        Some(d) => push_decimal_i64(&mut dh, d as i64),
        None => dh.push('-'),
    }
    proof {
        assert(dh@ =~= metadata_text(*state, slot)[0]);
    }
    let none: Option<String> = None;
    let id_line = match st {
        Some(s) => opt_string_line("last_window_id : ", &s.last_window_id),
        None => opt_string_line("last_window_id : ", &none),
    };
    let title_line = match st {
        Some(s) => opt_string_line("last_seen_title: ", &s.last_seen_title),
        None => opt_string_line("last_seen_title: ", &none),
    };
    let mut lines: Vec<String> = Vec::new();
    lines.push(string_of(dh.as_slice()));
    lines.push(id_line);
    lines.push(title_line);
    proof {
        assert(lines@.map_values(|s: String| s@) =~= metadata_text(*state, slot));
    }
    lines
}

// ---------------------------------------------------------------------------
// Resolution preview
// ---------------------------------------------------------------------------

/// The windows that `rule` matches, in list order.
pub fn preview_matches(rule: &SlotRule, windows: &[WindowInfo]) -> (r: Vec<WindowInfo>)
    ensures
        r@ == windows_at(windows@, candidates_of(*rule, windows@)),
{
    let idx = collect_matching(rule, windows);
    clone_windows_at(windows, &idx)
}

/// The count line of the preview.
pub open spec fn preview_count_text(n: nat) -> Seq<char> {
    if n == 0 {
        "一致候補は 0 件です。"@
    } else {
        "一致候補: "@ + decimal_of(n as int) + " 件"@
    }
}

/// Says how many windows the rule matches.
pub fn preview_count_line(n: usize) -> (r: String)
    ensures
        r@ == preview_count_text(n as nat),
{
    if n == 0 {
        string_from("一致候補は 0 件です。")
    } else {
        let mut out: Vec<char> = Vec::new();
        append_str(&mut out, "一致候補: ");
        push_digits(&mut out, n as u64, 10);
        append_str(&mut out, " 件");
        string_of(out.as_slice())
    }
}

/// A matching window in the preview: marked when active, with its id,
/// desktop, class (cut and padded to 28) and title (cut to 70).
pub open spec fn preview_line_text(w: WindowInfo, active: Option<u64>) -> Seq<char> {
    (if active == Some(w.id) {
        "ACTIVE "@
    } else {
        "       "@
    }) + w.id_hex@ + "  D"@ + decimal_of(w.desktop as int) + "  "@ + pad_right(
        truncated(w.wm_class@, 28),
        28,
    ) + "  "@ + truncated(w.title@, 70)
}

/// One matching window in the preview.
pub fn preview_line(w: &WindowInfo, active: Option<u64>) -> (r: String)
    ensures
        r@ == preview_line_text(*w, active),
{
    let mut out: Vec<char> = Vec::new();
    let is_active = match active {
        Some(id) => id == w.id,
        None => false,
    };
    if is_active {
        append_str(&mut out, "ACTIVE ");
    } else {
        append_str(&mut out, "       ");
    }
    append_str(&mut out, w.id_hex.as_str());
    append_str(&mut out, "  D");
    push_decimal_i64(&mut out, w.desktop as i64);
    append_str(&mut out, "  ");
    let class = truncate(w.wm_class.as_str(), 28);
    let cc = chars_of(class.as_str());
    push_padded(&mut out, cc.as_slice(), 28);
    append_str(&mut out, "  ");
    let t = w.short_title(70);
    append_str(&mut out, t.as_str());
    proof {
        assert(out@ =~= preview_line_text(*w, active));
    }
    string_of(out.as_slice())
}

/// `geom={geometry} pid={pid:?}` under a matching window.
pub open spec fn preview_geometry_text(w: WindowInfo) -> Seq<char> {
    "geom="@ + geometry_of(w) + " pid="@ + pid_debug_text(w.pid)
}

/// The geometry line under a matching window.
pub fn preview_geometry_line(w: &WindowInfo) -> (r: String)
    ensures
        r@ == preview_geometry_text(*w),
{
    let mut out: Vec<char> = Vec::new();
    append_str(&mut out, "geom=");
    let g = w.geometry();
    append_str(&mut out, g.as_str());
    append_str(&mut out, " pid=");
    match w.pid {
        Some(p) => {
            append_str(&mut out, "Some(");
            push_digits(&mut out, p as u64, 10);
            append_str(&mut out, ")");
        },
        None => append_str(&mut out, "None"),
    }
    proof {
        assert(out@ =~= preview_geometry_text(*w));
    }
    string_of(out.as_slice())
}

// ---------------------------------------------------------------------------
// Window catalog
// ---------------------------------------------------------------------------

/// Whether the catalog shows `w` under `filter`: a blank filter shows every
/// window, otherwise the trimmed lower-case filter must occur in the
/// trimmed lower-case `{class} {title}`.
pub open spec fn catalog_shows_spec(filter: Seq<char>, w: WindowInfo) -> bool {
    normalized(filter).len() == 0 || contains_seq(
        normalized(w.wm_class@ + " "@ + w.title@),
        normalized(filter),
    )
}

/// Returns whether the catalog shows `w` under `filter`.
pub fn catalog_shows(filter: &str, w: &WindowInfo) -> (b: bool)
    ensures
        b == catalog_shows_spec(filter@, *w),
{
    let fv = chars_of(filter);
    let f = normalize_chars(fv.as_slice());
    if f.len() == 0 {
        return true;
    }
    let mut hay: Vec<char> = Vec::new();
    append_str(&mut hay, w.wm_class.as_str());
    append_str(&mut hay, " ");
    append_str(&mut hay, w.title.as_str());
    let h = normalize_chars(hay.as_slice());
    contains_chars(h.as_slice(), f.as_slice())
}

/// The catalog searches the title as well as the class: a window whose
/// trimmed lower-case title holds the (non-blank, trimmed, lower-case)
/// filter is shown, as long as lower-casing `{class} {title}` as a whole
/// keeps the lower-case title in it (it does unless a final capital sigma
/// changes form at the seam).
pub proof fn lemma_catalog_finds_title(filter: Seq<char>, w: WindowInfo)
    requires
        contains_seq(normalized(w.title@), normalized(filter)),
        contains_seq(normalized(w.wm_class@ + " "@ + w.title@), normalized(w.title@)),
    ensures
        catalog_shows_spec(filter, w),
{
    let f = normalized(filter);
    let t = normalized(w.title@);
    let h = normalized(w.wm_class@ + " "@ + w.title@);
    let i = choose|i: int| crate::text::occurs_at(t, f, i);
    let j = choose|j: int| crate::text::occurs_at(h, t, j);
    assert(h.subrange(j + i, j + i + f.len()) =~= f) by {
        assert forall|k: int| 0 <= k < f.len() implies h.subrange(j + i, j + i + f.len())[k]
            == f[k] by {
            assert(h.subrange(j, j + t.len())[i + k] == h[j + i + k]);
            assert(t.subrange(i, i + f.len())[k] == t[i + k]);
        }
    }
    assert(crate::text::occurs_at(h, f, j + i));
}

/// The state column of a catalog row: `ACTIVE ` and `MATCH ` as they
/// apply, `-` when neither does.
pub open spec fn catalog_marks(w: WindowInfo, active: Option<u64>, rule: SlotRule) -> Seq<char> {
    let m = (if active == Some(w.id) {
        "ACTIVE "@
    } else {
        seq![]
    }) + (if rule_matches_spec(rule, w) {
        "MATCH "@
    } else {
        seq![]
    });
    if m.len() == 0 {
        seq!['-']
    } else {
        m
    }
}

/// A row of the window catalog.
pub open spec fn catalog_row_text(w: WindowInfo, active: Option<u64>, rule: SlotRule) -> Seq<char> {
    pad_right(catalog_marks(w, active, rule), 9) + " "@ + pad_right(w.id_hex@, 11) + " D"@
        + pad_right(decimal_of(w.desktop as int), 3) + " "@ + pad_right(
        truncated(w.wm_class@, 28),
        28,
    ) + " "@ + truncated(w.title@, 80)
}

/// One row of the window catalog.
pub fn catalog_row(w: &WindowInfo, active: Option<u64>, rule: &SlotRule) -> (r: String)
    ensures
        r@ == catalog_row_text(*w, active, *rule),
{
    let mut marks: Vec<char> = Vec::new();
    let is_active = match active {
        Some(id) => id == w.id,
        None => false,
    };
    if is_active {
        append_str(&mut marks, "ACTIVE ");
    }
    if rule_matches(rule, w) {
        append_str(&mut marks, "MATCH ");
    }
    if marks.len() == 0 {
        marks.push('-');
    }
    proof {
        assert(marks@ =~= catalog_marks(*w, active, *rule));
    }
    let mut out: Vec<char> = Vec::new();
    push_padded(&mut out, marks.as_slice(), 9);
    append_str(&mut out, " ");
    let id = chars_of(w.id_hex.as_str());
    push_padded(&mut out, id.as_slice(), 11);
    append_str(&mut out, " D");
    let d = crate::numfmt::decimal_i32(w.desktop);
    push_padded(&mut out, d.as_slice(), 3);
    append_str(&mut out, " ");
    let class = truncate(w.wm_class.as_str(), 28);
    let cc = chars_of(class.as_str());
    push_padded(&mut out, cc.as_slice(), 28);
    append_str(&mut out, " ");
    let t = w.short_title(80);
    append_str(&mut out, t.as_str());
    proof {
        assert(out@ =~= catalog_row_text(*w, active, *rule));
    }
    string_of(out.as_slice())
}

// ---------------------------------------------------------------------------
// Keys
// ---------------------------------------------------------------------------

/// Whether a key press closes the GUI: `Escape` or `q` without modifiers,
/// and never while a text field has the focus.
pub open spec fn quit_spec(text_edit_focused: bool, no_modifiers: bool, escape: bool, q: bool) -> bool {
    !text_edit_focused && no_modifiers && (escape || q)
}

/// Returns whether the GUI is to close.
pub fn quit_requested(text_edit_focused: bool, no_modifiers: bool, escape: bool, q: bool) -> (b: bool)
    ensures
        b == quit_spec(text_edit_focused, no_modifiers, escape, q),
{
    if text_edit_focused {
        return false;
    }
    no_modifiers && (escape || q)
}

// ---------------------------------------------------------------------------
// Editor decisions that the panels need
// ---------------------------------------------------------------------------

impl WindowJumpApp {
    /// What the editor of `slot` shows about the registration candidate.
    pub fn candidate_view(&self, slot: u8) -> (r: CandidateView)
        ensures
            match self.capture_candidate {
                None => r is Nothing,
                Some(c) => if c.slot == slot {
                    r is Editable
                } else {
                    r == CandidateView::OtherSlot(c.slot)
                },
            },
    {
        match &self.capture_candidate {
            None => CandidateView::Nothing,
            Some(c) => {
                if c.slot == slot {
                    CandidateView::Editable
                } else {
                    CandidateView::OtherSlot(c.slot)
                }
            },
        }
    }

    /// Whether the save button is enabled: not read-only, and there are
    /// unsaved edits.
    pub fn can_save_draft(&self) -> (b: bool)
        ensures
            b == (!self.read_only && self.draft_dirty),
    {
        !self.read_only && self.draft_dirty
    }

    /// The note under the save buttons.
    pub fn edit_note(&self) -> (r: Option<&'static str>)
        ensures
            match r {
                Some(s) => if self.read_only {
                    s@ == "read-only: 保存不可"@
                } else {
                    self.draft_dirty && s@ == "未保存の編集があります"@
                },
                None => !self.read_only && !self.draft_dirty,
            },
    {
        if self.read_only {
            Some("read-only: 保存不可")
        } else if self.draft_dirty {
            Some("未保存の編集があります")
        } else {
            None
        }
    }

    /// Before the editor of `slot` is drawn: a draft without edits follows
    /// the slot on screen.
    pub fn sync_draft(&mut self, slot: u8)
        ensures
            if old(self).draft_slot != slot && !old(self).draft_dirty {
                &&& *final(self) == (WindowJumpApp {
                    draft_slot: slot,
                    draft_rule: final(self).draft_rule,
                    ..*old(self)
                })
                &&& rule_in(old(self).config, slot, final(self).draft_rule)
            } else {
                *final(self) == *old(self)
            },
    {
        if self.draft_slot != slot && !self.draft_dirty {
            self.draft_slot = slot;
            self.draft_rule = self.slot_rule(slot);
        }
    }

    /// Records whether a field of the draft was changed by the user.
    pub fn note_draft_edit(&mut self, changed: bool)
        ensures
            *final(self) == (WindowJumpApp {
                draft_dirty: old(self).draft_dirty || changed,
                ..*old(self)
            }),
    {
        self.draft_dirty = self.draft_dirty || changed;
    }
}

} // verus!
