//! The stored data: slot rules (`config.json`), the per-slot hints learned
//! from earlier activations (`state.json`), and the windows that the window
//! manager reports.
use std::collections::BTreeMap;
use vstd::prelude::*;

use crate::numfmt::{decimal_of, push_decimal_i64};
use crate::text::{
    append_chars, append_str, chars_blank, chars_of, is_blank, str_blank, string_of, trim, trim_chars,
};
use crate::presentation::{truncate, truncated};

verus! {

/// The lowest slot number.
pub const SLOT_MIN: u8 = 1;

/// The highest slot number.
pub const SLOT_MAX: u8 = 9;

/// How a slot finds its window again.
#[derive(Debug)]
pub struct SlotRule {
    /// A name for the slot, shown in lists.
    pub label: String,
    /// `WM_CLASS` of the window, compared exactly.
    pub wm_class: String,
    /// A piece of the title, compared case-insensitively.
    pub title_contains: String,
    /// Free notes.
    pub notes: String,
}

impl Clone for SlotRule {
    fn clone(&self) -> (r: Self)
        ensures
            r == *self,
    {
        SlotRule {
            label: self.label.clone(),
            wm_class: self.wm_class.clone(),
            title_contains: self.title_contains.clone(),
            notes: self.notes.clone(),
        }
    }
}

impl Default for SlotRule {
    fn default() -> (r: Self)
        ensures
            r.label@.len() == 0,
            r.wm_class@.len() == 0,
            r.title_contains@.len() == 0,
            r.notes@.len() == 0,
    {
        SlotRule {
            label: String::new(),
            wm_class: String::new(),
            title_contains: String::new(),
            notes: String::new(),
        }
    }
}

/// The text that `SlotRule::summary` gives.
pub open spec fn summary_of(rule: SlotRule) -> Seq<char> {
    if rule.effectively_empty() {
        "<empty>"@
    } else {
        join_with(summary_parts(rule), " | "@)
    }
}

/// The parts of a rule's summary: label, class and title piece, each where
/// it is not blank.
pub open spec fn summary_parts(rule: SlotRule) -> Seq<Seq<char>> {
    let p1: Seq<Seq<char>> = if !is_blank(rule.label@) {
        seq!["label="@ + trim(rule.label@)]
    } else {
        seq![]
    };
    let p2: Seq<Seq<char>> = if !is_blank(rule.wm_class@) {
        p1.push("class="@ + trim(rule.wm_class@))
    } else {
        p1
    };
    if !is_blank(rule.title_contains@) {
        p2.push("title~="@ + trim(rule.title_contains@))
    } else {
        p2
    }
}

/// The parts joined with `sep` between neighbours (as `[T]::join`).
pub open spec fn join_with(parts: Seq<Seq<char>>, sep: Seq<char>) -> Seq<char>
    decreases parts.len(),
{
    if parts.len() == 0 {
        seq![]
    } else if parts.len() == 1 {
        parts[0]
    } else {
        join_with(parts.drop_last(), sep) + sep + parts.last()
    }
}

/// Appends a part to a joined text.
fn join_push(out: &mut Vec<char>, count: &mut usize, part: &[char], sep: &str, parts: Ghost<
    Seq<Seq<char>>,
>)
    requires
        old(out)@ == join_with(parts@, sep@),
        *old(count) == parts@.len(),
        parts@.len() < 8,
    ensures
        final(out)@ == join_with(parts@.push(part@), sep@),
        *final(count) == parts@.len() + 1,
{
    if *count > 0 {
        append_str(out, sep);
    }
    append_chars(out, part);
    *count = *count + 1;
    proof {
        assert(parts@.push(part@).drop_last() =~= parts@);
        if parts@.len() == 0 {
            assert(old(out)@ =~= Seq::<char>::empty());
            assert(final(out)@ =~= part@);
        } else {
            assert(final(out)@ =~= old(out)@ + sep@ + part@);
        }
    }
}

impl SlotRule {
    /// Whether every field is blank.
    pub open spec fn effectively_empty(self) -> bool {
        is_blank(self.label@) && is_blank(self.wm_class@) && is_blank(self.title_contains@)
            && is_blank(self.notes@)
    }

    /// Whether the rule can find a window: its class is set.
    pub open spec fn usable(self) -> bool {
        !is_blank(self.wm_class@)
    }

    /// Returns whether every field is blank.
    pub fn is_effectively_empty(&self) -> (b: bool)
        ensures
            b == self.effectively_empty(),
    {
        str_blank(self.label.as_str()) && str_blank(self.wm_class.as_str()) && str_blank(
            self.title_contains.as_str(),
        ) && str_blank(self.notes.as_str())
    }

    /// Returns whether the class is set.
    pub fn is_usable(&self) -> (b: bool)
        ensures
            b == self.usable(),
    {
        !str_blank(self.wm_class.as_str())
    }

    /// A one-line description: `label=… | class=… | title~=…`, or `<empty>`.
    pub fn summary(&self) -> (r: String)
        ensures
            r@ == summary_of(*self),
    {
        if self.is_effectively_empty() {
            return string_from_literal("<empty>");
        }
        let mut out: Vec<char> = Vec::new();
        let mut count: usize = 0;
        let ghost mut parts: Seq<Seq<char>> = seq![];
        proof {
            assert(out@ =~= join_with(parts, " | "@));
        }
        let label = chars_of(self.label.as_str());
        if !chars_blank(label.as_slice()) {
            let mut part: Vec<char> = Vec::new();
            append_str(&mut part, "label=");
            let t = trim_chars(label.as_slice());
            append_chars(&mut part, t.as_slice());
            join_push(&mut out, &mut count, part.as_slice(), " | ", Ghost(parts));
            proof {
                parts = parts.push(part@);
            }
        }
        let class = chars_of(self.wm_class.as_str());
        if !chars_blank(class.as_slice()) {
            let mut part: Vec<char> = Vec::new();
            append_str(&mut part, "class=");
            let t = trim_chars(class.as_slice());
            append_chars(&mut part, t.as_slice());
            join_push(&mut out, &mut count, part.as_slice(), " | ", Ghost(parts));
            proof {
                parts = parts.push(part@);
            }
        }
        let title = chars_of(self.title_contains.as_str());
        if !chars_blank(title.as_slice()) {
            let mut part: Vec<char> = Vec::new();
            append_str(&mut part, "title~=");
            let t = trim_chars(title.as_slice());
            append_chars(&mut part, t.as_slice());
            join_push(&mut out, &mut count, part.as_slice(), " | ", Ghost(parts));
            proof {
                parts = parts.push(part@);
            }
        }
        proof {
            assert(parts =~= summary_parts(*self));
        }
        string_of(out.as_slice())
    }
}

/// A `String` with the text of a literal.
pub fn string_from_literal(s: &str) -> (r: String)
    ensures
        r@ == s@,
{
    crate::text::string_from(s)
}

/// What the earlier activations of a slot left behind.
#[derive(Debug)]
pub struct SlotState {
    /// The desktop on which the window was last seen.
    pub desktop_hint: Option<i32>,
    /// The window id (`0x…`) last activated.
    pub last_window_id: Option<String>,
    /// The title last seen.
    pub last_seen_title: Option<String>,
}

impl Clone for SlotState {
    fn clone(&self) -> (r: Self)
        ensures
            r == *self,
    {
        SlotState {
            desktop_hint: self.desktop_hint,
            last_window_id: match &self.last_window_id {
                Some(s) => Some(s.clone()),
                None => None,
            },
            last_seen_title: match &self.last_seen_title {
                Some(s) => Some(s.clone()),
                None => None,
            },
        }
    }
}

impl Default for SlotState {
    fn default() -> (r: Self)
        ensures
            r.desktop_hint is None,
            r.last_window_id is None,
            r.last_seen_title is None,
    {
        SlotState { desktop_hint: None, last_window_id: None, last_seen_title: None }
    }
}

impl SlotState {
    /// Whether no hint is recorded.
    pub open spec fn empty(self) -> bool {
        self.desktop_hint is None && self.last_window_id is None && self.last_seen_title is None
    }

    /// Returns whether no hint is recorded.
    pub fn is_empty(&self) -> (b: bool)
        ensures
            b == self.empty(),
    {
        self.desktop_hint.is_none() && self.last_window_id.is_none()
            && self.last_seen_title.is_none()
    }
}

/// The rules of all slots (`config.json`).
#[derive(Debug)]
pub struct AppConfig {
    /// The file format version.
    pub version: u32,
    /// The rule of each registered slot.
    pub slots: BTreeMap<u8, SlotRule>,
}

impl Default for AppConfig {
    fn default() -> (r: Self)
        ensures
            r.version == 1,
            r.slots@ == Map::<u8, SlotRule>::empty(),
    {
        AppConfig { version: 1, slots: BTreeMap::new() }
    }
}

/// The rules after `rule` is stored in `slot`: an effectively empty rule
/// unregisters the slot.
pub open spec fn stored_slots(slots: Map<u8, SlotRule>, slot: u8, rule: SlotRule) -> Map<u8, SlotRule> {
    if rule.effectively_empty() {
        slots.remove(slot)
    } else {
        slots.insert(slot, rule)
    }
}

/// What is stored in a slot is what is read back from it: a rule with some
/// content is kept as it is, an effectively empty one leaves the slot
/// unregistered (so that it reads back as the empty rule), and every other
/// slot keeps its rule.
pub proof fn lemma_stored_rule_reads_back(slots: Map<u8, SlotRule>, slot: u8, rule: SlotRule, other: u8)
    ensures
        !rule.effectively_empty() ==> stored_slots(slots, slot, rule).contains_key(slot)
            && stored_slots(slots, slot, rule)[slot] == rule,
        rule.effectively_empty() ==> !stored_slots(slots, slot, rule).contains_key(slot),
        other != slot ==> stored_slots(slots, slot, rule).contains_key(other) == slots.contains_key(
            other,
        ),
        other != slot && slots.contains_key(other) ==> stored_slots(slots, slot, rule)[other]
            == slots[other],
{
}

impl AppConfig {
    /// Stores `rule` in `slot`, or removes the slot when the rule is
    /// effectively empty.
    pub fn set_slot(&mut self, slot: u8, rule: SlotRule)
        ensures
            final(self).version == old(self).version,
            final(self).slots@ == stored_slots(old(self).slots@, slot, rule),
    {
        if rule.is_effectively_empty() {
            self.slots.remove(&slot);
        } else {
            self.slots.insert(slot, rule);
        }
    }

    /// The rule of `slot`, or an empty rule.
    pub fn rule_or_default(&self, slot: u8) -> (r: SlotRule)
        ensures
            self.slots@.contains_key(slot) ==> r == self.slots@[slot],
            !self.slots@.contains_key(slot) ==> r.effectively_empty() && r.label@.len() == 0
                && r.wm_class@.len() == 0 && r.title_contains@.len() == 0 && r.notes@.len() == 0,
    {
        match self.slots.get(&slot) {
            Some(rule) => rule.clone(),
            None => {
                let r = SlotRule::default();
                proof {
                    lemma_empty_is_blank(r.label@);
                    lemma_empty_is_blank(r.wm_class@);
                    lemma_empty_is_blank(r.title_contains@);
                    lemma_empty_is_blank(r.notes@);
                }
                r
            },
        }
    }
}

/// An empty text is blank.
pub proof fn lemma_empty_is_blank(s: Seq<char>)
    requires
        s.len() == 0,
    ensures
        is_blank(s),
{
}

/// The hints of all slots (`state.json`).
#[derive(Debug)]
pub struct AppState {
    /// The file format version.
    pub version: u32,
    /// The hints of each slot that has some.
    pub slots: BTreeMap<u8, SlotState>,
}

impl Default for AppState {
    fn default() -> (r: Self)
        ensures
            r.version == 1,
            r.slots@ == Map::<u8, SlotState>::empty(),
    {
        AppState { version: 1, slots: BTreeMap::new() }
    }
}

impl AppState {
    /// Stores `state` for `slot`, or removes the entry when it holds no hint.
    pub fn set_slot_state(&mut self, slot: u8, state: SlotState)
        ensures
            final(self).version == old(self).version,
            final(self).slots@ == if state.empty() {
                old(self).slots@.remove(slot)
            } else {
                old(self).slots@.insert(slot, state)
            },
    {
        if state.is_empty() {
            self.slots.remove(&slot);
        } else {
            self.slots.insert(slot, state);
        }
    }
}

/// A top-level window as `wmctrl -lpxG` reports it.
#[derive(Debug)]
pub struct WindowInfo {
    /// The X11 window id.
    pub id: u64,
    /// The id as `0x…`.
    pub id_hex: String,
    /// The desktop number (-1 for sticky windows).
    pub desktop: i32,
    /// The owning process, where known.
    pub pid: Option<u32>,
    /// Left edge.
    pub x: i32,
    /// Top edge.
    pub y: i32,
    /// Width.
    pub width: i32,
    /// Height.
    pub height: i32,
    /// `WM_CLASS` as `instance.class`.
    pub wm_class: String,
    /// The client machine.
    pub host: String,
    /// The title.
    pub title: String,
}

impl Clone for WindowInfo {
    fn clone(&self) -> (r: Self)
        ensures
            r == *self,
    {
        WindowInfo {
            id: self.id,
            id_hex: self.id_hex.clone(),
            desktop: self.desktop,
            pid: self.pid,
            x: self.x,
            y: self.y,
            width: self.width,
            height: self.height,
            wm_class: self.wm_class.clone(),
            host: self.host.clone(),
            title: self.title.clone(),
        }
    }
}

/// `{width}x{height}+{x}+{y}`.
pub open spec fn geometry_of(w: WindowInfo) -> Seq<char> {
    decimal_of(w.width as int) + seq!['x'] + decimal_of(w.height as int) + seq!['+'] + decimal_of(
        w.x as int,
    ) + seq!['+'] + decimal_of(w.y as int)
}

impl WindowInfo {
    /// The title cut to `max` characters.
    pub fn short_title(&self, max: usize) -> (r: String)
        ensures
            r@ == truncated(self.title@, max as nat),
    {
        truncate(self.title.as_str(), max)
    }

    /// The geometry as `WxH+X+Y`.
    pub fn geometry(&self) -> (r: String)
        ensures
            r@ == geometry_of(*self),
    {
        let mut out: Vec<char> = Vec::new();
        push_decimal_i64(&mut out, self.width as i64);
        out.push('x');
        push_decimal_i64(&mut out, self.height as i64);
        out.push('+');
        push_decimal_i64(&mut out, self.x as i64);
        out.push('+');
        push_decimal_i64(&mut out, self.y as i64);
        proof {
            assert(out@ =~= geometry_of(*self));
        }
        string_of(out.as_slice())
    }
}

/// The hints that an activation or capture of `window` records.
pub open spec fn state_for_window(w: WindowInfo) -> SlotState {
    SlotState {
        desktop_hint: Some(w.desktop),
        last_window_id: Some(w.id_hex),
        last_seen_title: Some(w.title),
    }
}

/// Records `window` as the last window of `slot`.
pub fn update_slot_state(state: &mut AppState, slot: u8, window: &WindowInfo)
    ensures
        final(state).version == old(state).version,
        final(state).slots@ == old(state).slots@.insert(slot, state_for_window(*window)),
{
    state.set_slot_state(
        slot,
        SlotState {
            desktop_hint: Some(window.desktop),
            last_window_id: Some(window.id_hex.clone()),
            last_seen_title: Some(window.title.clone()),
        },
    );
}

} // verus!
