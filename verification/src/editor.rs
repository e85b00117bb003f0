//! The state of the configuration GUI and the decisions behind each of its
//! buttons. The GUI shell draws this state, performs what the decisions ask
//! for (reading the window list, activating a window, writing the files) and
//! hands the outcome back, which sets the status line.
use vstd::prelude::*;

use crate::matching::{resolve_failure_text, resolve_outcome, resolve_slot, Outcome};
use crate::model::{
    state_for_window, update_slot_state, AppConfig, AppState, SlotRule, WindowInfo, SLOT_MIN,
};
use crate::numfmt::{decimal_of, push_digits};
use crate::suggest::{default_label, default_label_of, suggest_title_contains, suggestion};
use crate::text::{append_str, chars_of, contains_chars, contains_seq, string_from, string_of};

verus! {

/// A window recognized for a slot, waiting to be confirmed.
#[derive(Debug)]
pub struct CaptureCandidate {
    /// The slot it is meant for.
    pub slot: u8,
    /// The window.
    pub window: WindowInfo,
    /// The proposed label (editable).
    pub label: String,
    /// The proposed title piece (editable).
    pub title_contains: String,
    /// The notes of the slot (editable).
    pub notes: String,
}

/// The state of the configuration GUI.
pub struct WindowJumpApp {
    /// The slot rules.
    pub config: AppConfig,
    /// The slot hints.
    pub state: AppState,
    /// Whether saving is disabled because the files could not be read.
    pub read_only: bool,
    /// The status line.
    pub status: String,
    /// What the font check found.
    pub ui_font_status: String,
    /// The windows last listed.
    pub windows: Vec<WindowInfo>,
    /// The id of the active window, where known.
    pub active_window_id: Option<u64>,
    /// The slot shown in the editor.
    pub selected_slot: u8,
    /// The window chosen in the window catalog.
    pub selected_live_window_id: Option<u64>,
    /// Whether a click capture is running.
    pub capture_waiting: bool,
    /// The slot a running click capture is for.
    pub pending_capture_slot: Option<u8>,
    /// The window waiting to be registered.
    pub capture_candidate: Option<CaptureCandidate>,
    /// Whether "reset all slots" waits for confirmation.
    pub confirm_reset_all: bool,
    /// The executable shown in shortcut commands.
    pub executable_hint: String,
    /// The slot whose rule the draft holds.
    pub draft_slot: u8,
    /// The rule being edited.
    pub draft_rule: SlotRule,
    /// Whether the draft has unsaved edits.
    pub draft_dirty: bool,
    /// The filter of the window catalog.
    pub live_filter: String,
    /// Whether the window catalog is open.
    pub show_window_catalog: bool,
}

/// What a button asks to be written after its decision.
#[derive(Debug)]
pub enum SaveRequest {
    /// The edited rule was stored.
    DraftRule,
    /// A candidate was registered for a slot.
    Registered { slot: u8, window: WindowInfo, wm_class: String },
    /// A slot was cleared.
    Cleared { slot: u8 },
    /// All slots were cleared.
    ResetAll,
}

/// The rule of `slot` in `config`, or the empty rule.
pub open spec fn rule_in(config: AppConfig, slot: u8, r: SlotRule) -> bool {
    if config.slots@.contains_key(slot) {
        r == config.slots@[slot]
    } else {
        r.label@.len() == 0 && r.wm_class@.len() == 0 && r.title_contains@.len() == 0
            && r.notes@.len() == 0
    }
}

/// The text `prefix{slot}suffix`.
pub open spec fn slot_text(prefix: Seq<char>, slot: u8, suffix: Seq<char>) -> Seq<char> {
    prefix + decimal_of(slot as int) + suffix
}

/// Builds `prefix{slot}suffix`.
pub fn slot_message(prefix: &str, slot: u8, suffix: &str) -> (r: String)
    ensures
        r@ == slot_text(prefix@, slot, suffix@),
{
    let mut out: Vec<char> = Vec::new();
    append_str(&mut out, prefix);
    push_digits(&mut out, slot as u64, 10);
    append_str(&mut out, suffix);
    string_of(out.as_slice())
}

/// Builds `prefix{detail}`.
pub fn detail_message(prefix: &str, detail: &str) -> (r: String)
    ensures
        r@ == prefix@ + detail@,
{
    let mut out: Vec<char> = Vec::new();
    append_str(&mut out, prefix);
    append_str(&mut out, detail);
    string_of(out.as_slice())
}

/// The index of the first window with id `id`.
pub open spec fn first_with_id(ws: Seq<WindowInfo>, id: u64) -> Option<int> {
    if exists|i: int| 0 <= i < ws.len() && ws[i].id == id {
        Some(
            choose|i: int|
                0 <= i < ws.len() && ws[i].id == id && forall|j: int|
                    0 <= j < i ==> ws[j].id != id,
        )
    } else {
        None
    }
}

/// The first window with id `id`.
pub fn window_with_id(windows: &Vec<WindowInfo>, id: u64) -> (r: Option<&WindowInfo>)
    ensures
        match r {
            Some(w) => first_with_id(windows@, id) matches Some(i) && *w == windows@[i],
            None => first_with_id(windows@, id) is None,
        },
{
    match crate::wmctrl::find_window_by_id(windows.as_slice(), id) {
        Some(i) => {
            proof {
                let c = choose|k: int|
                    0 <= k < windows@.len() && windows@[k].id == id && forall|j: int|
                        0 <= j < k ==> windows@[j].id != id;
                assert(0 <= i < windows@.len() && windows@[i as int].id == id);
                if c < i {
                } else if c > i {
                }
            }
            Some(&windows[i])
        },
        None => None,
    }
}

impl WindowJumpApp {
    /// `self` with only the status changed.
    pub open spec fn only_status(self, other: Self) -> bool {
        other == (WindowJumpApp { status: other.status, ..self })
    }

    /// The editor at start: slot 1 selected, its rule as the draft, no
    /// windows listed yet.
    pub fn new(
        config: AppConfig,
        state: AppState,
        read_only: bool,
        startup_status: String,
        ui_font_status: String,
        executable_hint: String,
    ) -> (r: Self)
        ensures
            r.config == config,
            r.state == state,
            r.read_only == read_only,
            r.status == startup_status,
            r.ui_font_status == ui_font_status,
            r.executable_hint == executable_hint,
            r.windows@.len() == 0,
            r.active_window_id is None,
            r.selected_slot == SLOT_MIN,
            r.selected_live_window_id is None,
            !r.capture_waiting,
            r.pending_capture_slot is None,
            r.capture_candidate is None,
            !r.confirm_reset_all,
            r.draft_slot == SLOT_MIN,
            rule_in(config, SLOT_MIN, r.draft_rule),
            !r.draft_dirty,
            r.live_filter@.len() == 0,
            !r.show_window_catalog,
    {
        let draft_rule = config.rule_or_default(SLOT_MIN);
        WindowJumpApp {
            config,
            state,
            read_only,
            status: startup_status,
            ui_font_status,
            windows: Vec::new(),
            active_window_id: None,
            selected_slot: SLOT_MIN,
            selected_live_window_id: None,
            capture_waiting: false,
            pending_capture_slot: None,
            capture_candidate: None,
            confirm_reset_all: false,
            executable_hint,
            draft_slot: SLOT_MIN,
            draft_rule,
            draft_dirty: false,
            live_filter: String::new(),
            show_window_catalog: false,
        }
    }

    /// Takes a fresh window list: the chosen catalog window is forgotten
    /// when it is gone.
    pub fn refresh_now(&mut self, windows: Vec<WindowInfo>, active_window_id: Option<u64>)
        ensures
            *final(self) == (WindowJumpApp {
                windows: windows,
                active_window_id: active_window_id,
                selected_live_window_id: match old(self).selected_live_window_id {
                    Some(id) => if first_with_id(windows@, id) is Some {
                        Some(id)
                    } else {
                        None
                    },
                    None => None,
                },
                ..*old(self)
            }),
    {
        if let Some(selected_id) = self.selected_live_window_id {
            if window_with_id(&windows, selected_id).is_none() {
                self.selected_live_window_id = None;
            }
        }
        self.windows = windows;
        self.active_window_id = active_window_id;
    }

    /// Switches the editor to `slot`, unless the draft has unsaved edits.
    pub fn select_slot(&mut self, slot: u8)
        ensures
            old(self).draft_dirty ==> old(self).only_status(*final(self)) && final(self).status@
                == "未保存の編集があります。Save または Revert してから slot を切り替えてください"@,
            !old(self).draft_dirty ==> *final(self) == (WindowJumpApp {
                selected_slot: slot,
                draft_slot: slot,
                draft_rule: final(self).draft_rule,
                draft_dirty: false,
                ..*old(self)
            }) && rule_in(old(self).config, slot, final(self).draft_rule),
    {
        if self.draft_dirty {
            self.status = string_from(
                "未保存の編集があります。Save または Revert してから slot を切り替えてください",
            );
            return;
        }
        self.selected_slot = slot;
        self.draft_slot = slot;
        self.draft_rule = self.slot_rule(slot);
        self.draft_dirty = false;
    }

    /// In read-only mode, says so in the status line and returns `true`.
    pub fn mark_read_only_status(&mut self) -> (b: bool)
        ensures
            b == old(self).read_only,
            old(self).only_status(*final(self)),
            b ==> final(self).status@
                == "read-only モードです。設定読み込みエラーを直すまで保存できません"@,
            !b ==> *final(self) == *old(self),
    {
        if self.read_only {
            self.status = string_from(
                "read-only モードです。設定読み込みエラーを直すまで保存できません",
            );
            true
        } else {
            false
        }
    }

    /// Stores the draft in the selected slot (an empty draft clears the slot
    /// and its hints) and asks for the files to be written; in read-only
    /// mode nothing is stored.
    pub fn save_draft_rule(&mut self) -> (r: Option<SaveRequest>)
        ensures
            old(self).read_only ==> r is None && old(self).only_status(*final(self)),
            !old(self).read_only ==> (r matches Some(SaveRequest::DraftRule) && *final(self) == (
            WindowJumpApp {
                config: final(self).config,
                state: final(self).state,
                draft_dirty: false,
                ..*old(self)
            }) && final(self).config.version == old(self).config.version
                && final(self).config.slots@ == (if old(self).draft_rule.effectively_empty() {
                old(self).config.slots@.remove(old(self).selected_slot)
            } else {
                old(self).config.slots@.insert(old(self).selected_slot, old(self).draft_rule)
            }) && final(self).state.version == old(self).state.version
                && final(self).state.slots@ == (if old(self).draft_rule.effectively_empty() {
                old(self).state.slots@.remove(old(self).selected_slot)
            } else {
                old(self).state.slots@
            })),
    {
        if self.mark_read_only_status() {
            return None;
        }
        let slot = self.selected_slot;
        self.config.set_slot(slot, self.draft_rule.clone());
        if self.draft_rule.is_effectively_empty() {
            self.state.slots.remove(&slot);
        }
        self.draft_dirty = false;
        Some(SaveRequest::DraftRule)
    }

    /// Throws the draft's edits away.
    pub fn revert_draft_rule(&mut self)
        ensures
            *final(self) == (WindowJumpApp {
                draft_rule: final(self).draft_rule,
                draft_slot: old(self).selected_slot,
                draft_dirty: false,
                status: final(self).status,
                ..*old(self)
            }),
            rule_in(old(self).config, old(self).selected_slot, final(self).draft_rule),
            final(self).status@ == "未保存の編集を破棄しました"@,
    {
        self.draft_rule = self.slot_rule(self.selected_slot);
        self.draft_slot = self.selected_slot;
        self.draft_dirty = false;
        self.status = string_from("未保存の編集を破棄しました");
    }

    /// Takes the active window (or the error of reading it) as a candidate
    /// for `slot`.
    pub fn capture_active_into_slot(&mut self, slot: u8, active: Result<WindowInfo, String>)
        ensures
            match active {
                Ok(w) => candidate_prepared(*old(self), *final(self), slot, w),
                Err(e) => old(self).only_status(*final(self)) && final(self).status@
                    == "アクティブウィンドウの取得に失敗しました: "@ + e@,
            },
    {
        match active {
            Ok(window) => self.prepare_capture_candidate(slot, window),
            Err(err) => {
                self.status = detail_message(
                    "アクティブウィンドウの取得に失敗しました: ",
                    err.as_str(),
                );
            },
        }
    }

    /// Takes the window chosen in the catalog as a candidate for `slot`.
    pub fn capture_selected_live_into_slot(&mut self, slot: u8)
        ensures
            match old(self).selected_live_window_id {
                Some(id) => match first_with_id(old(self).windows@, id) {
                    Some(i) => candidate_prepared(*old(self), *final(self), slot, old(self).windows@[i]),
                    None => old(self).only_status(*final(self)) && final(self).status@
                        == "右側の live windows から対象を選択してください"@,
                },
                None => old(self).only_status(*final(self)) && final(self).status@
                    == "右側の live windows から対象を選択してください"@,
            },
    {
        let found = match self.selected_live_window_id {
            Some(id) => match window_with_id(&self.windows, id) {
                Some(w) => Some(w.clone()),
                None => None,
            },
            None => None,
        };
        match found {
            Some(window) => self.prepare_capture_candidate(slot, window),
            None => {
                self.status = string_from("右側の live windows から対象を選択してください");
            },
        }
    }

    /// Makes `window` the candidate for `slot`, with the proposed label and
    /// title piece and the slot's current notes, and selects the slot.
    pub fn prepare_capture_candidate(&mut self, slot: u8, window: WindowInfo)
        ensures
            candidate_prepared(*old(self), *final(self), slot, window),
    {
        let notes = match self.config.slots.get(&slot) {
            Some(rule) => rule.notes.clone(),
            None => String::new(),
        };
        self.selected_slot = slot;
        let label = default_label(&window);
        let title_contains = suggest_title_contains(&window, self.windows.as_slice());
        self.capture_candidate = Some(
            CaptureCandidate { slot, label, title_contains, notes, window },
        );
        self.status = slot_message(
            "slot ",
            slot,
            " の登録候補を認識しました。内容を確認して OK で登録してください",
        );
    }

    /// Registers the candidate: its slot gets a rule with the candidate's
    /// label, the window's class, the candidate's title piece and notes, and
    /// hints from the window; the draft shows the new rule. Nothing happens
    /// in read-only mode, or without a candidate.
    pub fn register_capture_candidate(&mut self) -> (r: Option<SaveRequest>)
        ensures
            old(self).read_only ==> r is None && old(self).only_status(*final(self)),
            !old(self).read_only && old(self).capture_candidate is None ==> r is None
                && old(self).only_status(*final(self)) && final(self).status@
                == "登録候補がありません"@,
            !old(self).read_only && old(self).capture_candidate is Some ==> ({
                let c = old(self).capture_candidate->Some_0;
                &&& r matches Some(SaveRequest::Registered { slot, window, wm_class }) && slot
                    == c.slot && window == c.window && wm_class@ == c.window.wm_class@
                &&& *final(self) == (WindowJumpApp {
                    config: final(self).config,
                    state: final(self).state,
                    capture_candidate: None,
                    draft_slot: c.slot,
                    draft_rule: final(self).draft_rule,
                    draft_dirty: false,
                    ..*old(self)
                })
                &&& final(self).state.version == old(self).state.version
                &&& final(self).state.slots@ == old(self).state.slots@.insert(
                    c.slot,
                    state_for_window(c.window),
                )
                &&& final(self).draft_slot == c.slot
                &&& !final(self).draft_dirty
                &&& registered_rule(old(self).config, c, final(self).config)
                &&& rule_in(final(self).config, c.slot, final(self).draft_rule)
            }),
    {
        if self.mark_read_only_status() {
            return None;
        }
        let candidate = match self.capture_candidate.take() {
            Some(c) => c,
            None => {
                self.status = string_from("登録候補がありません");
                return None;
            },
        };
        let mut rule = self.config.rule_or_default(candidate.slot);
        rule.label = candidate.label;
        rule.wm_class = candidate.window.wm_class.clone();
        rule.title_contains = candidate.title_contains;
        rule.notes = candidate.notes;
        update_slot_state(&mut self.state, candidate.slot, &candidate.window);
        let wm_class = rule.wm_class.clone();
        self.config.set_slot(candidate.slot, rule);
        self.draft_slot = candidate.slot;
        self.draft_rule = self.slot_rule(candidate.slot);
        self.draft_dirty = false;
        Some(SaveRequest::Registered { slot: candidate.slot, window: candidate.window, wm_class })
    }

    /// Drops the candidate.
    pub fn cancel_capture_candidate(&mut self)
        ensures
            *final(self) == (WindowJumpApp {
                capture_candidate: None,
                status: final(self).status,
                ..*old(self)
            }),
            final(self).status@ == "登録候補を破棄しました"@,
    {
        self.capture_candidate = None;
        self.status = string_from("登録候補を破棄しました");
    }

    /// Starts waiting for a click that chooses the window for `slot`; returns
    /// whether the click capture should be started (not while one runs).
    pub fn begin_click_capture(&mut self, slot: u8) -> (start: bool)
        ensures
            start == !old(self).capture_waiting,
            !start ==> old(self).only_status(*final(self)) && final(self).status@
                == "すでにクリック取得待ちです。まず現在の取得を完了してください"@,
            start ==> *final(self) == (WindowJumpApp {
                capture_candidate: None,
                capture_waiting: true,
                pending_capture_slot: Some(slot),
                status: final(self).status,
                ..*old(self)
            }) && final(self).status@ == slot_text(
                "slot "@,
                slot,
                " 用の対象ウィンドウをクリックしてください。GUI 以外の目的ウィンドウをクリックします"@,
            ),
    {
        if self.capture_waiting {
            self.status = string_from(
                "すでにクリック取得待ちです。まず現在の取得を完了してください",
            );
            return false;
        }
        self.capture_candidate = None;
        self.capture_waiting = true;
        self.pending_capture_slot = Some(slot);
        self.status = slot_message(
            "slot ",
            slot,
            " 用の対象ウィンドウをクリックしてください。GUI 以外の目的ウィンドウをクリックします",
        );
        true
    }

    /// Takes the outcome of a click capture: the clicked window becomes the
    /// candidate for the slot the capture was started for (the selected slot
    /// if none is recorded), or the error goes to the status line.
    pub fn poll_capture_result(&mut self, message: Result<WindowInfo, String>)
        ensures
            match message {
                Ok(w) => candidate_prepared(
                    WindowJumpApp {
                        capture_waiting: false,
                        pending_capture_slot: None,
                        ..*old(self)
                    },
                    *final(self),
                    match old(self).pending_capture_slot {
                        Some(s) => s,
                        None => old(self).selected_slot,
                    },
                    w,
                ),
                Err(e) => *final(self) == (WindowJumpApp {
                    capture_waiting: false,
                    pending_capture_slot: None,
                    status: final(self).status,
                    ..*old(self)
                }) && final(self).status@ == "クリック取得に失敗しました: "@ + e@,
            },
    {
        self.capture_waiting = false;
        let slot = match self.pending_capture_slot.take() {
            Some(s) => s,
            None => self.selected_slot,
        };
        match message {
            Ok(window) => self.prepare_capture_candidate(slot, window),
            Err(err) => {
                self.status = detail_message("クリック取得に失敗しました: ", err.as_str());
            },
        }
    }

    /// Finds the window of the selected slot for "Test activate": the window
    /// to activate, or `None` with the reason in the status line.
    pub fn test_activate_selected_slot(&mut self) -> (r: Option<WindowInfo>)
        ensures
            old(self).config.slots@.contains_key(old(self).selected_slot) ==> match resolve_outcome(
                old(self).config.slots@[old(self).selected_slot],
                if old(self).state.slots@.contains_key(old(self).selected_slot) {
                    Some(old(self).state.slots@[old(self).selected_slot])
                } else {
                    None
                },
                old(self).windows@,
            ) {
                Outcome::Chosen(i) => r == Some(old(self).windows@[i as int]) && *final(self)
                    == *old(self),
                _ => r is None && old(self).only_status(*final(self)) && final(self).status@
                    == slot_text("slot "@, old(self).selected_slot, " の解決に失敗しました: "@)
                    + resolve_failure_text(
                    old(self).config.slots@[old(self).selected_slot],
                    if old(self).state.slots@.contains_key(old(self).selected_slot) {
                        Some(old(self).state.slots@[old(self).selected_slot])
                    } else {
                        None
                    },
                    old(self).windows@,
                ),
            },
            !old(self).config.slots@.contains_key(old(self).selected_slot) ==> r is None
                && old(self).only_status(*final(self)) && final(self).status@ == slot_text(
                "slot "@,
                old(self).selected_slot,
                " は未登録です"@,
            ),
    {
        let slot = self.selected_slot;
        let rule = match self.config.slots.get(&slot) {
            Some(rule) => rule.clone(),
            None => {
                self.status = slot_message("slot ", slot, " は未登録です");
                return None;
            },
        };
        let found = {
            let slot_state = self.state.slots.get(&slot);
            match resolve_slot(&rule, slot_state, self.windows.as_slice()) {
                Ok(w) => Ok(w.clone()),
                Err(e) => Err(e.to_string()),
            }
        };
        match found {
            Ok(window) => Some(window),
            Err(text) => {
                let mut out: Vec<char> = Vec::new();
                append_str(&mut out, "slot ");
                push_digits(&mut out, slot as u64, 10);
                append_str(&mut out, " の解決に失敗しました: ");
                append_str(&mut out, text.as_str());
                self.status = string_of(out.as_slice());
                None
            },
        }
    }

    /// Records that the selected slot's window was activated (or why not):
    /// on success its hints are updated and `true` asks for the state file
    /// to be written; in read-only mode nothing is recorded and the status
    /// says that saving is disabled.
    pub fn finish_test_activation(&mut self, window: &WindowInfo, activation: Result<(), String>) -> (save: bool)
        ensures
            save == (activation is Ok && !old(self).read_only),
            save ==> *final(self) == (WindowJumpApp { state: final(self).state, ..*old(self) })
                && final(self).state.slots@ == old(self).state.slots@.insert(
                old(self).selected_slot,
                state_for_window(*window),
            ) && final(self).state.version == old(self).state.version,
            !save ==> old(self).only_status(*final(self)),
            activation is Ok && old(self).read_only ==> final(self).status@
                == "read-only モードです。設定読み込みエラーを直すまで保存できません"@,
            activation matches Err(e) ==> final(self).status@ == slot_text(
                "slot "@,
                old(self).selected_slot,
                " のアクティブ化に失敗しました: "@,
            ) + e@,
    {
        match activation {
            Ok(()) => {
                if self.mark_read_only_status() {
                    return false;
                }
                update_slot_state(&mut self.state, self.selected_slot, window);
                true
            },
            Err(err) => {
                let mut out: Vec<char> = Vec::new();
                append_str(&mut out, "slot ");
                push_digits(&mut out, self.selected_slot as u64, 10);
                append_str(&mut out, " のアクティブ化に失敗しました: ");
                append_str(&mut out, err.as_str());
                self.status = string_of(out.as_slice());
                false
            },
        }
    }

    /// Removes the selected slot's rule and hints (and a candidate for it),
    /// empties the draft and asks for the files to be written; nothing
    /// happens in read-only mode.
    pub fn clear_selected_slot(&mut self) -> (r: Option<SaveRequest>)
        ensures
            old(self).read_only ==> r is None && old(self).only_status(*final(self)),
            !old(self).read_only ==> (r matches Some(SaveRequest::Cleared { slot }) && slot
                == old(self).selected_slot && *final(self) == (WindowJumpApp {
                config: final(self).config,
                state: final(self).state,
                capture_candidate: final(self).capture_candidate,
                draft_rule: final(self).draft_rule,
                draft_dirty: false,
                ..*old(self)
            }) && final(self).config.slots@ == old(self).config.slots@.remove(old(self).selected_slot) && final(self).state.slots@ == old(self).state.slots@.remove(old(self).selected_slot) && final(self).config.version == old(self).config.version && final(self).state.version == old(self).state.version && (match old(self).capture_candidate {
                Some(c) => if c.slot == old(self).selected_slot {
                    final(self).capture_candidate is None
                } else {
                    final(self).capture_candidate == old(self).capture_candidate
                },
                None => final(self).capture_candidate is None,
            }) && final(self).draft_rule.effectively_empty() && final(self).draft_rule.label@.len()
                == 0 && final(self).draft_rule.wm_class@.len() == 0
                && final(self).draft_rule.title_contains@.len() == 0
                && final(self).draft_rule.notes@.len() == 0 && !final(self).draft_dirty
                && final(self).selected_slot == old(self).selected_slot),
    {
        if self.mark_read_only_status() {
            return None;
        }
        let slot = self.selected_slot;
        self.config.slots.remove(&slot);
        self.state.slots.remove(&slot);
        let drop_candidate = match &self.capture_candidate {
            Some(c) => c.slot == slot,
            None => false,
        };
        if drop_candidate {
            self.capture_candidate = None;
        }
        self.draft_rule = SlotRule::default();
        proof {
            crate::model::lemma_empty_is_blank(self.draft_rule.label@);
            crate::model::lemma_empty_is_blank(self.draft_rule.wm_class@);
            crate::model::lemma_empty_is_blank(self.draft_rule.title_contains@);
            crate::model::lemma_empty_is_blank(self.draft_rule.notes@);
        }
        self.draft_dirty = false;
        Some(SaveRequest::Cleared { slot })
    }

    /// Removes every rule and hint, the candidate and the draft, and asks for
    /// the files to be written; nothing happens in read-only mode.
    pub fn reset_all_slots(&mut self) -> (r: Option<SaveRequest>)
        ensures
            old(self).read_only ==> r is None && old(self).only_status(*final(self)),
            !old(self).read_only ==> (r matches Some(SaveRequest::ResetAll) && *final(self) == (
            WindowJumpApp {
                config: final(self).config,
                state: final(self).state,
                capture_candidate: None,
                confirm_reset_all: false,
                draft_rule: final(self).draft_rule,
                draft_dirty: false,
                ..*old(self)
            }) && final(self).config.slots@.is_empty() && final(self).state.slots@.is_empty() && final(self).config.version == old(self).config.version && final(self).state.version == old(self).state.version && final(self).capture_candidate is None && !final(self).confirm_reset_all && final(self).draft_rule.label@.len() == 0 && final(self).draft_rule.wm_class@.len() == 0 && final(self).draft_rule.title_contains@.len() == 0
                && final(self).draft_rule.notes@.len() == 0 && !final(self).draft_dirty),
    {
        if self.mark_read_only_status() {
            return None;
        }
        self.config.slots.clear();
        self.state.slots.clear();
        self.capture_candidate = None;
        self.confirm_reset_all = false;
        self.draft_rule = SlotRule::default();
        self.draft_dirty = false;
        Some(SaveRequest::ResetAll)
    }

    /// The window chosen in the catalog, if it is listed.
    pub fn selected_live_window(&self) -> (r: Option<&WindowInfo>)
        ensures
            match self.selected_live_window_id {
                Some(id) => match first_with_id(self.windows@, id) {
                    Some(i) => r == Some(&self.windows@[i]),
                    None => r is None,
                },
                None => r is None,
            },
    {
        match self.selected_live_window_id {
            Some(id) => window_with_id(&self.windows, id),
            None => None,
        }
    }

    /// The active window, if it is listed.
    pub fn active_window(&self) -> (r: Option<&WindowInfo>)
        ensures
            match self.active_window_id {
                Some(id) => match first_with_id(self.windows@, id) {
                    Some(i) => r == Some(&self.windows@[i]),
                    None => r is None,
                },
                None => r is None,
            },
    {
        match self.active_window_id {
            Some(id) => window_with_id(&self.windows, id),
            None => None,
        }
    }

    /// The stored rule of `slot`, or an empty rule.
    pub fn slot_rule(&self, slot: u8) -> (r: SlotRule)
        ensures
            rule_in(self.config, slot, r),
    {
        self.config.rule_or_default(slot)
    }

    /// The status of a slot in the slot list: `- Empty` without a usable
    /// rule, `✓ Resolved` when its window is found, `! Ambiguous` when the
    /// error's message speaks of several candidates (`複数候補`), `× Not found`
    /// otherwise.
    pub fn slot_status(&self, slot: u8) -> (r: String)
        ensures
            r@ == slot_status_text(self.config, self.state, self.windows@, slot),
    {
        let rule = match self.config.slots.get(&slot) {
            Some(rule) => rule,
            None => {
                return string_from("- Empty");
            },
        };
        if !rule.is_usable() {
            return string_from("- Empty");
        }
        match resolve_slot(rule, self.state.slots.get(&slot), self.windows.as_slice()) {
            Ok(_) => string_from("✓ Resolved"),
            Err(e) => {
                let text = e.to_string();
                let t = chars_of(text.as_str());
                let word = chars_of("複数候補");
                if contains_chars(t.as_slice(), word.as_slice()) {
                    string_from("! Ambiguous")
                } else {
                    string_from("× Not found")
                }
            },
        }
    }

    /// Opens or closes the window catalog; returns whether that changed
    /// anything (when it opens, the window list is to be refreshed).
    pub fn set_window_catalog_visible(&mut self, visible: bool) -> (changed: bool)
        ensures
            changed == (old(self).show_window_catalog != visible),
            !changed ==> *final(self) == *old(self),
            changed && visible ==> *final(self) == (WindowJumpApp {
                show_window_catalog: true,
                ..*old(self)
            }),
            changed && !visible ==> *final(self) == (WindowJumpApp {
                show_window_catalog: false,
                status: final(self).status,
                ..*old(self)
            }) && final(self).status@ == "Window catalog を閉じました"@,
    {
        if self.show_window_catalog == visible {
            return false;
        }
        self.show_window_catalog = visible;
        if !visible {
            self.status = string_from("Window catalog を閉じました");
        }
        true
    }
}

/// Whether `cfg` holds the rule that registering candidate `c` into `before`
/// gives: its label, the window's class, its title piece and notes.
pub open spec fn registered_rule(before: AppConfig, c: CaptureCandidate, after: AppConfig) -> bool {
    &&& after.version == before.version
    &&& forall|k: u8| k != c.slot ==> (after.slots@.contains_key(k) == before.slots@.contains_key(k))
        && (#[trigger] after.slots@.contains_key(k) ==> after.slots@[k] == before.slots@[k])
    &&& {
        let empty = crate::text::is_blank(c.label@) && crate::text::is_blank(c.window.wm_class@)
            && crate::text::is_blank(c.title_contains@) && crate::text::is_blank(c.notes@);
        if empty {
            !after.slots@.contains_key(c.slot)
        } else {
            after.slots@.contains_key(c.slot) && after.slots@[c.slot].label == c.label
                && after.slots@[c.slot].wm_class@ == c.window.wm_class@
                && after.slots@[c.slot].title_contains == c.title_contains
                && after.slots@[c.slot].notes == c.notes
        }
    }
}

/// `after` is `before` with `window` made the candidate for `slot` and the
/// slot selected: the candidate has the proposed label and title piece (the
/// latter chosen among the windows listed in `before`) and the slot's notes;
/// the status says a candidate was recognized; nothing else changes.
pub open spec fn candidate_prepared(before: WindowJumpApp, after: WindowJumpApp, slot: u8, window: WindowInfo) -> bool {
    &&& after == (WindowJumpApp {
        selected_slot: slot,
        capture_candidate: after.capture_candidate,
        status: after.status,
        ..before
    })
    &&& after.capture_candidate matches Some(c) && c.slot == slot && c.window == window
        && c.label@ == default_label_of(window) && c.title_contains@ == suggestion(
        window,
        before.windows@,
    ) && (if before.config.slots@.contains_key(slot) {
        c.notes == before.config.slots@[slot].notes
    } else {
        c.notes@.len() == 0
    })
    &&& after.status@ == slot_text(
        "slot "@,
        slot,
        " の登録候補を認識しました。内容を確認して OK で登録してください"@,
    )
}

/// The slot list status of `slot` (see `WindowJumpApp::slot_status`).
pub open spec fn slot_status_text(
    config: AppConfig,
    state: AppState,
    ws: Seq<WindowInfo>,
    slot: u8,
) -> Seq<char> {
    if !config.slots@.contains_key(slot) || !config.slots@[slot].usable() {
        "- Empty"@
    } else {
        match resolve_outcome(
            config.slots@[slot],
            if state.slots@.contains_key(slot) {
                Some(state.slots@[slot])
            } else {
                None
            },
            ws,
        ) {
            Outcome::Chosen(_) => "✓ Resolved"@,
            _ => if contains_seq(
                resolve_failure_text(
                    config.slots@[slot],
                    if state.slots@.contains_key(slot) {
                        Some(state.slots@[slot])
                    } else {
                        None
                    },
                    ws,
                ),
                "複数候補"@,
            ) {
                "! Ambiguous"@
            } else {
                "× Not found"@
            },
        }
    }
}

} // verus!

verus! {

/// Something that the status line reports.
#[derive(Debug)]
pub enum Notice {
    /// The files were read at start.
    Loaded { config_path: String, state_path: String },
    /// The files could not be read; the GUI runs read-only.
    LoadFailed { error: String },
    /// The first window listing failed.
    FirstRefreshFailed { error: String },
    /// A periodic window listing failed.
    RefreshFailed { error: String },
    /// The window list was refreshed on request.
    Refreshed,
    /// A refresh on request failed.
    RefreshRequestFailed { error: String },
    /// The catalog was opened and the list refreshed.
    CatalogOpened,
    /// The catalog was opened but the list could not be refreshed.
    CatalogOpenedRefreshFailed { error: String },
    /// The shortcut commands were printed.
    ShortcutsPrinted,
    /// A save of both files ended.
    StoreSaved { request: SaveRequest, paths: Result<(String, String), String> },
    /// A test activation's state save ended.
    StateSaved { slot: u8, window: WindowInfo, path: Result<String, String> },
}

/// `slot {slot} を更新しました: {id} [{class}] {title}`.
pub open spec fn updated_text(slot: u8, w: WindowInfo, wm_class: Seq<char>) -> Seq<char> {
    slot_text("slot "@, slot, " を更新しました: "@) + w.id_hex@ + " ["@ + wm_class + "] "@ + w.title@
}

/// ` (saved: {a} / {b})`.
pub open spec fn saved_pair(a: Seq<char>, b: Seq<char>) -> Seq<char> {
    " (saved: "@ + a + " / "@ + b + ")"@
}

/// The status line text of a notice.
pub open spec fn notice_text(n: Notice) -> Seq<char> {
    match n {
        Notice::Loaded { config_path, state_path } => "設定を読み込みました: "@ + config_path@
            + " / "@ + state_path@,
        Notice::LoadFailed { error } =>
            "設定読み込みに失敗したため read-only で起動しました。保存は無効です: "@ + error@,
        Notice::FirstRefreshFailed { error } => "初回更新に失敗しました: "@ + error@,
        Notice::RefreshFailed { error } => "ウィンドウ一覧の更新に失敗しました: "@ + error@,
        Notice::Refreshed => "ウィンドウ一覧を更新しました"@,
        Notice::RefreshRequestFailed { error } => "更新に失敗しました: "@ + error@,
        Notice::CatalogOpened => "Window catalog を開き、ウィンドウ一覧を更新しました"@,
        Notice::CatalogOpenedRefreshFailed { error } =>
            "Window catalog を開きましたが、更新に失敗しました: "@ + error@,
        Notice::ShortcutsPrinted => "標準出力へ shortcut specs を出力しました"@,
        Notice::StoreSaved { request, paths } => match request {
            SaveRequest::DraftRule => match paths {
                Ok(p) => "設定を保存しました: "@ + p.0@ + " / "@ + p.1@,
                Err(e) => "設定の保存に失敗しました: "@ + e@,
            },
            SaveRequest::Registered { slot, window, wm_class } => match paths {
                Ok(p) => updated_text(slot, window, wm_class@) + saved_pair(p.0@, p.1@),
                Err(e) => slot_text("slot "@, slot, " は更新しましたが設定保存に失敗しました: "@)
                    + e@,
            },
            SaveRequest::Cleared { slot } => match paths {
                Ok(p) => slot_text("slot "@, slot, " を削除しました"@) + saved_pair(p.0@, p.1@),
                Err(e) => slot_text("slot "@, slot, " の削除後に設定保存に失敗しました: "@) + e@,
            },
            SaveRequest::ResetAll => match paths {
                Ok(p) => "全 slot を削除しました"@ + saved_pair(p.0@, p.1@),
                Err(e) => "全 slot の削除後に設定保存に失敗しました: "@ + e@,
            },
        },
        Notice::StateSaved { slot, window, path } => match path {
            Ok(p) => slot_text("slot "@, slot, " をアクティブ化しました: "@) + window.id_hex@ + " ["@
                + window.wm_class@ + "] "@ + window.title@ + " (saved: "@ + p@ + ")"@,
            Err(e) => slot_text("slot "@, slot, " はアクティブ化しましたが設定保存に失敗しました: "@)
                + e@,
        },
    }
}

fn push_slot_text(out: &mut Vec<char>, prefix: &str, slot: u8, suffix: &str)
    ensures
        final(out)@ == old(out)@ + slot_text(prefix@, slot, suffix@),
{
    append_str(out, prefix);
    push_digits(out, slot as u64, 10);
    append_str(out, suffix);
    proof {
        assert(final(out)@ =~= old(out)@ + slot_text(prefix@, slot, suffix@));
    }
}

fn push_saved_pair(out: &mut Vec<char>, a: &String, b: &String)
    ensures
        final(out)@ == old(out)@ + saved_pair(a@, b@),
{
    append_str(out, " (saved: ");
    append_str(out, a.as_str());
    append_str(out, " / ");
    append_str(out, b.as_str());
    append_str(out, ")");
    proof {
        assert(final(out)@ =~= old(out)@ + saved_pair(a@, b@));
    }
}

/// The status line text of a notice.
pub fn notice_message(n: &Notice) -> (r: String)
    ensures
        r@ == notice_text(*n),
{
    let mut out: Vec<char> = Vec::new();
    match n {
        Notice::Loaded { config_path, state_path } => {
            append_str(&mut out, "設定を読み込みました: ");
            append_str(&mut out, config_path.as_str());
            append_str(&mut out, " / ");
            append_str(&mut out, state_path.as_str());
        },
        Notice::LoadFailed { error } => {
            append_str(
                &mut out,
                "設定読み込みに失敗したため read-only で起動しました。保存は無効です: ",
            );
            append_str(&mut out, error.as_str());
        },
        Notice::FirstRefreshFailed { error } => {
            append_str(&mut out, "初回更新に失敗しました: ");
            append_str(&mut out, error.as_str());
        },
        Notice::RefreshFailed { error } => {
            append_str(&mut out, "ウィンドウ一覧の更新に失敗しました: ");
            append_str(&mut out, error.as_str());
        },
        Notice::Refreshed => {
            append_str(&mut out, "ウィンドウ一覧を更新しました");
        },
        Notice::RefreshRequestFailed { error } => {
            append_str(&mut out, "更新に失敗しました: ");
            append_str(&mut out, error.as_str());
        },
        Notice::CatalogOpened => {
            append_str(&mut out, "Window catalog を開き、ウィンドウ一覧を更新しました");
        },
        Notice::CatalogOpenedRefreshFailed { error } => {
            append_str(&mut out, "Window catalog を開きましたが、更新に失敗しました: ");
            append_str(&mut out, error.as_str());
        },
        Notice::ShortcutsPrinted => {
            append_str(&mut out, "標準出力へ shortcut specs を出力しました");
        },
        Notice::StoreSaved { request, paths } => match request {
            SaveRequest::DraftRule => match paths {
                Ok(p) => {
                    append_str(&mut out, "設定を保存しました: ");
                    append_str(&mut out, p.0.as_str());
                    append_str(&mut out, " / ");
                    append_str(&mut out, p.1.as_str());
                },
                Err(e) => {
                    append_str(&mut out, "設定の保存に失敗しました: ");
                    append_str(&mut out, e.as_str());
                },
            },
            SaveRequest::Registered { slot, window, wm_class } => match paths {
                Ok(p) => {
                    push_slot_text(&mut out, "slot ", *slot, " を更新しました: ");
                    append_str(&mut out, window.id_hex.as_str());
                    append_str(&mut out, " [");
                    append_str(&mut out, wm_class.as_str());
                    append_str(&mut out, "] ");
                    append_str(&mut out, window.title.as_str());
                    push_saved_pair(&mut out, &p.0, &p.1);
                },
                Err(e) => {
                    push_slot_text(
                        &mut out,
                        "slot ",
                        *slot,
                        " は更新しましたが設定保存に失敗しました: ",
                    );
                    append_str(&mut out, e.as_str());
                },
            },
            SaveRequest::Cleared { slot } => match paths {
                Ok(p) => {
                    push_slot_text(&mut out, "slot ", *slot, " を削除しました");
                    push_saved_pair(&mut out, &p.0, &p.1);
                },
                Err(e) => {
                    push_slot_text(&mut out, "slot ", *slot, " の削除後に設定保存に失敗しました: ");
                    append_str(&mut out, e.as_str());
                },
            },
            SaveRequest::ResetAll => match paths {
                Ok(p) => {
                    append_str(&mut out, "全 slot を削除しました");
                    push_saved_pair(&mut out, &p.0, &p.1);
                },
                Err(e) => {
                    append_str(&mut out, "全 slot の削除後に設定保存に失敗しました: ");
                    append_str(&mut out, e.as_str());
                },
            },
        },
        Notice::StateSaved { slot, window, path } => match path {
            Ok(p) => {
                push_slot_text(&mut out, "slot ", *slot, " をアクティブ化しました: ");
                append_str(&mut out, window.id_hex.as_str());
                append_str(&mut out, " [");
                append_str(&mut out, window.wm_class.as_str());
                append_str(&mut out, "] ");
                append_str(&mut out, window.title.as_str());
                append_str(&mut out, " (saved: ");
                append_str(&mut out, p.as_str());
                append_str(&mut out, ")");
            },
            Err(e) => {
                push_slot_text(
                    &mut out,
                    "slot ",
                    *slot,
                    " はアクティブ化しましたが設定保存に失敗しました: ",
                );
                append_str(&mut out, e.as_str());
            },
        },
    }
    proof {
        assert(out@ =~= notice_text(*n));
    }
    string_of(out.as_slice())
}

impl WindowJumpApp {
    /// Shows a notice in the status line.
    pub fn notify(&mut self, notice: Notice)
        ensures
            old(self).only_status(*final(self)),
            final(self).status@ == notice_text(notice),
    {
        self.status = notice_message(&notice);
    }

    /// Asks for confirmation before all slots are reset.
    pub fn request_reset_all(&mut self)
        ensures
            *final(self) == (WindowJumpApp {
                confirm_reset_all: true,
                status: final(self).status,
                ..*old(self)
            }),
            final(self).status@ == "全 slot を削除するには Confirm reset all slots を押してください"@,
    {
        self.confirm_reset_all = true;
        self.status = string_from("全 slot を削除するには Confirm reset all slots を押してください");
    }

    /// Withdraws the request to reset all slots.
    pub fn cancel_reset_all(&mut self)
        ensures
            *final(self) == (WindowJumpApp {
                confirm_reset_all: false,
                status: final(self).status,
                ..*old(self)
            }),
            final(self).status@ == "全リセットをキャンセルしました"@,
    {
        self.confirm_reset_all = false;
        self.status = string_from("全リセットをキャンセルしました");
    }
}

} // verus!
