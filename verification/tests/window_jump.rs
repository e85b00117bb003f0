use std::collections::BTreeMap;

use window_jump::fonts::{cjk_font_score, select_cjk_font};
use window_jump::matching::{resolve_slot, rule_matches};
use window_jump::model::{SlotRule, SlotState, WindowInfo};
use window_jump::shell::{file_name, shell_quote};
use window_jump::store::legacy_state_from_entries;
use window_jump::suggest::suggest_title_contains;
use window_jump::wmctrl::{format_window_id_hex, parse_window_id, split_prefix_fields};

fn test_window(id: u64, desktop: i32, wm_class: &str, title: &str) -> WindowInfo {
    WindowInfo {
        id,
        id_hex: format_window_id_hex(id),
        desktop,
        pid: Some(42),
        x: 0,
        y: 0,
        width: 100,
        height: 100,
        wm_class: wm_class.to_string(),
        host: "host".to_string(),
        title: title.to_string(),
    }
}

#[test]
fn parse_hex_id() {
    assert_eq!(parse_window_id("0x1a").unwrap(), 0x1a);
}

#[test]
fn parse_decimal_id() {
    assert_eq!(parse_window_id("12345").unwrap(), 12345);
}

#[test]
fn split_fields_and_title() {
    let line =
        "0x04600007  0  12345  100  200  800  600  Navigator.Firefox  host  Mozilla Firefox";
    let (fields, title) = split_prefix_fields(line, 9).unwrap();
    assert_eq!(fields[0], "0x04600007");
    assert_eq!(fields[7], "Navigator.Firefox");
    assert_eq!(fields[8], "host");
    assert_eq!(title, "Mozilla Firefox");
}

#[test]
fn shell_quote_simple() {
    assert_eq!(shell_quote("/tmp/window-jump"), "/tmp/window-jump");
}

#[test]
fn shell_quote_with_space() {
    assert_eq!(shell_quote("/tmp/window jump"), "'/tmp/window jump'");
}

#[test]
fn rule_match_is_case_insensitive_for_title() {
    let rule = SlotRule {
        wm_class: "Navigator.Firefox".to_string(),
        title_contains: "inbox".to_string(),
        ..Default::default()
    };
    let window = test_window(1, 0, "Navigator.Firefox", "Gmail - Inbox - Mozilla Firefox");
    assert!(rule_matches(&rule, &window));
}

#[test]
fn resolve_slot_uses_last_window_id_as_tie_breaker() {
    let rule = SlotRule {
        wm_class: "Terminal.Terminal".to_string(),
        title_contains: "server".to_string(),
        ..Default::default()
    };
    let state = SlotState {
        last_window_id: Some("0x2".to_string()),
        ..Default::default()
    };
    let windows = vec![
        test_window(1, 0, "Terminal.Terminal", "api-server"),
        test_window(2, 1, "Terminal.Terminal", "api-server"),
    ];

    let resolved = resolve_slot(&rule, Some(&state), &windows).unwrap();
    assert_eq!(resolved.id, 2);
}

#[test]
fn resolve_slot_uses_desktop_hint_when_id_does_not_match() {
    let rule = SlotRule {
        wm_class: "Terminal.Terminal".to_string(),
        title_contains: "server".to_string(),
        ..Default::default()
    };
    let state = SlotState {
        desktop_hint: Some(1),
        last_window_id: Some("0xdeadbeef".to_string()),
        ..Default::default()
    };
    let windows = vec![
        test_window(1, 0, "Terminal.Terminal", "api-server"),
        test_window(2, 1, "Terminal.Terminal", "api-server"),
    ];

    let resolved = resolve_slot(&rule, Some(&state), &windows).unwrap();
    assert_eq!(resolved.id, 2);
}

#[test]
fn resolve_slot_reports_ambiguity_without_unique_state_hint() {
    let rule = SlotRule {
        wm_class: "Terminal.Terminal".to_string(),
        title_contains: "server".to_string(),
        ..Default::default()
    };
    let windows = vec![
        test_window(1, 0, "Terminal.Terminal", "api-server"),
        test_window(2, 1, "Terminal.Terminal", "api-server"),
    ];

    let error = resolve_slot(&rule, None, &windows).unwrap_err().to_string();
    assert!(error.contains("複数候補"));
}

#[test]
fn suggested_title_prefers_left_stable_segment() {
    let target = test_window(
        1,
        0,
        "google-chrome.Google-chrome",
        "stem_split_postprocess_theory_spec_mapping_Apr16-2026.md - Markdown Preview Bridge - Google Chrome",
    );
    let other = test_window(
        2,
        0,
        "google-chrome.Google-chrome",
        "inbox - Gmail - Google Chrome",
    );

    assert_eq!(
        suggest_title_contains(&target, &[target.clone(), other]),
        "stem_split_postprocess_theory_spec_mapping"
    );
}

/// The hints that an old `config.json` kept beside each rule, read from the
/// JSON text by hand.
fn legacy_entries(raw: &str) -> BTreeMap<u8, SlotState> {
    let value: serde_json::Value = serde_json::from_str(raw).unwrap();
    let mut entries = BTreeMap::new();
    if let Some(slots) = value.get("slots").and_then(|s| s.as_object()) {
        for (key, slot) in slots {
            let number: u8 = key.parse().unwrap();
            let state = SlotState {
                desktop_hint: slot
                    .get("desktop_hint")
                    .and_then(|d| d.as_i64())
                    .map(|d| d as i32),
                last_window_id: slot
                    .get("last_window_id")
                    .and_then(|d| d.as_str())
                    .map(|d| d.to_string()),
                last_seen_title: slot
                    .get("last_seen_title")
                    .and_then(|d| d.as_str())
                    .map(|d| d.to_string()),
            };
            entries.insert(number, state);
        }
    }
    entries
}

#[test]
fn legacy_config_state_is_migrated_to_state() {
    let raw = r#"{
      "version": 1,
      "slots": {
        "1": {
          "label": "Mail",
          "wm_class": "Navigator.Firefox",
          "title_contains": "Inbox",
          "desktop_hint": 2,
          "last_window_id": "0xabc",
          "last_seen_title": "Inbox - Firefox"
        }
      }
    }"#;

    let state = legacy_state_from_entries(&legacy_entries(raw));
    let slot_state = state.slots.get(&1).unwrap();
    assert_eq!(slot_state.desktop_hint, Some(2));
    assert_eq!(slot_state.last_window_id.as_deref(), Some("0xabc"));
    assert_eq!(
        slot_state.last_seen_title.as_deref(),
        Some("Inbox - Firefox")
    );
}

#[test]
fn preferred_cjk_font_wins_over_later_candidates() {
    let candidates = vec![
        "/usr/share/fonts/opentype/noto/NotoSansCJK-Regular.ttc".to_string(),
        "/usr/share/fonts/opentype/ipaexfont-gothic/ipaexg.ttf".to_string(),
    ];

    let selected = select_cjk_font(&candidates).expect("select font");
    assert_eq!(file_name(&selected).unwrap(), "ipaexg.ttf");
}

#[test]
fn score_accepts_common_japanese_font_names() {
    let font = "/usr/share/fonts/truetype/takao-gothic/TakaoGothic.ttf";
    assert!(cjk_font_score(font).is_some());
}

#[test]
fn non_font_files_are_not_selected() {
    let candidates = vec!["/usr/share/fonts/readme.txt".to_string()];
    assert!(select_cjk_font(&candidates).is_none());
}
