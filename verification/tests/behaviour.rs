use window_jump::cli::{
    activation_line, activation_rule, apply_capture, capture_line, clear_slot, command_failure,
    command_status_failure, gui_args, inspect_lines, slot_listing_lines, window_table_lines,
    GuiArgs,
};
use window_jump::editor::{SaveRequest, WindowJumpApp};
use window_jump::fonts::{
    cjk_font_score, detect_system_cjk_font, expand_home, font_path_line, is_supported_font_file,
    select_cjk_font, FontCheck,
};
use window_jump::matching::{resolve_slot, rule_matches, title_contains_warning, ResolveError};
use window_jump::model::{update_slot_state, AppConfig, AppState, SlotRule, SlotState, WindowInfo};
use window_jump::order::windows_from_listing;
use window_jump::presentation::{empty_dash, truncate};
use window_jump::shell::{
    executable_hint, shell_quote, shortcut_command_for, shortcut_spec_lines, shortcut_specs_output,
};
use window_jump::store::{
    config_path, load_store, lock_is_stale, state_path, store_dir, temp_file_name,
};
use window_jump::suggest::default_label;
use window_jump::text::normalize;
use window_jump::view::{
    active_summary, catalog_row, catalog_shows, preview_count_line, preview_geometry_line,
    preview_line, preview_matches, quit_requested, slot_list_title,
};
use window_jump::wmctrl::{
    format_window_id_hex, parse_window_id, split_prefix_fields, window_not_listed, WindowIdError,
};

fn window(id: u64, desktop: i32, wm_class: &str, title: &str) -> WindowInfo {
    WindowInfo {
        id,
        id_hex: format_window_id_hex(id),
        desktop,
        pid: Some(42),
        x: 0,
        y: 0,
        width: 100,
        height: 100,
        wm_class: wm_class.to_string(),
        host: "host".to_string(),
        title: title.to_string(),
    }
}

fn rule(wm_class: &str, title_contains: &str) -> SlotRule {
    SlotRule {
        wm_class: wm_class.to_string(),
        title_contains: title_contains.to_string(),
        ..Default::default()
    }
}

// ---------------------------------------------------------------------------
// Window ids
// ---------------------------------------------------------------------------

#[test]
fn window_id_survives_formatting_and_parsing() {
    for id in [0u64, 1, 0x4600007, 0xdead_beef, u64::MAX] {
        assert_eq!(parse_window_id(&format_window_id_hex(id)).unwrap(), id);
    }
    assert_eq!(format_window_id_hex(0x4600007), "0x4600007");
    assert_eq!(format_window_id_hex(0), "0x0");
}

#[test]
fn window_id_accepts_upper_case_prefix_and_spaces() {
    assert_eq!(parse_window_id(" 0X1A\n").unwrap(), 26);
    assert_eq!(parse_window_id("+5").unwrap(), 5);
}

#[test]
fn window_id_errors_name_the_text() {
    match parse_window_id("   ") {
        Err(e @ WindowIdError::Empty) => assert_eq!(e.to_string(), "window id が空です"),
        other => panic!("unexpected {:?}", other),
    }
    match parse_window_id(" 0xzz ") {
        Err(e @ WindowIdError::InvalidHex { .. }) => {
            assert_eq!(e.to_string(), "16 進 window id を解釈できませんでした: 0xzz")
        }
        other => panic!("unexpected {:?}", other),
    }
    match parse_window_id("abc") {
        Err(e @ WindowIdError::InvalidDecimal { .. }) => {
            assert_eq!(e.to_string(), "10 進 window id を解釈できませんでした: abc")
        }
        other => panic!("unexpected {:?}", other),
    }
    assert!(parse_window_id("18446744073709551616").is_err());
}

#[test]
fn prefix_fields_need_enough_fields() {
    assert!(split_prefix_fields("0x1 0 1 2", 9).is_none());
    let (fields, rest) = split_prefix_fields("a b", 2).unwrap();
    assert_eq!(fields, vec!["a".to_string(), "b".to_string()]);
    assert_eq!(rest, "");
}

// ---------------------------------------------------------------------------
// Matching
// ---------------------------------------------------------------------------

#[test]
fn title_match_lowers_non_ascii_letters() {
    let r = rule("Doc.Doc", " école ");
    let w = window(1, 0, "Doc.Doc", "ÉCOLE notes");
    assert!(rule_matches(&r, &w));
    assert_eq!(normalize("  ÄBC "), "äbc");
}

#[test]
fn rule_without_class_matches_nothing() {
    let r = rule("  ", "");
    let w = window(1, 0, "  ", "x");
    assert!(!rule_matches(&r, &w));
    match resolve_slot(&r, None, &[w]) {
        Err(e @ ResolveError::Unusable) => assert_eq!(e.to_string(), "WM_CLASS が未設定です"),
        other => panic!("unexpected {:?}", other),
    }
}

#[test]
fn class_is_compared_exactly() {
    let r = rule("Navigator.Firefox", "");
    assert!(!rule_matches(&r, &window(1, 0, "navigator.firefox", "x")));
    assert!(rule_matches(&r, &window(1, 0, "Navigator.Firefox", "x")));
}

#[test]
fn not_found_error_names_the_rule() {
    let r = rule("Terminal.Terminal", "");
    let windows = vec![window(1, 0, "Other.Other", "x")];
    let err = resolve_slot(&r, None, &windows).unwrap_err();
    assert!(!err.is_ambiguous());
    assert_eq!(
        err.to_string(),
        "一致候補が見つかりません。class=Terminal.Terminal title_contains=-"
    );
}

#[test]
fn ambiguity_lists_every_matching_window() {
    let r = rule("T.T", "server");
    let windows = vec![
        window(1, 0, "T.T", "api-server"),
        window(3, 0, "X.X", "api-server"),
        window(2, 1, "T.T", "web-server"),
    ];
    let err = resolve_slot(&r, None, &windows).unwrap_err();
    assert!(err.is_ambiguous());
    assert_eq!(
        err.to_string(),
        "複数候補が存在します。title_contains をもう少し具体化してください:\n- 0x1 D0 [T.T] api-server\n- 0x2 D1 [T.T] web-server\n"
    );
}

#[test]
fn a_single_match_wins_over_the_hints() {
    let r = rule("T.T", "");
    let state = SlotState {
        desktop_hint: Some(5),
        last_window_id: Some("0x9".to_string()),
        last_seen_title: None,
    };
    let windows = vec![window(9, 5, "X.X", "x"), window(1, 0, "T.T", "y")];
    assert_eq!(resolve_slot(&r, Some(&state), &windows).unwrap().id, 1);
}

#[test]
fn the_chosen_window_always_matches_the_rule() {
    let r = rule("T.T", "srv");
    let state = SlotState {
        desktop_hint: Some(2),
        last_window_id: Some("0X7".to_string()),
        last_seen_title: None,
    };
    let windows = vec![
        window(7, 2, "X.X", "srv"),
        window(4, 2, "T.T", "srv one"),
        window(5, 3, "T.T", "srv two"),
    ];
    let chosen = resolve_slot(&r, Some(&state), &windows).unwrap();
    assert_eq!(chosen.id, 4);
    assert!(rule_matches(&r, chosen));
}

#[test]
fn a_long_title_piece_is_warned_about() {
    let long: String = "a".repeat(70);
    let short: String = "a".repeat(69);
    assert_eq!(
        title_contains_warning(&long).unwrap(),
        "title_contains が長めです。変化しやすいフルタイトルではなく、短く安定した語を推奨します。"
    );
    assert!(title_contains_warning(&short).is_none());
}

// ---------------------------------------------------------------------------
// Commands
// ---------------------------------------------------------------------------

#[test]
fn capture_keeps_notes_and_fills_the_label() {
    let mut config = AppConfig::default();
    config.slots.insert(
        2,
        SlotRule {
            label: " ".to_string(),
            wm_class: "Old.Old".to_string(),
            title_contains: "old".to_string(),
            notes: "keep me".to_string(),
        },
    );
    let mut state = AppState::default();
    let w = window(0x10, 3, "New.New", "  Project board  ");
    let rule = apply_capture(&mut config, &mut state, 2, &w, &[], None, Some("board".to_string()));
    assert_eq!(rule.label, "Project board");
    assert_eq!(rule.wm_class, "New.New");
    assert_eq!(rule.title_contains, "board");
    assert_eq!(rule.notes, "keep me");
    assert_eq!(config.slots.get(&2).unwrap().label, "Project board");
    let hints = state.slots.get(&2).unwrap();
    assert_eq!(hints.desktop_hint, Some(3));
    assert_eq!(hints.last_window_id.as_deref(), Some("0x10"));
    assert_eq!(hints.last_seen_title.as_deref(), Some("  Project board  "));
    assert_eq!(
        capture_line(2, &w, &rule),
        "slot 2 を更新しました: 0x10 [New.New]   Project board  "
    );
}

#[test]
fn capture_with_a_given_label_uses_it() {
    let mut config = AppConfig::default();
    let mut state = AppState::default();
    let w = window(1, 0, "A.A", "inbox - Mail");
    let rule = apply_capture(&mut config, &mut state, 1, &w, &[], Some("Mail".to_string()), None);
    assert_eq!(rule.label, "Mail");
    assert_eq!(rule.title_contains, "inbox");
}

#[test]
fn clearing_a_slot_removes_rule_and_hints() {
    let mut config = AppConfig::default();
    config.slots.insert(4, rule("A.A", ""));
    config.slots.insert(5, rule("B.B", ""));
    let mut state = AppState::default();
    state.slots.insert(
        4,
        SlotState { desktop_hint: Some(1), last_window_id: None, last_seen_title: None },
    );
    clear_slot(&mut config, &mut state, 4);
    assert!(config.slots.get(&4).is_none());
    assert!(config.slots.get(&5).is_some());
    assert!(state.slots.get(&4).is_none());
}

#[test]
fn activation_needs_a_registered_usable_rule() {
    let mut config = AppConfig::default();
    assert_eq!(activation_rule(&config, 3).unwrap_err(), "slot 3 は未登録です");
    config.slots.insert(3, SlotRule { label: "x".to_string(), ..Default::default() });
    assert_eq!(
        activation_rule(&config, 3).unwrap_err(),
        "slot 3 のルールが不完全です。GUI から class を設定してください"
    );
    config.slots.insert(3, rule("A.A", ""));
    assert_eq!(activation_rule(&config, 3).unwrap().wm_class, "A.A");
    assert_eq!(
        activation_line(3, &window(0xa, 0, "A.A", "t")),
        "slot 3 -> 0xa [A.A] t"
    );
}

#[test]
fn window_table_is_padded_like_the_listing() {
    assert_eq!(window_table_lines(&[]), vec!["ウィンドウは見つかりませんでした".to_string()]);
    let mut w = window(0x4600007, 0, "Navigator.Firefox", "Mozilla Firefox");
    w.pid = None;
    let lines = window_table_lines(&[w]);
    assert_eq!(lines.len(), 2);
    assert_eq!(
        lines[0],
        format!(
            "{:<12} {:<4} {:<7} {:<28} {:<18} TITLE",
            "WINDOW_ID", "DSK", "PID", "WM_CLASS", "GEOMETRY"
        )
    );
    assert_eq!(
        lines[1],
        format!(
            "{:<12} {:<4} {:<7} {:<28} {:<18} {}",
            "0x4600007", 0, "-", "Navigator.Firefox", "100x100+0+0", "Mozilla Firefox"
        )
    );
}

#[test]
fn inspect_lists_every_field() {
    let lines = inspect_lines(&window(0x1, -1, "A.A", "t"));
    assert_eq!(
        lines,
        vec![
            "window_id     : 0x1".to_string(),
            "desktop       : -1".to_string(),
            "pid           : 42".to_string(),
            "wm_class      : A.A".to_string(),
            "geometry      : 100x100+0+0".to_string(),
            "title         : t".to_string(),
        ]
    );
}

#[test]
fn slot_listing_shows_rules_and_hints() {
    let mut config = AppConfig::default();
    let state = AppState::default();
    assert_eq!(
        slot_listing_lines(&config, &state),
        vec!["登録済み slot はありません".to_string()]
    );
    config.slots.insert(
        1,
        SlotRule {
            label: "Mail".to_string(),
            wm_class: "A.A".to_string(),
            title_contains: "".to_string(),
            notes: "".to_string(),
        },
    );
    let mut state = AppState::default();
    state.slots.insert(
        1,
        SlotState {
            desktop_hint: Some(2),
            last_window_id: Some("0xabc".to_string()),
            last_seen_title: None,
        },
    );
    assert_eq!(
        slot_listing_lines(&config, &state),
        vec![
            "slot 1".to_string(),
            "  label          : Mail".to_string(),
            "  wm_class       : A.A".to_string(),
            "  title_contains : -".to_string(),
            "  desktop_hint   : 2".to_string(),
            "  last_window_id : 0xabc".to_string(),
            "  last_seen_title: -".to_string(),
            "  notes          : -".to_string(),
        ]
    );
}

#[test]
fn gui_arguments_are_decided_in_order() {
    let args = |v: &[&str]| v.iter().map(|s| s.to_string()).collect::<Vec<String>>();
    assert!(matches!(gui_args(&args(&["--help", "-V"])), GuiArgs::Version));
    assert!(matches!(gui_args(&args(&["x", "-h"])), GuiArgs::Help));
    match gui_args(&args(&["x", "y"])) {
        GuiArgs::Unknown(a) => assert_eq!(a, "x"),
        other => panic!("unexpected {:?}", other),
    }
    assert!(matches!(gui_args(&[]), GuiArgs::Run));
}

// ---------------------------------------------------------------------------
// Listing
// ---------------------------------------------------------------------------

#[test]
fn listing_is_sorted_by_desktop_class_and_title() {
    let output = "0x2  1  10  0 0 10 10  b.B  host  Zeta\n\n0x1  0  11  0 0 10 10  b.B  host  beta\r\n0x3  0  -  0 0 10 10  A.a  host  gamma\n";
    let windows = windows_from_listing(output).unwrap();
    let ids: Vec<u64> = windows.iter().map(|w| w.id).collect();
    assert_eq!(ids, vec![3, 1, 2]);
    assert_eq!(windows[0].pid, None);
    assert_eq!(windows[1].title, "beta");
}

#[test]
fn listing_reports_the_first_bad_line() {
    assert_eq!(
        windows_from_listing("0x1 0 1 2\n").unwrap_err(),
        "wmctrl の出力行を解釈できませんでした: 0x1 0 1 2"
    );
    assert_eq!(
        windows_from_listing("0x1 zero 1 0 0 1 1 a.A h t\n").unwrap_err(),
        "desktop を解釈できませんでした: zero"
    );
}

// ---------------------------------------------------------------------------
// Store
// ---------------------------------------------------------------------------

#[test]
fn state_file_hints_win_over_legacy_ones() {
    let mut config = AppConfig::default();
    config.version = 0;
    config.slots.insert(1, rule("A.A", ""));
    let mut legacy = AppState::default();
    legacy.slots.insert(
        1,
        SlotState { desktop_hint: Some(9), last_window_id: None, last_seen_title: None },
    );
    legacy.slots.insert(
        2,
        SlotState { desktop_hint: Some(8), last_window_id: None, last_seen_title: None },
    );
    let mut state_file = AppState::default();
    state_file.slots.insert(
        1,
        SlotState { desktop_hint: Some(1), last_window_id: None, last_seen_title: None },
    );
    let (config, state) = load_store(Some((config, legacy)), Some(state_file));
    assert_eq!(config.version, 1);
    assert_eq!(state.slots.get(&1).unwrap().desktop_hint, Some(1));
    assert_eq!(state.slots.get(&2).unwrap().desktop_hint, Some(8));
    let (config, state) = load_store(None, None);
    assert_eq!(config.version, 1);
    assert!(config.slots.is_empty());
    assert!(state.slots.is_empty());
}

#[test]
fn store_directory_follows_xdg_then_home() {
    assert_eq!(
        store_dir(Some("/x".to_string()), Some("/home/u".to_string())).unwrap(),
        "/x/window-jump"
    );
    assert_eq!(
        store_dir(None, Some("/home/u/".to_string())).unwrap(),
        "/home/u/.config/window-jump"
    );
    assert!(store_dir(None, None).is_none());
    assert_eq!(config_path("/d"), "/d/config.json");
    assert_eq!(state_path("/d/"), "/d/state.json");
}

// ---------------------------------------------------------------------------
// Text helpers
// ---------------------------------------------------------------------------

#[test]
fn truncation_keeps_at_most_max_characters() {
    assert_eq!(truncate("abcdef", 4), "abc…");
    assert_eq!(truncate("abc", 3), "abc");
    assert_eq!(truncate("abc", 0), "…");
    assert_eq!(truncate("日本語テキスト", 3), "日本…");
    assert_eq!(empty_dash("  "), "-");
    assert_eq!(empty_dash(" x "), " x ");
}

#[test]
fn default_label_falls_back_to_the_class() {
    assert_eq!(default_label(&window(1, 0, " Cls ", "   ")), "Cls");
}

#[test]
fn shell_quoting_escapes_quotes() {
    assert_eq!(shell_quote(""), "''");
    assert_eq!(shell_quote("it's"), "'it'\"'\"'s'");
    assert_eq!(shell_quote("/a-b_c.d:e"), "/a-b_c.d:e");
}

#[test]
fn shortcut_lines_cover_every_slot() {
    let lines = shortcut_spec_lines("/usr/bin/window-jump");
    assert_eq!(lines.len(), 9);
    assert_eq!(lines[0], "Ctrl+Alt+1 -> /usr/bin/window-jump activate 1");
    assert_eq!(lines[8], "Ctrl+Alt+9 -> /usr/bin/window-jump activate 9");
    assert_eq!(shortcut_command_for("/a b", 3), "'/a b' activate 3");
}

#[test]
fn executable_hint_prefers_the_environment() {
    let s = |v: &str| Some(v.to_string());
    assert_eq!(executable_hint(s("/env/wj"), s("/bin/x"), None, None), "/env/wj");
    assert_eq!(
        executable_hint(None, s("/opt/window-jump-config-gui"), s("/opt/window-jump"), s("/p/wj")),
        "/opt/window-jump"
    );
    assert_eq!(
        executable_hint(None, s("/opt/window-jump-config-gui"), None, s("/p/wj")),
        "/p/wj"
    );
    assert_eq!(executable_hint(None, s("/bin/window-jump"), None, None), "/bin/window-jump");
    assert_eq!(executable_hint(None, None, None, None), "/absolute/path/to/window-jump");
}

// ---------------------------------------------------------------------------
// Fonts
// ---------------------------------------------------------------------------

#[test]
fn font_scores_follow_the_name() {
    assert_eq!(
        cjk_font_score("/usr/share/fonts/truetype/takao-gothic/TakaoGothic.ttf"),
        Some(28)
    );
    assert_eq!(
        cjk_font_score("/usr/share/fonts/opentype/noto/NotoSansCJK-Regular.ttc"),
        Some(32)
    );
    assert_eq!(cjk_font_score("/x/NotoSansCJKjp-Bold.otf"), Some(44));
    assert_eq!(cjk_font_score("/x/ipag.ttf"), Some(26));
    assert_eq!(cjk_font_score("/x/DejaVuSans.ttf"), None);
    assert_eq!(cjk_font_score("/x/japanese.txt"), None);
}

#[test]
fn font_files_are_known_by_extension() {
    assert!(is_supported_font_file("/a/B.TTF"));
    assert!(is_supported_font_file("/a/b.otf"));
    assert!(!is_supported_font_file("/a/.ttf"));
    assert!(!is_supported_font_file("/a/b.otf.bak"));
    assert!(!is_supported_font_file("/a/b"));
}

#[test]
fn best_scored_font_wins_without_a_preferred_one() {
    let candidates = vec!["/y/migu-1p-regular.ttf".to_string(), "/x/NotoSansCJKjp-Bold.otf".to_string()];
    assert_eq!(select_cjk_font(&candidates).unwrap(), "/x/NotoSansCJKjp-Bold.otf");
    let ties = vec!["/b/umefont.ttf".to_string(), "/a/umefont.ttf".to_string()];
    assert_eq!(select_cjk_font(&ties).unwrap(), "/b/umefont.ttf");
    let preferred = vec!["/x/NotoSansCJKjp-Bold.otf".to_string(), "/y/TAKAOGOTHIC.TTF".to_string()];
    assert_eq!(select_cjk_font(&preferred).unwrap(), "/y/TAKAOGOTHIC.TTF");
}

#[test]
fn font_check_reports_what_was_found() {
    let found = detect_system_cjk_font(&["/f/ipag.ttf".to_string()]);
    assert_eq!(found.font_path.as_deref(), Some("/f/ipag.ttf"));
    assert_eq!(found.status_line(), "日本語 UI フォント: /f/ipag.ttf");
    assert_eq!(font_path_line(&found), "font_path: /f/ipag.ttf");
    let none = FontCheck { font_path: None };
    assert_eq!(
        none.status_line(),
        "日本語 UI フォントを自動検出できませんでした。システム既定フォントを使います。"
    );
    assert_eq!(font_path_line(&none), "font_path: -");
}

#[test]
fn home_is_expanded_in_font_directories() {
    assert_eq!(expand_home("~/.fonts", Some("/home/u".to_string())), "/home/u/.fonts");
    assert_eq!(expand_home("~", Some("/home/u".to_string())), "/home/u");
    assert_eq!(expand_home("~/.fonts", None), "~/.fonts");
    assert_eq!(expand_home("/usr/share/fonts", Some("/h".to_string())), "/usr/share/fonts");
}

// ---------------------------------------------------------------------------
// GUI texts and decisions
// ---------------------------------------------------------------------------

#[test]
fn quitting_is_ignored_while_typing() {
    assert!(!quit_requested(true, true, true, false));
    assert!(quit_requested(false, true, false, true));
    assert!(quit_requested(false, true, true, false));
    assert!(!quit_requested(false, false, true, false));
    assert!(!quit_requested(false, true, false, false));
}

#[test]
fn catalog_rows_and_filter() {
    let w = window(0x2a, 1, "Navigator.Firefox", "Inbox");
    let r = rule("Navigator.Firefox", "");
    assert_eq!(
        catalog_row(&w, Some(0x2a), &r),
        format!(
            "{:<9} {:<11} D{:<3} {:<28} {}",
            "ACTIVE MATCH ", "0x2a", 1, "Navigator.Firefox", "Inbox"
        )
    );
    assert_eq!(
        catalog_row(&w, None, &rule("X.X", "")),
        format!("{:<9} {:<11} D{:<3} {:<28} {}", "-", "0x2a", 1, "Navigator.Firefox", "Inbox")
    );
    assert!(catalog_shows("  FIRE ", &w));
    assert!(catalog_shows("   ", &w));
    assert!(!catalog_shows("chrome", &w));
}

#[test]
fn preview_texts() {
    let w = window(0x5, 2, "A.A", "Title");
    assert_eq!(
        preview_line(&w, Some(0x5)),
        format!("ACTIVE {}  D{}  {:<28}  {}", "0x5", 2, "A.A", "Title")
    );
    assert_eq!(preview_geometry_line(&w), "geom=100x100+0+0 pid=Some(42)");
    assert_eq!(preview_count_line(0), "一致候補は 0 件です。");
    assert_eq!(preview_count_line(3), "一致候補: 3 件");
    let matches = preview_matches(&rule("A.A", ""), &[window(1, 0, "B.B", "x"), w.clone()]);
    assert_eq!(matches.len(), 1);
    assert_eq!(matches[0].id, 5);
    assert_eq!(active_summary(None), "ACTIVE: 不明");
    assert_eq!(active_summary(Some(&w)), "ACTIVE: 0x5 [A.A] Title");
}

#[test]
fn slot_list_titles() {
    let r = SlotRule { label: "Mail".to_string(), ..Default::default() };
    assert_eq!(slot_list_title(1, &r), "slot 1  Mail");
    assert_eq!(slot_list_title(2, &rule("A.A", "")), "slot 2  A.A");
    assert_eq!(slot_list_title(3, &SlotRule::default()), "slot 3  <empty>");
}

fn app(read_only: bool) -> WindowJumpApp {
    let mut config = AppConfig::default();
    config.slots.insert(1, rule("A.A", "a"));
    WindowJumpApp::new(
        config,
        AppState::default(),
        read_only,
        "start".to_string(),
        "font".to_string(),
        "/bin/window-jump".to_string(),
    )
}

#[test]
fn unsaved_edits_keep_the_slot() {
    let mut a = app(false);
    assert_eq!(a.draft_rule.wm_class, "A.A");
    a.draft_rule.label = "edited".to_string();
    a.note_draft_edit(true);
    a.select_slot(2);
    assert_eq!(a.selected_slot, 1);
    assert_eq!(
        a.status,
        "未保存の編集があります。Save または Revert してから slot を切り替えてください"
    );
    assert!(matches!(a.save_draft_rule(), Some(SaveRequest::DraftRule)));
    assert_eq!(a.config.slots.get(&1).unwrap().label, "edited");
    a.select_slot(2);
    assert_eq!(a.selected_slot, 2);
    assert_eq!(a.draft_rule.wm_class, "");
}

#[test]
fn read_only_editor_never_saves() {
    let mut a = app(true);
    a.note_draft_edit(true);
    assert!(a.save_draft_rule().is_none());
    assert!(a.clear_selected_slot().is_none());
    assert!(a.reset_all_slots().is_none());
    assert!(a.config.slots.get(&1).is_some());
    assert_eq!(
        a.status,
        "read-only モードです。設定読み込みエラーを直すまで保存できません"
    );
}

#[test]
fn a_candidate_is_stored_only_when_registered() {
    let mut a = app(false);
    let w = window(0x77, 4, "Term.Term", "build server");
    a.prepare_capture_candidate(3, w);
    assert!(a.config.slots.get(&3).is_none());
    assert_eq!(a.selected_slot, 3);
    match a.register_capture_candidate() {
        Some(SaveRequest::Registered { slot, window, wm_class }) => {
            assert_eq!(slot, 3);
            assert_eq!(window.id, 0x77);
            assert_eq!(wm_class, "Term.Term");
        }
        other => panic!("unexpected {:?}", other),
    }
    let stored = a.config.slots.get(&3).unwrap();
    assert_eq!(stored.wm_class, "Term.Term");
    assert_eq!(stored.title_contains, "build server");
    assert_eq!(a.state.slots.get(&3).unwrap().desktop_hint, Some(4));
    assert!(a.capture_candidate.is_none());
    assert!(a.register_capture_candidate().is_none());
    assert_eq!(a.status, "登録候補がありません");
}

#[test]
fn unusable_slot_status_and_resolution() {
    let mut a = app(false);
    assert_eq!(a.slot_status(1), "× Not found");
    a.refresh_now(vec![window(1, 0, "A.A", "abc")], Some(1));
    assert_eq!(a.slot_status(1), "✓ Resolved");
    assert_eq!(a.slot_status(2), "- Empty");
    assert_eq!(a.test_activate_selected_slot().unwrap().id, 1);
}

#[test]
fn small_messages_and_decisions() {
    assert_eq!(temp_file_name("config.json", 77), ".config.json.77.tmp");
    assert!(!lock_is_stale(None));
    assert!(!lock_is_stale(Some(30_000_000_000)));
    assert!(lock_is_stale(Some(30_000_000_001)));
    assert_eq!(window_not_listed(0x2a), "window id 0x2a は wmctrl 一覧にありません");
    assert_eq!(command_failure("wmctrl", " "), "wmctrl が失敗しました: -");
    assert_eq!(
        command_status_failure("xdotool", "exit status: 1", "bad", ""),
        "xdotool が exit status exit status: 1 で失敗しました。stderr=bad stdout=-"
    );
}

#[test]
fn the_window_last_used_is_found_again() {
    let r = rule("T.T", "");
    let windows = vec![
        window(1, 0, "T.T", "one"),
        window(2, 0, "T.T", "two"),
        window(3, 0, "T.T", "three"),
    ];
    assert!(resolve_slot(&r, None, &windows).unwrap_err().is_ambiguous());
    let mut state = AppState::default();
    update_slot_state(&mut state, 1, &windows[1]);
    let found = resolve_slot(&r, state.slots.get(&1), &windows).unwrap();
    assert_eq!(found.id, 2);
}

#[test]
fn slot_status_follows_the_error_text() {
    let mut config = AppConfig::default();
    config.slots.insert(1, rule("A.A", "複数候補"));
    let a = WindowJumpApp::new(
        config,
        AppState::default(),
        false,
        String::new(),
        String::new(),
        String::new(),
    );
    assert_eq!(a.slot_status(1), "! Ambiguous");
}

#[test]
fn read_only_test_activation_saves_nothing() {
    let mut a = app(true);
    let w = window(1, 0, "A.A", "abc");
    a.refresh_now(vec![w.clone()], None);
    let found = a.test_activate_selected_slot().unwrap();
    assert!(!a.finish_test_activation(&found, Ok(())));
    assert!(a.state.slots.is_empty());
    assert_eq!(
        a.status,
        "read-only モードです。設定読み込みエラーを直すまで保存できません"
    );
    let mut b = app(false);
    b.refresh_now(vec![w.clone()], None);
    assert!(b.finish_test_activation(&w, Ok(())));
    assert_eq!(b.state.slots.get(&1).unwrap().last_window_id.as_deref(), Some("0x1"));
    assert!(!b.finish_test_activation(&w, Err("boom".to_string())));
    assert_eq!(b.status, "slot 1 のアクティブ化に失敗しました: boom");
}

#[test]
fn failed_test_activation_names_the_slot_and_the_error() {
    let mut a = app(false);
    assert!(a.test_activate_selected_slot().is_none());
    assert_eq!(
        a.status,
        "slot 1 の解決に失敗しました: 一致候補が見つかりません。class=A.A title_contains=a"
    );
}

#[test]
fn captured_candidates_carry_the_proposals() {
    let mut config = AppConfig::default();
    config.slots.insert(
        2,
        SlotRule { notes: "n".to_string(), ..rule("X.X", "") },
    );
    let mut a = WindowJumpApp::new(
        config,
        AppState::default(),
        false,
        String::new(),
        String::new(),
        String::new(),
    );
    a.capture_active_into_slot(2, Ok(window(7, 0, "C.C", "inbox - Mail")));
    let c = a.capture_candidate.as_ref().unwrap();
    assert_eq!(c.label, "inbox - Mail");
    assert_eq!(c.title_contains, "inbox");
    assert_eq!(c.notes, "n");
    assert!(a.config.slots.get(&2).unwrap().wm_class == "X.X");
    assert!(a.begin_click_capture(3));
    a.poll_capture_result(Err("gone".to_string()));
    assert_eq!(a.status, "クリック取得に失敗しました: gone");
    assert!(!a.capture_waiting);
    assert!(a.config.slots.get(&2).is_some());
    assert!(a.begin_click_capture(3));
    a.poll_capture_result(Ok(window(8, 0, "D.D", "notes")));
    let c = a.capture_candidate.as_ref().unwrap();
    assert_eq!(c.slot, 3);
    assert_eq!(c.title_contains, "notes");
    assert!(c.notes.is_empty());
}

#[test]
fn window_id_reads_back_in_every_form() {
    for id in [0u64, 9, 0x4600007, u64::MAX] {
        assert_eq!(parse_window_id(&id.to_string()).unwrap(), id);
        assert_eq!(parse_window_id(&format!("  0X{:X} ", id)).unwrap(), id);
    }
}

#[test]
fn resolving_ignores_the_window_order() {
    let r = rule("T.T", "");
    let state = SlotState { desktop_hint: Some(1), last_window_id: None, last_seen_title: None };
    let a = vec![window(1, 0, "T.T", "x"), window(2, 1, "T.T", "y"), window(3, 2, "U.U", "z")];
    let b = vec![a[2].clone(), a[1].clone(), a[0].clone()];
    assert_eq!(resolve_slot(&r, Some(&state), &a).unwrap().id, 2);
    assert_eq!(resolve_slot(&r, Some(&state), &b).unwrap().id, 2);
    assert!(resolve_slot(&r, None, &a).unwrap_err().is_ambiguous());
    assert!(resolve_slot(&r, None, &b).unwrap_err().is_ambiguous());
}

#[test]
fn shortcut_output_starts_with_a_header() {
    let out = shortcut_specs_output("/bin/wj");
    assert_eq!(out.len(), 11);
    assert_eq!(out[0], "GNOME Custom Shortcuts に以下を設定してください。");
    assert_eq!(out[1], "");
    assert_eq!(out[2], "Ctrl+Alt+1 -> /bin/wj activate 1");
    assert_eq!(out[10], "Ctrl+Alt+9 -> /bin/wj activate 9");
}

#[test]
fn sorting_keeps_the_listing_order_of_equal_keys() {
    let output = "0x1  0  10  0 0 10 10  a.A  h  t\n0x1  0  11  5 5 20 20  a.A  h2  t\n";
    let windows = windows_from_listing(output).unwrap();
    assert_eq!(windows[0].pid, Some(10));
    assert_eq!(windows[1].pid, Some(11));
}
