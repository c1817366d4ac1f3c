use keyremap::focus::{FocusCache, FocusSnapshot, REFRESH_INTERVAL_MS};
use keyremap::policy::{contains_text, contains_text_ignoring_case, is_suppressed, to_ascii_lower};
use keyremap::window::{window_id_from_property, WindowInfo};

fn window(title: &str, class: &str) -> WindowInfo {
    WindowInfo { title: title.to_string(), class: class.to_string() }
}

fn snapshot(title: &str, class: &str) -> FocusSnapshot {
    FocusSnapshot { title: title.to_string(), window_class: class.to_string(), captured_at: 0 }
}

#[test]
fn refresh_interval_is_one_second() {
    assert_eq!(REFRESH_INTERVAL_MS, 1000);
}

#[test]
fn first_failure_leaves_the_cache_empty() {
    let mut cache = FocusCache::new(0);
    assert_eq!(cache.current_focus(), None);
    cache.record(1000, None);
    assert_eq!(cache.current_focus(), None);
    assert!(!is_suppressed(cache.current_focus()));
}

#[test]
fn failure_after_success_keeps_the_snapshot() {
    let mut cache = FocusCache::new(0);
    cache.record(1000, Some(window("notes - vim", "gnome-terminal")));
    let expected = FocusSnapshot {
        title: "notes - vim".to_string(),
        window_class: "gnome-terminal".to_string(),
        captured_at: 1000,
    };
    assert_eq!(cache.current_focus(), Some(&expected));
    cache.record(2000, None);
    assert_eq!(cache.current_focus(), Some(&expected));
    cache.record(3000, None);
    assert_eq!(cache.current_focus(), Some(&expected));
    assert!(is_suppressed(cache.current_focus()));
}

#[test]
fn new_answer_replaces_the_snapshot() {
    let mut cache = FocusCache::new(5);
    cache.record(1005, Some(window("a", "b")));
    cache.record(2005, Some(window("c", "d")));
    let expected =
        FocusSnapshot { title: "c".to_string(), window_class: "d".to_string(), captured_at: 2005 };
    assert_eq!(cache.current_focus(), Some(&expected));
}

#[test]
fn refresh_is_due_after_a_full_interval() {
    let cache = FocusCache::new(500);
    assert!(!cache.refresh_due(500));
    assert!(!cache.refresh_due(1499));
    assert!(cache.refresh_due(1500));
    assert!(cache.refresh_due(1501));
    assert!(cache.refresh_due(u64::MAX));
}

#[test]
fn refresh_is_not_due_when_the_clock_is_behind() {
    let cache = FocusCache::new(5000);
    assert!(!cache.refresh_due(0));
    assert!(!cache.refresh_due(4999));
}

#[test]
fn failure_counts_as_asked() {
    let mut cache = FocusCache::new(0);
    assert!(cache.refresh_due(1000));
    cache.record(1000, None);
    assert!(!cache.refresh_due(1999));
    assert!(cache.refresh_due(2000));
}

#[test]
fn class_containing_terminal_suppresses() {
    assert!(is_suppressed(Some(&snapshot("", "xterm-terminal"))));
    assert!(is_suppressed(Some(&snapshot("whatever", "terminal"))));
}

#[test]
fn title_containing_code_suppresses() {
    assert!(is_suppressed(Some(&snapshot("VS Code - file.rs", ""))));
    assert!(is_suppressed(Some(&snapshot("VS Code - file.rs", "Code"))));
    assert!(is_suppressed(Some(&snapshot("my code", "browser"))));
}

#[test]
fn title_containing_vim_or_emacs_suppresses() {
    assert!(is_suppressed(Some(&snapshot("main.rs - nvim", "Alacritty"))));
    assert!(is_suppressed(Some(&snapshot("emacs@host", "Emacs"))));
}

#[test]
fn spreadsheet_does_not_suppress() {
    assert!(!is_suppressed(Some(&snapshot("Spreadsheet", ""))));
    assert!(!is_suppressed(Some(&snapshot("Spreadsheet", "libreoffice-calc"))));
}

#[test]
fn unknown_focus_does_not_suppress() {
    assert!(!is_suppressed(None));
}

#[test]
fn class_is_matched_case_sensitively() {
    assert!(!is_suppressed(Some(&snapshot("", "Terminal"))));
    assert!(!is_suppressed(Some(&snapshot("Spreadsheet", "XTERM-TERMINAL"))));
    assert!(is_suppressed(Some(&snapshot("Spreadsheet", "Xterm-terminal"))));
}

#[test]
fn title_is_matched_whatever_the_case_of_its_letters() {
    assert!(is_suppressed(Some(&snapshot("Vim", ""))));
    assert!(is_suppressed(Some(&snapshot("GNU EMACS", ""))));
    assert!(is_suppressed(Some(&snapshot("CoDe", ""))));
    assert!(!is_suppressed(Some(&snapshot("C0DE", ""))));
}

#[test]
fn ascii_capitals_become_small_letters() {
    assert_eq!(to_ascii_lower('A'), 'a');
    assert_eq!(to_ascii_lower('M'), 'm');
    assert_eq!(to_ascii_lower('Z'), 'z');
    assert_eq!(to_ascii_lower('a'), 'a');
    assert_eq!(to_ascii_lower('z'), 'z');
    assert_eq!(to_ascii_lower('@'), '@');
    assert_eq!(to_ascii_lower('['), '[');
    assert_eq!(to_ascii_lower('0'), '0');
    assert_eq!(to_ascii_lower('É'), 'É');
    for c in 'A'..='Z' {
        assert_eq!(to_ascii_lower(c), c.to_ascii_lowercase());
    }
}

#[test]
fn contains_text_ignoring_case_folds_both_sides() {
    assert!(contains_text_ignoring_case("VS Code - file.rs", "code"));
    assert!(contains_text_ignoring_case("vs code", "CODE"));
    assert!(!contains_text("VS Code - file.rs", "code"));
    assert!(!contains_text_ignoring_case("VS C0de", "code"));
    assert!(contains_text_ignoring_case("ÉCOLE", "École"));
    assert!(!contains_text_ignoring_case("école", "École"));
}

#[test]
fn terminal_in_the_title_and_editor_in_the_class_do_not_count() {
    assert!(!is_suppressed(Some(&snapshot("terminal", ""))));
    assert!(!is_suppressed(Some(&snapshot("", "vim"))));
    assert!(!is_suppressed(Some(&snapshot("", "emacs"))));
}

#[test]
fn contains_text_finds_a_pattern_anywhere() {
    assert!(contains_text("xterm-terminal", "terminal"));
    assert!(contains_text("terminal-x", "terminal"));
    assert!(contains_text("a terminal b", "terminal"));
    assert!(contains_text("terminal", "terminal"));
    assert!(!contains_text("termina", "terminal"));
    assert!(!contains_text("terminaX", "terminal"));
    assert!(!contains_text("", "terminal"));
    assert!(contains_text("aab", "ab"));
    assert!(!contains_text("abab", "abb"));
}

#[test]
fn empty_pattern_is_in_every_text() {
    assert!(contains_text("", ""));
    assert!(contains_text("abc", ""));
}

#[test]
fn contains_text_compares_characters() {
    assert!(contains_text("naïve vim", "vim"));
    assert!(contains_text("日本語のvimノート", "vim"));
    assert!(contains_text("日本語", "本"));
    assert!(!contains_text("日本語", "体"));
}

#[test]
fn window_id_is_read_in_native_byte_order() {
    assert_eq!(window_id_from_property(&0x0123_4567u32.to_ne_bytes()), Some(0x0123_4567));
    assert_eq!(window_id_from_property(&[0, 0, 0, 0]), Some(0));
    assert_eq!(window_id_from_property(&[0xff, 0xff, 0xff, 0xff]), Some(u32::MAX));
    let id = window_id_from_property(&[1, 2, 3, 4]).unwrap();
    assert!(id == 0x0403_0201 || id == 0x0102_0304);
}

#[test]
fn window_id_needs_exactly_four_bytes() {
    assert_eq!(window_id_from_property(&[]), None);
    assert_eq!(window_id_from_property(&[1, 2, 3]), None);
    assert_eq!(window_id_from_property(&[1, 2, 3, 4, 5]), None);
    assert_eq!(window_id_from_property(&[0; 8]), None);
}

#[test]
fn window_info_from_well_formed_properties() {
    let info = WindowInfo::from_properties(b"VS Code - file.rs".to_vec(), b"code\0Code\0".to_vec());
    assert_eq!(info, Some(window("VS Code - file.rs", "code\0Code\0")));
    let info = WindowInfo::from_properties("héllo – 日本".as_bytes().to_vec(), Vec::new());
    assert_eq!(info, Some(window("héllo – 日本", "")));
}

#[test]
fn window_info_from_malformed_properties() {
    assert_eq!(WindowInfo::from_properties(vec![0xff, 0xfe], b"xterm".to_vec()), None);
    assert_eq!(WindowInfo::from_properties(b"title".to_vec(), vec![0xc3]), None);
    assert_eq!(WindowInfo::from_properties(vec![0xed, 0xa0, 0x80], Vec::new()), None);
    assert_eq!(WindowInfo::from_properties(vec![0xc0, 0x80], Vec::new()), None);
}

#[test]
fn malformed_answer_leaves_the_cache_as_it_was() {
    let mut cache = FocusCache::new(0);
    cache.record(1000, WindowInfo::from_properties(b"Spreadsheet".to_vec(), b"calc".to_vec()));
    cache.record(2000, WindowInfo::from_properties(vec![0x80], b"xterm-terminal".to_vec()));
    assert_eq!(cache.current_focus().map(|s| s.title.as_str()), Some("Spreadsheet"));
    assert_eq!(cache.current_focus().map(|s| s.captured_at), Some(1000));
    assert!(!is_suppressed(cache.current_focus()));
}
