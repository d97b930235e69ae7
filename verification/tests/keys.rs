use novakeys::ui::keys::OneShotShift;
use novakeys::ui::keys::{key_kind, row_keys, KeyKind};
use novakeys::ime::types::{Command, Mode};
use novakeys::layout::parse::{Key, LayoutDefinition};
use novakeys::ui::composition::{Composition, Transition};
use novakeys::ui::keys::{
    action_key, alternative_labels, key_label, key_text, literal_command, shown, ActionKey,
};

fn key(text: &str) -> Key {
    Key {
        text: Some(text.to_owned()),
        alternatives: None,
        action: None,
        display_text: None,
        flag: None,
        width: None,
    }
}

fn layout(code: Option<&str>, rows: Vec<Vec<Key>>) -> LayoutDefinition {
    LayoutDefinition {
        default: None,
        layout: rows,
        language_code: code.map(str::to_owned),
        language_name: None,
        language_flag: None,
        height: 0,
    }
}

#[test]
fn labels_follow_shift_and_the_korean_engine() {
    let tr = layout(Some("tr"), vec![vec![key("i")]]);
    assert_eq!(key_label(&tr, &key("i"), true, false), "İ");
    assert_eq!(key_label(&tr, &key("i"), false, false), "i");
    let mut space = key(" ");
    space.display_text = Some("space".to_owned());
    assert_eq!(key_label(&tr, &space, true, false), "space");
    let ko = layout(Some("ko"), vec![vec![key("ㅂ")]]);
    assert_eq!(key_label(&ko, &key("ㅂ"), true, true), "ㅃ");
    assert_eq!(key_label(&ko, &key("ㅂ"), true, false), "Q");
    assert_eq!(key_label(&ko, &key("ㅎ"), true, false), "G");
    assert_eq!(shown(&ko, "ㅘ", false, false), "hk");
    let mut popup = key("a");
    popup.alternatives = Some(vec!["á".to_owned(), "ab".to_owned()]);
    let en = layout(Some("en"), vec![vec![popup.clone()]]);
    assert_eq!(alternative_labels(&en, &popup, true, false), vec!["Á".to_owned(), "ab".to_owned()]);
    assert!(alternative_labels(&en, &key("a"), true, false).is_empty());
}

#[test]
fn key_presses_insert_shifted_text() {
    let de = layout(Some("de"), vec![vec![key("ä"), Key { text: None, ..key("") }]]);
    assert_eq!(key_text(&de, 0, 0, true).as_deref(), Some("Ä"));
    assert_eq!(key_text(&de, 0, 0, false).as_deref(), Some("ä"));
    assert_eq!(key_text(&de, 0, 1, false), None);
    assert_eq!(key_text(&de, 0, 2, false), None);
    assert_eq!(key_text(&de, 1, 0, false), None);
}

#[test]
fn literals_become_commands() {
    assert!(matches!(literal_command(" ", "en", false, false), Command::Space));
    assert!(matches!(literal_command("ab", "en", false, false), Command::Text(t) if t == "ab"));
    assert!(matches!(literal_command("ㅎㅏ", "ko", true, false), Command::Text(t) if t == "gk"));
    assert!(matches!(literal_command("ㅎ", "ko", false, true), Command::Text(t) if t == "G"));
    assert!(matches!(literal_command("ㄱ", "ko", true, true), Command::Text(t) if t == "R"));
}

#[test]
fn action_keys() {
    assert!(matches!(action_key("shift"), Some(ActionKey::Shift)));
    assert!(matches!(action_key("language_selector"), Some(ActionKey::LanguageSelector)));
    assert!(matches!(action_key("backspace"), Some(ActionKey::Send(Command::Backspace))));
    assert!(matches!(action_key("enter"), Some(ActionKey::Send(Command::Enter))));
    assert!(matches!(action_key("space"), Some(ActionKey::Send(Command::Space))));
    assert!(action_key("tab").is_none());
}

#[test]
fn engine_input_and_candidate_taps() {
    let mut c = Composition::default();
    assert!(c.native_key_input(true));
    assert!(!c.native_key_input(false));
    c.transition = Some(Transition::Mode(Mode::Latin));
    assert!(!c.native_key_input(true));
    c.transition = Some(Transition::Mode(Mode::Katakana));
    assert!(c.native_key_input(true));
    c.transition = None;
    c.applied = 4;
    assert!(c.accepts_candidate(4));
    assert!(!c.accepts_candidate(3));
    c.pending = 1;
    assert!(!c.accepts_candidate(4));
}

#[test]
fn keys_become_widgets_and_hidden_selectors_are_skipped() {
    let action = |name: &str| Key { text: None, action: Some(name.to_owned()), ..key("") };
    assert_eq!(key_kind(&action("shift")), KeyKind::Shift);
    assert_eq!(key_kind(&action("backspace")), KeyKind::Repeating);
    assert_eq!(key_kind(&action("language_selector")), KeyKind::LanguageSelector);
    assert_eq!(key_kind(&action("enter")), KeyKind::Action);
    assert_eq!(key_kind(&key("a")), KeyKind::Text);
    assert_eq!(key_kind(&Key { text: None, ..key("") }), KeyKind::Spacer);
    let row = vec![key("a"), action("language_selector"), action("space"), key("b")];
    assert_eq!(row_keys(&row, true), vec![0, 1, 2, 3]);
    assert_eq!(row_keys(&row, false), vec![0, 2, 3]);
}

#[test]
fn shift_applies_to_the_next_key_only() {
    let de = layout(Some("de"), vec![vec![key("ä"), Key { text: None, ..key("") }]]);
    let mut shift = OneShotShift::new();
    assert!(!shift.pressed);
    shift.action(&ActionKey::Shift);
    assert!(shift.pressed);
    shift.action(&ActionKey::Send(Command::Space));
    assert!(shift.pressed);
    assert_eq!(shift.text_key(&de, 0, 1), None);
    assert!(shift.pressed);
    assert_eq!(shift.text_key(&de, 0, 0).as_deref(), Some("Ä"));
    assert!(!shift.pressed);
    assert_eq!(shift.text_key(&de, 0, 0).as_deref(), Some("ä"));
    shift.action(&ActionKey::Shift);
    shift.action(&ActionKey::Shift);
    assert!(!shift.pressed);
    shift.action(&ActionKey::Shift);
    shift.release();
    assert!(!shift.pressed);
}
