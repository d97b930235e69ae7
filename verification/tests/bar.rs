use novakeys::ui::bar::{control_choices, mode_choices};
use novakeys::ui::bar::{decimal, page_texts_for};
use novakeys::ime::types::{Command, Mode, Snapshot};
use novakeys::ui::bar::{
    bar_state, candidate_slot, control_state, direct_label, reading_view, syllable_hint_text,
    ReadingView,
};
use novakeys::ui::composition::{Composition, Transition};

fn text(preedit: &str, cursor: usize, selection: Option<(usize, usize)>) -> Snapshot {
    let mut s = Snapshot::default();
    s.preedit = preedit.to_owned();
    s.cursor = cursor;
    s.selection = selection;
    s
}

#[test]
fn the_bar_follows_the_composition_state() {
    let mut c = Composition::default();
    let b = bar_state(&c, false, true);
    assert!(b.modes_enabled && b.native && b.candidates_enabled && b.visible);
    assert!(!b.retry && !b.discard && !b.error_shown && !b.page_shown);
    assert!(!bar_state(&c, true, true).native);
    assert!(!bar_state(&c, false, false).visible);
    c.mode = Mode::Latin;
    assert!(!bar_state(&c, false, true).native);
    c.error = Some("failed".to_owned());
    c.failed_output = Some(Snapshot::default());
    let b = bar_state(&c, false, false);
    assert!(b.native && b.retry && b.discard && b.error_shown && b.visible);
    assert!(!b.modes_enabled && !b.candidates_enabled);
    c.failed_unknown = true;
    assert!(!bar_state(&c, false, true).retry);
    let mut c = Composition::default();
    c.transition = Some(Transition::Mode(Mode::Latin));
    assert!(!bar_state(&c, false, true).candidates_enabled);
    c.snapshot.has_next = true;
    assert!(bar_state(&c, false, true).page_shown);
    assert_eq!(direct_label(true), "ABC · private field");
    assert_eq!(direct_label(false), "ABC");
}

#[test]
fn controls_show_and_enable_as_they_apply() {
    let mut s = Snapshot::default();
    s.has_next = true;
    assert!(control_state(&Command::Page(1), &s, false, true, false).shown);
    assert!(!control_state(&Command::Page(-1), &s, false, true, false).shown);
    assert!(!control_state(&Command::Segment(1), &s, false, true, false).shown);
    assert!(!control_state(&Command::Left, &s, true, true, false).shown);
    assert!(control_state(&Command::Left, &s, false, true, false).enabled);
    s.pending_romaji = true;
    let left = control_state(&Command::Left, &s, false, true, false);
    assert!(!left.enabled && left.syllable_hint);
    assert!(control_state(&Command::Enter, &s, false, true, false).enabled);
    assert!(!control_state(&Command::Enter, &s, false, false, false).enabled);
    assert!(!control_state(&Command::Enter, &s, false, true, true).enabled);
    assert_eq!(syllable_hint_text(), "音節を完成するか、Backspaceで戻してください");
    s.candidates = vec!["a".to_owned(), "b".to_owned()];
    s.selected = Some(1);
    assert_eq!(candidate_slot(&s, 1), (true, true));
    assert_eq!(candidate_slot(&s, 0), (true, false));
    assert_eq!(candidate_slot(&s, 2), (false, false));
}

#[test]
fn the_reading_shows_a_hint_selection_or_cursor() {
    let empty = Snapshot::default();
    assert_eq!(reading_view(&empty, false, "zh"), ReadingView::Hint("输入拼音，选择候选词".to_owned()));
    assert_eq!(reading_view(&empty, true, "zh"), ReadingView::Hint("Preparing input…".to_owned()));
    assert_eq!(reading_view(&empty, false, "ko"), ReadingView::Hint("한글 입력 · 한자 변환".to_owned()));
    assert_eq!(reading_view(&empty, false, "en"), ReadingView::Hint(String::new()));
    assert_eq!(
        reading_view(&text("日本語", 9, Some((3, 6))), false, "ja"),
        ReadingView::Selection("日".to_owned(), "本".to_owned(), "語".to_owned())
    );
    assert_eq!(
        reading_view(&text("日本語", 4, Some((3, 5))), false, "ja"),
        ReadingView::Cursor("日".to_owned(), "本語".to_owned())
    );
    assert_eq!(
        reading_view(&text("にほ", 99, None), false, "ja"),
        ReadingView::Cursor("にほ".to_owned(), String::new())
    );
    assert_eq!(
        reading_view(&text("ab", 1, Some((2, 1))), false, "ja"),
        ReadingView::Cursor("a".to_owned(), "b".to_owned())
    );
}

#[test]
fn page_indicator_texts() {
    assert_eq!(decimal(0), "0");
    assert_eq!(decimal(1234), "1234");
    let mut s = Snapshot::default();
    s.page = 2;
    assert_eq!(page_texts_for("zh", &s), ("第 3 页".to_owned(), "第 3 页".to_owned()));
    assert_eq!(page_texts_for("ko", &s), ("3 페이지".to_owned(), "3 페이지".to_owned()));
    s.active_segment = 1;
    s.segments = 4;
    assert_eq!(
        page_texts_for("ja", &s),
        ("3 ページ · 文節 2/4".to_owned(), "3頁 · 2/4".to_owned())
    );
    s.segments = 0;
    s.active_segment = 0;
    assert_eq!(page_texts_for("ja", &s).1, "3頁 · 1/1");
}

#[test]
fn each_layout_offers_its_modes_and_controls() {
    let labels = |v: Vec<(String, Mode)>| v.into_iter().collect::<Vec<_>>();
    assert_eq!(
        labels(mode_choices("zh")),
        vec![("简".to_owned(), Mode::Native), ("繁".to_owned(), Mode::Traditional), ("ABC".to_owned(), Mode::Latin)]
    );
    assert_eq!(
        labels(mode_choices("ja")),
        vec![("ひらがな".to_owned(), Mode::Native), ("カタカナ".to_owned(), Mode::Katakana), ("ABC".to_owned(), Mode::Latin)]
    );
    assert_eq!(labels(mode_choices("ko")), vec![("한글".to_owned(), Mode::Native), ("ABC".to_owned(), Mode::Latin)]);
    assert!(mode_choices("en").is_empty());
    let names = |language: &str| control_choices(language).into_iter().map(|(l, _)| l).collect::<Vec<_>>();
    assert_eq!(names("zh"), vec!["←", "→", "Esc", "‹", "›"]);
    assert_eq!(names("ja"), vec!["←", "→", "Esc", "変換", "前文節", "次文節", "縮める", "伸ばす", "‹", "›"]);
    assert_eq!(names("ko"), vec!["Esc", "漢字", "‹", "›"]);
    let ja = control_choices("ja");
    assert!(matches!(ja[3].1, Command::Space));
    assert!(matches!(ja[4].1, Command::Segment(-1)));
    assert!(matches!(ja[7].1, Command::Resize(1)));
    assert!(matches!(control_choices("ko")[1].1, Command::Hanja));
    assert!(matches!(control_choices("ko")[3].1, Command::Page(1)));
}
