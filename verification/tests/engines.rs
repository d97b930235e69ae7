use novakeys::ime::engines::{
    candidate_slots, conversion_snapshot, engine_text, finish_plan, hangul_key, hanja_snapshot,
    is_lone_n, passthrough, pinyin_key, reading_of, reading_snapshot, rime_key, rime_snapshot,
    romaji_key, FinishPlan, Reading, RimeInfo,
};
use novakeys::ime::types::Command;

fn strings(list: &[&str]) -> Vec<String> {
    list.iter().map(|s| s.to_string()).collect()
}

#[test]
fn rime_keys_and_passthrough() {
    assert_eq!(rime_key(&Command::Backspace), Some(0xff08));
    assert_eq!(rime_key(&Command::Enter), Some(0xff0d));
    assert_eq!(rime_key(&Command::Space), Some(32));
    assert_eq!(rime_key(&Command::Page(-1)), Some(0xff55));
    assert_eq!(rime_key(&Command::Page(1)), Some(0xff56));
    assert_eq!(rime_key(&Command::Hanja), None);
    assert_eq!(passthrough(&Command::Enter), (Some('\n'), false));
    assert_eq!(passthrough(&Command::Escape), (Some('\u{1b}'), false));
    assert_eq!(passthrough(&Command::Space), (None, true));
    assert_eq!(passthrough(&Command::Left), (None, false));
    assert_eq!(pinyin_key('ü'), 'v');
    assert_eq!(pinyin_key('Ü'), 'v');
    assert_eq!(pinyin_key('a'), 'a');
}

#[test]
fn romaji_and_hangul_keys() {
    assert_eq!(romaji_key('K'), Some('k'));
    assert_eq!(romaji_key('a'), Some('a'));
    assert_eq!(romaji_key('\''), Some('\''));
    assert_eq!(romaji_key('-'), Some('-'));
    assert_eq!(romaji_key('1'), None);
    assert_eq!(romaji_key('あ'), None);
    assert!(hangul_key('r'));
    assert!(hangul_key('R'));
    assert!(!hangul_key('1'));
}

#[test]
fn rime_state_becomes_a_snapshot() {
    let info = RimeInfo { count: 2, page: 1, last: 0, selected: 1, cursor: 9, start: 0, end: 3 };
    let s = rime_snapshot(info, "nihao".to_owned(), strings(&["你好", "拟好"])).unwrap();
    assert_eq!(s.cursor, 5);
    assert_eq!(s.selection, Some((0, 3)));
    assert_eq!(s.selected, Some(1));
    assert_eq!(s.page, 1);
    assert!(s.has_previous);
    assert!(s.has_next);
    let info = RimeInfo { count: 2, page: -1, last: 1, selected: 2, cursor: -4, start: 2, end: 1 };
    let s = rime_snapshot(info, "ni".to_owned(), strings(&["你", "泥"])).unwrap();
    assert_eq!(s.cursor, 0);
    assert_eq!(s.selection, None);
    assert_eq!(s.selected, None);
    assert_eq!(s.page, 0);
    assert!(!s.has_previous && !s.has_next);
    let info = RimeInfo { count: 0, page: 0, last: 1, selected: 0, cursor: 1, start: 0, end: 0 };
    let refused = rime_snapshot(info, "你".to_owned(), vec![]).unwrap_err();
    assert_eq!(refused.message, "Invalid Chinese preedit cursor");
    assert_eq!(candidate_slots(-1), 0);
    assert_eq!(candidate_slots(4), 4);
    assert_eq!(candidate_slots(9), 6);
}

#[test]
fn romaji_preview_becomes_a_reading() {
    let parts = vec![("に".to_owned(), 0), ("ほ".to_owned(), 1), ("ng".to_owned(), 16)];
    let reading = reading_of(parts).unwrap();
    assert_eq!(reading.text, "にほng");
    assert_eq!(reading.cursor, 3);
    assert_eq!(reading.pending, "ng");
    let reading = reading_of(vec![("か".to_owned(), 0)]).unwrap();
    assert_eq!(reading.cursor, 3);
    let long = reading_of(vec![("a".repeat(4096), 0), ("b".to_owned(), 0)]).unwrap_err();
    assert_eq!(long.message, "Japanese reading exceeds text limit");
    let many = reading_of(vec![("a".to_owned(), 0); 1025]).unwrap_err();
    assert_eq!(many.message, "Japanese preview exceeds segment limit");
    assert!(reading_of(vec![("a".to_owned(), 0); 1024]).is_ok());
    let s = reading_snapshot(Reading { text: "かn".to_owned(), cursor: 3, pending: "n".to_owned() });
    assert_eq!(s.preedit, "かn");
    assert_eq!(s.cursor, 3);
    assert!(s.pending_romaji);
}

#[test]
fn readings_finish_by_kind() {
    let reading = |text: &str, pending: &str| Reading {
        text: text.to_owned(),
        cursor: 0,
        pending: pending.to_owned(),
    };
    assert_eq!(finish_plan(&reading("", "")), FinishPlan::Nothing);
    assert_eq!(finish_plan(&reading("かk", "k")), FinishPlan::AsShown);
    assert_eq!(finish_plan(&reading("かn", "n")), FinishPlan::Commit);
    assert_eq!(finish_plan(&reading("か", "")), FinishPlan::Commit);
    assert!(is_lone_n(&"n".to_owned()));
    assert!(!is_lone_n(&"nn".to_owned()));
}

#[test]
fn conversions_select_the_active_segment() {
    let s = conversion_snapshot(strings(&["日本", "語"]), 1, 7, 1, 8, strings(&["語", "後"]));
    assert_eq!(s.preedit, "日本語");
    assert_eq!(s.selection, Some((6, 9)));
    assert_eq!(s.cursor, 9);
    assert_eq!(s.selected, Some(1));
    assert!(s.has_previous);
    assert!(!s.has_next);
    assert_eq!(s.segments, 2);
    assert_eq!(s.active_segment, 1);
    let s = conversion_snapshot(strings(&["a"]), 3, 0, 0, 7, vec![]);
    assert_eq!(s.selection, None);
    assert_eq!(s.cursor, 1);
    assert_eq!(s.selected, None);
    assert!(s.has_next);
}

#[test]
fn hanja_candidates_are_paged() {
    let candidates = strings(&["漢", "韓", "寒", "閑", "汗", "限", "翰"]);
    let s = hanja_snapshot("한".to_owned(), &candidates, 1);
    assert_eq!(s.candidates, strings(&["翰"]));
    assert_eq!(s.cursor, 3);
    assert!(s.has_previous);
    assert!(!s.has_next);
    let s = hanja_snapshot("한".to_owned(), &candidates, 0);
    assert_eq!(s.candidates.len(), 6);
    assert!(s.has_next);
    let s = hanja_snapshot(String::new(), &candidates, 2);
    assert!(s.candidates.is_empty());
    assert!(engine_text("x".repeat(4096)).is_ok());
    assert_eq!(engine_text("x".repeat(4097)).unwrap_err().message, "Engine text exceeds 4096 bytes");
}
