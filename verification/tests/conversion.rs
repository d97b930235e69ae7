use novakeys::ime::deployment::{fingerprint_text, is_safe_engine_dir, is_stale_build, lines_of};
use novakeys::ime::japanese::{
    check_candidate_count, check_candidate_length, check_editable, check_segment_count,
    check_unconverted, typed_char, Conversion, Step, Typed,
};
use novakeys::ime::types::check_added_input;
use novakeys::ime::korean::{check_hanja_count, ucs4_text, KoreanInput, KoreanStep};
use novakeys::ime::types::{Command, Mode};

fn text(s: &str) -> Command {
    Command::Text(s.to_string())
}

#[test]
fn reading_commands_leave_work_to_the_parser() {
    let mut c = Conversion::new();
    assert!(!c.converting());
    assert_eq!(c.apply(&Command::Reset, true, Mode::Native).unwrap(), Step::Reset);
    assert_eq!(c.apply(&text("ka"), true, Mode::Native).unwrap(), Step::Type);
    assert_eq!(c.apply(&Command::Backspace, true, Mode::Native).unwrap(), Step::Control('\u{8}'));
    assert_eq!(c.apply(&Command::Backspace, false, Mode::Native).unwrap(), Step::RomajiBackspace);
    assert_eq!(c.apply(&Command::Space, true, Mode::Native).unwrap(), Step::Space);
    assert_eq!(c.apply(&Command::Space, false, Mode::Native).unwrap(), Step::Convert);
    assert_eq!(c.apply(&Command::Space, false, Mode::Katakana).unwrap(), Step::Finish);
    assert_eq!(c.apply(&Command::Enter, true, Mode::Native).unwrap(), Step::Control('\n'));
    assert_eq!(c.apply(&Command::Enter, false, Mode::Native).unwrap(), Step::Finish);
    assert_eq!(c.apply(&Command::Finish, true, Mode::Native).unwrap(), Step::Done);
    assert_eq!(c.apply(&Command::Escape, false, Mode::Native).unwrap(), Step::Reset);
    assert_eq!(c.apply(&Command::Left, false, Mode::Native).unwrap(), Step::MoveCursor(-1));
    assert_eq!(c.apply(&Command::Right, false, Mode::Native).unwrap(), Step::MoveCursor(1));
    assert_eq!(c.apply(&Command::Page(1), false, Mode::Native).unwrap(), Step::Done);
    let expired = c.apply(&Command::Select(0), false, Mode::Native).unwrap_err();
    assert_eq!(expired.message, "Candidate has expired");
    assert!(!expired.recoverable);
}

#[test]
fn a_conversion_moves_between_segments_and_candidates() {
    let mut c = Conversion::new();
    c.converted(3);
    assert!(c.converting());
    assert_eq!(c.choices(), &vec![0, 0, 0]);
    assert_eq!((c.segment(), c.page()), (0, 0));
    assert_eq!(c.apply(&Command::Space, false, Mode::Native).unwrap(), Step::NextCandidate);
    c.next_candidate(8);
    assert_eq!(c.choices(), &vec![1, 0, 0]);
    for _ in 0..6 {
        c.next_candidate(8);
    }
    assert_eq!(c.choices()[0], 7);
    assert_eq!(c.page(), 1);
    c.next_candidate(8);
    assert_eq!((c.choices()[0], c.page()), (0, 0));
    assert_eq!(c.apply(&Command::Segment(5), false, Mode::Native).unwrap(), Step::Done);
    assert_eq!(c.segment(), 2);
    assert_eq!(c.apply(&Command::Left, false, Mode::Native).unwrap(), Step::Done);
    assert_eq!(c.segment(), 1);
    assert_eq!(c.apply(&Command::Page(1), false, Mode::Native).unwrap(), Step::TurnPage(1));
    c.turn(1, 8);
    assert_eq!(c.page(), 1);
    c.turn(5, 8);
    assert_eq!(c.page(), 1);
    assert!(c.pick(1, 8).is_ok());
    assert_eq!(c.choices(), &vec![0, 7, 0]);
    assert_eq!(c.pick(2, 8).unwrap_err().message, "Candidate has expired");
    assert_eq!(c.choices(), &vec![0, 7, 0]);
    assert_eq!(c.apply(&Command::Select(3), false, Mode::Native).unwrap(), Step::Pick(3));
    assert_eq!(c.apply(&Command::Resize(-4), false, Mode::Native).unwrap(), Step::Resize(-1));
    assert_eq!(c.apply(&Command::Resize(0), false, Mode::Native).unwrap(), Step::Resize(0));
    c.resized(1);
    assert_eq!((c.choices(), c.segment(), c.page()), (&vec![0], 0, 0));
    assert_eq!(c.apply(&Command::Enter, true, Mode::Native).unwrap(), Step::Finish);
    assert_eq!(c.apply(&Command::Escape, true, Mode::Native).unwrap(), Step::Done);
    assert!(!c.converting());
}

#[test]
fn anthy_reports_are_checked() {
    assert_eq!(check_segment_count(0, 64).unwrap(), 64);
    assert_eq!(check_segment_count(0, 65).unwrap_err().message, "Invalid Japanese segment count");
    assert!(check_segment_count(-1, 3).is_err());
    assert_eq!(check_candidate_count(0, 1).unwrap(), 1);
    assert_eq!(check_candidate_count(0, 0).unwrap_err().message, "Japanese candidates unavailable");
    assert!(check_candidate_count(0, 10001).is_err());
    assert_eq!(check_candidate_length(4096).unwrap(), 4096);
    assert_eq!(
        check_candidate_length(-1).unwrap_err().message,
        "Japanese candidate exceeds text limit"
    );
    assert!(check_editable(1).is_ok() && check_editable(2).is_ok());
    assert_eq!(
        check_editable(3).unwrap_err().message,
        "Japanese parser left unconverted editing state"
    );
    assert!(check_unconverted(2).is_ok());
    assert_eq!(
        check_unconverted(1).unwrap_err().message,
        "Japanese finalization requires unconverted text"
    );
}

#[test]
fn korean_input_tracks_keys_and_hanja() {
    let mut k = KoreanInput::new();
    assert!(matches!(k.apply(&Command::Backspace), Ok(KoreanStep::Control('\u{8}'))));
    assert!(matches!(k.apply(&Command::Enter), Ok(KoreanStep::Control('\n'))));
    assert!(matches!(k.apply(&Command::Finish), Ok(KoreanStep::Done)));
    assert!(matches!(k.apply(&text("gks")), Ok(KoreanStep::Type)));
    k.took('g');
    k.took('k');
    k.took('s');
    assert_eq!(k.keys(), &vec!['g', 'k', 's']);
    assert!(matches!(k.apply(&Command::Enter), Ok(KoreanStep::Finish)));
    assert!(matches!(k.apply(&Command::Space), Ok(KoreanStep::FinishWithSpace)));
    assert!(matches!(k.apply(&Command::Hanja), Ok(KoreanStep::LookUp)));
    let found: Vec<String> = (0..8).map(|i| format!("c{i}")).collect();
    k.found(found);
    assert!(matches!(k.apply(&Command::Page(1)), Ok(KoreanStep::Done)));
    assert_eq!(k.page(), 1);
    match k.apply(&Command::Select(1)) {
        Ok(KoreanStep::Commit(t)) => assert_eq!(t, "c7"),
        _ => panic!("candidate not committed"),
    }
    let expired = k.apply(&Command::Select(2)).unwrap_err();
    assert_eq!(expired.message, "Hanja candidate has expired");
    assert!(matches!(k.apply(&Command::Escape), Ok(KoreanStep::Done)));
    assert!(k.candidates().is_empty());
    assert!(matches!(k.apply(&Command::Escape), Ok(KoreanStep::Reset)));
    assert!(matches!(k.apply(&Command::Backspace), Ok(KoreanStep::Backspace)));
    assert_eq!(k.keys(), &vec!['g', 'k']);
    let refused = k.apply(&text(&"a".repeat(1023))).unwrap_err();
    assert!(refused.recoverable);
    assert_eq!(k.keys(), &vec!['g', 'k']);
    assert!(matches!(k.apply(&text(&"a".repeat(1022))), Ok(KoreanStep::Type)));
    k.reset();
    assert!(k.keys().is_empty());
}

#[test]
fn hangul_engine_text_is_decoded() {
    assert_eq!(ucs4_text(&vec![0xD55C, 0xAE00, 0]).unwrap(), "한글");
    assert_eq!(ucs4_text(&vec![0]).unwrap(), "");
    assert_eq!(
        ucs4_text(&vec![0x41, 0xD800, 0]).unwrap_err().message,
        "Invalid Korean engine character"
    );
    assert_eq!(
        ucs4_text(&vec![0x41; 1024]).unwrap_err().message,
        "Korean engine text exceeds limit"
    );
    assert_eq!(check_hanja_count(10000).unwrap(), 10000);
    assert_eq!(
        check_hanja_count(10001).unwrap_err().message,
        "Hanja candidate count exceeds limit"
    );
}

#[test]
fn dictionary_fingerprints_sort_their_lines() {
    let lines: Vec<String> = lines_of("b\r\na\n\nc\r").iter().map(|l| l.iter().collect()).collect();
    assert_eq!(lines, vec!["b", "a", "", "c\r"]);
    assert!(lines_of("").is_empty());
    assert_eq!(lines_of("\n").len(), 1);
    let value = "private-luna-v1:1.13\nessay.txt:10:5\ndefault.yaml:3:7\n";
    let expected: Vec<&str> = {
        let mut v: Vec<&str> = value.lines().collect();
        v.sort_unstable();
        v
    };
    assert_eq!(fingerprint_text(value), expected.join("\n"));
    assert_eq!(
        fingerprint_text(value),
        "default.yaml:3:7\nessay.txt:10:5\nprivate-luna-v1:1.13"
    );
    assert_eq!(fingerprint_text(""), "");
}

#[test]
fn old_builds_and_unsafe_directories() {
    assert!(is_stale_build("compiled-0011", false));
    assert!(!is_stale_build("compiled-0011", true));
    assert!(!is_stale_build("rime-build-x", false));
    assert!(!is_stale_build("compiled", false));
    assert!(is_safe_engine_dir(true, false, 1000, 1000));
    assert!(!is_safe_engine_dir(true, true, 1000, 1000));
    assert!(!is_safe_engine_dir(false, false, 1000, 1000));
    assert!(!is_safe_engine_dir(true, false, 0, 1000));
}

#[test]
fn typed_characters_go_to_the_parser_or_commit() {
    assert_eq!(typed_char('K', false), Typed::Key { finish_first: false, key: 'k' });
    assert_eq!(typed_char('-', true), Typed::Key { finish_first: true, key: '-' });
    assert_eq!(typed_char('1', true), Typed::Commit);
    assert_eq!(typed_char('あ', false), Typed::Commit);
    assert!(check_added_input(1000, 24).is_ok());
    let refused = check_added_input(1000, 25).unwrap_err();
    assert!(refused.recoverable);
    assert!(check_added_input(usize::MAX, 1).is_err());
}
