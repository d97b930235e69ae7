use novakeys::ime::paging::{
    candidate_index, has_next_page, move_segment, next_choice, page_bounds, page_count,
    selected_on_page, turn_page,
};
use novakeys::ime::types::{
    append_commit, check_input_limit, composition_enabled, direct_korean_text, korean_keys, Command,
    Job, Mode, Token, MAX_INPUT,
};
use novakeys::ime::worker::{engine_for, no_engine, refused_job, Engine, Session, Step};

#[test]
fn candidates_are_paged_by_six() {
    assert_eq!(page_count(0), 0);
    assert_eq!(page_count(6), 1);
    assert_eq!(page_count(7), 2);
    assert_eq!(turn_page(0, 1, 13), 1);
    assert_eq!(turn_page(2, 1, 13), 2);
    assert_eq!(turn_page(1, -3, 13), 0);
    assert_eq!(turn_page(0, 1, 0), 0);
    assert_eq!(candidate_index(1, 2, 13), Some(8));
    assert_eq!(candidate_index(2, 1, 13), None);
    assert_eq!(candidate_index(0, 6, 13), None);
    assert_eq!(candidate_index(usize::MAX, 0, usize::MAX), None);
    assert_eq!(page_bounds(1, 10), (6, 10));
    assert_eq!(page_bounds(0, 10), (0, 6));
    assert!(has_next_page(0, 7));
    assert!(!has_next_page(1, 12));
    assert_eq!(selected_on_page(8, 1, 6), Some(2));
    assert_eq!(selected_on_page(3, 1, 6), None);
    assert_eq!(next_choice(12, 13), (0, 0));
    assert_eq!(next_choice(5, 13), (6, 1));
    assert_eq!(move_segment(0, -1, 3), 0);
    assert_eq!(move_segment(1, 5, 3), 2);
    assert_eq!(move_segment(1, 1, 3), 2);
}

#[test]
fn input_and_commit_limits() {
    assert!(check_input_limit(MAX_INPUT).is_ok());
    let refusal = check_input_limit(MAX_INPUT + 1).unwrap_err();
    assert!(refusal.recoverable);
    assert_eq!(refusal.message, "Commit the current text before typing more");
    let mut commit = "a".repeat(4095);
    assert!(append_commit(&mut commit, "b").is_ok());
    assert_eq!(commit.len(), 4096);
    let refusal = append_commit(&mut commit, "c").unwrap_err();
    assert!(!refusal.recoverable);
    assert_eq!(refusal.message, "Commit exceeds 4096 bytes");
    assert_eq!(commit.len(), 4096);
}

#[test]
fn composition_runs_only_on_cjk_layouts_outside_latin_and_sensitive_fields() {
    assert!(composition_enabled("zh", Mode::Native, false));
    assert!(composition_enabled("ja", Mode::Katakana, false));
    assert!(composition_enabled("ko", Mode::Traditional, false));
    assert!(!composition_enabled("ko", Mode::Latin, false));
    assert!(!composition_enabled("ja", Mode::Native, true));
    assert!(!composition_enabled("en", Mode::Native, false));
    assert!(!composition_enabled("zh-tw", Mode::Native, false));
}

#[test]
fn korean_jamo_map_to_dubeolsik_keys() {
    assert_eq!(korean_keys("ㅎㅏㄴ", false), "gks");
    assert_eq!(korean_keys("ㄱ", true), "R");
    assert_eq!(korean_keys("ㅛ", true), "y");
    assert_eq!(korean_keys("ㅘㅢ", false), "hkml");
    assert_eq!(korean_keys("ㅃa!", false), "Qa!");
    assert_eq!(direct_korean_text("ㅎ", true), "G");
    assert_eq!(direct_korean_text("ㅘ", true), "hk");
    assert_eq!(direct_korean_text("ㄱ", false), "r");
}

#[test]
fn engines_serve_their_layouts() {
    assert_eq!(engine_for("zh"), Some(Engine::Chinese));
    assert_eq!(engine_for("ja"), Some(Engine::Japanese));
    assert_eq!(engine_for("ko"), Some(Engine::Korean));
    assert_eq!(engine_for("en"), None);
    assert_eq!(engine_for("z"), None);
    assert_eq!(no_engine().message, "No composition engine for this layout");
    assert!(refused_job(true).recoverable);
    let stopped = refused_job(false);
    assert!(!stopped.recoverable);
    assert_eq!(stopped.message, "Input worker has stopped");
}

fn job(token: Token, language: &str, mode: Mode) -> Job {
    Job { token, revision: 1, language: language.to_owned(), mode, command: Command::Reset }
}

#[test]
fn the_worker_resets_engines_once_per_session_and_drops_stale_jobs() {
    let live = Token { generation: 2, epoch: 1 };
    let old = Token { generation: 1, epoch: 1 };
    let mut session = Session::new();
    assert_eq!(session.step(live, &job(live, "zh", Mode::Native)), Step::Reset);
    session.reset_done(&job(live, "zh", Mode::Native));
    assert_eq!(session.step(live, &job(live, "zh", Mode::Native)), Step::Run);
    assert_eq!(session.step(live, &job(live, "zh", Mode::Traditional)), Step::Reset);
    assert_eq!(session.step(live, &job(live, "ja", Mode::Native)), Step::Reset);
    assert_eq!(session.step(live, &job(old, "zh", Mode::Native)), Step::Skip);
    assert_eq!(session.step(live, &job(live, "zh", Mode::Native)), Step::Reset);
    session.reset_done(&job(live, "zh", Mode::Native));
    assert_eq!(session.step(live, &job(live, "", Mode::Native)), Step::Skip);
    session.reset_done(&job(live, "zh", Mode::Native));
    assert!(session.deliverable(live, live));
    assert_eq!(session.step(live, &job(live, "zh", Mode::Native)), Step::Run);
    assert!(!session.deliverable(old, live));
    assert_eq!(session.step(live, &job(live, "zh", Mode::Native)), Step::Reset);
}
