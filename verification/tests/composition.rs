use novakeys::config::types::ConfigFile;
use novakeys::ime::types::{Command, EngineError, Mode, Response, Snapshot, Token};
use novakeys::ime::worker::refused_job;
use novakeys::language::manager::{LanguageManager, LayoutFile};
use novakeys::layout::parse::{Key, LayoutDefinition};
use novakeys::service::host::{DeliveryError, KeyboardHandle};
use novakeys::ui::composition::{direct_output, Composition, Dispatch, Plan, Transition};

#[derive(Default)]
struct Recorder {
    sent: Vec<String>,
    fail_text: Option<DeliveryError>,
}

impl KeyboardHandle for Recorder {
    fn insert_text(&mut self, text: &str) -> Result<(), DeliveryError> {
        if let Some(error) = self.fail_text.clone() {
            return Err(error);
        }
        self.sent.push(text.to_owned());
        Ok(())
    }

    fn control(&mut self, key: char) -> Result<(), DeliveryError> {
        self.sent.push(format!("control {key:?}"));
        Ok(())
    }

    fn delete_text(&mut self, before_length: u32, after_length: u32) -> Result<(), DeliveryError> {
        self.sent.push(format!("delete {before_length} {after_length}"));
        Ok(())
    }

    fn destroy(&mut self) {}
}

const TOKEN: Token = Token { generation: 1, epoch: 0 };

fn output(text: &str) -> Snapshot {
    let mut s = Snapshot::default();
    s.committed = text.to_owned();
    s
}

fn ok(revision: u64, snapshot: Snapshot) -> Response {
    Response { token: TOKEN, revision, result: Ok(snapshot) }
}

fn err(revision: u64, recoverable: bool) -> Response {
    Response {
        token: TOKEN,
        revision,
        result: Err(EngineError { message: "engine failed".to_owned(), recoverable }),
    }
}

#[test]
fn taken_output_joins_in_order_until_a_control() {
    let mut c = Composition::default();
    c.pending = 3;
    let mut batch = None;
    assert!(c.take_response(&mut batch, ok(1, output("a")), TOKEN));
    assert!(c.take_response(&mut batch, ok(2, output("b")), TOKEN));
    let mut enter = output("c");
    enter.control = Some('\n');
    assert!(!c.take_response(&mut batch, ok(3, enter), TOKEN));
    assert_eq!(batch.as_ref().unwrap().committed, "abc");
    assert_eq!(c.pending, 0);
    assert_eq!(c.applied, 3);
    c.finish_batch(batch);
    assert_eq!(c.deferred.len(), 1);
    let mut keyboard = Recorder::default();
    c.deliver_deferred(&mut keyboard);
    assert_eq!(keyboard.sent, vec!["abc".to_owned(), "control '\\n'".to_owned()]);
    assert!(c.deferred.is_empty());
    assert!(c.snapshot.committed.is_empty());
    assert_eq!(c.snapshot.control, None);
}

#[test]
fn output_after_a_control_or_past_a_commit_waits_separately() {
    let mut c = Composition::default();
    let mut batch = None;
    let mut enter = output("a");
    enter.control = Some('\n');
    c.take_response(&mut batch, ok(1, enter), TOKEN);
    c.take_response(&mut batch, ok(2, output("b")), TOKEN);
    assert_eq!(c.deferred.len(), 1);
    assert_eq!(batch.as_ref().unwrap().committed, "b");
    let mut batch = Some(output(&"x".repeat(3000)));
    c.take_response(&mut batch, ok(3, output(&"y".repeat(1097))), TOKEN);
    assert_eq!(c.deferred.len(), 2);
    assert_eq!(batch.as_ref().unwrap().committed.len(), 1097);
    let mut batch = Some(output(&"x".repeat(3000)));
    c.take_response(&mut batch, ok(4, output(&"y".repeat(1096))), TOKEN);
    assert_eq!(c.deferred.len(), 2);
    assert_eq!(batch.as_ref().unwrap().committed.len(), 4096);
}

#[test]
fn stale_responses_are_skipped_and_errors_end_the_batch() {
    let mut c = Composition::default();
    c.pending = 2;
    let mut batch = Some(output("a"));
    let stale = Response { token: Token { generation: 0, epoch: 0 }, revision: 9, result: Ok(output("z")) };
    assert!(c.take_response(&mut batch, stale, TOKEN));
    assert_eq!(c.pending, 2);
    assert_eq!(batch.as_ref().unwrap().committed, "a");
    assert!(c.take_response(&mut batch, err(1, true), TOKEN));
    assert!(batch.is_none());
    assert_eq!(c.deferred.len(), 1);
    assert!(c.recoverable_error);
    assert!(!c.take_response(&mut batch, err(2, false), TOKEN));
    assert_eq!(c.error.as_deref(), Some("engine failed"));
    assert!(!c.recoverable_error);
    assert_eq!(c.pending, 0);
}

#[test]
fn held_text_joins_finished_output_before_latin_mode() {
    let mut c = Composition::default();
    c.transition = Some(Transition::Mode(Mode::Latin));
    c.transition_input = vec![
        Command::Text("d".to_owned()),
        Command::Space,
        Command::Text("e".to_owned()),
        Command::Enter,
        Command::Text("f".to_owned()),
    ];
    c.finish_batch(Some(output("abc")));
    assert_eq!(c.deferred.len(), 1);
    assert_eq!(c.deferred[0].committed, "abcd e");
    assert_eq!(c.transition_input.len(), 2);
    assert!(matches!(c.transition_input[0], Command::Enter));
    let mut other = Composition::default();
    other.transition = Some(Transition::Mode(Mode::Katakana));
    other.transition_input = vec![Command::Text("d".to_owned())];
    other.finish_batch(Some(output("abc")));
    assert_eq!(other.deferred[0].committed, "abc");
    assert_eq!(other.transition_input.len(), 1);
}

#[test]
fn failed_delivery_is_kept_for_a_retry_unless_its_outcome_is_unknown() {
    let mut c = Composition::default();
    let mut keyboard = Recorder {
        fail_text: Some(DeliveryError::OutcomeUnknown("Input transport failed".to_owned())),
        ..Recorder::default()
    };
    let r = c.deliver(&mut keyboard, output("abc"));
    assert!(r.unwrap_err().outcome_unknown());
    assert_eq!(
        c.error.as_deref(),
        Some("Input transport failed. Restart the keyboard before continuing.")
    );
    assert!(c.failed_unknown);
    assert_eq!(c.failed_output.as_ref().unwrap().committed, "abc");
    assert!(c.retry(&mut keyboard).is_none());
    assert!(c.error.is_some());

    let mut c = Composition::default();
    keyboard.fail_text = Some(DeliveryError::Rejected("Input context expired or inactive".to_owned()));
    assert!(c.deliver(&mut keyboard, output("abc")).is_err());
    assert_eq!(c.error.as_deref(), Some("Input context expired or inactive"));
    assert!(!c.failed_unknown);
    keyboard.fail_text = None;
    assert!(c.retry(&mut keyboard).unwrap().is_ok());
    assert!(c.error.is_none());
    assert!(c.failed_output.is_none());
    assert_eq!(keyboard.sent, vec!["abc".to_owned()]);
}

#[test]
fn keys_are_held_back_while_a_transition_waits() {
    let mut c = Composition::default();
    c.transition = Some(Transition::Mode(Mode::Latin));
    let mut keyboard = Recorder::default();
    for _ in 0..24 {
        assert!(matches!(
            c.dispatch(&mut keyboard, Command::Text("a".to_owned()), true, TOKEN, "ja"),
            Dispatch::Held
        ));
    }
    assert!(matches!(c.dispatch(&mut keyboard, Command::Space, true, TOKEN, "ja"), Dispatch::Refused));
    assert_eq!(c.error.as_deref(), Some("Input is busy; the last key was not accepted"));
    assert!(c.recoverable_error);
    let mut big = Composition::default();
    big.transition = Some(Transition::Mode(Mode::Latin));
    assert!(big.hold_key(Command::Text("x".repeat(4095))));
    assert!(big.hold_key(Command::Space));
    assert!(!big.hold_key(Command::Text("y".to_owned())));
}

#[test]
fn held_keys_come_back_with_consecutive_text_joined() {
    let mut c = Composition::default();
    c.transition_input = vec![
        Command::Text("a".to_owned()),
        Command::Text("b".to_owned()),
        Command::Space,
        Command::Text("c".to_owned()),
    ];
    assert!(matches!(c.next_queued(), Some(Command::Text(t)) if t == "ab"));
    assert!(matches!(c.next_queued(), Some(Command::Space)));
    let next = c.next_queued().unwrap();
    c.requeue(next);
    assert!(matches!(c.next_queued(), Some(Command::Text(t)) if t == "c"));
    assert!(c.next_queued().is_none());
    c.transition_input = vec![Command::Text("a".to_owned())];
    c.transition = Some(Transition::Mode(Mode::Native));
    assert!(c.next_queued().is_none());
}

#[test]
fn jobs_carry_the_next_revision_and_count_as_outstanding() {
    let mut c = Composition::default();
    c.requested = u64::MAX;
    c.mode = Mode::Katakana;
    let job = c.prepare_job(true, TOKEN, "ja", Command::Finish).unwrap();
    assert_eq!(job.revision, 0);
    assert_eq!(job.language, "ja");
    assert_eq!(job.mode, Mode::Katakana);
    assert!(c.job_sent(job.revision, Ok(())));
    assert_eq!(c.pending, 1);
    assert_eq!(c.requested, 0);
    assert!(c.prepare_job(false, TOKEN, "ja", Command::Finish).is_none());
    assert!(!c.job_sent(1, Err(refused_job(true))));
    assert_eq!(c.error.as_deref(), Some("Input is busy; wait for the current keys to finish"));
    assert!(!c.input_ready());
    c.pending = 0;
    assert!(c.input_ready());
    assert!(c.error.is_none());
}

#[test]
fn direct_keys_are_delivered_without_an_engine() {
    let mut c = Composition::default();
    let mut keyboard = Recorder::default();
    assert!(matches!(
        c.dispatch(&mut keyboard, Command::Text("hi".to_owned()), false, TOKEN, "en"),
        Dispatch::Delivered(Ok(()))
    ));
    c.dispatch(&mut keyboard, Command::Backspace, false, TOKEN, "en");
    c.dispatch(&mut keyboard, Command::Space, false, TOKEN, "en");
    c.dispatch(&mut keyboard, Command::Enter, false, TOKEN, "en");
    assert!(matches!(c.dispatch(&mut keyboard, Command::Escape, false, TOKEN, "en"), Dispatch::Refused));
    assert_eq!(
        keyboard.sent,
        vec!["hi".to_owned(), "delete 1 0".to_owned(), " ".to_owned(), "control '\\n'".to_owned()]
    );
    assert!(matches!(
        c.dispatch(&mut keyboard, Command::Text("x".to_owned()), true, TOKEN, "zh"),
        Dispatch::Engine(job) if job.revision == 1
    ));
    assert_eq!(direct_output(Command::Enter).unwrap().control, Some('\n'));
    assert!(direct_output(Command::Hanja).is_none());
}

fn manager(current: &str) -> LanguageManager {
    let simple = LayoutDefinition {
        default: None,
        layout: vec![vec![Key {
            text: Some("a".to_owned()),
            alternatives: None,
            action: None,
            display_text: None,
            flag: None,
            width: None,
        }]],
        language_code: None,
        language_name: None,
        language_flag: None,
        height: 0,
    };
    let files = ["en", "zh", "ja"]
        .iter()
        .map(|code| LayoutFile {
            name: format!("layout-{code}.toml"),
            bytes: 26,
            decoded: Ok(simple.clone()),
        })
        .collect();
    let config = ConfigFile { default_language: Some(current.to_owned()), ..ConfigFile::empty() };
    LanguageManager::from_files(&config, files).unwrap()
}

#[test]
fn transitions_wait_for_finished_input() {
    let zh = manager("zh");
    let mut c = Composition::default();
    let to = |code: &str| Transition::Language(code.to_owned());
    assert_eq!(c.plan_transition(&to("xx"), &zh, false), Plan::Unknown);
    assert_eq!(c.plan_transition(&to("zh"), &zh, false), Plan::Current);
    assert_eq!(c.plan_transition(&Transition::Mode(Mode::Native), &zh, false), Plan::Unchanged);
    assert_eq!(c.plan_transition(&to("en"), &zh, false), Plan::Apply);
    c.snapshot.preedit = "ni".to_owned();
    assert_eq!(c.plan_transition(&to("en"), &zh, false), Plan::Finish);
    assert_eq!(c.plan_transition(&to("en"), &zh, true), Plan::Apply);
    c.error = Some("engine failed".to_owned());
    assert_eq!(c.plan_transition(&to("en"), &zh, false), Plan::Undiscarded);
    c.snapshot.preedit.clear();
    assert_eq!(c.plan_transition(&to("en"), &zh, false), Plan::Discard);
    c.transition_input.push(Command::Space);
    assert_eq!(c.plan_transition(&to("en"), &zh, false), Plan::Busy);
    assert_eq!(Plan::Busy.refusal().as_deref(), Some("Finish or reset current input first"));
    assert_eq!(Plan::Unknown.refusal().as_deref(), Some("Unknown language"));
    assert_eq!(Plan::Apply.refusal(), None);
}

#[test]
fn switching_forgets_composition_but_keeps_held_keys() {
    let mut zh = manager("zh");
    let mut c = Composition::default();
    c.mode = Mode::Traditional;
    c.snapshot.preedit = "ni".to_owned();
    c.pending = 1;
    c.requested = 7;
    c.transition_input = vec![Command::Space];
    assert_eq!(c.switch_language(&mut zh, "xx"), Err("Unknown language".to_owned()));
    assert_eq!(c.switch_language(&mut zh, "zh"), Ok(false));
    assert_eq!(c.pending, 1);
    assert_eq!(c.switch_language(&mut zh, "ja"), Ok(true));
    assert_eq!(zh.get_current_language(), "ja");
    assert_eq!(c.mode, Mode::Native);
    assert!(c.snapshot.preedit.is_empty());
    assert_eq!(c.pending, 0);
    assert_eq!(c.applied, 7);
    assert_eq!(c.transition_input.len(), 1);
    c.pending = 2;
    c.switch_mode(Mode::Katakana);
    assert_eq!(c.mode, Mode::Katakana);
    assert_eq!(c.pending, 0);
    assert_eq!(c.transition_input.len(), 1);
    c.transition = Some(Transition::Mode(Mode::Latin));
    assert!(matches!(c.reset(), Some(Transition::Mode(Mode::Latin))));
    assert!(c.transition_input.is_empty());
}

#[test]
fn a_waiting_transition_is_handed_over_once_settled() {
    let mut c = Composition::default();
    c.transition = Some(Transition::Mode(Mode::Latin));
    c.pending = 1;
    assert!(c.transition_ready().is_none());
    c.pending = 0;
    c.error = Some("engine failed".to_owned());
    assert!(c.transition_ready().is_none());
    c.recoverable_error = true;
    assert!(matches!(c.transition_ready(), Some(Transition::Mode(Mode::Latin))));
    assert!(c.transition.is_none());
    assert!(!c.holds_input());
    c.deferred.push(output("a"));
    assert!(c.holds_input());
}

#[test]
fn switcher_changes_and_reloads_wait_for_finished_input() {
    let mut zh = manager("zh");
    let mut c = Composition::default();
    assert_eq!(c.set_switcher_visibility(&mut zh, true), Ok(false));
    c.pending = 1;
    assert_eq!(
        c.set_switcher_visibility(&mut zh, false),
        Err("Finish or explicitly discard current input before changing the language switcher".to_owned())
    );
    assert!(zh.should_show_language_switcher());
    assert_eq!(
        c.reload_refusal().as_deref(),
        Some("Finish or explicitly discard current input before reloading configuration")
    );
    c.pending = 0;
    c.snapshot.committed = "kept".to_owned();
    assert_eq!(c.set_switcher_visibility(&mut zh, false), Ok(true));
    assert!(!zh.should_show_language_switcher());
    assert!(c.snapshot.committed.is_empty());
    assert!(c.reload_refusal().is_none());
    c.mode = Mode::Katakana;
    c.adopt_configuration("ja", "ja");
    assert_eq!(c.mode, Mode::Katakana);
    c.adopt_configuration("ja", "en");
    assert_eq!(c.mode, Mode::Native);
}

/// Takes every response in order the way the keyboard drains its worker.
fn drain(c: &mut Composition, responses: Vec<Response>, keyboard: &mut Recorder) -> Option<Transition> {
    let mut batch = None;
    for response in responses {
        if !c.take_response(&mut batch, response, TOKEN) {
            break;
        }
    }
    c.finish_batch(batch);
    c.deliver_deferred(keyboard);
    c.transition_ready()
}

#[test]
fn engine_commits_keep_order_and_coalesce_per_drain() {
    let mut c = Composition::default();
    let mut keyboard = Recorder::default();
    let mut revisions = Vec::new();
    for command in [Command::Text("nihao".to_owned()), Command::Space, Command::Text("，".to_owned())] {
        let job = c.prepare_job(true, TOKEN, "zh", command).unwrap();
        revisions.push(job.revision);
        assert!(c.job_sent(job.revision, Ok(())));
    }
    assert_eq!(c.pending, 3);
    let mut reading = Snapshot::default();
    reading.preedit = "nihao".to_owned();
    reading.cursor = 5;
    let responses = vec![ok(revisions[0], reading), ok(revisions[1], output("你好")), ok(revisions[2], output("，"))];
    assert!(drain(&mut c, responses, &mut keyboard).is_none());
    assert_eq!(keyboard.sent, vec!["你好，".to_owned()]);
    assert_eq!(c.pending, 0);
    assert!(!c.accepts_candidate(c.applied.wrapping_sub(1)));
    assert!(c.accepts_candidate(c.applied));
}

#[test]
fn latin_switch_joins_held_text_to_the_finished_word() {
    let mut c = Composition::default();
    let mut keyboard = Recorder::default();
    c.snapshot.preedit = "가".to_owned();
    let ko = manager("ja");
    let latin = Transition::Mode(Mode::Latin);
    assert_eq!(c.plan_transition(&latin, &ko, false), Plan::Finish);
    let finish = c.prepare_job(true, TOKEN, "ja", Command::Finish).unwrap();
    assert!(c.job_sent(finish.revision, Ok(())));
    c.transition = Some(latin);
    assert!(matches!(
        c.dispatch(&mut keyboard, Command::Text("A".to_owned()), true, TOKEN, "ja"),
        Dispatch::Held
    ));
    assert!(keyboard.sent.is_empty());
    let ready = drain(&mut c, vec![ok(finish.revision, output("가"))], &mut keyboard);
    assert_eq!(keyboard.sent, vec!["가A".to_owned()]);
    assert!(matches!(ready, Some(Transition::Mode(Mode::Latin))));
    c.switch_mode(Mode::Latin);
    assert_eq!(c.mode, Mode::Latin);
    assert!(c.transition_input.is_empty());
}

#[test]
fn a_recoverable_rejection_keeps_the_reading() {
    let mut c = Composition::default();
    let mut keyboard = Recorder::default();
    c.snapshot.preedit = "nihao".to_owned();
    let job = c.prepare_job(true, TOKEN, "zh", Command::Text("overflow".to_owned())).unwrap();
    c.job_sent(job.revision, Ok(()));
    let rejected = Response {
        token: TOKEN,
        revision: job.revision,
        result: Err(EngineError {
            message: "Commit the current text before typing more".to_owned(),
            recoverable: true,
        }),
    };
    drain(&mut c, vec![rejected], &mut keyboard);
    assert_eq!(c.snapshot.preedit, "nihao");
    assert!(c.recoverable_error);
    assert!(c.prepare_job(true, TOKEN, "zh", Command::Enter).is_some());
    assert!(c.error.is_none());
}

#[test]
fn a_refused_insert_fails_the_delivery_and_sends_nothing_after_it() {
    let mut c = Composition::default();
    c.snapshot.preedit = "nihao".to_owned();
    let mut keyboard = Recorder {
        fail_text: Some(DeliveryError::Rejected("refused".to_owned())),
        ..Recorder::default()
    };
    let mut out = output("你好，");
    out.control = Some('\u{8}');
    assert!(c.deliver(&mut keyboard, out).is_err());
    assert!(keyboard.sent.is_empty());
    assert_eq!(c.failed_output.as_ref().unwrap().committed, "你好，");
    assert_eq!(c.snapshot.preedit, "nihao");
    assert!(!c.recoverable_error);
    assert!(!c.failed_unknown);
}

#[test]
fn delivery_sends_text_then_control_and_stops_at_a_failure() {
    let mut c = Composition::default();
    let mut keyboard = Recorder::default();
    let mut first = output("ab");
    first.control = Some('\u{8}');
    let mut second = output("");
    second.control = Some('\n');
    assert!(c.deliver(&mut keyboard, first).is_ok());
    assert!(c.deliver(&mut keyboard, second).is_ok());
    assert_eq!(
        keyboard.sent,
        vec!["ab".to_owned(), "delete 1 0".to_owned(), "control '\\n'".to_owned()]
    );
    assert!(c.deliver(&mut keyboard, output("")).is_ok());
    assert_eq!(keyboard.sent.len(), 3);

    let mut c = Composition::default();
    let mut keyboard = Recorder::default();
    c.deferred = vec![output("a"), output("b"), output("c")].into();
    keyboard.fail_text = None;
    c.deliver_deferred(&mut keyboard);
    assert_eq!(keyboard.sent, vec!["a".to_owned(), "b".to_owned(), "c".to_owned()]);
    assert!(c.deferred.is_empty());

    let mut c = Composition::default();
    let mut failing = Recorder {
        fail_text: Some(DeliveryError::Rejected("refused".to_owned())),
        ..Recorder::default()
    };
    c.deferred = vec![output("a"), output("b")].into();
    c.deliver_deferred(&mut failing);
    assert!(failing.sent.is_empty());
    assert_eq!(c.deferred.len(), 1);
    assert_eq!(c.failed_output.as_ref().unwrap().committed, "a");
}

#[test]
fn enter_without_composition_presses_the_return_key() {
    let mut c = Composition::default();
    let mut keyboard = Recorder::default();
    assert!(matches!(
        c.dispatch(&mut keyboard, Command::Enter, false, TOKEN, "en"),
        Dispatch::Delivered(Ok(()))
    ));
    assert_eq!(keyboard.sent, vec!["control '\\n'".to_owned()]);
}

struct ControlRefuser {
    sent: Vec<String>,
}

impl KeyboardHandle for ControlRefuser {
    fn insert_text(&mut self, text: &str) -> Result<(), DeliveryError> {
        self.sent.push(text.to_owned());
        Ok(())
    }

    fn control(&mut self, _key: char) -> Result<(), DeliveryError> {
        Err(DeliveryError::Rejected("no controls".to_owned()))
    }

    fn delete_text(&mut self, _before: u32, _after: u32) -> Result<(), DeliveryError> {
        Err(DeliveryError::Rejected("no deletions".to_owned()))
    }

    fn destroy(&mut self) {}
}

#[test]
fn a_refused_control_keeps_only_the_control_for_a_retry() {
    let mut c = Composition::default();
    let mut keyboard = ControlRefuser { sent: Vec::new() };
    let mut out = output("ab");
    out.control = Some('\n');
    assert!(c.deliver(&mut keyboard, out).is_err());
    assert_eq!(keyboard.sent, vec!["ab".to_owned()]);
    let kept = c.failed_output.as_ref().unwrap();
    assert_eq!(kept.committed, "");
    assert_eq!(kept.control, Some('\n'));
}
