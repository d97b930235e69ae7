//! The composition state kept between the keyboard and its engine worker:
//! which jobs are outstanding, which engine output waits for delivery, and
//! when a language or mode change may take effect.
use crate::ime::types::{
    composing_language, composition_enabled, Command, EngineError, Job, Mode, Response, Snapshot,
    Token, MAX_COMMIT,
};
use crate::language::manager::LanguageManager;
use crate::service::host::{DeliveryError, HandleCall, KeyboardHandle};
use crate::text::{byte_len, lemma_encode_concat, lemma_space_len, push_char, same_text, text_len};
use vstd::prelude::*;

verus! {

broadcast use vstd::string::group_string_axioms;

/// Most keys held back while a language or mode change waits for the engine.
pub const MAX_QUEUED_KEYS: usize = 24;

/// What became of a key.
#[derive(Debug)]
pub enum Dispatch {
    /// Held back until the waiting transition has taken effect.
    Held,
    /// Not accepted; the composition error says why, if there is one.
    Refused,
    /// To be handed to the engine worker.
    Engine(Job),
    /// Output directly; a failed delivery is kept for a retry.
    Delivered(Result<(), DeliveryError>),
}

/// A change that waits until the engine has finished the current input.
#[derive(Debug)]
pub enum Transition {
    Language(String),
    Mode(Mode),
}

/// Engine bookkeeping of the keyboard: the shown snapshot, outstanding jobs,
/// undelivered output, the last error and a waiting transition.
#[derive(Debug)]
pub struct Composition {
    pub mode: Mode,
    pub snapshot: Snapshot,
    /// Revision of the last job handed to the worker.
    pub requested: u64,
    /// Revision of the last response taken from the worker.
    pub applied: u64,
    /// Jobs handed to the worker whose response has not been taken.
    pub pending: usize,
    pub error: Option<String>,
    /// The error left composition untouched and clears once nothing is outstanding.
    pub recoverable_error: bool,
    /// Keys pressed while a transition waits, oldest first.
    pub transition_input: Vec<Command>,
    /// A delivery failed in a way that may have reached the application.
    pub failed_unknown: bool,
    /// Output whose delivery failed, kept for an explicit retry.
    pub failed_output: Option<Snapshot>,
    /// Engine output waiting for delivery, oldest first.
    pub deferred: Vec<Snapshot>,
    pub transition: Option<Transition>,
}

/// A snapshot that shows nothing and outputs only `text`, then `control`.
pub open spec fn outputs_only(s: Snapshot, text: Seq<char>, control: Option<char>) -> bool {
    &&& s.preedit@.len() == 0
    &&& s.cursor == 0
    &&& !s.pending_romaji
    &&& s.selection is None
    &&& s.candidates@.len() == 0
    &&& s.selected is None
    &&& s.page == 0
    &&& !s.has_previous
    &&& !s.has_next
    &&& s.segments == 0
    &&& s.active_segment == 0
    &&& s.committed@ == text
    &&& s.control == control
}

/// A snapshot that shows and outputs nothing.
pub open spec fn is_blank(s: Snapshot) -> bool {
    &&& s.preedit@.len() == 0
    &&& s.cursor == 0
    &&& !s.pending_romaji
    &&& s.selection is None
    &&& s.candidates@.len() == 0
    &&& s.selected is None
    &&& s.page == 0
    &&& !s.has_previous
    &&& !s.has_next
    &&& s.segments == 0
    &&& s.active_segment == 0
    &&& s.committed@.len() == 0
    &&& s.control is None
}

/// A recoverable error clears once no job is outstanding and no output failed.
pub open spec fn clears(c: Composition) -> bool {
    c.error is Some && c.recoverable_error && c.pending == 0 && c.failed_output is None
}

/// The state after checking readiness: a clearable error is dropped.
pub open spec fn ready(c: Composition) -> Composition {
    if clears(c) {
        Composition { error: None, recoverable_error: false, ..c }
    } else {
        c
    }
}

/// The revision after `r`, wrapping at the top of `u64`.
pub open spec fn next_revision(r: u64) -> u64 {
    if r == u64::MAX {
        0
    } else {
        (r + 1) as u64
    }
}

/// The state after the worker accepted the job of `revision`.
pub open spec fn sent(c: Composition, revision: u64) -> Composition {
    Composition { requested: revision, pending: (c.pending + 1) as usize, ..c }
}

/// The state after the engine side reported `e`.
pub open spec fn failed(c: Composition, e: EngineError) -> Composition {
    Composition { error: Some(e.message), recoverable_error: e.recoverable, ..c }
}

/// Input that a language switch, a switcher change or a reload would lose.
pub open spec fn holds_input(c: Composition) -> bool {
    ||| c.snapshot.preedit@.len() > 0
    ||| c.pending > 0
    ||| c.failed_output is Some
    ||| c.deferred@.len() > 0
    ||| c.transition_input@.len() > 0
}

/// All text of `outputs`, oldest first.
pub open spec fn waiting_text(outputs: Seq<Snapshot>) -> Seq<char>
    decreases outputs.len(),
{
    if outputs.len() == 0 {
        Seq::empty()
    } else {
        waiting_text(outputs.drop_last()) + outputs.last().committed@
    }
}

/// The text of the waiting output followed by that of the batch being combined.
pub open spec fn batch_text(deferred: Seq<Snapshot>, combined: Option<Snapshot>) -> Seq<char> {
    waiting_text(deferred) + match combined {
        Some(s) => s.committed@,
        None => Seq::empty(),
    }
}

/// `a` and then `b` fit in one commit.
pub open spec fn fits(a: Seq<char>, b: Seq<char>) -> bool {
    byte_len(a) + byte_len(b) <= MAX_COMMIT
}

/// `deferred` with the batch `combined` appended, if there is one.
pub open spec fn with_batch(deferred: Seq<Snapshot>, combined: Option<Snapshot>) -> Seq<Snapshot> {
    match combined {
        Some(s) => deferred.push(s),
        None => deferred,
    }
}

/// The counters after taking the response of `revision`.
pub open spec fn counted(c: Composition, revision: u64) -> Composition {
    Composition {
        pending: if c.pending > 0 {
            (c.pending - 1) as usize
        } else {
            0
        },
        applied: revision,
        ..c
    }
}

/// How taking response `r` of the current context changes the state `c` and
/// the batch `before` into `after` and `now`, and whether to take more:
/// an error ends the batch (and the taking, unless it is recoverable); an
/// output joins the batch's text unless the batch ends in a control or the
/// joined text would exceed a commit; a control ends the taking.
pub open spec fn taken(
    c: Composition,
    before: Option<Snapshot>,
    r: Response,
    after: Composition,
    now: Option<Snapshot>,
    more: bool,
) -> bool {
    match r.result {
        Err(e) => {
            &&& after == Composition { deferred: after.deferred, ..failed(counted(c, r.revision), e) }
            &&& after.deferred@ == with_batch(c.deferred@, before)
            &&& now is None
            &&& more == e.recoverable
        },
        Ok(s) => {
            &&& after == Composition { deferred: after.deferred, ..counted(c, r.revision) }
            &&& more == (s.control is None)
            &&& match before {
                None => after.deferred@ == c.deferred@ && now == Some(s),
                Some(p) => if p.control is Some || !fits(p.committed@, s.committed@) {
                    after.deferred@ == c.deferred@.push(p) && now == Some(s)
                } else {
                    &&& after.deferred@ == c.deferred@
                    &&& now matches Some(m)
                    &&& m == Snapshot { committed: m.committed, ..s }
                    &&& m.committed@ == p.committed@ + s.committed@
                },
            }
        },
    }
}

/// Appending an output adds its text at the end.
pub proof fn lemma_waiting_text_push(outputs: Seq<Snapshot>, s: Snapshot)
    ensures
        waiting_text(outputs.push(s)) == waiting_text(outputs) + s.committed@,
{
    assert(outputs.push(s).drop_last() =~= outputs);
}

/// The text a held-back key adds to output, if it is text (a space counts
/// when `spaces`).
pub open spec fn key_text(c: Command, spaces: bool) -> Option<Seq<char>> {
    match c {
        Command::Text(t) => Some(t@),
        Command::Space => if spaces {
            Some(seq![' '])
        } else {
            None
        },
        _ => None,
    }
}

/// The text of the text keys in `keys`, oldest first.
pub open spec fn keys_text(keys: Seq<Command>) -> Seq<char>
    decreases keys.len(),
{
    if keys.len() == 0 {
        Seq::empty()
    } else {
        keys_text(keys.drop_last()) + match key_text(keys.last(), true) {
            Some(t) => t,
            None => Seq::empty(),
        }
    }
}

/// How many keys from the front of `keys` are text (a space counting when
/// `spaces`) that still fits after output of `bytes` bytes.
pub open spec fn joining(bytes: int, keys: Seq<Command>, spaces: bool) -> nat
    decreases keys.len(),
{
    if keys.len() == 0 {
        0
    } else {
        match key_text(keys[0], spaces) {
            Some(t) => if bytes + byte_len(t) > MAX_COMMIT {
                0
            } else {
                1 + joining(bytes + byte_len(t), keys.drop_first(), spaces)
            },
            None => 0,
        }
    }
}

/// Whether finished output, before a switch to Latin mode, takes up the text
/// keys pressed meanwhile: nothing is outstanding, no lasting error, and the
/// last waiting output ends in text.
pub open spec fn absorbs_keys(c: Composition, deferred: Seq<Snapshot>) -> bool {
    &&& c.pending == 0
    &&& (c.error is None || c.recoverable_error)
    &&& c.transition == Some(Transition::Mode(Mode::Latin))
    &&& deferred.len() > 0
    &&& deferred.last().control is None
}

/// What an error message says after a failed delivery: one whose outcome is
/// unknown asks for a restart.
pub open spec fn failure_text(e: DeliveryError) -> Seq<char> {
    match e {
        DeliveryError::Rejected(m) => m@,
        DeliveryError::OutcomeUnknown(m) => m@ + ". Restart the keyboard before continuing."@,
    }
}

/// What delivering `output` asks of the handle, in order: its text, if it
/// has any, then its control, if it has one (Backspace as deleting one
/// character before the cursor, any other as that key).
pub open spec fn delivery_calls(output: Snapshot) -> Seq<HandleCall> {
    text_calls(output) + control_calls(output)
}

/// The request for the text of `output`, if it has any.
pub open spec fn text_calls(output: Snapshot) -> Seq<HandleCall> {
    if output.committed@.len() > 0 {
        seq![HandleCall::Insert(output.committed@)]
    } else {
        Seq::empty()
    }
}

/// The request for the control of `output`, if it has one.
pub open spec fn control_calls(output: Snapshot) -> Seq<HandleCall> {
    match output.control {
        Some(c) => if c == '\u{8}' {
            seq![HandleCall::Delete(1, 0)]
        } else {
            seq![HandleCall::Control(c)]
        },
        None => Seq::empty(),
    }
}

/// Output with text and no control, such as engine results joined by
/// `take_response`, reaches the handle as one insertion of all its text.
pub proof fn lemma_text_is_one_insert(output: Snapshot)
    requires
        output.committed@.len() > 0,
        output.control is None,
    ensures
        delivery_calls(output) == seq![HandleCall::Insert(output.committed@)],
{
    assert(delivery_calls(output) =~= seq![HandleCall::Insert(output.committed@)]);
}

/// The one request for a control key.
proof fn lemma_control_call(output: Snapshot, key: char)
    requires
        output.control == Some(key),
    ensures
        control_calls(output).len() == 1,
        control_calls(output)[0] == if key == '\u{8}' {
            HandleCall::Delete(1, 0)
        } else {
            HandleCall::Control(key)
        },
{
}

/// The requests `asked` were made in order, recorded as `made`, until one
/// failed: `r` is `Ok` exactly when every request was made and answered `Ok`,
/// and otherwise the error of the last one made, after which nothing was
/// asked.
pub open spec fn carried_out(
    asked: Seq<HandleCall>,
    made: Seq<(HandleCall, Result<(), DeliveryError>)>,
    r: Result<(), DeliveryError>,
) -> bool {
    &&& made.len() <= asked.len()
    &&& forall|i: int| 0 <= i < made.len() ==> (#[trigger] made[i]).0 == asked[i]
    &&& forall|i: int| 0 <= i < made.len() - 1 ==> (#[trigger] made[i]).1 is Ok
    &&& match r {
        Ok(_) => made.len() == asked.len() && (made.len() > 0 ==> made.last().1 is Ok),
        Err(e) => made.len() > 0 && made.last().1 == Err::<(), DeliveryError>(e),
    }
}

/// The requests recorded in the history `after` since the history `before`.
pub open spec fn sent_since(
    before: Seq<(HandleCall, Result<(), DeliveryError>)>,
    after: Seq<(HandleCall, Result<(), DeliveryError>)>,
) -> Seq<(HandleCall, Result<(), DeliveryError>)> {
    after.skip(before.len() as int)
}

/// The pieces of handle history `logs` joined in order.
pub open spec fn joined_calls(logs: Seq<Seq<(HandleCall, Result<(), DeliveryError>)>>) -> Seq<
    (HandleCall, Result<(), DeliveryError>),
>
    decreases logs.len(),
{
    if logs.len() == 0 {
        Seq::empty()
    } else {
        joined_calls(logs.drop_last()) + logs.last()
    }
}

/// What was recorded from `a` to `c` is what was recorded from `a` to `b`
/// and then from `b` to `c`.
pub proof fn lemma_sent_since_join(
    a: Seq<(HandleCall, Result<(), DeliveryError>)>,
    b: Seq<(HandleCall, Result<(), DeliveryError>)>,
    c: Seq<(HandleCall, Result<(), DeliveryError>)>,
)
    requires
        a.is_prefix_of(b),
        b.is_prefix_of(c),
    ensures
        a.is_prefix_of(c),
        sent_since(a, c) == sent_since(a, b) + sent_since(b, c),
{
    assert(a =~= c.subrange(0, a.len() as int)) by {
        assert forall|i: int| 0 <= i < a.len() implies a[i] == c[i] by {
            assert(a[i] == b[i]);
            assert(b[i] == c[i]);
        }
    }
    assert(sent_since(a, c) =~= sent_since(a, b) + sent_since(b, c)) by {
        assert forall|i: int| 0 <= i < sent_since(a, c).len() implies sent_since(a, c)[i] == (
        sent_since(a, b) + sent_since(b, c))[i] by {
            if i < b.len() - a.len() {
                assert(b[a.len() + i] == c[a.len() + i]);
            }
        }
    }
}

/// After delivering `output` failed with `e`, `after` keeps the error
/// (which lasts until a retry) and the undelivered part of `output`: all of
/// it, or its control when only that failed.
pub open spec fn failure_kept(after: Composition, output: Snapshot, e: DeliveryError) -> bool {
    &&& !after.recoverable_error
    &&& after.failed_unknown == (e is OutcomeUnknown)
    &&& after.error matches Some(m) && m@ == failure_text(e)
    &&& after.failed_output matches Some(f) && (f == output || (f == Snapshot {
        committed: f.committed,
        ..output
    } && f.committed@.len() == 0 && output.control is Some))
}

/// `s` shows `output` with its text and control spent.
pub open spec fn shows(s: Snapshot, output: Snapshot) -> bool {
    &&& s == Snapshot { committed: s.committed, control: None, ..output }
    &&& s.committed@.len() == 0
}

/// `output` has been delivered from state `c`, giving `after`: it is the shown
/// snapshot, with its text and control spent.
pub open spec fn delivered(c: Composition, output: Snapshot, after: Composition) -> bool {
    &&& after == Composition { snapshot: after.snapshot, ..c }
    &&& after.snapshot == Snapshot { committed: after.snapshot.committed, control: None, ..output }
    &&& after.snapshot.committed@.len() == 0
}

/// Delivering `output` from state `c` failed with `e`, giving `after`: the
/// error is kept, lasts until a retry, and the undelivered part is kept for it.
pub open spec fn delivery_failed(c: Composition, output: Snapshot, e: DeliveryError, after: Composition) -> bool {
    &&& after == Composition {
        error: after.error,
        recoverable_error: false,
        failed_unknown: e is OutcomeUnknown,
        failed_output: after.failed_output,
        ..c
    }
    &&& after.error matches Some(m) && m@ == failure_text(e)
    &&& after.failed_output matches Some(f) && (f == output || (f == Snapshot {
        committed: f.committed,
        ..output
    } && f.committed@.len() == 0 && output.control is Some))
}

/// Nothing outstanding, no lasting error and no failed output: a waiting
/// transition may take effect.
pub open spec fn settled(c: Composition) -> bool {
    c.pending == 0 && (c.error is None || c.recoverable_error) && c.failed_output is None
}

/// Moves text keys from the front of `queue` onto `text`, in order, while the
/// text stays within one commit; a space counts as text when `spaces`.
fn absorb_keys(queue: &mut Vec<Command>, text: &mut String, spaces: bool)
    ensures
        ({
            let k = joining(byte_len(old(text)@) as int, old(queue)@, spaces);
            &&& k <= old(queue)@.len()
            &&& final(queue)@ == old(queue)@.skip(k as int)
            &&& final(text)@ == old(text)@ + keys_text(old(queue)@.take(k as int))
        }),
{
    let ghost keys0 = queue@;
    let ghost base = text@;
    let ghost mut k: int = 0;
    assert(keys0.skip(0) =~= keys0);
    loop
        invariant
            0 <= k <= keys0.len(),
            queue@ == keys0.skip(k),
            text@ == base + keys_text(keys0.take(k)),
            byte_len(text@) <= MAX_COMMIT || k == 0,
            joining(byte_len(base) as int, keys0, spaces) == k + joining(
                byte_len(text@) as int,
                keys0.skip(k),
                spaces,
            ),
        ensures
            joining(byte_len(text@) as int, keys0.skip(k), spaces) == 0,
        decreases keys0.len() - k,
    {
        if queue.len() == 0 {
            assert(keys0.skip(k).len() == 0);
            break;
        }
        let add: Option<usize> = match &queue[0] {
            Command::Text(t) => Some(text_len(t.as_str())),
            Command::Space => if spaces {
                Some(1)
            } else {
                None
            },
            _ => None,
        };
        let have = text_len(text.as_str());
        proof {
            lemma_space_len();
        }
        match add {
            None => {
                break;
            },
            Some(add) => {
                if have > MAX_COMMIT || add > MAX_COMMIT - have {
                    break;
                }
            },
        }
        let ghost prev = text@;
        let key = queue.remove(0);
        let ghost t = key_text(key, spaces)->0;
        match key {
            Command::Text(more) => {
                text.append(more.as_str());
            },
            _ => {
                push_char(text, ' ');
                assert(prev.push(' ') =~= prev + seq![' ']);
            },
        }
        proof {
            lemma_encode_concat(prev, t);
            assert(keys0.skip(k)[0] == keys0[k]);
            assert(keys0.skip(k).drop_first() =~= keys0.skip(k + 1));
            assert(keys0.take(k + 1).drop_last() =~= keys0.take(k));
            assert(keys0.take(k + 1).last() == keys0[k]);
            assert(queue@ =~= keys0.skip(k + 1));
            k = k + 1;
        }
    }
    proof {
        assert(keys0.take(0) =~= Seq::<Command>::empty());
        assert(keys_text(keys0.take(0)) =~= Seq::<char>::empty());
        assert(base + Seq::<char>::empty() =~= base);
    }
}

/// Bytes a held-back key takes: its text, or one for any other key.
pub open spec fn key_bytes(c: Command) -> int {
    match c {
        Command::Text(t) => byte_len(t@) as int,
        _ => 1,
    }
}

/// Bytes the held-back keys take.
pub open spec fn keys_bytes(keys: Seq<Command>) -> int
    decreases keys.len(),
{
    if keys.len() == 0 {
        0
    } else {
        keys_bytes(keys.drop_last()) + key_bytes(keys.last())
    }
}

/// Whether a key pressed while a transition waits is held back: at most 24
/// keys and 4096 bytes wait.
pub open spec fn holds(keys: Seq<Command>, key: Command) -> bool {
    keys.len() < MAX_QUEUED_KEYS && keys_bytes(keys) + key_bytes(key) <= MAX_COMMIT
}

/// A prefix of the held-back keys takes no more bytes than all of them.
pub proof fn lemma_keys_bytes_prefix(keys: Seq<Command>, i: int)
    requires
        0 <= i <= keys.len(),
    ensures
        keys_bytes(keys.take(i)) <= keys_bytes(keys),
    decreases keys.len(),
{
    if i == keys.len() {
        assert(keys.take(i) =~= keys);
    } else {
        lemma_keys_bytes_prefix(keys.drop_last(), i);
        assert(keys.drop_last().take(i) =~= keys.take(i));
    }
}

/// Holding back a key keeps the held-back keys within 24 keys and 4096 bytes.
pub proof fn lemma_held_keys_bounded(keys: Seq<Command>, key: Command)
    requires
        holds(keys, key),
    ensures
        keys.push(key).len() <= MAX_QUEUED_KEYS,
        keys_bytes(keys.push(key)) <= MAX_COMMIT,
{
    assert(keys.push(key).drop_last() =~= keys);
}

/// The output of a key when no engine composes: text and space are committed,
/// Enter and Backspace are controls, other keys give nothing.
pub open spec fn direct(c: Command, s: Snapshot) -> bool {
    match c {
        Command::Text(t) => outputs_only(s, t@, None),
        Command::Space => outputs_only(s, seq![' '], None),
        Command::Enter => outputs_only(s, Seq::empty(), Some('\n')),
        Command::Backspace => outputs_only(s, Seq::empty(), Some('\u{0008}')),
        _ => false,
    }
}

/// Keys that produce output without an engine.
pub open spec fn has_direct_output(c: Command) -> bool {
    c is Text || c is Space || c is Enter || c is Backspace
}

/// `j` is the job for `command` after state `c`.
pub open spec fn is_job(j: Job, c: Composition, token: Token, language: Seq<char>, command: Command) -> bool {
    &&& j.token == token
    &&& j.revision == next_revision(c.requested)
    &&& j.language@ == language
    &&& j.mode == c.mode
    &&& j.command == command
}

/// `key` has been held back: state `c` became `after`.
pub open spec fn held_back(c: Composition, key: Command, after: Composition) -> bool {
    &&& after == Composition { transition_input: after.transition_input, ..c }
    &&& after.transition_input@ == c.transition_input@.push(key)
}

/// A key was refused because too much is held back: state `c` became `after`.
pub open spec fn busy(c: Composition, after: Composition) -> bool {
    &&& after == Composition { error: after.error, recoverable_error: true, ..c }
    &&& after.error matches Some(m) && m@ == "Input is busy; the last key was not accepted"@
}

/// `after` is `c` with all composition of the context forgotten: no output,
/// nothing outstanding or failed, no error and no waiting transition.
pub open spec fn cleared(c: Composition, after: Composition) -> bool {
    &&& after.transition is None
    &&& is_blank(after.snapshot)
    &&& after.pending == 0
    &&& after.failed_output is None
    &&& after.deferred@.len() == 0
    &&& after.error is None
    &&& !after.recoverable_error
    &&& !after.failed_unknown
    &&& after.applied == c.requested
    &&& after.requested == c.requested
}

/// How a requested transition proceeds.
#[derive(Debug, Clone, Copy, PartialEq, Eq, Structural)]
pub enum Plan {
    /// The language is already current; the request succeeds without change.
    Current,
    /// No layout has the requested code.
    Unknown,
    /// The requested mode is already active.
    Unchanged,
    /// Another transition, a failed delivery or held-back keys are in the way.
    Busy,
    /// An error stands while input remains, which must be finished or discarded first.
    Undiscarded,
    /// An error stands and no input would be lost: discard and apply now.
    Discard,
    /// Let the engine finish the current input, then apply.
    Finish,
    /// Apply now.
    Apply,
}

/// Whether planning `t` gets as far as checking readiness.
pub open spec fn weighs_input(c: Composition, t: Transition, known: bool, current: Seq<char>) -> bool {
    &&& !(t is Language && !known)
    &&& !(t is Language && t->Language_0@ == current)
    &&& !(t is Mode && t->Mode_0 == c.mode)
    &&& !(c.transition is Some || c.failed_output is Some || c.transition_input@.len() > 0)
}

/// The plan for transition `t` in state `c`, where `known` says whether a
/// requested language has a layout, `current` is the current language and
/// `enabled` whether an engine composes.
pub open spec fn plan_of(c: Composition, t: Transition, known: bool, current: Seq<char>, enabled: bool) -> Plan {
    if t is Language && !known {
        Plan::Unknown
    } else if t is Language && t->Language_0@ == current {
        Plan::Current
    } else if t is Mode && t->Mode_0 == c.mode {
        Plan::Unchanged
    } else if c.transition is Some || c.failed_output is Some || c.transition_input@.len() > 0 {
        Plan::Busy
    } else if ready(c).error is Some {
        if c.snapshot.preedit@.len() > 0 || c.pending > 0 || c.deferred@.len() > 0 {
            Plan::Undiscarded
        } else {
            Plan::Discard
        }
    } else if enabled && (c.snapshot.preedit@.len() > 0 || c.pending > 0) {
        Plan::Finish
    } else {
        Plan::Apply
    }
}

/// Whether the transition names a language that has a layout (a mode always
/// exists).
pub open spec fn known_in(t: Transition, languages: Set<Seq<char>>) -> bool {
    match t {
        Transition::Language(code) => languages.contains(code@),
        Transition::Mode(_) => true,
    }
}

impl Plan {
    /// The answer to a refused language request, if this plan refuses it.
    pub fn refusal(&self) -> (r: Option<String>)
        ensures
            *self == Plan::Unknown ==> (r matches Some(m) && m@ == "Unknown language"@),
            *self == Plan::Busy ==> (r matches Some(m) && m@ == "Finish or reset current input first"@),
            *self == Plan::Undiscarded ==> (r matches Some(m) && m@
                == "Finish or explicitly discard current input first"@),
            !(*self == Plan::Unknown || *self == Plan::Busy || *self == Plan::Undiscarded) ==> (r is None),
    {
        match self {
            Plan::Unknown => Some("Unknown language".to_owned()),
            Plan::Busy => Some("Finish or reset current input first".to_owned()),
            Plan::Undiscarded => Some("Finish or explicitly discard current input first".to_owned()),
            _ => None,
        }
    }
}

impl Default for Composition {
    fn default() -> (c: Self)
        ensures
            c.mode == Mode::Native,
            is_blank(c.snapshot),
            c.requested == 0,
            c.applied == 0,
            c.pending == 0,
            c.error is None,
            !c.recoverable_error,
            c.transition_input@.len() == 0,
            !c.failed_unknown,
            c.failed_output is None,
            c.deferred@.len() == 0,
            c.transition is None,
    {
        Composition {
            mode: Mode::Native,
            snapshot: Snapshot::default(),
            requested: 0,
            applied: 0,
            pending: 0,
            error: None,
            recoverable_error: false,
            transition_input: Vec::new(),
            failed_unknown: false,
            failed_output: None,
            deferred: Vec::new(),
            transition: None,
        }
    }
}

impl Composition {
    /// Drops an error that has become clearable and says whether input may
    /// proceed (no error remains).
    pub fn input_ready(&mut self) -> (r: bool)
        ensures
            *final(self) == ready(*old(self)),
            r == (final(self).error is None),
    {
        if self.error.is_some() && self.recoverable_error && self.pending == 0
            && self.failed_output.is_none() {
            self.error = None;
            self.recoverable_error = false;
        }
        self.error.is_none()
    }

    /// Whether there is input that a language switch or reload would lose.
    pub fn holds_input(&self) -> (r: bool)
        ensures
            r == holds_input(*self),
    {
        !self.snapshot.preedit.as_str().is_empty() || self.pending > 0
            || self.failed_output.is_some() || self.deferred.len() > 0
            || self.transition_input.len() > 0
    }

    /// Forgets all composition of the current context: output, queued keys and
    /// errors. Responses to earlier jobs count as taken. Hands back the waiting
    /// transition, which is dropped.
    pub fn reset(&mut self) -> (dropped: Option<Transition>)
        ensures
            dropped == old(self).transition,
            cleared(*old(self), *final(self)),
            final(self).transition_input@.len() == 0,
            final(self).mode == old(self).mode,
    {
        let dropped = self.transition.take();
        self.snapshot = Snapshot::default();
        self.pending = 0;
        self.failed_output = None;
        self.deferred = Vec::new();
        self.error = None;
        self.recoverable_error = false;
        self.transition_input = Vec::new();
        self.failed_unknown = false;
        self.applied = self.requested;
        dropped
    }

    /// The job for `command` when input is ready and composition is enabled:
    /// it carries the next revision and the current mode.
    pub fn prepare_job(&mut self, enabled: bool, token: Token, language: &str, command: Command) -> (job:
        Option<Job>)
        ensures
            *final(self) == ready(*old(self)),
            job is Some <==> (ready(*old(self)).error is None && enabled),
            job matches Some(j) ==> is_job(j, *old(self), token, language@, command),
    {
        if !self.input_ready() || !enabled {
            return None;
        }
        let revision = if self.requested == u64::MAX {
            0
        } else {
            self.requested + 1
        };
        Some(
            Job {
                token,
                revision,
                language: language.to_owned(),
                mode: self.mode,
                command,
            },
        )
    }

    /// Records the worker's answer to handing over the job of `revision`: an
    /// accepted job is outstanding, a refused one leaves the worker's error.
    pub fn job_sent(&mut self, revision: u64, result: Result<(), EngineError>) -> (accepted: bool)
        requires
            old(self).pending < usize::MAX,
        ensures
            accepted == result is Ok,
            result is Ok ==> *final(self) == sent(*old(self), revision),
            result matches Err(e) ==> *final(self) == failed(*old(self), e),
    {
        match result {
            Ok(()) => {
                self.requested = revision;
                self.pending = self.pending + 1;
                true
            },
            Err(e) => {
                self.recoverable_error = e.recoverable;
                self.error = Some(e.message);
                false
            },
        }
    }
    /// Takes one response of the worker into the batch `combined`: a response
    /// of another context is skipped. Whatever is taken keeps all committed
    /// text, in order. Says whether to take the next response.
    pub fn take_response(&mut self, combined: &mut Option<Snapshot>, response: Response, token: Token) -> (more: bool)
        ensures
            response.token != token ==> (*final(self) == *old(self) && *final(combined) == *old(
                combined,
            ) && more),
            response.token == token ==> taken(
                *old(self),
                *old(combined),
                response,
                *final(self),
                *final(combined),
                more,
            ),
            response.token == token ==> batch_text(final(self).deferred@, *final(combined)) == (
            match response.result {
                Ok(s) => batch_text(old(self).deferred@, *old(combined)) + s.committed@,
                Err(_) => batch_text(old(self).deferred@, *old(combined)),
            }),
    {
        if response.token != token {
            return true;
        }
        self.pending = if self.pending > 0 {
            self.pending - 1
        } else {
            0
        };
        self.applied = response.revision;
        let ghost d0 = self.deferred@;
        match response.result {
            Err(e) => {
                let before = combined.take();
                match before {
                    Some(output) => {
                        proof {
                            lemma_waiting_text_push(d0, output);
                        }
                        self.deferred.push(output);
                    },
                    None => {
                        assert(waiting_text(d0) + Seq::<char>::empty() =~= waiting_text(d0));
                    },
                }
                self.recoverable_error = e.recoverable;
                self.error = Some(e.message);
                assert(batch_text(self.deferred@, *combined) =~= waiting_text(self.deferred@));
                self.recoverable_error
            },
            Ok(snapshot) => {
                let mut snapshot = snapshot;
                let ghost s0 = snapshot;
                let before = combined.take();
                match before {
                    Some(previous) => {
                        let a = previous.committed.as_str().len();
                        let b = snapshot.committed.as_str().len();
                        if previous.control.is_some() || a > MAX_COMMIT || b > MAX_COMMIT - a {
                            proof {
                                lemma_waiting_text_push(d0, previous);
                            }
                            self.deferred.push(previous);
                            assert(batch_text(self.deferred@, Some(snapshot)) =~= waiting_text(d0)
                                + previous.committed@ + s0.committed@);
                        } else {
                            let ghost p = previous;
                            let mut text = previous.committed;
                            text.append(snapshot.committed.as_str());
                            snapshot.committed = text;
                            assert(batch_text(self.deferred@, Some(snapshot)) =~= waiting_text(d0)
                                + p.committed@ + s0.committed@);
                        }
                    },
                    None => {
                    },
                }
                let more = snapshot.control.is_none();
                *combined = Some(snapshot);
                more
            },
        }
    }
    /// Ends a batch of taken responses: the batch waits for delivery. Before a
    /// switch to Latin mode, text keys held back meanwhile join the last
    /// output, in order, as far as they fit in one commit.
    pub fn finish_batch(&mut self, combined: Option<Snapshot>)
        ensures
            ({
                let d = with_batch(old(self).deferred@, combined);
                let k = joining(byte_len(d.last().committed@) as int, old(self).transition_input@, true);
                &&& *final(self) == Composition {
                    deferred: final(self).deferred,
                    transition_input: final(self).transition_input,
                    ..*old(self)
                }
                &&& if absorbs_keys(*old(self), d) {
                    &&& final(self).transition_input@ == old(self).transition_input@.skip(k as int)
                    &&& final(self).deferred@.len() == d.len()
                    &&& final(self).deferred@.drop_last() == d.drop_last()
                    &&& final(self).deferred@.last() == Snapshot {
                        committed: final(self).deferred@.last().committed,
                        ..d.last()
                    }
                    &&& final(self).deferred@.last().committed@ == d.last().committed@ + keys_text(
                        old(self).transition_input@.take(k as int),
                    )
                } else {
                    &&& final(self).deferred@ == d
                    &&& final(self).transition_input@ == old(self).transition_input@
                }
            }),
    {
        if let Some(output) = combined {
            self.deferred.push(output);
        }
        let ghost d = self.deferred@;
        let latin = match &self.transition {
            Some(Transition::Mode(Mode::Latin)) => true,
            _ => false,
        };
        let absorbs = self.pending == 0 && (self.error.is_none() || self.recoverable_error) && latin
            && self.deferred.len() > 0 && self.deferred[self.deferred.len() - 1].control.is_none();
        if !absorbs {
            return;
        }
        let mut out = self.deferred.pop().unwrap();
        absorb_keys(&mut self.transition_input, &mut out.committed, true);
        assert(self.deferred@ =~= d.drop_last());
        self.deferred.push(out);
        assert(self.deferred@.drop_last() =~= d.drop_last());
    }

    /// Delivers engine output: its text, then its control (a backspace deletes
    /// one character before the cursor). On success it becomes the shown
    /// snapshot; on failure the error is kept with what was not delivered.
    pub fn deliver<H: KeyboardHandle>(&mut self, handle: &mut H, output: Snapshot) -> (r: Result<
        (),
        DeliveryError,
    >)
        ensures
            r is Ok ==> delivered(*old(self), output, *final(self)),
            r matches Err(e) ==> delivery_failed(*old(self), output, e, *final(self)),
            delivery_calls(output).len() == 0 ==> r is Ok,
            final(handle).records() == old(handle).records(),
            old(handle).records() ==> old(handle).calls().is_prefix_of(final(handle).calls()),
            old(handle).records() ==> carried_out(
                delivery_calls(output),
                sent_since(old(handle).calls(), final(handle).calls()),
                r,
            ),
            old(handle).records() && r is Err && text_calls(output).len() > 0 ==> (
            final(self).failed_output == Some(output) <==> sent_since(
                old(handle).calls(),
                final(handle).calls(),
            ).len() == 1),
    {
        let ghost rec = handle.records();
        let ghost h0 = handle.calls();
        let ghost given = output;
        let ghost asked = delivery_calls(output);
        let ghost text_part = text_calls(output);
        let ghost ctl_part = control_calls(output);
        let mut output = output;
        if !output.committed.as_str().is_empty() {
            let sent = handle.insert_text(output.committed.as_str());
            proof {
                if rec {
                let made = sent_since(h0, handle.calls());
                assert(made =~= seq![(HandleCall::Insert(given.committed@), sent)]);
                assert(asked[0] == HandleCall::Insert(given.committed@));
                }
            }
            match sent {
                Ok(()) => {},
                Err(e) => {
                    self.fail(output, &e);
                    return Err(e);
                },
            }
            output.committed = String::new();
        }
        let ghost h1 = handle.calls();
        proof {
            if rec {
            let done = sent_since(h0, h1);
            assert(done.len() == text_part.len());
            assert(forall|i: int| 0 <= i < done.len() ==> (#[trigger] done[i]).1 is Ok);
            assert(forall|i: int| 0 <= i < done.len() ==> (#[trigger] done[i]).0 == asked[i]);
            assert(h0.is_prefix_of(h1));
            }
        }
        match output.control {
            Some(control) => {
                proof {
                    assert(given.control == Some(control));
                    lemma_control_call(given, control);
                }
                let sent = if control == '\u{0008}' {
                    let r = handle.delete_text(1, 0);
                    proof {
                        if rec {
                            assert(handle.calls() == h1.push((HandleCall::Delete(1, 0), r)));
                        }
                    }
                    r
                } else {
                    let r = handle.control(control);
                    proof {
                        if rec {
                            assert(handle.calls() == h1.push((HandleCall::Control(control), r)));
                        }
                    }
                    r
                };
                proof {
                    assert(ctl_part.len() == 1);
                    assert(asked.len() == text_part.len() + 1);
                    assert(asked[text_part.len() as int] == ctl_part[0]);
                    if rec {
                    let entry = handle.calls().last();
                    assert(handle.calls() == h1.push(entry));
                    assert(entry.0 == ctl_part[0]);
                    assert(entry.1 == sent);
                    let done = sent_since(h0, h1);
                    let made = sent_since(h0, handle.calls());
                    assert(made =~= done.push(entry));
                    assert(h0.is_prefix_of(handle.calls()));
                    }
                }
                match sent {
                    Ok(()) => {},
                    Err(e) => {
                        self.fail(output, &e);
                        return Err(e);
                    },
                }
                output.control = None;
            },
            None => {
                proof {
                    assert(asked.len() == text_part.len());
                }
            },
        }
        self.snapshot = output;
        Ok(())
    }

    /// Keeps the failure of a delivery and what was left undelivered.
    fn fail(&mut self, output: Snapshot, e: &DeliveryError)
        ensures
            *final(self) == (Composition {
                error: final(self).error,
                recoverable_error: false,
                failed_unknown: *e is OutcomeUnknown,
                failed_output: Some(output),
                ..*old(self)
            }),
            (final(self).error matches Some(m) && m@ == failure_text(*e)),
    {
        self.recoverable_error = false;
        self.failed_unknown = e.outcome_unknown();
        let message = e.message();
        self.error = Some(
            if e.outcome_unknown() {
                message.concat(". Restart the keyboard before continuing.")
            } else {
                message
            },
        );
        self.failed_output = Some(output);
    }

    /// Delivers waiting output, oldest first, until it is all delivered or a
    /// delivery fails.
    pub fn deliver_deferred<H: KeyboardHandle>(&mut self, handle: &mut H)
        ensures
            exists|k: int|
                0 <= k <= old(self).deferred@.len() && final(self).deferred@ == old(
                    self,
                ).deferred@.skip(k),
            final(self).deferred@.len() == 0 || final(self).failed_output is Some,
            final(self).pending == old(self).pending,
            final(self).requested == old(self).requested,
            final(self).transition == old(self).transition,
            final(self).transition_input == old(self).transition_input,
            final(self).mode == old(self).mode,
            final(handle).records() == old(handle).records(),
            old(handle).records() ==> old(handle).calls().is_prefix_of(final(handle).calls()),
            old(handle).records() ==> exists|logs: Seq<Seq<(HandleCall, Result<(), DeliveryError>)>>, results: Seq<Result<(), DeliveryError>>|
                #![trigger joined_calls(logs), results.len()]
                {
                    let d = old(self).deferred@;
                    let k = logs.len() as int;
                    &&& results.len() == k
                    &&& k <= d.len()
                    &&& final(self).deferred@ == d.skip(k)
                    &&& sent_since(old(handle).calls(), final(handle).calls()) == joined_calls(logs)
                    &&& forall|i: int|
                        0 <= i < k ==> carried_out(delivery_calls(d[i]), #[trigger] logs[i], results[i])
                    &&& forall|i: int| 0 <= i < k - 1 ==> (#[trigger] results[i]) is Ok
                    &&& k < d.len() ==> k > 0 && results[k - 1] is Err
                    &&& (k > 0 && results[k - 1] is Ok) ==> shows(final(self).snapshot, d[k - 1])
                    &&& (k > 0 && results[k - 1] is Err) ==> (results[k - 1] matches Err(e) && failure_kept(
                        *final(self),
                        d[k - 1],
                        e,
                    ))
                    &&& (k > 0 && results[k - 1] is Err && text_calls(d[k - 1]).len() > 0) ==> (
                    final(self).failed_output == Some(d[k - 1]) <==> logs[k - 1].len() == 1)
                },
    {
        let ghost d0 = self.deferred@;
        let ghost rec = handle.records();
        let ghost h0 = handle.calls();
        let ghost mut k: int = 0;
        let ghost mut logs: Seq<Seq<(HandleCall, Result<(), DeliveryError>)>> = Seq::empty();
        let ghost mut results: Seq<Result<(), DeliveryError>> = Seq::empty();
        assert(d0.skip(0) =~= d0);
        assert(sent_since(h0, h0) =~= Seq::<(HandleCall, Result<(), DeliveryError>)>::empty());
        while self.deferred.len() > 0
            invariant
                d0 == old(self).deferred@,
                h0 == old(handle).calls(),
                0 <= k <= d0.len(),
                self.deferred@ == d0.skip(k),
                self.pending == old(self).pending,
                self.requested == old(self).requested,
                self.transition == old(self).transition,
                self.transition_input == old(self).transition_input,
                self.mode == old(self).mode,
                logs.len() == k,
                results.len() == k,
                rec == old(handle).records(),
                handle.records() == rec,
                rec ==> h0.is_prefix_of(handle.calls()),
                rec ==> sent_since(h0, handle.calls()) == joined_calls(logs),
                rec ==> forall|i: int|
                    0 <= i < k ==> carried_out(delivery_calls(d0[i]), #[trigger] logs[i], results[i]),
                forall|i: int| 0 <= i < k ==> (#[trigger] results[i]) is Ok,
                k > 0 ==> shows(self.snapshot, d0[k - 1]),
            decreases self.deferred@.len(),
        {
            let output = self.deferred.remove(0);
            proof {
                assert(self.deferred@ =~= d0.skip(k + 1));
                assert(output == d0[k]);
            }
            let ghost hb = handle.calls();
            let r = self.deliver(handle, output);
            proof {
                let piece = sent_since(hb, handle.calls());
                if rec {
                    lemma_sent_since_join(h0, hb, handle.calls());
                }
                assert(logs.push(piece).drop_last() =~= logs);
                logs = logs.push(piece);
                results = results.push(r);
                k = k + 1;
            }
            if r.is_err() {
                proof {
                    let e = r->Err_0;
                    assert(failure_kept(*self, d0[k - 1], e));
                    assert(rec ==> sent_since(h0, handle.calls()) == joined_calls(logs));
                    assert(forall|i: int|
                        0 <= i < k - 1 ==> (#[trigger] results[i]) is Ok);
                    assert(rec ==> forall|i: int|
                        0 <= i < k ==> carried_out(delivery_calls(d0[i]), #[trigger] logs[i], results[i]));
                    assert(results[k - 1] matches Err(e2) && failure_kept(*self, d0[k - 1], e2));
                    assert(results.len() == k && logs.len() == k);
                    assert(rec && text_calls(d0[k - 1]).len() > 0 ==> (self.failed_output == Some(
                        d0[k - 1],
                    ) <==> logs[k - 1].len() == 1));
                    assert(self.deferred@ == d0.skip(logs.len() as int));
                }
                return;
            }
        }
    }

    /// Hands over the waiting transition once the state has settled.
    pub fn transition_ready(&mut self) -> (t: Option<Transition>)
        ensures
            settled(*old(self)) ==> t == old(self).transition && *final(self) == (Composition {
                transition: None,
                ..*old(self)
            }),
            !settled(*old(self)) ==> (t is None) && *final(self) == *old(self),
    {
        if self.pending == 0 && (self.error.is_none() || self.recoverable_error)
            && self.failed_output.is_none() {
            self.transition.take()
        } else {
            None
        }
    }

    /// Retries a failed delivery after the user asked for it; nothing happens
    /// when the failed delivery may have reached the application. Gives the
    /// outcome of the new delivery, if there was output to deliver.
    pub fn retry<H: KeyboardHandle>(&mut self, handle: &mut H) -> (r: Option<Result<(), DeliveryError>>)
        ensures
            old(self).failed_unknown ==> (r is None) && *final(self) == *old(self),
            !old(self).failed_unknown && old(self).failed_output is None ==> (r is None) && *final(self)
                == (Composition { error: None, ..*old(self) }),
            !old(self).failed_unknown && old(self).failed_output is Some ==> ({
                let f = old(self).failed_output->0;
                let c = Composition { error: None, failed_output: None, ..*old(self) };
                &&& r is Some
                &&& r matches Some(Ok(())) ==> delivered(c, f, *final(self))
                &&& r matches Some(Err(e)) ==> delivery_failed(c, f, e, *final(self))
                &&& old(handle).records() ==> (r matches Some(outcome) && carried_out(
                    delivery_calls(f),
                    sent_since(old(handle).calls(), final(handle).calls()),
                    outcome,
                ))
                &&& (old(handle).records() && (r matches Some(Err(_))) && text_calls(f).len() > 0) ==> (
                final(self).failed_output == Some(f) <==> sent_since(
                    old(handle).calls(),
                    final(handle).calls(),
                ).len() == 1)
            }),
            final(handle).records() == old(handle).records(),
            old(handle).records() ==> old(handle).calls().is_prefix_of(final(handle).calls()),
            old(handle).records() && r is None ==> final(handle).calls() == old(handle).calls(),
    {
        if self.failed_unknown {
            return None;
        }
        self.error = None;
        match self.failed_output.take() {
            Some(output) => Some(self.deliver(handle, output)),
            None => None,
        }
    }
    /// The next held-back key to dispatch once no transition waits and input
    /// is ready; consecutive text keys are joined while they fit in one commit.
    pub fn next_queued(&mut self) -> (cmd: Option<Command>)
        ensures
            (old(self).transition is Some || old(self).transition_input@.len() == 0) ==> (cmd is None)
                && *final(self) == *old(self),
            (old(self).transition is None && old(self).transition_input@.len() > 0 && ready(
                *old(self),
            ).error is Some) ==> (cmd is None) && *final(self) == ready(*old(self)),
            (old(self).transition is None && old(self).transition_input@.len() > 0 && ready(
                *old(self),
            ).error is None) ==> ({
                let c = ready(*old(self));
                let keys = old(self).transition_input@;
                &&& *final(self) == Composition { transition_input: final(self).transition_input, ..c }
                &&& match keys[0] {
                    Command::Text(t) => {
                        let n = joining(byte_len(t@) as int, keys.drop_first(), false);
                        &&& final(self).transition_input@ == keys.skip(1 + n as int)
                        &&& cmd matches Some(Command::Text(m)) && m@ == t@ + keys_text(
                            keys.subrange(1, 1 + n as int),
                        )
                    },
                    _ => final(self).transition_input@ == keys.drop_first() && cmd == Some(keys[0]),
                }
            }),
    {
        if self.transition.is_some() || self.transition_input.len() == 0 {
            return None;
        }
        if !self.input_ready() {
            return None;
        }
        let ghost keys = self.transition_input@;
        let first = self.transition_input.remove(0);
        match first {
            Command::Text(text) => {
                let mut text = text;
                absorb_keys(&mut self.transition_input, &mut text, false);
                proof {
                    let n = joining(byte_len(keys[0]->Text_0@) as int, keys.drop_first(), false);
                    assert(keys.drop_first().skip(n as int) =~= keys.skip(1 + n as int));
                    assert(keys.drop_first().take(n as int) =~= keys.subrange(1, 1 + n as int));
                }
                Some(Command::Text(text))
            },
            other => Some(other),
        }
    }

    /// Puts back a held-back key that could not be dispatched, in front.
    pub fn requeue(&mut self, command: Command)
        ensures
            *final(self) == (Composition { transition_input: final(self).transition_input, ..*old(self) }),
            final(self).transition_input@ == seq![command] + old(self).transition_input@,
    {
        self.transition_input.insert(0, command);
        assert(self.transition_input@ =~= seq![command] + old(self).transition_input@);
    }

    /// Holds back a key pressed while a transition waits, within 24 keys and
    /// 4096 bytes; otherwise the key is refused with a recoverable error.
    pub fn hold_key(&mut self, command: Command) -> (held: bool)
        ensures
            held == holds(old(self).transition_input@, command),
            held ==> held_back(*old(self), command, *final(self)),
            !held ==> busy(*old(self), *final(self)),
    {
        let mut total: usize = 0;
        let mut i: usize = 0;
        let mut fits = true;
        while i < self.transition_input.len()
            invariant_except_break
                fits,
            invariant
                i <= self.transition_input@.len(),
                total == keys_bytes(self.transition_input@.take(i as int)),
                total <= MAX_COMMIT,
            ensures
                fits ==> i == self.transition_input@.len(),
                !fits ==> keys_bytes(self.transition_input@) > MAX_COMMIT,
            decreases self.transition_input@.len() - i,
        {
            let add = match &self.transition_input[i] {
                Command::Text(t) => text_len(t.as_str()),
                _ => 1,
            };
            proof {
                let keys = self.transition_input@;
                assert(keys.take(i + 1).drop_last() =~= keys.take(i as int));
                assert(keys.take(i + 1).last() == keys[i as int]);
            }
            if add > MAX_COMMIT - total {
                proof {
                    lemma_keys_bytes_prefix(self.transition_input@, i + 1);
                }
                fits = false;
                break;
            }
            total = total + add;
            i = i + 1;
        }
        proof {
            if fits {
                assert(self.transition_input@.take(i as int) =~= self.transition_input@);
            }
        }
        let added = match &command {
            Command::Text(t) => text_len(t.as_str()),
            _ => 1,
        };
        if self.transition_input.len() < MAX_QUEUED_KEYS && fits && added <= MAX_COMMIT - total {
            self.transition_input.push(command);
            true
        } else {
            self.error = Some("Input is busy; the last key was not accepted".to_owned());
            self.recoverable_error = true;
            false
        }
    }
}

/// The output of `command` when no engine composes, if it has one.
pub fn direct_output(command: Command) -> (r: Option<Snapshot>)
    ensures
        r is Some <==> has_direct_output(command),
        r matches Some(s) ==> direct(command, s),
{
    let mut output = Snapshot::default();
    match command {
        Command::Text(text) => {
            output.committed = text;
        },
        Command::Space => {
            push_char(&mut output.committed, ' ');
            assert(output.committed@ =~= seq![' ']);
        },
        Command::Enter => {
            output.control = Some('\n');
        },
        Command::Backspace => {
            output.control = Some('\u{0008}');
        },
        _ => {
            return None;
        },
    }
    Some(output)
}

impl Composition {
    /// Handles a key: while a transition waits it is held back; otherwise,
    /// when input is ready, it becomes an engine job where an engine composes
    /// and direct output elsewhere.
    pub fn dispatch<H: KeyboardHandle>(
        &mut self,
        handle: &mut H,
        command: Command,
        enabled: bool,
        token: Token,
        language: &str,
    ) -> (d: Dispatch)
        ensures
            old(self).transition is Some && holds(old(self).transition_input@, command) ==> (d is Held)
                && held_back(*old(self), command, *final(self)),
            old(self).transition is Some && !holds(old(self).transition_input@, command) ==> (
            d is Refused) && busy(*old(self), *final(self)),
            old(self).transition is None && ready(*old(self)).error is Some ==> (d is Refused)
                && *final(self) == ready(*old(self)),
            old(self).transition is None && ready(*old(self)).error is None && enabled ==> (
            d matches Dispatch::Engine(j) && is_job(j, *old(self), token, language@, command))
                && *final(self) == ready(*old(self)),
            old(self).transition is None && ready(*old(self)).error is None && !enabled
                && !has_direct_output(command) ==> (d is Refused) && *final(self) == ready(
                *old(self),
            ),
            old(self).transition is None && ready(*old(self)).error is None && !enabled
                && has_direct_output(command) ==> (exists|s: Snapshot|
                #![trigger direct(command, s)]
                direct(command, s) && match d {
                    Dispatch::Delivered(r) => {
                        &&& old(handle).records() ==> carried_out(
                            delivery_calls(s),
                            sent_since(old(handle).calls(), final(handle).calls()),
                            r,
                        )
                        &&& match r {
                            Ok(()) => delivered(ready(*old(self)), s, *final(self)),
                            Err(e) => delivery_failed(ready(*old(self)), s, e, *final(self)),
                        }
                    },
                    _ => false,
                }),
            final(handle).records() == old(handle).records(),
            old(handle).records() ==> old(handle).calls().is_prefix_of(final(handle).calls()),
            old(handle).records() && !(d is Delivered) ==> final(handle).calls() == old(
                handle,
            ).calls(),
    {
        if self.transition.is_some() {
            if self.hold_key(command) {
                return Dispatch::Held;
            } else {
                return Dispatch::Refused;
            }
        }
        if !self.input_ready() {
            return Dispatch::Refused;
        }
        if enabled {
            match self.prepare_job(true, token, language, command) {
                Some(job) => Dispatch::Engine(job),
                None => Dispatch::Refused,
            }
        } else {
            let ghost key = command;
            match direct_output(command) {
                Some(output) => {
                    let ghost s = output;
                    let r = self.deliver(handle, output);
                    assert(direct(key, s));
                    Dispatch::Delivered(r)
                },
                None => Dispatch::Refused,
            }
        }
    }
}

impl Composition {
    /// Decides how transition `t` proceeds for the layouts of `manager` in a
    /// field that is `sensitive` or not.
    pub fn plan_transition(&mut self, t: &Transition, manager: &LanguageManager, sensitive: bool) -> (p:
        Plan)
        ensures
            ({
                let known = known_in(*t, manager.languages().dom());
                let enabled = composing_language(manager.current()) && old(self).mode != Mode::Latin
                    && !sensitive;
                &&& p == plan_of(*old(self), *t, known, manager.current(), enabled)
                &&& *final(self) == if weighs_input(*old(self), *t, known, manager.current()) {
                    ready(*old(self))
                } else {
                    *old(self)
                }
            }),
    {
        let current = manager.get_current_language();
        match t {
            Transition::Language(code) => {
                if manager.layout(code.as_str()).is_none() {
                    return Plan::Unknown;
                }
                if same_text(code.as_str(), current) {
                    return Plan::Current;
                }
            },
            Transition::Mode(mode) => {
                if *mode == self.mode {
                    return Plan::Unchanged;
                }
            },
        }
        if self.transition.is_some() || self.failed_output.is_some() || self.transition_input.len()
            > 0 {
            return Plan::Busy;
        }
        let enabled = composition_enabled(current, self.mode, sensitive);
        if !self.input_ready() {
            if !self.snapshot.preedit.as_str().is_empty() || self.pending > 0 || self.deferred.len()
                > 0 {
                return Plan::Undiscarded;
            }
            return Plan::Discard;
        }
        if enabled && (!self.snapshot.preedit.as_str().is_empty() || self.pending > 0) {
            Plan::Finish
        } else {
            Plan::Apply
        }
    }

    /// Switches the engine mode, forgetting the composition of the old mode
    /// but keeping the keys held back meanwhile.
    pub fn switch_mode(&mut self, mode: Mode)
        ensures
            cleared(*old(self), *final(self)),
            final(self).transition_input == old(self).transition_input,
            final(self).mode == mode,
    {
        let mut queued = Vec::new();
        std::mem::swap(&mut queued, &mut self.transition_input);
        self.reset();
        self.mode = mode;
        self.transition_input = queued;
    }

    /// Switches to the layout `code`: an unknown code is refused and the
    /// current one changes nothing. A switch forgets the composition (keeping
    /// held-back keys) and starts in the native mode. Says whether it switched.
    pub fn switch_language(&mut self, manager: &mut LanguageManager, code: &str) -> (r: Result<bool, String>)
        ensures
            r is Err <==> !old(manager).languages().contains_key(code@),
            r matches Err(m) ==> m@ == "Unknown language"@,
            r == Ok::<bool, String>(false) <==> (old(manager).languages().contains_key(code@) && code@
                == old(manager).current()),
            !(r == Ok::<bool, String>(true)) ==> *final(self) == *old(self) && final(manager).languages()
                == old(manager).languages() && final(manager).current() == old(manager).current()
                && final(manager).switcher() == old(manager).switcher() && final(manager).codes()
                == old(manager).codes(),
            r == Ok::<bool, String>(true) ==> cleared(*old(self), *final(self))
                && final(self).transition_input == old(self).transition_input && final(self).mode
                == Mode::Native && final(manager).current() == code@ && final(manager).languages()
                == old(manager).languages() && final(manager).switcher() == old(manager).switcher()
                && final(manager).codes() == old(manager).codes(),
    {
        if manager.layout(code).is_none() {
            return Err("Unknown language".to_owned());
        }
        if same_text(code, manager.get_current_language()) {
            return Ok(false);
        }
        let mut queued = Vec::new();
        std::mem::swap(&mut queued, &mut self.transition_input);
        self.reset();
        manager.set_current_language(code);
        self.mode = Mode::Native;
        self.transition_input = queued;
        Ok(true)
    }
}

impl Composition {
    /// Changes whether the language switcher shows. A change is refused while
    /// input would be lost; a change that alters what shows forgets the
    /// composition. Says whether the keys must be rebuilt.
    pub fn set_switcher_visibility(&mut self, manager: &mut LanguageManager, show: bool) -> (r: Result<
        bool,
        String,
    >)
        ensures
            ({
                let shown = old(manager).switcher() && old(manager).languages().dom().len() > 1;
                let now = show && old(manager).languages().dom().len() > 1;
                &&& final(manager).languages() == old(manager).languages()
                &&& final(manager).codes() == old(manager).codes()
                &&& final(manager).current() == old(manager).current()
                &&& shown == show ==> r == Ok::<bool, String>(false) && *final(self) == *old(self)
                    && final(manager).switcher() == old(manager).switcher()
                &&& shown != show && holds_input(*old(self)) ==> (r matches Err(m) && m@
                    == "Finish or explicitly discard current input before changing the language switcher"@)
                    && *final(self) == *old(self) && final(manager).switcher() == old(
                    manager,
                ).switcher()
                &&& shown != show && !holds_input(*old(self)) ==> final(manager).switcher() == show && (
                if now == shown {
                    r == Ok::<bool, String>(false) && *final(self) == *old(self)
                } else {
                    r == Ok::<bool, String>(true) && cleared(*old(self), *final(self))
                        && final(self).transition_input@.len() == 0 && final(self).mode == old(
                        self,
                    ).mode
                })
            }),
    {
        let shown = manager.should_show_language_switcher();
        if shown == show {
            return Ok(false);
        }
        if self.holds_input() {
            return Err(
                "Finish or explicitly discard current input before changing the language switcher".to_owned(),
            );
        }
        manager.set_language_switcher_visibility(show);
        if manager.should_show_language_switcher() == shown {
            return Ok(false);
        }
        let _ = self.reset();
        Ok(true)
    }

    /// Why a configuration reload is refused now: input would be lost.
    pub fn reload_refusal(&self) -> (r: Option<String>)
        ensures
            holds_input(*self) ==> (r matches Some(m) && m@
                == "Finish or explicitly discard current input before reloading configuration"@),
            !holds_input(*self) ==> r is None,
    {
        if self.holds_input() {
            Some("Finish or explicitly discard current input before reloading configuration".to_owned())
        } else {
            None
        }
    }

    /// Adopts a reloaded configuration whose current language is `current`,
    /// after one whose current language was `previous`: the composition is
    /// forgotten, and a different language starts in the native mode.
    pub fn adopt_configuration(&mut self, previous: &str, current: &str)
        ensures
            cleared(*old(self), *final(self)),
            final(self).transition_input@.len() == 0,
            final(self).mode == if previous@ == current@ {
                old(self).mode
            } else {
                Mode::Native
            },
    {
        let _ = self.reset();
        if !same_text(previous, current) {
            self.mode = Mode::Native;
        }
    }
}

} // verus!
