//! Input-method context tracking: which context output belongs to, when output
//! is allowed, and how text is cut into protocol-sized pieces.
use crate::service::host::DeliveryError;
use crate::text::{chars_of, lemma_encode_concat};
use vstd::prelude::*;
use vstd::string::StringSliceAdditionalSpecFns;
use vstd::utf8::{encode_utf8, is_char_boundary, length_of_first_scalar, valid_utf8};

verus! {

broadcast use vstd::string::group_string_axioms;

/// Most bytes of text accepted for one delivery.
pub const MAX_TEXT_BYTES: usize = 4096;

/// Most UTF-8 bytes the input-method protocol carries in one commit string.
pub const MAX_PROTOCOL_BYTES: usize = 4000;

/// Most repetitions of one control key per request.
pub const MAX_CONTROL_REPEAT: u32 = 1024;

/// A committed text-input context of the focused application.
#[derive(Clone, Copy, Debug, PartialEq, Eq, Structural)]
pub struct InputContext {
    pub generation: u64,
    pub active: bool,
    pub content_hint: u32,
    pub content_purpose: u32,
}

impl Default for InputContext {
    fn default() -> (c: Self)
        ensures
            c == (InputContext { generation: 0, active: false, content_hint: 0, content_purpose: 0 }),
    {
        InputContext { generation: 0, active: false, content_hint: 0, content_purpose: 0 }
    }
}

/// Hidden-text or sensitive-data hints, or a password or PIN purpose.
pub open spec fn is_sensitive(c: InputContext) -> bool {
    c.content_hint & 0xc0u32 != 0 || c.content_purpose == 8 || c.content_purpose == 9
}

impl InputContext {
    /// Whether the field must not see composition or dictionary lookups
    /// (text-input-v3 hidden_text or sensitive_data hints, password or PIN purposes).
    pub fn sensitive(self) -> (r: bool)
        ensures
            r == is_sensitive(self),
    {
        self.content_hint & 0xc0u32 != 0 || self.content_purpose == 8 || self.content_purpose == 9
    }
}

/// Receives every newly committed input context.
pub trait TextInputHandler {
    fn on_context_changed(&mut self, context: InputContext);
}

/// The committed context as the output side sees it.
#[derive(Clone, Copy, Debug, PartialEq, Eq, Structural)]
pub struct ContextState {
    pub context: InputContext,
    /// Number of completed `done` events, as the protocol's commit serial.
    pub serial: u32,
    /// Output failed after it may have reached the compositor.
    pub failed: bool,
    /// The input method is gone for good.
    pub closed: bool,
    /// Context events arrived that the next `done` has not yet committed.
    pub transition: bool,
}

impl Default for ContextState {
    fn default() -> (s: Self)
        ensures
            s == (ContextState {
                context: InputContext {
                    generation: 0,
                    active: false,
                    content_hint: 0,
                    content_purpose: 0,
                },
                serial: 0,
                failed: false,
                closed: false,
                transition: false,
            }),
    {
        ContextState {
            context: InputContext::default(),
            serial: 0,
            failed: false,
            closed: false,
            transition: false,
        }
    }
}

/// Why output for `expected` may not be sent now, in the order checked.
pub enum Refusal {
    Closed,
    Failed,
    Changing,
    Expired,
}

/// The first reason output for `expected` is refused in state `s`, if any.
pub open spec fn refusal(s: ContextState, expected: InputContext) -> Option<Refusal> {
    if s.closed {
        Some(Refusal::Closed)
    } else if s.failed {
        Some(Refusal::Failed)
    } else if s.transition {
        Some(Refusal::Changing)
    } else if !s.context.active || !expected.active || s.context.generation
        != expected.generation {
        Some(Refusal::Expired)
    } else {
        None
    }
}

/// Output is allowed for `expected` in state `s`.
pub open spec fn output_allowed(s: ContextState, expected: InputContext) -> bool {
    refusal(s, expected) is None
}

/// What a refusal says.
pub open spec fn refusal_message(r: Refusal) -> Seq<char> {
    match r {
        Refusal::Closed => "Input method is closed"@,
        Refusal::Failed => "Input transport failed; restart required; previous outcome unknown"@,
        Refusal::Changing => "Input context is changing"@,
        Refusal::Expired => "Input context expired or inactive"@,
    }
}

/// The message an error carries.
pub open spec fn error_message(e: DeliveryError) -> Seq<char> {
    match e {
        DeliveryError::Rejected(m) => m@,
        DeliveryError::OutcomeUnknown(m) => m@,
    }
}

pub open spec fn rejected(e: DeliveryError) -> bool {
    e is Rejected
}

impl ContextState {
    /// Admits output for `expected` only into the same, active, committed
    /// context with no pending change, no failure and no shutdown. A failure
    /// reports an unknown outcome; every other refusal is a rejection.
    pub fn validate(&self, expected: InputContext) -> (r: Result<(), DeliveryError>)
        ensures
            r is Ok <==> output_allowed(*self, expected),
            r matches Err(e) ==> (e is OutcomeUnknown <==> refusal(*self, expected) == Some(
                Refusal::Failed,
            )),
            r matches Err(e) ==> refusal(*self, expected) matches Some(why) && error_message(e)
                == refusal_message(why),
    {
        proof {
            reveal_strlit("Input method is closed");
            reveal_strlit("Input transport failed; restart required; previous outcome unknown");
            reveal_strlit("Input context is changing");
            reveal_strlit("Input context expired or inactive");
        }
        if self.closed {
            return Err(DeliveryError::Rejected("Input method is closed".to_owned()));
        }
        if self.failed {
            return Err(
                DeliveryError::OutcomeUnknown(
                    "Input transport failed; restart required; previous outcome unknown".to_owned(),
                ),
            );
        }
        if self.transition {
            return Err(DeliveryError::Rejected("Input context is changing".to_owned()));
        }
        if !self.context.active || !expected.active || self.context.generation
            != expected.generation {
            return Err(DeliveryError::Rejected("Input context expired or inactive".to_owned()));
        }
        Ok(())
    }

    /// Closes the state for good: the context becomes inactive under a new generation.
    pub fn expire(&mut self)
        ensures
            final(self).closed,
            !final(self).context.active,
            final(self).context.generation == (old(self).context.generation + 1) % 0x1_0000_0000_0000_0000,
            final(self).context.content_hint == old(self).context.content_hint,
            final(self).context.content_purpose == old(self).context.content_purpose,
            final(self).serial == old(self).serial,
            final(self).failed == old(self).failed,
            final(self).transition == old(self).transition,
    {
        self.closed = true;
        self.context.active = false;
        self.context.generation = self.context.generation.wrapping_add(1);
    }
}

/// The input-method events that bear on the context.
#[derive(Clone, Copy, Debug, PartialEq, Eq, Structural)]
pub enum InputEvent {
    Activate,
    Deactivate,
    ContentType { hint: u32, purpose: u32 },
    TextChangeCause { cause: u32 },
    Done,
    Unavailable,
    /// Any other event (surrounding text and the like).
    Other,
}

/// The context being assembled from events until the next `done`.
#[derive(Clone, Copy, Debug, PartialEq, Eq, Structural)]
pub struct EventTracker {
    pub pending: InputContext,
    /// The next `done` starts a new context even if its contents are unchanged.
    pub reset: bool,
    /// The compositor withdrew the input method.
    pub unavailable: bool,
}

pub open spec fn next_generation(g: u64) -> u64 {
    if g == u64::MAX {
        0
    } else {
        (g + 1) as u64
    }
}

pub open spec fn next_serial(s: u32) -> u32 {
    if s == u32::MAX {
        0
    } else {
        (s + 1) as u32
    }
}

/// Whether a `done` commits a new context.
pub open spec fn done_changes(t: EventTracker, s: ContextState) -> bool {
    t.reset || s.context.active != t.pending.active || s.context.content_hint
        != t.pending.content_hint || s.context.content_purpose != t.pending.content_purpose
}

/// One event: the new tracker, the new shared state, and the context the
/// handler must be told about, if any.
pub open spec fn event_step(t: EventTracker, s: ContextState, e: InputEvent) -> (
    EventTracker,
    ContextState,
    Option<InputContext>,
) {
    match e {
        InputEvent::Activate => (
            EventTracker {
                pending: InputContext {
                    generation: 0,
                    active: true,
                    content_hint: 0,
                    content_purpose: 0,
                },
                reset: true,
                ..t
            },
            ContextState { transition: true, ..s },
            None,
        ),
        InputEvent::Deactivate => (
            EventTracker { pending: InputContext { active: false, ..t.pending }, reset: true, ..t },
            ContextState { transition: true, ..s },
            None,
        ),
        InputEvent::ContentType { hint, purpose } => (
            EventTracker {
                pending: InputContext { content_hint: hint, content_purpose: purpose, ..t.pending },
                ..t
            },
            ContextState { transition: true, ..s },
            None,
        ),
        InputEvent::TextChangeCause { cause } => if cause == 1 {
            (EventTracker { reset: true, ..t }, ContextState { transition: true, ..s }, None)
        } else {
            (t, s, None)
        },
        InputEvent::Done => {
            let changed = done_changes(t, s);
            let pending = if changed {
                InputContext { generation: next_generation(s.context.generation), ..t.pending }
            } else {
                t.pending
            };
            let context = if changed {
                pending
            } else {
                s.context
            };
            (
                EventTracker { pending, reset: false, ..t },
                ContextState { serial: next_serial(s.serial), transition: false, context, ..s },
                if changed {
                    Some(context)
                } else {
                    None
                },
            )
        },
        InputEvent::Unavailable => {
            let closed = ContextState {
                closed: true,
                context: InputContext {
                    active: false,
                    generation: next_generation(s.context.generation),
                    ..s.context
                },
                ..s
            };
            (EventTracker { unavailable: true, ..t }, closed, Some(closed.context))
        },
        InputEvent::Other => (t, s, None),
    }
}

/// The tracker and shared state after a sequence of events.
pub open spec fn run_events(t: EventTracker, s: ContextState, events: Seq<InputEvent>) -> (
    EventTracker,
    ContextState,
)
    decreases events.len(),
{
    if events.len() == 0 {
        (t, s)
    } else {
        let (t1, s1, _) = event_step(t, s, events[0]);
        run_events(t1, s1, events.drop_first())
    }
}

impl EventTracker {
    /// No context assembled yet.
    pub fn new() -> (t: Self)
        ensures
            t.pending == (InputContext {
                generation: 0,
                active: false,
                content_hint: 0,
                content_purpose: 0,
            }),
            !t.reset,
            !t.unavailable,
    {
        EventTracker { pending: InputContext::default(), reset: false, unavailable: false }
    }

    /// Applies one event to the tracker and the shared state; returns the
    /// context the handler must be told about, if any.
    pub fn on_event(&mut self, shared: &mut ContextState, event: InputEvent) -> (r: Option<
        InputContext,
    >)
        ensures
            (*final(self), *final(shared), r) == event_step(*old(self), *old(shared), event),
    {
        match event {
            InputEvent::Activate => {
                shared.transition = true;
                self.pending = InputContext {
                    generation: 0,
                    active: true,
                    content_hint: 0,
                    content_purpose: 0,
                };
                self.reset = true;
                None
            },
            InputEvent::Deactivate => {
                shared.transition = true;
                self.pending.active = false;
                self.reset = true;
                None
            },
            InputEvent::ContentType { hint, purpose } => {
                shared.transition = true;
                self.pending.content_hint = hint;
                self.pending.content_purpose = purpose;
                None
            },
            InputEvent::TextChangeCause { cause } => {
                if cause == 1 {
                    shared.transition = true;
                    self.reset = true;
                }
                None
            },
            InputEvent::Done => {
                shared.serial = shared.serial.wrapping_add(1);
                shared.transition = false;
                let changed = self.reset || shared.context.active != self.pending.active
                    || shared.context.content_hint != self.pending.content_hint
                    || shared.context.content_purpose != self.pending.content_purpose;
                if changed {
                    self.pending.generation = shared.context.generation.wrapping_add(1);
                    shared.context = self.pending;
                }
                self.reset = false;
                if changed {
                    Some(shared.context)
                } else {
                    None
                }
            },
            InputEvent::Unavailable => {
                self.unavailable = true;
                shared.expire();
                Some(shared.context)
            },
            InputEvent::Other => None,
        }
    }
}

/// An event that announces a context change blocks all output until the next
/// `done` commits it, whichever context the output was meant for.
pub proof fn lemma_change_blocks_output(
    t: EventTracker,
    s: ContextState,
    e: InputEvent,
    expected: InputContext,
)
    requires
        e is Activate || e is Deactivate || e is ContentType || (e matches InputEvent::TextChangeCause { cause } && cause == 1),
    ensures
        !output_allowed(event_step(t, s, e).1, expected),
{
}

/// A `done` that commits a new context gives it a new generation, so output
/// meant for the previous context is refused from then on; the new context
/// itself accepts output while it is active and the transport is sound.
pub proof fn lemma_done_switches_context(t: EventTracker, s: ContextState)
    requires
        done_changes(t, s),
    ensures
        ({
            let (t1, s1, notice) = event_step(t, s, InputEvent::Done);
            &&& notice == Some(s1.context)
            &&& s1.context.generation != s.context.generation
            &&& !output_allowed(s1, s.context)
            &&& output_allowed(s1, s1.context) <==> (!s.closed && !s.failed && s1.context.active)
        }),
{
}

/// A `done` that changes nothing keeps the committed context (only the serial
/// advances) and tells the handler nothing.
pub proof fn lemma_done_without_change(t: EventTracker, s: ContextState)
    requires
        !done_changes(t, s),
    ensures
        ({
            let (_, s1, notice) = event_step(t, s, InputEvent::Done);
            &&& notice is None
            &&& s1.context == s.context
            &&& s1.serial == next_serial(s.serial)
            &&& !s1.transition
        }),
{
}

/// After a `done` the committed context carries what the events announced:
/// the pending activity, content hint and content purpose. A `done` after a
/// reset, or whose pending activity, hint or purpose differs from the
/// committed context, commits a new context under a new generation and tells
/// the handler about it; otherwise the committed context stays as it was.
pub proof fn lemma_done_commits_pending(t: EventTracker, s: ContextState)
    ensures
        ({
            let (t1, s1, notice) = event_step(t, s, InputEvent::Done);
            &&& s1.context.active == t.pending.active
            &&& s1.context.content_hint == t.pending.content_hint
            &&& s1.context.content_purpose == t.pending.content_purpose
            &&& !t1.reset
            &&& (t.reset || s.context.active != t.pending.active || s.context.content_hint
                != t.pending.content_hint || s.context.content_purpose != t.pending.content_purpose)
                ==> notice == Some(s1.context) && s1.context.generation != s.context.generation
            &&& notice is None ==> s1.context == s.context
        }),
{
}

/// What the context events announce for the next `done`: Activate a fresh
/// active context with no hint or purpose, Deactivate an inactive one, a
/// content type that hint and purpose; each marks a transition. Losing the
/// input method closes it at once and tells the handler of an inactive
/// context under a new generation.
pub proof fn lemma_events_announce(t: EventTracker, s: ContextState, e: InputEvent)
    ensures
        e is Activate ==> ({
            let (t1, s1, notice) = event_step(t, s, e);
            &&& t1.pending.active && t1.pending.content_hint == 0 && t1.pending.content_purpose == 0
            &&& t1.reset && s1.transition && notice is None && s1.context == s.context
        }),
        e is Deactivate ==> ({
            let (t1, s1, notice) = event_step(t, s, e);
            &&& !t1.pending.active && t1.reset && s1.transition && notice is None
            &&& s1.context == s.context
        }),
        e matches InputEvent::ContentType { hint, purpose } ==> ({
            let (t1, s1, notice) = event_step(t, s, e);
            &&& t1.pending.content_hint == hint && t1.pending.content_purpose == purpose
            &&& t1.pending.active == t.pending.active && s1.transition && notice is None
            &&& s1.context == s.context
        }),
        e is Unavailable ==> ({
            let (t1, s1, notice) = event_step(t, s, e);
            &&& s1.closed && !s1.context.active && t1.unavailable
            &&& s1.context.generation != s.context.generation
            &&& notice == Some(s1.context)
        }),
{
}

/// Once the input method is closed it stays closed, and no output is ever
/// admitted again, whatever events follow.
pub proof fn lemma_closed_is_final(
    t: EventTracker,
    s: ContextState,
    events: Seq<InputEvent>,
    expected: InputContext,
)
    requires
        s.closed,
    ensures
        run_events(t, s, events).1.closed,
        !output_allowed(run_events(t, s, events).1, expected),
    decreases events.len(),
{
    if events.len() > 0 {
        let (t1, s1, _) = event_step(t, s, events[0]);
        lemma_closed_is_final(t1, s1, events.drop_first(), expected);
    }
}

/// A transport failure is never cleared by later events: every later delivery
/// reports an unknown outcome or a closed input method.
pub proof fn lemma_failure_is_sticky(
    t: EventTracker,
    s: ContextState,
    events: Seq<InputEvent>,
    expected: InputContext,
)
    requires
        s.failed,
    ensures
        run_events(t, s, events).1.failed,
        !output_allowed(run_events(t, s, events).1, expected),
    decreases events.len(),
{
    if events.len() > 0 {
        let (t1, s1, _) = event_step(t, s, events[0]);
        lemma_failure_is_sticky(t1, s1, events.drop_first(), expected);
    }
}

/// A nonempty valid encoding has a character boundary within its first four bytes.
proof fn lemma_first_boundary(b: Seq<u8>)
    requires
        valid_utf8(b),
        b.len() > 0,
    ensures
        0 < length_of_first_scalar(b) <= 4,
        length_of_first_scalar(b) <= b.len(),
        is_char_boundary(b, length_of_first_scalar(b)),
{
    reveal_with_fuel(is_char_boundary, 2);
}

/// Where the next protocol chunk of `text` ends: the last character boundary
/// at or before 4000 bytes (or the end of a shorter text).
pub fn chunk_end(text: &str) -> (end: usize)
    ensures
        end <= text.spec_bytes().len(),
        end <= MAX_PROTOCOL_BYTES,
        is_char_boundary(text.spec_bytes(), end as int),
        forall|k: int|
            end < k <= text.spec_bytes().len() && k <= MAX_PROTOCOL_BYTES ==> !is_char_boundary(
                text.spec_bytes(),
                k,
            ),
        text.spec_bytes().len() > 0 ==> end > 0,
{
    let ghost b = text.spec_bytes();
    proof {
        vstd::utf8::encode_utf8_valid_utf8(text@);
        vstd::utf8::is_char_boundary_start_end_of_seq(b);
        if b.len() > 0 {
            lemma_first_boundary(b);
        }
    }
    let len = text.as_bytes().len();
    let mut end = if len < MAX_PROTOCOL_BYTES {
        len
    } else {
        MAX_PROTOCOL_BYTES
    };
    while !text.is_char_boundary(end)
        invariant
            b == text.spec_bytes(),
            valid_utf8(b),
            is_char_boundary(b, 0),
            len == b.len(),
            end <= len,
            end <= MAX_PROTOCOL_BYTES,
            len > 0 ==> is_char_boundary(b, length_of_first_scalar(b)) && 0 < length_of_first_scalar(b) <= 4,
            forall|k: int| end < k <= len && k <= MAX_PROTOCOL_BYTES ==> !is_char_boundary(b, k),
            len > 0 ==> end >= length_of_first_scalar(b),
        decreases end,
    {
        end = end - 1;
    }
    end
}

/// The text of `chunks` joined in order.
pub open spec fn joined(chunks: Seq<Seq<char>>) -> Seq<char>
    decreases chunks.len(),
{
    if chunks.len() == 0 {
        Seq::empty()
    } else {
        joined(chunks.drop_last()) + chunks.last()
    }
}

/// `chunks` cut `text` into protocol pieces: joined they give the text; each
/// is nonempty and at most 4000 bytes, and as long as it can be (the next
/// character would not fit).
pub open spec fn is_chunking(text: Seq<char>, chunks: Seq<Seq<char>>) -> bool {
    &&& joined(chunks) == text
    &&& forall|i: int|
        0 <= i < chunks.len() ==> #[trigger] chunks[i].len() > 0 && encode_utf8(chunks[i]).len()
            <= MAX_PROTOCOL_BYTES
    &&& forall|i: int|
        0 <= i < chunks.len() - 1 ==> encode_utf8(#[trigger] chunks[i].push(chunks[i + 1][0])).len()
            > MAX_PROTOCOL_BYTES
}

/// Between two pieces of text lies a character boundary of their encoding.
proof fn lemma_boundary_between(a: Seq<char>, b: Seq<char>)
    ensures
        is_char_boundary(encode_utf8(a + b), encode_utf8(a).len() as int),
    decreases a.len(),
{
    vstd::utf8::encode_utf8_valid_utf8(a + b);
    if a.len() > 0 {
        let ab = a + b;
        vstd::utf8::encode_utf8_first_scalar(ab);
        assert(vstd::utf8::pop_first_scalar(encode_utf8(ab)) =~= encode_utf8(ab.drop_first()));
        assert(ab.drop_first() =~= a.drop_first() + b);
        assert(ab[0] == a[0]);
        lemma_boundary_between(a.drop_first(), b);
        lemma_encode_concat(a.drop_first(), b);
        lemma_encode_concat(a, b);
    }
}

/// Splits `text` at a character boundary of its encoding.
fn split_text(text: &str, at: usize) -> (r: (String, String))
    requires
        is_char_boundary(encode_utf8(text@), at as int),
    ensures
        r.0@ + r.1@ == text@,
        encode_utf8(r.0@).len() == at,
{
    proof {
        vstd::utf8::encode_utf8_valid_utf8(text@);
        assert(at <= encode_utf8(text@).len());
    }
    let (a, b) = text.split_at(at);
    proof {
        lemma_encode_concat(a@, b@);
        assert(encode_utf8(a@) + encode_utf8(b@) =~= encode_utf8(text@));
        vstd::utf8::encode_utf8_decode_utf8(a@ + b@);
        vstd::utf8::encode_utf8_decode_utf8(text@);
    }
    (a.to_owned(), b.to_owned())
}

/// Cuts `text` into the pieces committed one protocol message each.
pub fn protocol_chunks(text: &str) -> (r: Vec<String>)
    ensures
        is_chunking(text@, r@.map_values(|c: String| c@)),
{
    let mut chunks: Vec<String> = Vec::new();
    let mut rest: String = text.to_owned();
    let ghost views: Seq<Seq<char>> = Seq::empty();
    while !rest.as_str().is_empty()
        invariant
            views == chunks@.map_values(|c: String| c@),
            joined(views) + rest@ == text@,
            forall|i: int|
                0 <= i < views.len() ==> #[trigger] views[i].len() > 0 && encode_utf8(views[i]).len()
                    <= MAX_PROTOCOL_BYTES,
            forall|i: int|
                0 <= i < views.len() - 1 ==> encode_utf8(#[trigger] views[i].push(views[i + 1][0])).len()
                    > MAX_PROTOCOL_BYTES,
            views.len() > 0 && rest@.len() > 0 ==> encode_utf8(views.last().push(rest@[0])).len()
                > MAX_PROTOCOL_BYTES,
        decreases rest@.len(),
    {
        let end = chunk_end(rest.as_str());
        let (piece, tail) = split_text(rest.as_str(), end);
        proof {
            let r = rest@;
            vstd::utf8::encode_utf8_valid_utf8(r);
            assert(encode_utf8(r).len() > 0) by {
                assert(encode_utf8(r) == vstd::utf8::encode_scalar(r[0] as u32) + encode_utf8(
                    r.drop_first(),
                ));
            }
            assert(end > 0);
            assert(encode_utf8(piece@).len() == end);
            assert(piece@.len() > 0) by {
                if piece@.len() == 0 {
                    assert(encode_utf8(piece@).len() == 0);
                }
            }
            if tail@.len() > 0 {
                let c = tail@[0];
                let longer = piece@.push(c);
                assert(r =~= longer + tail@.drop_first());
                lemma_boundary_between(longer, tail@.drop_first());
                assert(piece@ + seq![c] =~= longer);
                lemma_encode_concat(piece@, seq![c]);
                vstd::utf8::encode_utf8_first_scalar(seq![c]);
                assert(seq![c].drop_first() =~= Seq::<char>::empty());
                lemma_encode_concat(longer, tail@.drop_first());
                assert(encode_utf8(seq![c]) == vstd::utf8::encode_scalar(c as u32) + encode_utf8(
                    seq![c].drop_first(),
                ));
                assert(encode_utf8(seq![c]).len() > 0);
                assert(encode_utf8(longer) == encode_utf8(piece@) + encode_utf8(seq![c]));
                assert(encode_utf8(longer).len() > end);
                assert(is_char_boundary(encode_utf8(r), encode_utf8(longer).len() as int));
                assert(encode_utf8(longer).len() <= encode_utf8(r).len());
                assert(encode_utf8(longer).len() > MAX_PROTOCOL_BYTES);
            }
            let nv = views.push(piece@);
            assert(nv.drop_last() =~= views);
            if views.len() > 0 {
                assert(piece@[0] == r[0]);
                assert(nv[views.len() - 1].push(nv[views.len() as int][0]) == views.last().push(r[0]));
            }
            views = nv;
        }
        chunks.push(piece);
        rest = tail;
    }
    proof {
        assert(rest@ =~= Seq::<char>::empty());
        assert(joined(views) + rest@ =~= joined(views));
    }
    chunks
}

/// Refuses text over 4096 bytes or containing NUL; nothing else is checked.
pub fn validate_text(text: &str) -> (r: Result<(), DeliveryError>)
    ensures
        r is Ok <==> (text.len() <= MAX_TEXT_BYTES && !text@.contains('\0')),
        r matches Err(e) ==> e is Rejected && error_message(e)
            == "Text exceeds 4096 bytes or contains NUL"@,
{
    let too_long = text.len() > MAX_TEXT_BYTES;
    let chars = chars_of(text);
    let mut i: usize = 0;
    let mut nul = false;
    while i < chars.len()
        invariant
            chars@ == text@,
            i <= chars@.len(),
            nul <==> exists|j: int| 0 <= j < i && chars@[j] == '\0',
        decreases chars@.len() - i,
    {
        if chars[i] == '\0' {
            nul = true;
        }
        i = i + 1;
    }
    if too_long || nul {
        Err(DeliveryError::Rejected("Text exceeds 4096 bytes or contains NUL".to_owned()))
    } else {
        Ok(())
    }
}

/// The evdev key code of a control character: Return, Tab, Escape or Backspace.
pub open spec fn control_code_of(ch: char) -> Option<u32> {
    if ch == '\n' {
        Some(28)
    } else if ch == '\t' {
        Some(15)
    } else if ch == '\u{1b}' {
        Some(1)
    } else if ch == '\u{8}' {
        Some(14)
    } else {
        None
    }
}

/// Physical key code for a control character, if it has one.
pub fn control_code(ch: char) -> (r: Option<u32>)
    ensures
        r == control_code_of(ch),
{
    if ch == '\n' {
        Some(28)
    } else if ch == '\t' {
        Some(15)
    } else if ch == '\u{1b}' {
        Some(1)
    } else if ch == '\u{8}' {
        Some(14)
    } else {
        None
    }
}

/// Admits `count` presses of control `key`: the key must have a physical
/// code and at most 1024 presses are sent at once. Returns the key code.
pub fn check_control(key: char, count: u32) -> (r: Result<u32, DeliveryError>)
    ensures
        r is Ok <==> (control_code_of(key) is Some && count <= MAX_CONTROL_REPEAT),
        r matches Ok(code) ==> control_code_of(key) == Some(code),
        r matches Err(e) ==> e is Rejected,
        control_code_of(key) is None ==> (r matches Err(e) && error_message(e)
            == "Unsupported control key"@),
        control_code_of(key) is Some && count > MAX_CONTROL_REPEAT ==> (r matches Err(e)
            && error_message(e) == "Too many control keys"@),
{
    let code = match control_code(key) {
        Some(code) => code,
        None => return Err(DeliveryError::Rejected("Unsupported control key".to_owned())),
    };
    if count > MAX_CONTROL_REPEAT {
        return Err(DeliveryError::Rejected("Too many control keys".to_owned()));
    }
    Ok(code)
}

/// Admits a deletion of `before` characters before the cursor and `after`
/// after it: only up to 1024 Backspaces and nothing after the cursor.
pub fn check_delete(before: u32, after: u32) -> (r: Result<(), DeliveryError>)
    ensures
        r is Ok <==> (before <= MAX_CONTROL_REPEAT && after == 0),
        r matches Err(e) ==> e is Rejected && error_message(e)
            == "Only up to 1024 backspaces are supported"@,
{
    if before > MAX_CONTROL_REPEAT || after != 0 {
        return Err(DeliveryError::Rejected("Only up to 1024 backspaces are supported".to_owned()));
    }
    Ok(())
}

/// Why the event-loop owner did not take a request: its queue was full, or
/// it has stopped. Either way nothing was sent.
pub fn refused_request(queue_full: bool) -> (e: DeliveryError)
    ensures
        queue_full ==> (e matches DeliveryError::Rejected(m) && m@ == "Input output queue is full"@),
        !queue_full ==> (e matches DeliveryError::Rejected(m) && m@ == "Input method is closed"@),
{
    if queue_full {
        DeliveryError::Rejected("Input output queue is full".to_owned())
    } else {
        DeliveryError::Rejected("Input method is closed".to_owned())
    }
}

} // verus!
