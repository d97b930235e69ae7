use novakeys::input_detection::{
    check_control, check_delete, chunk_end, control_code, protocol_chunks, refused_request,
    validate_text, ContextState,
    EventTracker, InputContext, InputEvent,
};
use novakeys::service::host::DeliveryError;

#[test]
fn protocol_chunks_use_utf8_byte_boundaries_and_reject_invalid_text() {
    let text = "界".repeat(1365);
    let boundary = chunk_end(&text);
    assert_eq!(boundary, 3999);
    assert_eq!(text[..boundary].len() + text[boundary..].len(), 4095);
    assert!(validate_text(&text).is_ok());
    assert!(validate_text(&"a".repeat(4097)).is_err());
    assert!(validate_text("a\0b").is_err());
}

fn feed(
    state: &mut EventTracker,
    shared: &mut ContextState,
    events: &mut Vec<InputContext>,
    event: InputEvent,
) {
    if let Some(context) = state.on_event(shared, event) {
        events.push(context);
    }
}

#[test]
fn contexts_commit_on_done_but_transitions_immediately_block_old_output() {
    let mut events: Vec<InputContext> = Vec::new();
    let mut shared = ContextState::default();
    let mut state = EventTracker::new();
    feed(&mut state, &mut shared, &mut events, InputEvent::Activate);
    assert!(events.is_empty());
    feed(&mut state, &mut shared, &mut events, InputEvent::Done);
    let old = shared.context;
    assert!(old.active);
    assert_eq!(shared.serial, 1);
    shared.validate(old).unwrap();
    feed(&mut state, &mut shared, &mut events, InputEvent::Done);
    assert_eq!(events.len(), 1);
    assert_eq!(shared.serial, 2);
    feed(&mut state, &mut shared, &mut events, InputEvent::Deactivate);
    assert!(shared.validate(old).is_err());
    assert_eq!(shared.context, old);
    feed(&mut state, &mut shared, &mut events, InputEvent::Activate);
    feed(&mut state, &mut shared, &mut events, InputEvent::Done);
    assert!(shared.validate(old).is_err());
    assert_eq!(shared.serial, 3);
    let current = shared.context;
    shared.expire();
    assert!(shared.validate(current).is_err());
    assert!(!shared.context.active);
}

#[test]
fn content_state_is_atomic_sensitive_and_reset_on_activation() {
    let mut shared = ContextState::default();
    let mut state = EventTracker::new();
    state.on_event(&mut shared, InputEvent::Activate);
    state.on_event(&mut shared, InputEvent::ContentType { hint: 0x80, purpose: 8 });
    assert!(!shared.context.sensitive());
    state.on_event(&mut shared, InputEvent::Done);
    assert!(shared.context.sensitive());
    shared.serial = u32::MAX;
    state.on_event(&mut shared, InputEvent::Activate);
    state.on_event(&mut shared, InputEvent::Done);
    assert!(!shared.context.sensitive());
    assert_eq!(shared.serial, 0);
    shared.failed = true;
    let current = shared.context;
    assert!(shared.validate(current).unwrap_err().outcome_unknown());
    state.on_event(&mut shared, InputEvent::Done);
    assert!(shared.failed);
}

#[test]
fn first_done_notifies_the_new_context_once() {
    let mut shared = ContextState::default();
    let mut state = EventTracker::new();
    assert_eq!(state.on_event(&mut shared, InputEvent::Activate), None);
    let first = state.on_event(&mut shared, InputEvent::Done).unwrap();
    assert!(first.active);
    assert_eq!(first.generation, 1);
    assert_eq!(state.on_event(&mut shared, InputEvent::Done), None);
    assert_eq!(shared.context.generation, 1);
}

#[test]
fn changing_context_refuses_output_until_done() {
    let mut shared = ContextState::default();
    let mut state = EventTracker::new();
    state.on_event(&mut shared, InputEvent::Activate);
    state.on_event(&mut shared, InputEvent::Done);
    let context = shared.context;
    state.on_event(&mut shared, InputEvent::TextChangeCause { cause: 1 });
    assert_eq!(
        shared.validate(context),
        Err(DeliveryError::Rejected("Input context is changing".to_owned()))
    );
    state.on_event(&mut shared, InputEvent::Done);
    assert!(shared.validate(context).is_err());
    assert!(shared.validate(shared.context).is_ok());
    state.on_event(&mut shared, InputEvent::TextChangeCause { cause: 0 });
    assert!(shared.validate(shared.context).is_ok());
}

#[test]
fn unavailable_input_method_closes_for_good() {
    let mut shared = ContextState::default();
    let mut state = EventTracker::new();
    state.on_event(&mut shared, InputEvent::Activate);
    state.on_event(&mut shared, InputEvent::Done);
    let notified = state.on_event(&mut shared, InputEvent::Unavailable).unwrap();
    assert!(!notified.active);
    assert_eq!(notified.generation, 2);
    assert!(state.unavailable);
    state.on_event(&mut shared, InputEvent::Activate);
    state.on_event(&mut shared, InputEvent::Done);
    assert_eq!(
        shared.validate(shared.context),
        Err(DeliveryError::Rejected("Input method is closed".to_owned()))
    );
}

#[test]
fn validation_reports_each_refusal() {
    let active = InputContext { generation: 4, active: true, content_hint: 0, content_purpose: 0 };
    let mut shared = ContextState::default();
    shared.context = active;
    assert!(shared.validate(active).is_ok());
    let stale = InputContext { generation: 3, ..active };
    assert_eq!(
        shared.validate(stale),
        Err(DeliveryError::Rejected("Input context expired or inactive".to_owned()))
    );
    shared.failed = true;
    assert_eq!(
        shared.validate(active),
        Err(DeliveryError::OutcomeUnknown(
            "Input transport failed; restart required; previous outcome unknown".to_owned()
        ))
    );
}

#[test]
fn sensitive_hints_and_purposes() {
    let plain = InputContext { generation: 0, active: true, content_hint: 0x1, content_purpose: 0 };
    assert!(!plain.sensitive());
    assert!(InputContext { content_hint: 0x40, ..plain }.sensitive());
    assert!(InputContext { content_purpose: 9, ..plain }.sensitive());
    assert!(!InputContext { content_purpose: 7, ..plain }.sensitive());
}

#[test]
fn short_text_is_one_chunk_and_ascii_splits_at_the_limit() {
    assert_eq!(chunk_end(""), 0);
    assert_eq!(chunk_end("abc"), 3);
    assert_eq!(chunk_end(&"a".repeat(5000)), 4000);
    let text = format!("{}é", "a".repeat(3999));
    assert_eq!(chunk_end(&text), 3999);
    assert!(validate_text(&"a".repeat(4096)).is_ok());
}

#[test]
fn control_keys_and_deletions() {
    assert_eq!(control_code('\n'), Some(28));
    assert_eq!(control_code('\t'), Some(15));
    assert_eq!(control_code('\u{1b}'), Some(1));
    assert_eq!(control_code('\u{8}'), Some(14));
    assert_eq!(control_code('a'), None);
    assert_eq!(check_control('\n', 1024), Ok(28));
    assert!(check_control('\n', 1025).is_err());
    assert_eq!(
        check_control('x', 1),
        Err(DeliveryError::Rejected("Unsupported control key".to_owned()))
    );
    assert!(check_delete(1024, 0).is_ok());
    assert!(check_delete(1025, 0).is_err());
    assert!(check_delete(1, 1).is_err());
}

#[test]
fn fixed_control_map_resolves_normal_positions() {
    // The virtual keyboard's keymap: <ESC>=9, <BKSP>=22, <TAB>=23, <RTRN>=36,
    // that is evdev code + 8.
    for (ch, keycode) in [('\n', 36), ('\t', 23), ('\u{001b}', 9), ('\u{0008}', 22)] {
        assert_eq!(control_code(ch).unwrap() + 8, keycode);
    }
    assert_eq!(control_code(' '), None);
    assert_eq!(control_code('ΰ'), None);
}

#[test]
fn long_text_is_committed_in_pieces_that_join_back() {
    assert!(protocol_chunks("").is_empty());
    assert_eq!(protocol_chunks("abc"), vec!["abc".to_string()]);
    let text = "界".repeat(2000);
    let pieces = protocol_chunks(&text);
    assert_eq!(pieces.len(), 2);
    assert_eq!(pieces[0].len(), 3999);
    assert_eq!(pieces[1].len(), 2001);
    assert_eq!(pieces.concat(), text);
    let ascii = "a".repeat(8001);
    let lengths: Vec<usize> = protocol_chunks(&ascii).iter().map(|p| p.len()).collect();
    assert_eq!(lengths, vec![4000, 4000, 1]);
}

#[test]
fn refused_requests_say_why_and_sent_nothing() {
    assert_eq!(
        refused_request(true),
        DeliveryError::Rejected("Input output queue is full".into())
    );
    assert_eq!(
        refused_request(false),
        DeliveryError::Rejected("Input method is closed".into())
    );
    assert!(!refused_request(true).outcome_unknown());
}

#[test]
fn refusals_say_why() {
    assert_eq!(
        check_delete(1025, 0),
        Err(DeliveryError::Rejected("Only up to 1024 backspaces are supported".into()))
    );
    assert_eq!(
        check_control('a', 1),
        Err(DeliveryError::Rejected("Unsupported control key".into()))
    );
    assert_eq!(
        check_control('\n', 1025),
        Err(DeliveryError::Rejected("Too many control keys".into()))
    );
    assert_eq!(
        validate_text("a\0"),
        Err(DeliveryError::Rejected("Text exceeds 4096 bytes or contains NUL".into()))
    );
    let mut closed = ContextState::default();
    closed.closed = true;
    assert_eq!(
        closed.validate(InputContext::default()),
        Err(DeliveryError::Rejected("Input method is closed".into()))
    );
}
