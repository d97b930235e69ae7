use novakeys::cli::ProgramArgs;
use novakeys::config::file_io::{config_text, ReadError};
use novakeys::ipc::{is_private_dir, Frame, FrameError, FRAME_LIMIT};
use novakeys::service::client::{request, RequestError};
use novakeys::service::host::DeliveryError;
use novakeys::service::{CommandKind, IPCMessage, IPCResponse, MessageError};

fn message(kind: CommandKind, value: Option<&str>) -> IPCMessage {
    IPCMessage { version: 1, kind, value: value.map(str::to_owned) }
}

#[test]
fn control_messages_are_validated() {
    assert!(message(CommandKind::SetLanguage, Some("no")).validate().is_ok());
    assert!(message(CommandKind::SetLanguage, Some("zz-custom-2")).validate().is_ok());
    assert_eq!(
        message(CommandKind::SetLanguage, None).validate(),
        Err(MessageError::MissingLanguageCode)
    );
    for bad in ["", "EN", "../outside", "a b", &"a".repeat(33)] {
        assert_eq!(
            message(CommandKind::SetLanguage, Some(bad)).validate(),
            Err(MessageError::InvalidLanguageCode)
        );
    }
    assert!(message(CommandKind::SetLanguage, Some(&"a".repeat(32))).validate().is_ok());
    assert_eq!(
        message(CommandKind::GetStatus, Some("no")).validate(),
        Err(MessageError::UnexpectedValue)
    );
    assert!(message(CommandKind::Close, None).validate().is_ok());
    let old = IPCMessage { version: 2, kind: CommandKind::Close, value: None };
    assert_eq!(old.validate(), Err(MessageError::UnsupportedVersion));
    assert_eq!(MessageError::UnsupportedVersion.message(), "Unsupported IPC version");
    assert_eq!(MessageError::UnexpectedValue.message(), "Command does not accept a value");
}

#[test]
fn command_line_requests_become_messages() {
    let m = request(CommandKind::SetLanguage, &Some("fr".to_owned())).unwrap();
    assert_eq!(m.version, 1);
    assert_eq!(m.kind, CommandKind::SetLanguage);
    assert_eq!(m.value.as_deref(), Some("fr"));
    let m = request(CommandKind::ReloadConfig, &Some("fr".to_owned())).unwrap();
    assert_eq!(m.value, None);
    assert_eq!(
        request(CommandKind::SetLanguage, &None).unwrap_err(),
        RequestError::MissingLanguageCode
    );
    assert_eq!(
        RequestError::MissingLanguageCode.message(),
        "set-language requires a language code"
    );
    let args = ProgramArgs { message: vec![CommandKind::GetStatus], value: None };
    assert_eq!(args.message.len(), 1);
}

#[test]
fn responses_carry_an_error_or_nothing() {
    let refused = IPCResponse::error("Unknown language".to_owned());
    assert_eq!(refused.error.as_deref(), Some("Unknown language"));
    assert!(refused.status.is_none());
    let fine = IPCResponse::default();
    assert!(fine.error.is_none() && fine.status.is_none());
}

#[test]
fn frames_are_bounded_and_not_empty() {
    let mut frame = Frame::new();
    assert!(frame.extend(&[b'x'; 4096]).is_ok());
    assert!(frame.extend(&vec![b'y'; FRAME_LIMIT - 4096]).is_ok());
    assert_eq!(frame.finish().unwrap().len(), FRAME_LIMIT);
    let mut frame = Frame::new();
    assert!(frame.extend(&vec![b'x'; FRAME_LIMIT]).is_ok());
    assert_eq!(frame.extend(b"x"), Err(FrameError::TooLarge));
    assert_eq!(frame.finish(), Err(FrameError::TooLarge));
    assert_eq!(Frame::new().finish(), Err(FrameError::Empty));
    let mut frame = Frame::new();
    frame.extend(b"{\"version\":1}").unwrap();
    assert_eq!(frame.finish().unwrap(), b"{\"version\":1}".to_vec());
    assert_eq!(FrameError::TooLarge.message(), "IPC frame exceeds 16 KiB");
    assert_eq!(FrameError::Empty.message(), "Empty IPC frame");
}

#[test]
fn runtime_directory_must_be_private() {
    assert!(is_private_dir(true, true, 1000, 1000, 0o40700));
    assert!(!is_private_dir(true, true, 1000, 1000, 0o40777));
    assert!(!is_private_dir(true, true, 1000, 1000, 0o40710));
    assert!(!is_private_dir(true, true, 0, 1000, 0o40700));
    assert!(!is_private_dir(false, true, 1000, 1000, 0o40700));
    assert!(!is_private_dir(true, false, 1000, 1000, 0o100600));
}

#[test]
fn configuration_text_is_bounded_utf8() {
    assert_eq!(config_text(b"keyboard_width = 900".to_vec()).unwrap(), "keyboard_width = 900");
    assert_eq!(config_text("å".as_bytes().to_vec()).unwrap(), "å");
    assert_eq!(config_text(vec![0xff]), Err(ReadError::NotUtf8));
    assert_eq!(config_text(vec![0xc3]), Err(ReadError::NotUtf8));
    assert!(config_text(vec![b'a'; 1048576]).is_ok());
    assert_eq!(config_text(vec![b'a'; 1048577]), Err(ReadError::TooLarge));
    assert_eq!(ReadError::NotUtf8.message(), "Configuration is not UTF-8");
}

#[test]
fn delivery_errors_tell_whether_text_may_have_arrived() {
    let lost = DeliveryError::OutcomeUnknown("lost".to_owned());
    assert!(lost.outcome_unknown());
    assert_eq!(lost.message(), "lost");
    let refused = DeliveryError::Rejected("refused".to_owned());
    assert!(!refused.outcome_unknown());
    assert_eq!(refused.message(), "refused");
}
