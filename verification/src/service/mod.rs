pub mod client;
pub mod host;

use crate::text::valid_code;
use crate::text::is_valid_code;
use vstd::prelude::*;

verus! {

/// Unified command kind used by both the command line and control messages.
#[derive(Debug, Clone, Copy, PartialEq, Eq, Structural)]
pub enum CommandKind {
    Close,
    ReloadConfig,
    SetLanguage,
    GetStatus,
    HideLanguageSwitcher,
    ShowLanguageSwitcher,
}

/// A control message; only `SetLanguage` carries a value (the language code).
#[derive(Debug, Clone)]
pub struct IPCMessage {
    pub version: u8,
    pub kind: CommandKind,
    pub value: Option<String>,
}

/// A JSON document, carried as it is.
#[verifier::external_type_specification]
#[verifier::external_body]
pub struct ExJsonValue(serde_json::Value);

/// The answer to a control message: an error, or the status that `GetStatus` asks for.
#[derive(Debug)]
pub struct IPCResponse {
    pub error: Option<String>,
    pub status: Option<serde_json::Value>,
}

impl IPCResponse {
    /// A refusal with `error` and no status.
    pub fn error(error: String) -> (r: Self)
        ensures
            r.error == Some(error),
            r.status is None,
    {
        IPCResponse { error: Some(error), status: None }
    }
}

impl Default for IPCResponse {
    /// Success without a status.
    fn default() -> (r: Self)
        ensures
            r.error is None,
            r.status is None,
    {
        IPCResponse { error: None, status: None }
    }
}

/// Why a control message was refused.
#[derive(Debug, Clone, Copy, PartialEq, Eq, Structural)]
pub enum MessageError {
    UnsupportedVersion,
    MissingLanguageCode,
    InvalidLanguageCode,
    UnexpectedValue,
}

impl MessageError {
    /// The refusal as shown to the sender.
    pub fn message(&self) -> (r: String)
        ensures
            *self == MessageError::UnsupportedVersion ==> r@ == "Unsupported IPC version"@,
            *self == MessageError::MissingLanguageCode ==> r@ == "Missing language code"@,
            *self == MessageError::InvalidLanguageCode ==> r@ == "Invalid language code"@,
            *self == MessageError::UnexpectedValue ==> r@ == "Command does not accept a value"@,
    {
        match self {
            MessageError::UnsupportedVersion => "Unsupported IPC version".to_owned(),
            MessageError::MissingLanguageCode => "Missing language code".to_owned(),
            MessageError::InvalidLanguageCode => "Invalid language code".to_owned(),
            MessageError::UnexpectedValue => "Command does not accept a value".to_owned(),
        }
    }
}

/// The first rule a control message breaks, if any.
pub open spec fn message_error(m: IPCMessage) -> Option<MessageError> {
    if m.version != 1 {
        Some(MessageError::UnsupportedVersion)
    } else if m.kind == CommandKind::SetLanguage {
        match m.value {
            None => Some(MessageError::MissingLanguageCode),
            Some(code) => if is_valid_code(code@) {
                None
            } else {
                Some(MessageError::InvalidLanguageCode)
            },
        }
    } else if m.value is Some {
        Some(MessageError::UnexpectedValue)
    } else {
        None
    }
}

impl IPCMessage {
    /// Accepts version 1 messages whose value is a valid layout code for
    /// `SetLanguage` and absent for every other command.
    pub fn validate(&self) -> (r: Result<(), MessageError>)
        ensures
            r is Ok <==> message_error(*self) is None,
            r matches Err(e) ==> message_error(*self) == Some(e),
    {
        if self.version != 1 {
            return Err(MessageError::UnsupportedVersion);
        }
        match self.kind {
            CommandKind::SetLanguage => {
                let code = match &self.value {
                    Some(code) => code,
                    None => return Err(MessageError::MissingLanguageCode),
                };
                if !valid_code(code.as_str()) {
                    return Err(MessageError::InvalidLanguageCode);
                }
            },
            _ => {
                if self.value.is_some() {
                    return Err(MessageError::UnexpectedValue);
                }
            },
        }
        Ok(())
    }
}

} // verus!
