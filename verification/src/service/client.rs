//! Turning command-line requests into control messages.
use crate::service::{CommandKind, IPCMessage};
use vstd::prelude::*;

verus! {

/// Why a command could not be turned into a message.
#[derive(Debug, Clone, Copy, PartialEq, Eq, Structural)]
pub enum RequestError {
    /// `set-language` was given without a language code.
    MissingLanguageCode,
}

impl RequestError {
    /// The error as shown to the user.
    pub fn message(&self) -> (r: String)
        ensures
            r@ == "set-language requires a language code"@,
    {
        "set-language requires a language code".to_owned()
    }
}

/// The version 1 message for one command: `SetLanguage` carries the
/// positional value, which it needs; every other command carries nothing.
pub fn request(kind: CommandKind, value: &Option<String>) -> (r: Result<IPCMessage, RequestError>)
    ensures
        r is Err <==> (kind == CommandKind::SetLanguage && value is None),
        r matches Ok(m) ==> m.version == 1 && m.kind == kind && (if kind == CommandKind::SetLanguage {
            m.value == *value
        } else {
            m.value is None
        }),
{
    let value = if kind == CommandKind::SetLanguage {
        match value {
            Some(v) => Some(v.clone()),
            None => return Err(RequestError::MissingLanguageCode),
        }
    } else {
        None
    };
    Ok(IPCMessage { version: 1, kind, value })
}

} // verus!
