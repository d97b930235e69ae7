//! The text of a configuration file, once its bytes have been read.
use vstd::prelude::*;

verus! {

/// Most bytes a configuration or layout file may hold.
pub const MAX_CONFIG_BYTES: usize = 1048576;

/// Why a configuration file's contents were refused.
#[derive(Debug, Clone, Copy, PartialEq, Eq, Structural)]
pub enum ReadError {
    TooLarge,
    NotUtf8,
}

impl ReadError {
    /// The refusal as reported.
    pub fn message(&self) -> (r: String)
        ensures
            *self == ReadError::TooLarge ==> r@ == "Configuration file exceeds 1 MiB"@,
            *self == ReadError::NotUtf8 ==> r@ == "Configuration is not UTF-8"@,
    {
        match self {
            ReadError::TooLarge => "Configuration file exceeds 1 MiB".to_owned(),
            ReadError::NotUtf8 => "Configuration is not UTF-8".to_owned(),
        }
    }
}

/// The text of a file read up to one byte past the limit: at most 1 MiB of
/// UTF-8.
pub fn config_text(bytes: Vec<u8>) -> (r: Result<String, ReadError>)
    ensures
        bytes@.len() > MAX_CONFIG_BYTES ==> r == Err::<String, ReadError>(ReadError::TooLarge),
        bytes@.len() <= MAX_CONFIG_BYTES && !vstd::utf8::valid_utf8(bytes@) ==> r == Err::<
            String,
            ReadError,
        >(ReadError::NotUtf8),
        bytes@.len() <= MAX_CONFIG_BYTES && vstd::utf8::valid_utf8(bytes@) ==> (r matches Ok(s) && s@
            == vstd::utf8::decode_utf8(bytes@)),
{
    if bytes.len() > MAX_CONFIG_BYTES {
        return Err(ReadError::TooLarge);
    }
    match utf8_string(bytes) {
        Some(text) => Ok(text),
        None => Err(ReadError::NotUtf8),
    }
}

/// `String::from_utf8`: the bytes as text when they are well-formed UTF-8.
#[verifier::external_body]
fn utf8_string(bytes: Vec<u8>) -> (r: Option<String>)
    ensures
        r is Some <==> vstd::utf8::valid_utf8(bytes@),
        r matches Some(s) ==> s@ == vstd::utf8::decode_utf8(bytes@),
{
    String::from_utf8(bytes).ok()
}

} // verus!
