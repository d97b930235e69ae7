//! Command-line requests to a running keyboard.
use crate::service::CommandKind;
use vstd::prelude::*;

verus! {

/// The commands given with `-m`, in order, and the optional positional value
/// (the language code for `set-language`).
#[derive(Debug, Clone)]
pub struct ProgramArgs {
    pub message: Vec<CommandKind>,
    pub value: Option<String>,
}

} // verus!
