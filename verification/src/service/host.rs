//! Delivery of text and controls to the focused application.
use crate::input_detection::InputContext;
use vstd::prelude::*;

verus! {

/// Whether a failed delivery definitely sent nothing or may have reached the application.
#[derive(Debug, Clone, PartialEq, Eq)]
pub enum DeliveryError {
    Rejected(String),
    OutcomeUnknown(String),
}

impl DeliveryError {
    /// Whether the text may have been delivered in spite of the error.
    pub fn outcome_unknown(&self) -> (r: bool)
        ensures
            r == (*self is OutcomeUnknown),
    {
        matches!(self, DeliveryError::OutcomeUnknown(_))
    }

    /// The error's message.
    pub fn message(&self) -> (r: String)
        ensures
            r@ == (match *self {
                DeliveryError::Rejected(m) => m@,
                DeliveryError::OutcomeUnknown(m) => m@,
            }),
    {
        match self {
            DeliveryError::Rejected(m) => m.clone(),
            DeliveryError::OutcomeUnknown(m) => m.clone(),
        }
    }
}

/// A request made of a keyboard handle.
pub enum HandleCall {
    /// `insert_text` with this text.
    Insert(Seq<char>),
    /// `control` with this key.
    Control(char),
    /// `delete_text` with these lengths before and after the cursor.
    Delete(u32, u32),
}

/// Text delivery and physical controls for the active input context.
///
/// A handle that `records` keeps, in `calls`, each request made of it with
/// its answer; the contracts below speak of that history. The defaults keep
/// no history, so a handle that does not define them promises nothing.
pub trait KeyboardHandle {
    /// Whether this handle keeps the history `calls`.
    closed spec fn records(&self) -> bool {
        false
    }

    /// The requests made of this handle so far, oldest first, each with what
    /// it answered.
    closed spec fn calls(&self) -> Seq<(HandleCall, Result<(), DeliveryError>)> {
        Seq::empty()
    }

    /// Commit literal UTF-8; the native backend uses input-method-v2, not key presses.
    fn insert_text(&mut self, text: &str) -> (r: Result<(), DeliveryError>)
        ensures
            final(self).records() == old(self).records(),
            old(self).records() ==> final(self).calls() == old(self).calls().push(
                (HandleCall::Insert(text@), r),
            ),
    ;

    /// Send a physical control key (the native backend uses virtual-keyboard-v1).
    fn control(&mut self, key: char) -> (r: Result<(), DeliveryError>)
        ensures
            final(self).records() == old(self).records(),
            old(self).records() ==> final(self).calls() == old(self).calls().push(
                (HandleCall::Control(key), r),
            ),
    ;

    /// Send `before_length` Backspaces; the native backend rejects nonzero `after_length`.
    fn delete_text(&mut self, before_length: u32, after_length: u32) -> (r: Result<(), DeliveryError>)
        ensures
            final(self).records() == old(self).records(),
            old(self).records() ==> final(self).calls() == old(self).calls().push(
                (HandleCall::Delete(before_length, after_length), r),
            ),
    ;

    /// Adopt a newly committed input context; ignored by default.
    fn set_context(&mut self, context: InputContext)
        ensures
            final(self).records() == old(self).records(),
            old(self).records() ==> final(self).calls() == old(self).calls(),
    {
    }

    /// Release the backend.
    fn destroy(&mut self);
}

} // verus!
