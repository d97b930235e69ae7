//! Keyboard-side state that does not depend on the widget toolkit.
pub mod bar;
pub mod composition;
pub mod keys;
pub mod selector;
