//! The settings a configuration file may hold.
use vstd::prelude::*;

verus! {

/// Whether the backdrop spans the keyboard or the whole screen width.
#[derive(Debug, Clone, Copy, PartialEq, Eq, Structural)]
pub enum BackdropWidth {
    Content,
    Stretch,
}

impl Default for BackdropWidth {
    fn default() -> (b: Self)
        ensures
            b == BackdropWidth::Content,
    {
        BackdropWidth::Content
    }
}

/// The decoded configuration file; every setting is optional.
#[derive(Debug, Clone)]
pub struct ConfigFile {
    pub keyboard_width: Option<i32>,
    pub backdrop_width: Option<BackdropWidth>,
    pub default_language: Option<String>,
    /// Omission enables all discovered layouts, including custom layouts.
    pub supported_languages: Option<Vec<String>>,
    /// Whether to show the language switcher (default: true).
    pub show_language_switcher: Option<bool>,
    /// Adds the dark-mode CSS class; defaults to false.
    pub dark_mode: Option<bool>,
    /// Defaults to custom layouts only when present; true also includes built-ins.
    pub include_builtins_with_custom: Option<bool>,
}

impl ConfigFile {
    /// A configuration with every setting left out.
    pub fn empty() -> (c: Self)
        ensures
            c.keyboard_width is None,
            c.backdrop_width is None,
            c.default_language is None,
            c.supported_languages is None,
            c.show_language_switcher is None,
            c.dark_mode is None,
            c.include_builtins_with_custom is None,
    {
        ConfigFile {
            keyboard_width: None,
            backdrop_width: None,
            default_language: None,
            supported_languages: None,
            show_language_switcher: None,
            dark_mode: None,
            include_builtins_with_custom: None,
        }
    }
}

} // verus!
