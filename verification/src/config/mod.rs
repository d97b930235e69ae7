pub mod file_io;
pub mod types;

use crate::config::types::{BackdropWidth, ConfigFile};
use crate::language::manager::LanguageManager;
use vstd::prelude::*;

verus! {

/// Narrowest accepted keyboard width in pixels.
pub const MIN_KEYBOARD_WIDTH: i32 = 240;

/// Widest accepted keyboard width in pixels.
pub const MAX_KEYBOARD_WIDTH: i32 = 7680;

/// Keyboard width used when the configuration sets none.
pub const DEFAULT_KEYBOARD_WIDTH: i32 = 800;

/// Why a configuration was refused.
#[derive(Debug, Clone, Copy, PartialEq, Eq, Structural)]
pub enum ConfigError {
    /// `keyboard_width` lies outside 240–7680.
    KeyboardWidth,
}

impl ConfigError {
    /// The refusal as reported.
    pub fn message(&self) -> (r: String)
        ensures
            r@ == "keyboard_width must be 240–7680"@,
    {
        "keyboard_width must be 240–7680".to_owned()
    }
}

/// The settings are acceptable: any keyboard width lies within 240–7680.
pub open spec fn settings_valid(config: ConfigFile) -> bool {
    config.keyboard_width matches Some(w) ==> MIN_KEYBOARD_WIDTH <= w <= MAX_KEYBOARD_WIDTH
}

/// Checks the settings that do not depend on other files.
pub fn validate_settings(config: &ConfigFile) -> (r: Result<(), ConfigError>)
    ensures
        r is Ok <==> settings_valid(*config),
{
    match config.keyboard_width {
        Some(w) => if MIN_KEYBOARD_WIDTH <= w && w <= MAX_KEYBOARD_WIDTH {
            Ok(())
        } else {
            Err(ConfigError::KeyboardWidth)
        },
        None => Ok(()),
    }
}

/// Configuration/layout snapshot and raw user CSS for startup or reload.
pub struct AppConfig {
    language_manager: LanguageManager,
    config_file: ConfigFile,
    user_css: Option<String>,
}

impl AppConfig {
    /// The decoded configuration file.
    pub closed spec fn settings(&self) -> ConfigFile {
        self.config_file
    }

    /// The layouts and language selection.
    pub closed spec fn manager(&self) -> LanguageManager {
        self.language_manager
    }

    /// The user's style sheet, if any.
    pub closed spec fn css(&self) -> Option<String> {
        self.user_css
    }

    /// Puts a configuration together from its parts, refusing invalid settings.
    pub fn new(config_file: ConfigFile, user_css: Option<String>, language_manager: LanguageManager) -> (r: Result<Self, ConfigError>)
        ensures
            r is Ok <==> settings_valid(config_file),
            r matches Ok(c) ==> c.settings() == config_file && c.css() == user_css && c.manager()
                == language_manager,
    {
        match validate_settings(&config_file) {
            Ok(()) => Ok(AppConfig { language_manager, config_file, user_css }),
            Err(e) => Err(e),
        }
    }

    /// The configured keyboard width, 800 pixels by default.
    pub fn keyboard_width(&self) -> (w: i32)
        ensures
            w == (match self.settings().keyboard_width {
                Some(v) => v,
                None => DEFAULT_KEYBOARD_WIDTH,
            }),
    {
        match self.config_file.keyboard_width {
            Some(v) => v,
            None => DEFAULT_KEYBOARD_WIDTH,
        }
    }

    /// Whether the backdrop stretches across the screen (content width by default).
    pub fn stretch(&self) -> (r: bool)
        ensures
            r == (self.settings().backdrop_width == Some(BackdropWidth::Stretch)),
    {
        match self.config_file.backdrop_width {
            Some(BackdropWidth::Stretch) => true,
            _ => false,
        }
    }

    /// The user's style sheet, if any.
    pub fn get_user_css_override(&self) -> (r: Option<String>)
        ensures
            r == self.css(),
    {
        match &self.user_css {
            Some(css) => Some(css.clone()),
            None => None,
        }
    }

    /// The layouts and language selection.
    pub fn get_language_manager(&self) -> (r: &LanguageManager)
        ensures
            *r == self.manager(),
    {
        &self.language_manager
    }

    /// The layouts and language selection, for changing the selection.
    pub fn get_language_manager_mut(&mut self) -> (r: &mut LanguageManager)
        ensures
            *r == old(self).manager(),
            final(self).manager() == *final(r),
            final(self).settings() == old(self).settings(),
            final(self).css() == old(self).css(),
    {
        &mut self.language_manager
    }

    /// Whether dark mode is on (off by default).
    pub fn is_dark_mode(&self) -> (r: bool)
        ensures
            r == (self.settings().dark_mode == Some(true)),
    {
        match self.config_file.dark_mode {
            Some(b) => b,
            None => false,
        }
    }
}

} // verus!
