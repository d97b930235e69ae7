use novakeys::config::types::{BackdropWidth, ConfigFile};
use novakeys::config::{validate_settings, AppConfig, ConfigError};
use novakeys::geometry::cal_geometry_unit;
use novakeys::language::manager::{LanguageManager, LayoutFile};
use novakeys::layout::parse::{Key, LayoutDefinition};
use novakeys::status::Status;
use novakeys::types::{KeyIndex, LanguageCode, RowIndex};

fn manager() -> LanguageManager {
    let simple = LayoutDefinition {
        default: None,
        layout: vec![vec![Key {
            text: Some("a".to_owned()),
            alternatives: None,
            action: None,
            display_text: None,
            flag: None,
            width: None,
        }]],
        language_code: None,
        language_name: None,
        language_flag: None,
        height: 0,
    };
    let files = ["en", "no"]
        .iter()
        .map(|code| LayoutFile {
            name: format!("layout-{code}.toml"),
            bytes: 26,
            decoded: Ok(simple.clone()),
        })
        .collect();
    LanguageManager::from_files(&ConfigFile::empty(), files).unwrap()
}

#[test]
fn settings_default_and_bounds() {
    let config = AppConfig::new(ConfigFile::empty(), None, manager()).unwrap();
    assert_eq!(config.keyboard_width(), 800);
    assert!(!config.stretch());
    assert!(!config.is_dark_mode());
    assert_eq!(config.get_user_css_override(), None);
    let custom = ConfigFile {
        keyboard_width: Some(240),
        backdrop_width: Some(BackdropWidth::Stretch),
        dark_mode: Some(true),
        ..ConfigFile::empty()
    };
    let config = AppConfig::new(custom, Some("button {}".to_owned()), manager()).unwrap();
    assert_eq!(config.keyboard_width(), 240);
    assert!(config.stretch());
    assert!(config.is_dark_mode());
    assert_eq!(config.get_user_css_override().as_deref(), Some("button {}"));
    assert_eq!(config.get_language_manager().get_current_language(), "en");
    for width in [239, 7681] {
        let refused = ConfigFile { keyboard_width: Some(width), ..ConfigFile::empty() };
        assert_eq!(validate_settings(&refused), Err(ConfigError::KeyboardWidth));
        assert!(AppConfig::new(refused, None, manager()).is_err());
    }
    assert!(validate_settings(&ConfigFile { keyboard_width: Some(7680), ..ConfigFile::empty() }).is_ok());
    assert_eq!(ConfigError::KeyboardWidth.message(), "keyboard_width must be 240–7680");
    assert_eq!(BackdropWidth::default(), BackdropWidth::Content);
}

#[test]
fn the_language_selection_changes_through_the_configuration() {
    let mut config = AppConfig::new(ConfigFile::empty(), None, manager()).unwrap();
    config.get_language_manager_mut().set_current_language("no");
    assert_eq!(config.get_language_manager().get_current_language(), "no");
    let status = Status::of(config.get_language_manager(), true, false);
    assert_eq!(status.current_language, "no");
    assert_eq!(status.languages, vec!["en".to_owned(), "no".to_owned()]);
    assert!(status.shift_pressed);
    assert!(!status.composition_enabled);
}

#[test]
fn rows_share_the_height_but_keep_the_minimum() {
    assert_eq!(cal_geometry_unit(260, 4), 62);
    assert_eq!(cal_geometry_unit(260, 5), 49);
    assert_eq!(cal_geometry_unit(100, 4), 30);
    assert_eq!(cal_geometry_unit(260, 0), 30);
    assert_eq!(cal_geometry_unit(-100, 3), 30);
}

#[test]
fn small_value_types() {
    let code = LanguageCode::new("no".to_owned());
    assert_eq!(code.as_str(), "no");
    assert_eq!(code.to_string(), "no");
    assert_eq!(LanguageCode::from("en".to_owned()).as_str(), "en");
    assert_eq!(RowIndex::from(3).get(), 3);
    assert_eq!(KeyIndex::from(5).get(), 5);
}
