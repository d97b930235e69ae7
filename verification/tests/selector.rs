use novakeys::config::types::ConfigFile;
use novakeys::language::manager::{LanguageManager, LayoutFile};
use novakeys::layout::parse::{Key, LayoutDefinition};
use novakeys::ui::selector::{name_order, selector_entries};

fn named(name: &str) -> LayoutDefinition {
    LayoutDefinition {
        default: None,
        layout: vec![vec![Key {
            text: Some("a".to_owned()),
            alternatives: None,
            action: None,
            display_text: None,
            flag: None,
            width: None,
        }]],
        language_code: None,
        language_name: Some(name.to_owned()),
        language_flag: None,
        height: 0,
    }
}

fn chars(s: &str) -> Vec<char> {
    s.chars().collect()
}

#[test]
fn names_are_ordered_stably() {
    let names = vec![chars("Norsk"), chars("Deutsch"), chars("English"), chars("Deutsch"), chars("Ελληνικά")];
    assert_eq!(name_order(&names), vec![1, 3, 2, 0, 4]);
    assert!(name_order(&vec![]).is_empty());
}

#[test]
fn the_selector_lists_languages_by_name_four_to_a_row() {
    let files = [("no", "Norsk"), ("de", "Deutsch"), ("en", "English"), ("fr", "Français"), ("ar", "العربية")]
        .iter()
        .map(|(code, name)| LayoutFile {
            name: format!("layout-{code}.toml"),
            bytes: 26,
            decoded: Ok(named(name)),
        })
        .collect();
    let config = ConfigFile { default_language: Some("fr".to_owned()), ..ConfigFile::empty() };
    let manager = LanguageManager::from_files(&config, files).unwrap();
    let entries = selector_entries(&manager);
    let codes: Vec<&str> = entries.iter().map(|e| e.code.as_str()).collect();
    assert_eq!(codes, vec!["de", "en", "fr", "no", "ar"]);
    assert_eq!((entries[3].row, entries[3].column), (0, 3));
    assert_eq!((entries[4].row, entries[4].column), (1, 0));
    assert!(entries[2].current);
    assert_eq!(entries.iter().filter(|e| e.current).count(), 1);
    assert_eq!(entries[0].name, "Deutsch");
    assert_eq!(entries[0].flag, "🌐");
}
