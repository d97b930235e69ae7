use novakeys::config::types::ConfigFile;
use novakeys::language::discovery::{discover, DiscoveryError, LayoutOrigin};
use novakeys::language::manager::{LanguageError, LanguageManager, LayoutFile};
use novakeys::layout::parse::{shifted_text, Key, LayoutDefinition, LayoutError};

fn key(text: &str) -> Key {
    Key {
        text: Some(text.to_owned()),
        alternatives: None,
        action: None,
        display_text: None,
        flag: None,
        width: None,
    }
}

fn layout(rows: Vec<Vec<Key>>) -> LayoutDefinition {
    LayoutDefinition {
        default: None,
        layout: rows,
        language_code: None,
        language_name: None,
        language_flag: None,
        height: 0,
    }
}

/// `layout = [[{text = '<text>'}]]`
fn simple(text: &str) -> LayoutDefinition {
    layout(vec![vec![key(text)]])
}

fn file(name: &str, decoded: Result<LayoutDefinition, String>) -> LayoutFile {
    LayoutFile { name: name.to_owned(), bytes: 26, decoded }
}

fn config() -> ConfigFile {
    ConfigFile {
        default_language: Some("en".to_owned()),
        supported_languages: Some(vec!["en".to_owned(), "custom".to_owned()]),
        ..ConfigFile::empty()
    }
}

#[test]
fn metadata_free_turkish_layout_uses_filename_for_casing() {
    let config = ConfigFile { default_language: Some("tr".to_owned()), ..ConfigFile::empty() };
    let manager =
        LanguageManager::from_files(&config, vec![file("layout-tr.toml", Ok(simple("i")))]).unwrap();
    let layout = manager.current_layout();
    assert_eq!(
        shifted_text(
            layout.layout[0][0].text.as_deref().unwrap(),
            true,
            layout.language_code.as_deref()
        ),
        "İ"
    );
}

#[test]
fn enabled_secondary_layout_must_be_valid_and_match_filename() {
    let good = || Ok(simple("a"));
    let mismatched = LayoutDefinition { language_code: Some("wrong".to_owned()), ..simple("a") };
    for bad in [Err("not toml".to_owned()), Ok(layout(vec![])), Ok(mismatched)] {
        assert!(LanguageManager::from_files(
            &config(),
            vec![file("layout-en.toml", good()), file("layout-custom.toml", bad)]
        )
        .is_err());
    }
    assert!(LanguageManager::from_files(&config(), vec![file("layout-en.toml", good())]).is_err());
    let manager = LanguageManager::from_files(
        &config(),
        vec![file("layout-en.toml", good()), file("layout-custom.toml", good())],
    )
    .unwrap();
    assert!(manager.layout("custom").is_some());
    assert!(manager.layout("../outside").is_none());
}

#[test]
fn refusals_name_the_broken_rule() {
    let empty = ConfigFile::empty();
    let refused = |files: Vec<LayoutFile>, config: &ConfigFile| {
        LanguageManager::from_files(config, files).err().unwrap().message()
    };
    assert_eq!(refused(vec![file("en.toml", Ok(simple("a")))], &empty), "Invalid layout filename");
    assert_eq!(
        refused(vec![file("layout-EN.toml", Ok(simple("a")))], &empty),
        "Invalid layout language code"
    );
    assert_eq!(
        refused(vec![file("layout-en.toml", Ok(layout(vec![])))], &empty),
        "Invalid layout-en.toml: Layout needs 1–16 rows"
    );
    let mismatched = LayoutDefinition { language_code: Some("de".to_owned()), ..simple("a") };
    assert_eq!(
        refused(vec![file("layout-en.toml", Ok(mismatched))], &empty),
        "Layout language_code disagrees with filename: layout-en.toml"
    );
    assert_eq!(refused(vec![], &empty), "No valid enabled layouts");
    assert_eq!(
        refused(vec![file("layout-en.toml", Ok(simple("a")))], &config()),
        "Enabled layout unavailable: custom"
    );
    let none = ConfigFile { supported_languages: Some(vec![]), ..ConfigFile::empty() };
    assert_eq!(
        refused(vec![file("layout-en.toml", Ok(simple("a")))], &none),
        "No valid enabled layouts"
    );
    let wrong_default = ConfigFile { default_language: Some("de".to_owned()), ..ConfigFile::empty() };
    assert_eq!(
        refused(vec![file("layout-en.toml", Ok(simple("a")))], &wrong_default),
        "Default language is not enabled"
    );
    assert!(matches!(
        LanguageManager::from_files(&empty, vec![file("layout-en.toml", Err("bad".to_owned()))]),
        Err(LanguageError::InvalidLayout(name, LayoutError::Syntax(_))) if name == "layout-en.toml"
    ));
}

#[test]
fn default_language_prefers_explicit_then_marked_then_english_then_first() {
    let marked = LayoutDefinition { default: Some(true), ..simple("a") };
    let files = || {
        vec![
            file("layout-de.toml", Ok(simple("a"))),
            file("layout-en.toml", Ok(simple("a"))),
            file("layout-zz.toml", Ok(marked.clone())),
        ]
    };
    let empty = ConfigFile::empty();
    assert_eq!(LanguageManager::from_files(&empty, files()).unwrap().get_current_language(), "zz");
    let explicit = ConfigFile { default_language: Some("de".to_owned()), ..ConfigFile::empty() };
    assert_eq!(LanguageManager::from_files(&explicit, files()).unwrap().get_current_language(), "de");
    let plain = vec![file("layout-de.toml", Ok(simple("a"))), file("layout-en.toml", Ok(simple("a")))];
    assert_eq!(LanguageManager::from_files(&empty, plain).unwrap().get_current_language(), "en");
    let no_english = vec![file("layout-fr.toml", Ok(simple("a"))), file("layout-de.toml", Ok(simple("a")))];
    assert_eq!(LanguageManager::from_files(&empty, no_english).unwrap().get_current_language(), "de");
}

#[test]
fn languages_are_listed_in_code_order_with_metadata() {
    let named = LayoutDefinition {
        language_name: Some("Norsk".to_owned()),
        language_flag: Some("🇳🇴".to_owned()),
        ..simple("å")
    };
    let manager = LanguageManager::from_files(
        &ConfigFile::empty(),
        vec![file("layout-no.toml", Ok(named)), file("layout-en.toml", Ok(simple("a")))],
    )
    .unwrap();
    let languages = manager.get_available_languages();
    assert_eq!(languages.len(), 2);
    assert_eq!(languages[0].code, "en");
    assert_eq!(languages[0].name, "en");
    assert_eq!(languages[0].flag, "🌐");
    assert_eq!(languages[0].layout_file, "layout-en.toml");
    assert_eq!(languages[1].name, "Norsk");
    assert_eq!(languages[1].flag, "🇳🇴");
    assert_eq!(manager.get_current_language(), "en");
    assert_eq!(manager.get_current_language_flag(), "🌐");
    assert_eq!(manager.layout("no").unwrap().language_code.as_deref(), Some("no"));
    assert_eq!(manager.layout("no").unwrap().height, 1);
}

#[test]
fn selection_and_switcher_change_only_what_they_say() {
    let mut manager = LanguageManager::from_files(
        &ConfigFile::empty(),
        vec![file("layout-en.toml", Ok(simple("a"))), file("layout-no.toml", Ok(simple("å")))],
    )
    .unwrap();
    assert!(manager.should_show_language_switcher());
    manager.set_current_language("no");
    assert_eq!(manager.get_current_language(), "no");
    assert_eq!(manager.current_layout().layout[0][0].text.as_deref(), Some("å"));
    manager.set_current_language("xx");
    assert_eq!(manager.get_current_language(), "no");
    manager.set_language_switcher_visibility(false);
    assert!(!manager.should_show_language_switcher());
    let hidden = ConfigFile { show_language_switcher: Some(true), ..ConfigFile::empty() };
    let single =
        LanguageManager::from_files(&hidden, vec![file("layout-en.toml", Ok(simple("a")))]).unwrap();
    assert!(!single.should_show_language_switcher());
}

#[test]
fn later_files_replace_earlier_ones_and_unsupported_are_skipped() {
    let config = ConfigFile { supported_languages: Some(vec!["en".to_owned()]), ..ConfigFile::empty() };
    let manager = LanguageManager::from_files(
        &config,
        vec![
            file("layout-en.toml", Ok(simple("a"))),
            file("layout-de.toml", Err("ignored".to_owned())),
        ],
    )
    .unwrap();
    assert!(manager.layout("de").is_none());
    let replaced = LanguageManager::from_files(
        &ConfigFile::empty(),
        vec![file("layout-en.toml", Ok(simple("a"))), file("layout-en.toml", Ok(simple("b")))],
    )
    .unwrap();
    assert_eq!(replaced.current_layout().layout[0][0].text.as_deref(), Some("b"));
}

fn names(list: &[&str]) -> Vec<String> {
    list.iter().map(|s| s.to_string()).collect()
}

#[test]
fn discovery_prefers_later_directories_and_skips_other_files() {
    let config = ConfigFile::empty();
    let listings = vec![
        names(&["layout-custom.toml", "readme.txt"]),
        names(&["layout-custom.toml", "layout-b.toml"]),
    ];
    let files = discover(&config, &listings).unwrap();
    assert_eq!(
        files,
        vec![
            ("layout-b.toml".to_owned(), LayoutOrigin::Custom(1)),
            ("layout-custom.toml".to_owned(), LayoutOrigin::Custom(1)),
        ]
    );
}

#[test]
fn discovery_uses_builtins_without_custom_layouts_or_when_asked() {
    let files = discover(&ConfigFile::empty(), &vec![vec![]]).unwrap();
    assert_eq!(files.len(), 21);
    assert!(files.iter().all(|(_, origin)| *origin == LayoutOrigin::Builtin));
    let merged = ConfigFile { include_builtins_with_custom: Some(true), ..ConfigFile::empty() };
    let files = discover(&merged, &vec![names(&["layout-en.toml", "layout-zz-custom.toml"])]).unwrap();
    assert_eq!(files.len(), 22);
    let en = files.iter().find(|(name, _)| name == "layout-en.toml").unwrap();
    assert_eq!(en.1, LayoutOrigin::Custom(0));
}

#[test]
fn winning_layout_limit_is_checked() {
    let config = ConfigFile::empty();
    let many: Vec<String> = (0..65).map(|i| format!("layout-{i}.toml")).collect();
    assert_eq!(discover(&config, &vec![many.clone()]), Err(DiscoveryError::TooManyLayouts));
    assert_eq!(DiscoveryError::TooManyLayouts.message(), "At most 64 layouts are supported");
    let sixty_four = many[..64].to_vec();
    let files = discover(&config, &vec![sixty_four, names(&["layout-0.toml"])]).unwrap();
    assert_eq!(files.len(), 64);
    assert_eq!(files.iter().find(|(name, _)| name == "layout-0.toml").unwrap().1, LayoutOrigin::Custom(1));
    let merged = ConfigFile { include_builtins_with_custom: Some(true), ..ConfigFile::empty() };
    let mut extra: Vec<String> = (0..43).map(|i| format!("layout-extra-{i}.toml")).collect();
    extra.push("layout-en.toml".to_owned());
    assert_eq!(discover(&merged, &vec![extra.clone()]).unwrap().len(), 64);
    extra.push("layout-over-limit.toml".to_owned());
    assert_eq!(discover(&merged, &vec![extra]), Err(DiscoveryError::TooManyLayouts));
}
