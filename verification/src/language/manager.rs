//! The validated set of layouts and the small mutable language selection.
use crate::config::types::ConfigFile;
use crate::language::types::LanguageInfo;
use crate::layout::assets::{file_prefix, file_suffix, layout_file};
use crate::layout::parse::{checked_layout, globe, layout_message, LayoutDefinition, LayoutError};
use crate::table::{strictly_sorted, Table};
use crate::text::{
    chars_of, is_valid_code, lemma_precedes_asymmetric, lemma_precedes_total,
    lemma_precedes_transitive, precedes, same_text, valid_code,
};
use std::sync::Arc;
use vstd::prelude::*;

verus! {

broadcast use vstd::string::group_string_axioms;

/// A layout source as the loader found it: the file name, its size in bytes,
/// and what the document decoder made of its text.
#[derive(Debug)]
pub struct LayoutFile {
    pub name: String,
    pub bytes: usize,
    pub decoded: Result<LayoutDefinition, String>,
}

/// Why the set of layouts was refused.
#[derive(Debug, Clone)]
pub enum LanguageError {
    /// A file name is not `layout-<code>.toml`.
    InvalidFilename,
    /// A file name's code is not 1–32 lowercase letters, digits or hyphens.
    InvalidCode,
    /// The named layout file breaks a layout rule.
    InvalidLayout(String, LayoutError),
    /// The named layout file declares a code other than its file name's.
    CodeMismatch(String),
    /// No enabled layout remains.
    NoLayouts,
    /// `supported_languages` lists no code or more than 64.
    SupportedCount,
    /// `supported_languages` lists a code that no valid layout provides.
    Unavailable(String),
    /// The default language is not among the enabled layouts.
    DefaultNotEnabled,
}

impl LanguageError {
    /// The refusal as reported; a layout file's own refusal follows its name.
    pub fn message(&self) -> (r: String)
        ensures
            *self is InvalidFilename ==> r@ == "Invalid layout filename"@,
            *self is InvalidCode ==> r@ == "Invalid layout language code"@,
            self matches LanguageError::InvalidLayout(f, e) ==> r@ == "Invalid "@ + f@ + ": "@
                + layout_message(*e),
            self matches LanguageError::CodeMismatch(f) ==> r@
                == "Layout language_code disagrees with filename: "@ + f@,
            *self is NoLayouts ==> r@ == "No valid enabled layouts"@,
            *self is SupportedCount ==> r@ == "supported_languages needs 1–64 entries"@,
            self matches LanguageError::Unavailable(c) ==> r@ == "Enabled layout unavailable: "@ + c@,
            *self is DefaultNotEnabled ==> r@ == "Default language is not enabled"@,
    {
        match self {
            LanguageError::InvalidFilename => "Invalid layout filename".to_owned(),
            LanguageError::InvalidCode => "Invalid layout language code".to_owned(),
            LanguageError::InvalidLayout(f, e) => {
                let r = "Invalid ".to_owned().concat(f.as_str()).concat(": ").concat(
                    e.message().as_str(),
                );
                r
            },
            LanguageError::CodeMismatch(f) => "Layout language_code disagrees with filename: ".to_owned().concat(
                f.as_str(),
            ),
            LanguageError::NoLayouts => "No valid enabled layouts".to_owned(),
            LanguageError::SupportedCount => "supported_languages needs 1–64 entries".to_owned(),
            LanguageError::Unavailable(c) => "Enabled layout unavailable: ".to_owned().concat(c.as_str()),
            LanguageError::DefaultNotEnabled => "Default language is not enabled".to_owned(),
        }
    }
}

pub open spec fn starts_with(s: Seq<char>, p: Seq<char>) -> bool {
    p.len() <= s.len() && s.take(p.len() as int) == p
}

pub open spec fn ends_with(s: Seq<char>, p: Seq<char>) -> bool {
    p.len() <= s.len() && s.skip(s.len() - p.len()) == p
}

/// The code in a layout file name `layout-<code>.toml`.
pub open spec fn file_code(name: Seq<char>) -> Option<Seq<char>> {
    if name.len() >= 12 && starts_with(name, file_prefix()) && ends_with(name, file_suffix()) {
        Some(name.subrange(7, name.len() - 5))
    } else {
        None
    }
}

/// Whether the configuration enables the layout with this code.
pub open spec fn admitted(config: ConfigFile, code: Seq<char>) -> bool {
    match config.supported_languages {
        None => true,
        Some(codes) => exists|i: int| 0 <= i < codes@.len() && #[trigger] codes@[i]@ == code,
    }
}

/// What one layout file contributes: nothing (disabled), or its code and
/// whether it asks to be the default; or the reason it is refused.
pub open spec fn file_step(config: ConfigFile, f: LayoutFile) -> Result<
    Option<(Seq<char>, bool)>,
    LanguageError,
> {
    match file_code(f.name@) {
        None => Err(LanguageError::InvalidFilename),
        Some(code) => if !is_valid_code(code) {
            Err(LanguageError::InvalidCode)
        } else if !admitted(config, code) {
            Ok(None)
        } else {
            match checked_layout(f.bytes as nat, f.decoded) {
                Err(e) => Err(LanguageError::InvalidLayout(f.name, e)),
                Ok(layout) => if layout.language_code matches Some(m) && m@ != code {
                    Err(LanguageError::CodeMismatch(f.name))
                } else {
                    Ok(Some((code, layout.default == Some(true))))
                },
            }
        },
    }
}

/// The files processed in order: for each enabled code the position of the
/// last file that provides it, and the first code marked as default.
pub open spec fn gather(config: ConfigFile, files: Seq<LayoutFile>) -> Result<
    (Map<Seq<char>, int>, Option<Seq<char>>),
    LanguageError,
>
    decreases files.len(),
{
    if files.len() == 0 {
        Ok((Map::empty(), None))
    } else {
        match gather(config, files.drop_last()) {
            Err(e) => Err(e),
            Ok((m, marked)) => match file_step(config, files.last()) {
                Err(e) => Err(e),
                Ok(None) => Ok((m, marked)),
                Ok(Some((code, wants_default))) => Ok(
                    (
                        m.insert(code, files.len() - 1),
                        if marked is None && wants_default {
                            Some(code)
                        } else {
                            marked
                        },
                    ),
                ),
            },
        }
    }
}

/// The first listed code that no enabled layout provides, in order.
pub open spec fn unavailable(codes: Seq<String>, m: Map<Seq<char>, int>) -> Option<String>
    decreases codes.len(),
{
    if codes.len() == 0 {
        None
    } else {
        match unavailable(codes.drop_last(), m) {
            Some(c) => Some(c),
            None => if is_valid_code(codes.last()@) && m.contains_key(codes.last()@) {
                None
            } else {
                Some(codes.last())
            },
        }
    }
}

/// What the configuration's language list objects to, if anything.
pub open spec fn supported_error(config: ConfigFile, m: Map<Seq<char>, int>) -> Option<
    LanguageError,
> {
    match config.supported_languages {
        None => None,
        Some(codes) => if codes@.len() == 0 || codes@.len() > 64 {
            Some(LanguageError::SupportedCount)
        } else {
            match unavailable(codes@, m) {
                Some(c) => Some(LanguageError::Unavailable(c)),
                None => None,
            }
        },
    }
}

pub open spec fn code_en() -> Seq<char> {
    seq!['e', 'n']
}

/// The smallest code of a nonempty map, in code-point order.
pub open spec fn least_code(m: Map<Seq<char>, int>) -> Seq<char> {
    choose|k: Seq<char>|
        m.contains_key(k) && forall|o: Seq<char>| #[trigger] m.contains_key(o) && o != k ==> precedes(k, o)
}

/// The starting language: the configured default, else the first layout
/// marked default, else English when present, else the smallest code.
pub open spec fn initial_language(
    config: ConfigFile,
    m: Map<Seq<char>, int>,
    marked: Option<Seq<char>>,
) -> Seq<char> {
    match config.default_language {
        Some(d) => d@,
        None => match marked {
            Some(c) => c,
            None => if m.contains_key(code_en()) {
                code_en()
            } else {
                least_code(m)
            },
        },
    }
}

/// The stored entry for `code` describes file `f`: its accepted layout, tagged
/// with the code, and its name, flag (globe by default) and file name.
pub open spec fn entry_matches(
    e: (LanguageInfo, Arc<LayoutDefinition>),
    f: LayoutFile,
    code: Seq<char>,
) -> bool {
    match checked_layout(f.bytes as nat, f.decoded) {
        Err(_) => false,
        Ok(layout) => {
            &&& e.0.code@ == code
            &&& e.0.layout_file@ == f.name@
            &&& e.0.name@ == (match layout.language_name {
                Some(n) => n@,
                None => code,
            })
            &&& e.0.flag@ == (match layout.language_flag {
                Some(g) => g@,
                None => globe(),
            })
            &&& e.1.language_code matches Some(c) && c@ == code
            &&& *e.1 == LayoutDefinition { language_code: e.1.language_code, ..layout }
        },
    }
}

/// Once the files up to `n` are refused, all of them are, for the same reason.
proof fn lemma_gather_refused_prefix(config: ConfigFile, files: Seq<LayoutFile>, n: int)
    requires
        0 <= n <= files.len(),
        gather(config, files.take(n)) is Err,
    ensures
        gather(config, files) == gather(config, files.take(n)),
    decreases files.len() - n,
{
    if n < files.len() {
        assert(files.take(n + 1).drop_last() =~= files.take(n));
        lemma_gather_refused_prefix(config, files, n + 1);
    } else {
        assert(files.take(n) =~= files);
    }
}

/// Once a prefix of the list names an unavailable code, that is the first one.
proof fn lemma_unavailable_prefix(codes: Seq<String>, m: Map<Seq<char>, int>, n: int)
    requires
        0 <= n <= codes.len(),
        unavailable(codes.take(n), m) is Some,
    ensures
        unavailable(codes, m) == unavailable(codes.take(n), m),
    decreases codes.len() - n,
{
    if n < codes.len() {
        assert(codes.take(n + 1).drop_last() =~= codes.take(n));
        lemma_unavailable_prefix(codes, m, n + 1);
    } else {
        assert(codes.take(n) =~= codes);
    }
}

/// The code in a layout file name, if it has the form `layout-<code>.toml`.
fn layout_code(name: &str) -> (r: Option<String>)
    ensures
        r is Some <==> file_code(name@) is Some,
        r matches Some(c) ==> file_code(name@) == Some(c@),
{
    let chars = chars_of(name);
    let n = chars.len();
    if n < 12 {
        return None;
    }
    let prefix = ['l', 'a', 'y', 'o', 'u', 't', '-'];
    let suffix = ['.', 't', 'o', 'm', 'l'];
    assert(file_prefix() =~= prefix@);
    assert(file_suffix() =~= suffix@);
    let mut i: usize = 0;
    while i < 7
        invariant
            chars@ == name@,
            n == chars@.len(),
            n >= 12,
            i <= 7,
            prefix@ == file_prefix(),
            forall|j: int| 0 <= j < i ==> chars@[j] == prefix@[j],
        decreases 7 - i,
    {
        if chars[i] != prefix[i] {
            assert(name@.take(7)[i as int] != file_prefix()[i as int]);
            return None;
        }
        i = i + 1;
    }
    assert(name@.take(7) =~= file_prefix());
    let mut j: usize = 0;
    while j < 5
        invariant
            chars@ == name@,
            n == chars@.len(),
            n >= 12,
            j <= 5,
            suffix@ == file_suffix(),
            name@.take(7) == file_prefix(),
            forall|k: int| 0 <= k < j ==> chars@[n - 5 + k] == suffix@[k],
        decreases 5 - j,
    {
        if chars[n - 5 + j] != suffix[j] {
            assert(name@.skip(n - 5)[j as int] != file_suffix()[j as int]);
            return None;
        }
        j = j + 1;
    }
    assert(name@.skip(n - 5) =~= file_suffix());
    Some(name.substring_char(7, n - 5).to_owned())
}

/// Whether the configuration enables `code`.
fn admits(config: &ConfigFile, code: &String) -> (r: bool)
    ensures
        r == admitted(*config, code@),
{
    match &config.supported_languages {
        None => true,
        Some(codes) => {
            let mut i: usize = 0;
            while i < codes.len()
                invariant
                    config.supported_languages == Some(*codes),
                    i <= codes@.len(),
                    forall|j: int| 0 <= j < i ==> #[trigger] codes@[j]@ != code@,
                decreases codes@.len() - i,
            {
                if codes[i] == *code {
                    assert(codes@[i as int]@ == code@);
                    assert(exists|k: int| 0 <= k < codes@.len() && #[trigger] codes@[k]@ == code@);
                    assert(config.supported_languages->0 == *codes);
                    return true;
                }
                i = i + 1;
            }
            false
        },
    }
}

/// The validated layouts by code, the current language and the switcher setting.
pub struct LanguageManager {
    languages: Table<(LanguageInfo, Arc<LayoutDefinition>)>,
    current_language: String,
    show_switcher: bool,
}

impl LanguageManager {
    #[verifier::type_invariant]
    closed spec fn well_formed(&self) -> bool {
        &&& self.languages.map().contains_key(self.current_language@)
        &&& forall|c: Seq<char>| #[trigger] self.languages.map().contains_key(c)
            ==> self.languages.map()[c].0.code@ == c
    }

    /// The layouts by code, each with its description.
    pub closed spec fn languages(&self) -> Map<Seq<char>, (LanguageInfo, Arc<LayoutDefinition>)> {
        self.languages.map()
    }

    /// The codes in increasing order.
    pub closed spec fn codes(&self) -> Seq<Seq<char>> {
        self.languages.keys()
    }

    /// The current language's code.
    pub closed spec fn current(&self) -> Seq<char> {
        self.current_language@
    }

    /// Whether the configuration shows the language switcher.
    pub closed spec fn switcher(&self) -> bool {
        self.show_switcher
    }
}

/// The current default marked so far, as characters.
pub open spec fn marked_view(marked: Option<String>) -> Option<Seq<char>> {
    match marked {
        Some(c) => Some(c@),
        None => None,
    }
}

/// The switcher setting a configuration asks for (shown unless disabled).
pub open spec fn switcher_setting(config: ConfigFile) -> bool {
    match config.show_language_switcher {
        Some(b) => b,
        None => true,
    }
}

/// Everything `from_files` promises of a manager loaded from `files` whose
/// enabled codes and marked default are `m` and `marked`.
pub open spec fn loaded_from(
    mgr: LanguageManager,
    config: ConfigFile,
    files: Seq<LayoutFile>,
    m: Map<Seq<char>, int>,
    marked: Option<Seq<char>>,
) -> bool {
    &&& mgr.languages().dom() == m.dom()
    &&& forall|c: Seq<char>| #[trigger] m.contains_key(c) ==> 0 <= m[c] < files.len()
        && entry_matches(mgr.languages()[c], files[m[c]], c)
    &&& mgr.current() == initial_language(config, m, marked)
    &&& mgr.switcher() == switcher_setting(config)
}

/// What loading `files` under `config` yields: the first refusal, in the
/// order files are read and then the configuration's list and default are
/// checked; or a manager holding every enabled layout.
pub open spec fn load_outcome(
    config: ConfigFile,
    files: Seq<LayoutFile>,
    r: Result<LanguageManager, LanguageError>,
) -> bool {
    match gather(config, files) {
        Err(e) => r == Err::<LanguageManager, LanguageError>(e),
        Ok((m, marked)) => if m.dom() == Set::<Seq<char>>::empty() {
            r == Err::<LanguageManager, LanguageError>(LanguageError::NoLayouts)
        } else if supported_error(config, m) is Some {
            r == Err::<LanguageManager, LanguageError>(supported_error(config, m)->0)
        } else if !m.contains_key(initial_language(config, m, marked)) {
            r == Err::<LanguageManager, LanguageError>(LanguageError::DefaultNotEnabled)
        } else {
            r matches Ok(mgr) && loaded_from(mgr, config, files, m, marked)
        },
    }
}

/// Checks the configuration's list of enabled codes against what loaded.
fn check_supported(
    config: &ConfigFile,
    table: &Table<(LanguageInfo, Arc<LayoutDefinition>)>,
    Ghost(m): Ghost<Map<Seq<char>, int>>,
) -> (r: Result<(), LanguageError>)
    requires
        table.map().dom() == m.dom(),
    ensures
        match supported_error(*config, m) {
            None => r is Ok,
            Some(e) => r == Err::<(), LanguageError>(e),
        },
{
    if let Some(codes) = &config.supported_languages {
        proof {
            assert(config.supported_languages->0 == *codes);
        }
        if codes.len() == 0 || codes.len() > 64 {
            return Err(LanguageError::SupportedCount);
        }
        let mut j: usize = 0;
        while j < codes.len()
            invariant
                config.supported_languages->0 == *codes,
                config.supported_languages is Some,
                0 < codes@.len() <= 64,
                table.map().dom() == m.dom(),
                j <= codes@.len(),
                unavailable(codes@.take(j as int), m) is None,
            decreases codes@.len() - j,
        {
            assert(codes@.take(j + 1).drop_last() =~= codes@.take(j as int));
            let code = &codes[j];
            if !(valid_code(code.as_str()) && table.get(code.as_str()).is_some()) {
                proof {
                    lemma_unavailable_prefix(codes@, m, j + 1);
                }
                return Err(LanguageError::Unavailable(code.clone()));
            }
            j = j + 1;
        }
        assert(codes@.take(j as int) =~= codes@);
    }
    Ok(())
}

impl LanguageManager {
    /// Builds the language set from layout files in the order given: each
    /// name must be `layout-<code>.toml` with a valid code; layouts the
    /// configuration does not enable are skipped; every other layout must be
    /// accepted and may not declare another code. A later file with the same
    /// code replaces an earlier one. The configuration's list must name 1–64
    /// available codes. The current language is the configured default, else
    /// the first layout marked default, else English, else the smallest code.
    pub fn from_files(config: &ConfigFile, files: Vec<LayoutFile>) -> (r: Result<Self, LanguageError>)
        ensures
            load_outcome(*config, files@, r),
    {
        let ghost all = files@;
        let total = files.len();
        let mut rest = files;
        let mut table: Table<(LanguageInfo, Arc<LayoutDefinition>)> = Table::new();
        let mut marked: Option<String> = None;
        let ghost mut m: Map<Seq<char>, int> = Map::empty();
        let mut i: usize = 0;
        assert(all.take(0) =~= Seq::<LayoutFile>::empty());
        assert(all.skip(0) =~= all);
        assert(table.map().dom() =~= m.dom());
        while rest.len() > 0
            invariant
                all == files@,
                all.len() == total,
                i <= all.len(),
                rest@ == all.skip(i as int),
                gather(*config, all.take(i as int)) == Ok::<
                    (Map<Seq<char>, int>, Option<Seq<char>>),
                    LanguageError,
                >((m, marked_view(marked))),
                table.map().dom() == m.dom(),
                forall|c: Seq<char>| #[trigger] m.contains_key(c) ==> 0 <= m[c] < i
                    && entry_matches(table.map()[c], all[m[c]], c),
            decreases rest@.len(),
        {
            let f = rest.remove(0);
            assert(f == all[i as int]);
            assert(all.skip(i as int).drop_first() =~= all.skip(i + 1));
            assert(all.take(i + 1).drop_last() =~= all.take(i as int));
            assert(all.take(i + 1).last() == all[i as int]);
            let LayoutFile { name, bytes, decoded } = f;
            let code = match layout_code(name.as_str()) {
                Some(c) => c,
                None => {
                    proof {
                        lemma_gather_refused_prefix(*config, all, i + 1);
                    }
                    return Err(LanguageError::InvalidFilename);
                },
            };
            if !valid_code(code.as_str()) {
                proof {
                    lemma_gather_refused_prefix(*config, all, i + 1);
                }
                return Err(LanguageError::InvalidCode);
            }
            if !admits(config, &code) {
                i = i + 1;
                continue;
            }
            let mut layout = match LayoutDefinition::from_decoded(bytes, decoded) {
                Ok(layout) => layout,
                Err(e) => {
                    proof {
                        lemma_gather_refused_prefix(*config, all, i + 1);
                    }
                    return Err(LanguageError::InvalidLayout(name, e));
                },
            };
            let ghost accepted_layout = layout;
            if let Some(meta) = &layout.language_code {
                if !same_text(meta.as_str(), code.as_str()) {
                    proof {
                        lemma_gather_refused_prefix(*config, all, i + 1);
                    }
                    return Err(LanguageError::CodeMismatch(name));
                }
            }
            let wants_default = match layout.default {
                Some(b) => b,
                None => false,
            };
            if wants_default && marked.is_none() {
                marked = Some(code.clone());
            }
            let info_name = match &layout.language_name {
                Some(n) => n.clone(),
                None => code.clone(),
            };
            let info_flag = match &layout.language_flag {
                Some(g) => g.clone(),
                None => {
                    proof {
                        reveal_strlit("\u{1F310}");
                        assert("\u{1F310}"@ =~= globe());
                    }
                    "\u{1F310}".to_owned()
                },
            };
            layout.language_code = Some(code.clone());
            let info = LanguageInfo {
                name: info_name,
                flag: info_flag,
                code: code.clone(),
                layout_file: name,
            };
            let ghost key = code@;
            let entry = (info, Arc::new(layout));
            assert(entry_matches(entry, all[i as int], key));
            let ghost old_table = table.map();
            table.insert(code, entry);
            proof {
                m = m.insert(key, i as int);
                assert(table.map().dom() =~= m.dom());
            }
            i = i + 1;
        }
        assert(all.take(i as int) =~= all);
        let count = table.len();
        proof {
            table.lemma_size();
        }
        if count == 0 {
            assert(table.keys().to_set() =~= Set::<Seq<char>>::empty());
            return Err(LanguageError::NoLayouts);
        }
        proof {
            table.lemma_entry(0);
            assert(m.dom().contains(table.keys()[0]));
        }
        match check_supported(config, &table, Ghost(m)) {
            Ok(()) => {},
            Err(e) => return Err(e),
        }
        let current = match &config.default_language {
            Some(d) => d.clone(),
            None => match marked {
                Some(c) => c,
                None => {
                    proof {
                        reveal_strlit("en");
                        assert("en"@ =~= code_en());
                    }
                    if table.get("en").is_some() {
                        "en".to_owned()
                    } else {
                        let first = table.entry(0).0.clone();
                        proof {
                            let k = table.keys()[0];
                            assert forall|o: Seq<char>| #[trigger] m.contains_key(o) && o != k implies precedes(k, o) by {
                                assert(table.keys().to_set().contains(o));
                                let j = choose|j: int| 0 <= j < table.keys().len() && table.keys()[j] == o;
                                assert(j != 0);
                                assert(precedes(table.keys()[0], table.keys()[j]));
                            }
                            let w = least_code(m);
                            if w != k {
                                assert(m.contains_key(w));
                                assert(precedes(k, w));
                                assert(precedes(w, k));
                                lemma_precedes_asymmetric(k, w);
                            }
                        }
                        first
                    }
                },
            },
        };
        if table.get(current.as_str()).is_none() {
            return Err(LanguageError::DefaultNotEnabled);
        }
        let show_switcher = match config.show_language_switcher {
            Some(b) => b,
            None => true,
        };
        let mgr = LanguageManager { languages: table, current_language: current, show_switcher };
        Ok(mgr)
    }
}

impl LanguageManager {
    /// The current language's code; it is always one of the loaded layouts.
    pub fn get_current_language(&self) -> (r: &str)
        ensures
            r@ == self.current(),
            self.languages().contains_key(r@),
    {
        proof {
            use_type_invariant(self);
        }
        self.current_language.as_str()
    }

    /// Switches to `code` when a layout with that code is loaded; otherwise
    /// nothing changes.
    pub fn set_current_language(&mut self, code: &str)
        ensures
            final(self).languages() == old(self).languages(),
            final(self).codes() == old(self).codes(),
            final(self).switcher() == old(self).switcher(),
            final(self).current() == (if old(self).languages().contains_key(code@) {
                code@
            } else {
                old(self).current()
            }),
    {
        proof {
            use_type_invariant(&*self);
        }
        if self.languages.get(code).is_some() {
            self.current_language = code.to_owned();
        }
    }

    /// The current language's flag.
    pub fn get_current_language_flag(&self) -> (r: &str)
        ensures
            r@ == self.languages()[self.current()].0.flag@,
    {
        proof {
            use_type_invariant(self);
        }
        match self.languages.get(self.current_language.as_str()) {
            Some(entry) => entry.0.flag.as_str(),
            None => "",
        }
    }

    /// The descriptions of all loaded layouts, in code order.
    pub fn get_available_languages(&self) -> (r: Vec<&LanguageInfo>)
        ensures
            r@.len() == self.codes().len(),
            strictly_sorted(self.codes()),
            self.codes().to_set() == self.languages().dom(),
            forall|i: int| 0 <= i < r@.len() ==> *r@[i] == #[trigger] self.languages()[self.codes()[i]].0,
            forall|i: int| 0 <= i < r@.len() ==> (#[trigger] r@[i]).code@ == self.codes()[i],
    {
        proof {
            use_type_invariant(self);
        }
        let n = self.languages.len();
        proof {
            self.languages.lemma_size();
        }
        let mut r: Vec<&LanguageInfo> = Vec::new();
        let mut i: usize = 0;
        while i < n
            invariant
                n == self.codes().len(),
                strictly_sorted(self.codes()),
                forall|c: Seq<char>| #[trigger] self.languages().contains_key(c) ==> self.languages()[c].0.code@ == c,
                i <= n,
                r@.len() == i,
                forall|j: int| 0 <= j < i ==> *r@[j] == #[trigger] self.languages()[self.codes()[j]].0,
                forall|j: int| 0 <= j < i ==> (#[trigger] r@[j]).code@ == self.codes()[j],
            decreases n - i,
        {
            proof {
                self.languages.lemma_entry(i as int);
                assert(self.languages().contains_key(self.codes()[i as int]));
            }
            r.push(&self.languages.entry(i).1.0);
            i = i + 1;
        }
        r
    }

    /// The switcher shows when enabled and there is more than one layout.
    pub fn should_show_language_switcher(&self) -> (r: bool)
        ensures
            r == (self.switcher() && self.languages().dom().len() > 1),
    {
        let n = self.languages.len();
        proof {
            self.languages.lemma_size();
        }
        self.show_switcher && n > 1
    }

    /// Enables or disables the switcher; nothing else changes.
    pub fn set_language_switcher_visibility(&mut self, show: bool)
        ensures
            final(self).languages() == old(self).languages(),
            final(self).codes() == old(self).codes(),
            final(self).current() == old(self).current(),
            final(self).switcher() == show,
    {
        proof {
            use_type_invariant(&*self);
        }
        self.show_switcher = show;
    }

    /// The current language's layout.
    pub fn current_layout(&self) -> (r: Arc<LayoutDefinition>)
        ensures
            *r == *self.languages()[self.current()].1,
    {
        proof {
            use_type_invariant(self);
        }
        match self.languages.get(self.current_language.as_str()) {
            Some(entry) => share(&entry.1),
            None => Arc::new(empty_layout()),
        }
    }

    /// The layout with code `code`, if loaded.
    pub fn layout(&self, code: &str) -> (r: Option<Arc<LayoutDefinition>>)
        ensures
            r is Some <==> self.languages().contains_key(code@),
            r matches Some(l) ==> *l == *self.languages()[code@].1,
    {
        match self.languages.get(code) {
            Some(entry) => Some(share(&entry.1)),
            None => None,
        }
    }
}

/// Another handle on the same layout (`Arc::clone`).
#[verifier::external_body]
fn share(layout: &Arc<LayoutDefinition>) -> (r: Arc<LayoutDefinition>)
    ensures
        *r == **layout,
{
    Arc::clone(layout)
}

fn empty_layout() -> (l: LayoutDefinition)
    ensures
        l.layout@.len() == 0,
        l.default is None && l.language_code is None && l.height == 0,
        l.language_name is None && l.language_flag is None,
{
    LayoutDefinition {
        default: None,
        layout: Vec::new(),
        language_code: None,
        language_name: None,
        language_flag: None,
        height: 0,
    }
}

/// The code a file contributes under `config`, if it is enabled and accepted.
pub open spec fn step_code(config: ConfigFile, f: LayoutFile) -> Option<Seq<char>> {
    match file_step(config, f) {
        Ok(Some((k, _))) => Some(k),
        _ => None,
    }
}

/// Whether a file is enabled, accepted and marked as the default.
pub open spec fn step_marked(config: ConfigFile, f: LayoutFile) -> bool {
    file_step(config, f) matches Ok(Some((_, true)))
}

/// Some file of `files` is enabled under `config` and has code `c`.
pub open spec fn enabled_code(config: ConfigFile, files: Seq<LayoutFile>, c: Seq<char>) -> bool {
    exists|i: int| 0 <= i < files.len() && #[trigger] step_code(config, files[i]) == Some(c)
}

/// File `i` is the first of `files` that is enabled and marked as default.
pub open spec fn first_marked(config: ConfigFile, files: Seq<LayoutFile>, i: int) -> bool {
    &&& 0 <= i < files.len()
    &&& step_marked(config, files[i])
    &&& forall|j: int| 0 <= j < i ==> !#[trigger] step_marked(config, files[j])
}

/// `layout` declares the code `c`.
pub open spec fn tagged(layout: LayoutDefinition, c: Seq<char>) -> bool {
    layout.language_code matches Some(k) && k@ == c
}

/// One refused file refuses the whole list.
pub proof fn lemma_refused_file(config: ConfigFile, files: Seq<LayoutFile>, i: int)
    requires
        0 <= i < files.len(),
        file_step(config, files[i]) is Err,
    ensures
        gather(config, files) is Err,
    decreases files.len(),
{
    if i < files.len() - 1 {
        assert(files.drop_last()[i] == files[i]);
        lemma_refused_file(config, files.drop_last(), i);
    }
}

/// What gathering keeps: every file's step succeeded, the codes are exactly
/// those of the enabled files, and the marked default is the code of the
/// first file marked as default (or none is).
pub proof fn lemma_gathered(config: ConfigFile, files: Seq<LayoutFile>)
    requires
        gather(config, files) is Ok,
    ensures
        forall|i: int| 0 <= i < files.len() ==> (#[trigger] file_step(config, files[i])) is Ok,
        forall|c: Seq<char>|
            #[trigger] gather(config, files)->Ok_0.0.contains_key(c) <==> enabled_code(config, files, c),
        forall|c: Seq<char>|
            #[trigger] gather(config, files)->Ok_0.0.contains_key(c) ==> 0 <= gather(config, files)->Ok_0.0[c]
                < files.len() && step_code(config, files[gather(config, files)->Ok_0.0[c]]) == Some(c),
        gather(config, files)->Ok_0.1 is Some ==> exists|i: int|
            #[trigger] first_marked(config, files, i) && step_code(config, files[i])
                == gather(config, files)->Ok_0.1,
        gather(config, files)->Ok_0.1 is None ==> forall|j: int|
            0 <= j < files.len() ==> !#[trigger] step_marked(config, files[j]),
    decreases files.len(),
{
    if files.len() > 0 {
        let front = files.drop_last();
        let n = files.len() - 1;
        lemma_gathered(config, front);
        assert forall|i: int| 0 <= i < n implies front[i] == files[i] by {}
        let (m, marked) = gather(config, front)->Ok_0;
        assert forall|i: int| 0 <= i < files.len() implies (#[trigger] file_step(config, files[i])) is Ok by {
            if i < n {
                assert(file_step(config, front[i]) is Ok);
            }
        }
        assert forall|c: Seq<char>|
            #[trigger] gather(config, files)->Ok_0.0.contains_key(c) <==> enabled_code(config, files, c) by {
            assert(m.contains_key(c) <==> enabled_code(config, front, c));
            assert(gather(config, files)->Ok_0.0.contains_key(c) <==> (m.contains_key(c) || step_code(
                config,
                files[n],
            ) == Some(c)));
            if enabled_code(config, front, c) {
                let i = choose|i: int| 0 <= i < front.len() && #[trigger] step_code(config, front[i]) == Some(c);
                assert(step_code(config, files[i]) == step_code(config, front[i]));
            }
            if enabled_code(config, files, c) {
                let i = choose|i: int| 0 <= i < files.len() && #[trigger] step_code(config, files[i]) == Some(c);
                if i < n {
                    assert(step_code(config, front[i]) == step_code(config, files[i]));
                    assert(enabled_code(config, front, c));
                }
            }
        }
        assert forall|c: Seq<char>| #[trigger] gather(config, files)->Ok_0.0.contains_key(c) implies 0
            <= gather(config, files)->Ok_0.0[c] < files.len() && step_code(
            config,
            files[gather(config, files)->Ok_0.0[c]],
        ) == Some(c) by {
            if step_code(config, files[n]) != Some(c) {
                assert(m.contains_key(c));
                assert(step_code(config, files[m[c]]) == step_code(config, front[m[c]]));
            }
        }
        if marked is Some {
            let i = choose|i: int|
                #[trigger] first_marked(config, front, i) && step_code(config, front[i]) == marked;
            assert(step_code(config, files[i]) == step_code(config, front[i]));
            assert(step_marked(config, files[i]) == step_marked(config, front[i]));
            assert forall|j: int| 0 <= j < i implies !#[trigger] step_marked(config, files[j]) by {
                assert(step_marked(config, front[j]) == step_marked(config, files[j]));
            }
            assert(first_marked(config, files, i));
        } else {
            assert forall|j: int| 0 <= j < n implies !#[trigger] step_marked(config, files[j]) by {
                assert(step_marked(config, front[j]) == step_marked(config, files[j]));
            }
            if step_marked(config, files[n]) {
                assert(first_marked(config, files, n));
            }
        }
    }
}

/// Loading refuses every list in which some file is refused: a name that is
/// not `layout-<code>.toml` with a valid code, or an enabled layout that is
/// not accepted or declares another code.
pub proof fn lemma_load_refuses_bad_file(
    config: ConfigFile,
    files: Seq<LayoutFile>,
    i: int,
    r: Result<LanguageManager, LanguageError>,
)
    requires
        0 <= i < files.len(),
        file_step(config, files[i]) is Err,
        load_outcome(config, files, r),
    ensures
        r is Err,
{
    lemma_refused_file(config, files, i);
}

/// A loaded manager holds exactly the layouts of the enabled files, each
/// tagged with its code and described from a file that provides it (its
/// name, flag and file name, see `entry_matches`), and its current language
/// is one of them.
pub proof fn lemma_loaded_codes(config: ConfigFile, files: Seq<LayoutFile>, mgr: LanguageManager)
    requires
        load_outcome(config, files, Ok(mgr)),
    ensures
        forall|c: Seq<char>| #[trigger] mgr.languages().contains_key(c) <==> enabled_code(config, files, c),
        forall|c: Seq<char>|
            #[trigger] mgr.languages().contains_key(c) ==> tagged(*mgr.languages()[c].1, c),
        mgr.languages().contains_key(mgr.current()),
        forall|c: Seq<char>|
            #[trigger] mgr.languages().contains_key(c) ==> exists|i: int|
                0 <= i < files.len() && step_code(config, files[i]) == Some(c) && #[trigger] entry_matches(
                    mgr.languages()[c],
                    files[i],
                    c,
                ),
{
    lemma_gathered(config, files);
    let (m, marked) = gather(config, files)->Ok_0;
    assert forall|c: Seq<char>| #[trigger] mgr.languages().contains_key(c) <==> enabled_code(
        config,
        files,
        c,
    ) by {
        assert(mgr.languages().dom().contains(c) == m.dom().contains(c));
    }
    assert forall|c: Seq<char>| #[trigger] mgr.languages().contains_key(c) implies tagged(
        *mgr.languages()[c].1,
        c,
    ) by {
        assert(m.contains_key(c));
        assert(entry_matches(mgr.languages()[c], files[m[c]], c));
    }
    assert forall|c: Seq<char>| #[trigger] mgr.languages().contains_key(c) implies exists|i: int|
        0 <= i < files.len() && step_code(config, files[i]) == Some(c) && #[trigger] entry_matches(
            mgr.languages()[c],
            files[i],
            c,
        ) by {
        assert(m.dom().contains(c));
        assert(entry_matches(mgr.languages()[c], files[m[c]], c));
    }
}

/// A file that contributes code `c` is named `layout-<c>.toml`.
proof fn lemma_step_name(config: ConfigFile, f: LayoutFile, c: Seq<char>)
    requires
        step_code(config, f) == Some(c),
    ensures
        f.name@ == layout_file(c),
{
    let name = f.name@;
    let k = name.len() as int;
    assert(name.take(7) == file_prefix());
    assert(name.skip(k - 5) == file_suffix());
    assert forall|j: int| 0 <= j < k implies name[j] == layout_file(c)[j] by {
        if j < 7 {
            assert(name.take(7)[j] == name[j]);
        } else if j < k - 5 {
            assert(c[j - 7] == name[j]);
        } else {
            assert(name.skip(k - 5)[j - (k - 5)] == name[j]);
        }
    }
    assert(name =~= layout_file(c));
}

/// Each loaded layout is described under its own code and file name
/// `layout-<code>.toml`, with the name and flag of a file that provides it
/// (see `entry_matches`); `get_available_languages` lists these descriptions
/// in increasing code order.
pub proof fn lemma_available_described(config: ConfigFile, files: Seq<LayoutFile>, mgr: LanguageManager)
    requires
        load_outcome(config, files, Ok(mgr)),
    ensures
        forall|c: Seq<char>| #[trigger] mgr.languages().contains_key(c) ==> {
            &&& mgr.languages()[c].0.code@ == c
            &&& mgr.languages()[c].0.layout_file@ == layout_file(c)
            &&& exists|i: int|
                0 <= i < files.len() && step_code(config, files[i]) == Some(c) && #[trigger] entry_matches(
                    mgr.languages()[c],
                    files[i],
                    c,
                )
        },
{
    lemma_loaded_codes(config, files, mgr);
    assert forall|c: Seq<char>| #[trigger] mgr.languages().contains_key(c) implies {
        &&& mgr.languages()[c].0.code@ == c
        &&& mgr.languages()[c].0.layout_file@ == layout_file(c)
    } by {
        let i = choose|i: int|
            0 <= i < files.len() && step_code(config, files[i]) == Some(c) && #[trigger] entry_matches(
                mgr.languages()[c],
                files[i],
                c,
            );
        lemma_step_name(config, files[i], c);
    }
}

/// Gathering keeps finitely many codes.
proof fn lemma_gathered_finite(config: ConfigFile, files: Seq<LayoutFile>)
    requires
        gather(config, files) is Ok,
    ensures
        gather(config, files)->Ok_0.0.dom().finite(),
    decreases files.len(),
{
    if files.len() > 0 {
        lemma_gathered_finite(config, files.drop_last());
    }
}

/// A finite nonempty set of codes has a smallest one.
proof fn lemma_least_exists(s: Set<Seq<char>>)
    requires
        s.finite(),
        s.len() > 0,
    ensures
        exists|k: Seq<char>|
            s.contains(k) && forall|o: Seq<char>| #[trigger] s.contains(o) && o != k ==> precedes(k, o),
    decreases s.len(),
{
    let a = s.choose();
    let t = s.remove(a);
    if t.len() == 0 {
        assert forall|o: Seq<char>| #[trigger] s.contains(o) && o != a implies precedes(a, o) by {
            assert(t.contains(o));
        }
    } else {
        lemma_least_exists(t);
        let b = choose|k: Seq<char>|
            t.contains(k) && forall|o: Seq<char>| #[trigger] t.contains(o) && o != k ==> precedes(k, o);
        lemma_precedes_total(a, b);
        if precedes(a, b) {
            assert forall|o: Seq<char>| #[trigger] s.contains(o) && o != a implies precedes(a, o) by {
                if o != b {
                    assert(t.contains(o));
                    lemma_precedes_transitive(a, b, o);
                }
            }
        } else {
            assert forall|o: Seq<char>| #[trigger] s.contains(o) && o != b implies precedes(b, o) by {
                if o != a {
                    assert(t.contains(o));
                }
            }
        }
    }
}

/// The starting language of a loaded manager when nothing is configured or
/// marked: English when it is loaded, else the smallest loaded code.
pub proof fn lemma_current_unmarked(config: ConfigFile, files: Seq<LayoutFile>, mgr: LanguageManager)
    requires
        load_outcome(config, files, Ok(mgr)),
        config.default_language is None,
        forall|j: int| 0 <= j < files.len() ==> !#[trigger] step_marked(config, files[j]),
    ensures
        mgr.languages().contains_key(code_en()) ==> mgr.current() == code_en(),
        !mgr.languages().contains_key(code_en()) ==> forall|o: Seq<char>|
            #[trigger] mgr.languages().contains_key(o) && o != mgr.current() ==> precedes(mgr.current(), o),
{
    lemma_gathered(config, files);
    lemma_gathered_finite(config, files);
    let (m, marked) = gather(config, files)->Ok_0;
    if marked is Some {
        let w = choose|w: int| #[trigger] first_marked(config, files, w) && step_code(config, files[w])
            == marked;
        assert(step_marked(config, files[w]));
    }
    assert(mgr.languages().dom() == m.dom());
    if !m.contains_key(code_en()) {
        assert(m.dom().contains(mgr.current()));
        assert(m.dom().len() > 0);
        lemma_least_exists(m.dom());
        let k = choose|k: Seq<char>|
            m.dom().contains(k) && forall|o: Seq<char>| #[trigger] m.dom().contains(o) && o != k ==> precedes(
                k,
                o,
            );
        assert(m.contains_key(k) && forall|o: Seq<char>|
            #[trigger] m.contains_key(o) && o != k ==> precedes(k, o));
        assert forall|o: Seq<char>| #[trigger] mgr.languages().contains_key(o) && o != mgr.current() implies precedes(
            mgr.current(),
            o,
        ) by {
            assert(mgr.languages().dom().contains(o));
            assert(m.contains_key(o));
        }
    } else {
        assert(mgr.languages().dom().contains(code_en()));
    }
}

/// The starting language of a loaded manager: the configured default, else
/// the code of the first file marked as default (otherwise see
/// `lemma_current_unmarked`).
pub proof fn lemma_current_language(config: ConfigFile, files: Seq<LayoutFile>, mgr: LanguageManager)
    requires
        load_outcome(config, files, Ok(mgr)),
    ensures
        config.default_language matches Some(d) ==> mgr.current() == d@,
        config.default_language is None ==> forall|i: int|
            #[trigger] first_marked(config, files, i) ==> step_code(config, files[i]) == Some(mgr.current()),
{
    lemma_gathered(config, files);
    let (m, marked) = gather(config, files)->Ok_0;
    if config.default_language is None {
        assert forall|i: int| #[trigger] first_marked(config, files, i) implies step_code(config, files[i])
            == Some(mgr.current()) by {
            if marked is Some {
                let w = choose|w: int| #[trigger] first_marked(config, files, w) && step_code(config, files[w])
                    == marked;
                if w < i {
                    assert(!step_marked(config, files[w]));
                }
                if i < w {
                    assert(!step_marked(config, files[i]));
                }
            } else {
                assert(!step_marked(config, files[i]));
            }
        }
    }
}

} // verus!
