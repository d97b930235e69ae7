//! Keys and layouts: what a key shows and inserts, and which layouts are accepted.
use crate::text::{chars_of, push_char, same_text, byte_len};
use vstd::prelude::*;

verus! {

/// Largest accepted layout source, in bytes.
pub const MAX_LAYOUT_BYTES: usize = 1048576;

/// Largest accepted key text or alternative, in bytes.
pub const MAX_KEY_TEXT_BYTES: usize = 1024;

/// Most alternatives a key may offer.
pub const MAX_ALTERNATIVES: usize = 8;

/// Most rows in a layout.
pub const MAX_ROWS: usize = 16;

/// Most keys in a row.
pub const MAX_ROW_KEYS: usize = 64;

/// Widest relative key width.
pub const MAX_KEY_WIDTH: u32 = 32;

/// One key of a layout row.
#[derive(Debug, Clone, PartialEq)]
pub struct Key {
    /// Input text before Shift handling or native composition.
    pub text: Option<String>,
    /// Alternative characters available via long press or popup.
    pub alternatives: Option<Vec<String>>,
    /// Special action (backspace, enter, shift, etc.).
    pub action: Option<String>,
    /// Display text, for keys like Space that show other text than they insert.
    pub display_text: Option<String>,
    /// Language-selector label; overrides the current language flag or globe fallback.
    pub flag: Option<String>,
    /// Relative width within the row; defaults to 1.
    pub width: Option<u32>,
}

/// A keyboard layout: rows of keys and optional language metadata.
#[derive(Debug, Clone, PartialEq)]
pub struct LayoutDefinition {
    pub default: Option<bool>,
    pub layout: Vec<Vec<Key>>,
    pub language_code: Option<String>,
    pub language_name: Option<String>,
    pub language_flag: Option<String>,
    /// Number of rows, filled in when the layout is accepted.
    pub height: i32,
}

/// Why a layout was refused.
#[derive(Debug, Clone, PartialEq, Eq)]
pub enum LayoutError {
    /// The source exceeds 1 MiB.
    TooLarge,
    /// The source is not a well-formed layout document (the decoder's message).
    Syntax(String),
    /// Fewer than 1 or more than 16 rows.
    RowCount,
    /// A row with fewer than 1 or more than 64 keys.
    RowKeys,
    /// A key width outside 1–32.
    KeyWidth,
    /// A key text longer than 1024 bytes.
    KeyText,
    /// More than 8 alternatives, or one longer than 1024 bytes.
    Alternatives,
}

/// The refusal of a layout as reported.
pub open spec fn layout_message(e: LayoutError) -> Seq<char> {
    match e {
        LayoutError::TooLarge => "Layout exceeds 1 MiB"@,
        LayoutError::Syntax(m) => m@,
        LayoutError::RowCount => "Layout needs 1–16 rows"@,
        LayoutError::RowKeys => "Row needs 1–64 keys"@,
        LayoutError::KeyWidth => "Key width must be 1–32"@,
        LayoutError::KeyText => "Key text exceeds 1024 bytes"@,
        LayoutError::Alternatives => "Each key supports up to 8 alternatives of at most 1024 bytes"@,
    }
}

impl LayoutError {
    /// The refusal as reported.
    pub fn message(&self) -> (r: String)
        ensures
            r@ == layout_message(*self),
    {
        match self {
            LayoutError::TooLarge => "Layout exceeds 1 MiB".to_owned(),
            LayoutError::Syntax(m) => m.clone(),
            LayoutError::RowCount => "Layout needs 1–16 rows".to_owned(),
            LayoutError::RowKeys => "Row needs 1–64 keys".to_owned(),
            LayoutError::KeyWidth => "Key width must be 1–32".to_owned(),
            LayoutError::KeyText => "Key text exceeds 1024 bytes".to_owned(),
            LayoutError::Alternatives => "Each key supports up to 8 alternatives of at most 1024 bytes".to_owned(),
        }
    }
}

pub open spec fn word_backspace() -> Seq<char> {
    seq!['b', 'a', 'c', 'k', 's', 'p', 'a', 'c', 'e']
}

pub open spec fn word_enter() -> Seq<char> {
    seq!['e', 'n', 't', 'e', 'r']
}

pub open spec fn word_shift() -> Seq<char> {
    seq!['s', 'h', 'i', 'f', 't']
}

pub open spec fn word_language_selector() -> Seq<char> {
    seq!['l', 'a', 'n', 'g', 'u', 'a', 'g', 'e', '_', 's', 'e', 'l', 'e', 'c', 't', 'o', 'r']
}

/// The globe shown for the language selector when no flag is known.
pub open spec fn globe() -> Seq<char> {
    seq!['\u{1F310}']
}

/// The label a key shows (before any flag substitution).
pub open spec fn display_of(key: Key) -> Seq<char> {
    match key.display_text {
        Some(d) => d@,
        None => match key.text {
            Some(t) => t@,
            None => match key.action {
                Some(a) => if a@ == word_backspace() {
                    seq!['\u{232B}']
                } else if a@ == word_enter() {
                    seq!['\u{21B5}']
                } else if a@ == word_shift() {
                    seq!['\u{21E7}']
                } else if a@ == word_language_selector() {
                    globe()
                } else {
                    a@
                },
                None => seq!['?'],
            },
        },
    }
}

/// The width a key occupies, 1 when unspecified.
pub open spec fn width_of(key: Key) -> u32 {
    match key.width {
        Some(w) => w,
        None => 1,
    }
}

/// The first rule a key breaks, if any.
pub open spec fn key_error(key: Key) -> Option<LayoutError> {
    if !(1 <= width_of(key) <= MAX_KEY_WIDTH) {
        Some(LayoutError::KeyWidth)
    } else if key.text matches Some(t) && byte_len(t@) > MAX_KEY_TEXT_BYTES {
        Some(LayoutError::KeyText)
    } else if key.alternatives matches Some(a) && (a@.len() > MAX_ALTERNATIVES || exists|i: int|
        0 <= i < a@.len() && byte_len(#[trigger] a@[i]@) > MAX_KEY_TEXT_BYTES) {
        Some(LayoutError::Alternatives)
    } else {
        None
    }
}

/// The first rule broken by a key of `keys`, in order.
pub open spec fn keys_error(keys: Seq<Key>) -> Option<LayoutError>
    decreases keys.len(),
{
    if keys.len() == 0 {
        None
    } else {
        match keys_error(keys.drop_last()) {
            Some(e) => Some(e),
            None => key_error(keys.last()),
        }
    }
}

/// The first rule a row breaks, if any.
pub open spec fn row_error(row: Seq<Key>) -> Option<LayoutError> {
    if row.len() == 0 || row.len() > MAX_ROW_KEYS {
        Some(LayoutError::RowKeys)
    } else {
        keys_error(row)
    }
}

/// The first rule broken by a row of `rows`, in order.
pub open spec fn rows_error(rows: Seq<Vec<Key>>) -> Option<LayoutError>
    decreases rows.len(),
{
    if rows.len() == 0 {
        None
    } else {
        match rows_error(rows.drop_last()) {
            Some(e) => Some(e),
            None => row_error(rows.last()@),
        }
    }
}

/// The first rule a decoded layout breaks, if any.
pub open spec fn layout_error(layout: LayoutDefinition) -> Option<LayoutError> {
    if layout.layout@.len() == 0 || layout.layout@.len() > MAX_ROWS {
        Some(LayoutError::RowCount)
    } else {
        rows_error(layout.layout@)
    }
}

/// The accepted form of a decoded layout: unchanged but for its row count.
pub open spec fn accepted(layout: LayoutDefinition) -> LayoutDefinition {
    LayoutDefinition { height: layout.layout@.len() as i32, ..layout }
}

/// What accepting a layout source yields, given its size in bytes and what the
/// document decoder made of it.
pub open spec fn checked_layout(bytes: nat, decoded: Result<LayoutDefinition, String>) -> Result<
    LayoutDefinition,
    LayoutError,
> {
    if bytes > MAX_LAYOUT_BYTES {
        Err(LayoutError::TooLarge)
    } else {
        match decoded {
            Err(message) => Err(LayoutError::Syntax(message)),
            Ok(layout) => match layout_error(layout) {
                Some(e) => Err(e),
                None => Ok(accepted(layout)),
            },
        }
    }
}

/// Once a prefix of `keys` breaks a rule, that is the first rule `keys` breaks.
proof fn lemma_keys_error_prefix(keys: Seq<Key>, n: int)
    requires
        0 <= n <= keys.len(),
        keys_error(keys.take(n)) is Some,
    ensures
        keys_error(keys) == keys_error(keys.take(n)),
    decreases keys.len() - n,
{
    if n < keys.len() {
        assert(keys.take(n + 1).drop_last() =~= keys.take(n));
        lemma_keys_error_prefix(keys, n + 1);
    } else {
        assert(keys.take(n) =~= keys);
    }
}

/// Once a prefix of `rows` breaks a rule, that is the first rule `rows` breaks.
proof fn lemma_rows_error_prefix(rows: Seq<Vec<Key>>, n: int)
    requires
        0 <= n <= rows.len(),
        rows_error(rows.take(n)) is Some,
    ensures
        rows_error(rows) == rows_error(rows.take(n)),
    decreases rows.len() - n,
{
    if n < rows.len() {
        assert(rows.take(n + 1).drop_last() =~= rows.take(n));
        lemma_rows_error_prefix(rows, n + 1);
    } else {
        assert(rows.take(n) =~= rows);
    }
}

fn first_key_error(key: &Key) -> (r: Option<LayoutError>)
    ensures
        r == key_error(*key),
{
    let width = key.get_width();
    if !(1 <= width && width <= MAX_KEY_WIDTH) {
        return Some(LayoutError::KeyWidth);
    }
    if let Some(t) = &key.text {
        if t.as_str().len() > MAX_KEY_TEXT_BYTES {
            return Some(LayoutError::KeyText);
        }
    }
    if let Some(alternatives) = &key.alternatives {
        if alternatives.len() > MAX_ALTERNATIVES {
            return Some(LayoutError::Alternatives);
        }
        let mut i: usize = 0;
        while i < alternatives.len()
            invariant
                key.alternatives == Some(*alternatives),
                alternatives@.len() <= MAX_ALTERNATIVES,
                1 <= width_of(*key) <= MAX_KEY_WIDTH,
                !(key.text matches Some(t) && byte_len(t@) > MAX_KEY_TEXT_BYTES),
                i <= alternatives@.len(),
                forall|j: int| 0 <= j < i ==> byte_len(#[trigger] alternatives@[j]@)
                    <= MAX_KEY_TEXT_BYTES,
            decreases alternatives@.len() - i,
        {
            if alternatives[i].as_str().len() > MAX_KEY_TEXT_BYTES {
                assert(byte_len(alternatives@[i as int]@) > MAX_KEY_TEXT_BYTES);
                return Some(LayoutError::Alternatives);
            }
            i = i + 1;
        }
    }
    None
}

impl LayoutDefinition {
    /// Accepts a decoded layout of `bytes` source bytes, or names the first rule
    /// it breaks: 1–16 rows of 1–64 keys, widths 1–32, texts of at most 1024
    /// bytes, and at most 8 alternatives of at most 1024 bytes each.
    pub fn from_decoded(bytes: usize, decoded: Result<LayoutDefinition, String>) -> (r: Result<
        LayoutDefinition,
        LayoutError,
    >)
        ensures
            r == checked_layout(bytes as nat, decoded),
    {
        if bytes > MAX_LAYOUT_BYTES {
            return Err(LayoutError::TooLarge);
        }
        let ghost source = decoded;
        let mut layout = match decoded {
            Err(message) => return Err(LayoutError::Syntax(message)),
            Ok(layout) => layout,
        };
        let rows = layout.layout.len();
        if rows == 0 || rows > MAX_ROWS {
            return Err(LayoutError::RowCount);
        }
        let mut r: usize = 0;
        while r < rows
            invariant
                source == Ok::<LayoutDefinition, String>(layout),
                source == decoded,
                bytes <= MAX_LAYOUT_BYTES,
                rows == layout.layout@.len(),
                rows <= MAX_ROWS,
                0 < rows,
                r <= rows,
                rows_error(layout.layout@.take(r as int)) is None,
            decreases rows - r,
        {
            let row = &layout.layout[r];
            assert(layout.layout@.take(r + 1).drop_last() =~= layout.layout@.take(r as int));
            if row.len() == 0 || row.len() > MAX_ROW_KEYS {
                proof {
                    assert(layout.layout@.take(r + 1).last() == layout.layout@[r as int]);
                    lemma_rows_error_prefix(layout.layout@, r + 1);
                }
                return Err(LayoutError::RowKeys);
            }
            let mut k: usize = 0;
            while k < row.len()
                invariant
                    source == Ok::<LayoutDefinition, String>(layout),
                    source == decoded,
                    bytes <= MAX_LAYOUT_BYTES,
                    rows == layout.layout@.len(),
                    rows <= MAX_ROWS,
                    0 < rows,
                    r < rows,
                    rows_error(layout.layout@.take(r as int)) is None,
                    *row == layout.layout@[r as int],
                    0 < row@.len() <= MAX_ROW_KEYS,
                    k <= row@.len(),
                    keys_error(row@.take(k as int)) is None,
                decreases row@.len() - k,
            {
                assert(row@.take(k + 1).drop_last() =~= row@.take(k as int));
                let e = first_key_error(&row[k]);
                if e.is_some() {
                    proof {
                        assert(layout.layout@.take(r + 1).drop_last() =~= layout.layout@.take(r as int));
                        assert(layout.layout@.take(r + 1).last() == layout.layout@[r as int]);
                        lemma_keys_error_prefix(row@, k + 1);
                        lemma_rows_error_prefix(layout.layout@, r + 1);
                    }
                    return Err(e.unwrap());
                }
                k = k + 1;
            }
            assert(row@.take(k as int) =~= row@);
            r = r + 1;
        }
        assert(layout.layout@.take(rows as int) =~= layout.layout@);
        layout.height = rows as i32;
        Ok(layout)
    }
}

impl Key {
    /// The label the key shows: its display text, else its text, else a symbol
    /// for its action (⌫ ↵ ⇧ 🌐, or the action's name), else "?".
    pub fn get_display_text(&self) -> (r: String)
        ensures
            r@ == display_of(*self),
    {
        if let Some(display_text) = &self.display_text {
            display_text.clone()
        } else if let Some(text) = &self.text {
            text.clone()
        } else if let Some(action) = &self.action {
            proof {
                reveal_strlit("backspace");
                reveal_strlit("enter");
                reveal_strlit("shift");
                reveal_strlit("language_selector");
                reveal_strlit("\u{232B}");
                reveal_strlit("\u{21B5}");
                reveal_strlit("\u{21E7}");
                reveal_strlit("\u{1F310}");
                assert("backspace"@ =~= word_backspace());
                assert("enter"@ =~= word_enter());
                assert("shift"@ =~= word_shift());
                assert("language_selector"@ =~= word_language_selector());
                assert("\u{232B}"@ =~= seq!['\u{232B}']);
                assert("\u{21B5}"@ =~= seq!['\u{21B5}']);
                assert("\u{21E7}"@ =~= seq!['\u{21E7}']);
                assert("\u{1F310}"@ =~= globe());
            }
            if same_text(action.as_str(), "backspace") {
                "\u{232B}".to_owned()
            } else if same_text(action.as_str(), "enter") {
                "\u{21B5}".to_owned()
            } else if same_text(action.as_str(), "shift") {
                "\u{21E7}".to_owned()
            } else if same_text(action.as_str(), "language_selector") {
                "\u{1F310}".to_owned()
            } else {
                action.clone()
            }
        } else {
            proof {
                reveal_strlit("?");
                assert("?"@ =~= seq!['?']);
            }
            "?".to_owned()
        }
    }

    /// The label with the language selector's flag: a selector key shows its
    /// own flag, else `current_flag`, else the globe; other keys show their
    /// ordinary label.
    pub fn get_display_text_with_flag(&self, current_flag: Option<&str>) -> (r: String)
        ensures
            r@ == (if self.action matches Some(a) && a@ == word_language_selector() {
                match self.flag {
                    Some(f) => f@,
                    None => match current_flag {
                        Some(c) => c@,
                        None => globe(),
                    },
                }
            } else {
                display_of(*self)
            }),
    {
        if let Some(action) = &self.action {
            proof {
                reveal_strlit("language_selector");
                assert("language_selector"@ =~= word_language_selector());
            }
            if same_text(action.as_str(), "language_selector") {
                if let Some(flag) = &self.flag {
                    return flag.clone();
                }
                return match current_flag {
                    Some(c) => c.to_owned(),
                    None => {
                        proof {
                            reveal_strlit("\u{1F310}");
                            assert("\u{1F310}"@ =~= globe());
                        }
                        "\u{1F310}".to_owned()
                    },
                };
            }
        }
        self.get_display_text()
    }

    /// The text the key inserts, if it is a text key.
    pub fn get_insert_text(&self) -> (r: Option<&str>)
        ensures
            r is Some <==> self.text is Some,
            r matches Some(s) ==> s@ == self.text->0@,
    {
        match &self.text {
            Some(t) => Some(t.as_str()),
            None => None,
        }
    }

    /// The alternatives offered on long press (none when unspecified).
    pub fn get_alternatives(&self) -> (r: &[String])
        ensures
            r@ == (match self.alternatives {
                Some(a) => a@,
                None => Seq::<String>::empty(),
            }),
    {
        match &self.alternatives {
            Some(a) => a.as_slice(),
            None => &[],
        }
    }

    /// The relative width, 1 when unspecified.
    pub fn get_width(&self) -> (w: u32)
        ensures
            w == width_of(*self),
    {
        match self.width {
            Some(w) => w,
            None => 1,
        }
    }

    /// Whether the key inserts text.
    pub fn is_text_key(&self) -> (r: bool)
        ensures
            r == self.text is Some,
    {
        self.text.is_some()
    }
}

/// What the standard library's `str::to_uppercase` makes of a text: its
/// Unicode uppercase mapping (which may change the number of characters).
pub uninterp spec fn uppercase(text: Seq<char>) -> Seq<char>;

/// Calls `str::to_uppercase`.
#[verifier::external_body]
fn to_uppercase(text: &str) -> (r: String)
    ensures
        r@ == uppercase(text@),
{
    text.to_uppercase()
}

/// Shift on the Korean layout: the doubled consonants and shifted vowels.
pub open spec fn korean_shift(c: char) -> char {
    match c {
        '\u{3142}' => '\u{3143}',
        '\u{3148}' => '\u{3149}',
        '\u{3137}' => '\u{3138}',
        '\u{3131}' => '\u{3132}',
        '\u{3145}' => '\u{3146}',
        '\u{3150}' => '\u{3152}',
        '\u{3154}' => '\u{3156}',
        _ => c,
    }
}

pub open spec fn code_ko() -> Seq<char> {
    seq!['k', 'o']
}

pub open spec fn code_tr() -> Seq<char> {
    seq!['t', 'r']
}

/// What Shift makes of a key's text: only a single character changes, Korean
/// jamo by their Shift pair, the Turkish dotted i to a capital dotted I, and
/// anything else by its Unicode uppercase mapping.
pub open spec fn shifted(text: Seq<char>, shift: bool, language: Option<Seq<char>>) -> Seq<char> {
    if shift && text.len() == 1 {
        if language == Some(code_ko()) {
            seq![korean_shift(text[0])]
        } else if language == Some(code_tr()) && text == seq!['i'] {
            seq!['\u{130}']
        } else {
            uppercase(text)
        }
    } else {
        text
    }
}

/// Shift changes only a single character: any other text, and any text
/// without Shift, is inserted as it is.
pub proof fn lemma_shift_changes_single_characters(text: Seq<char>, shift: bool, language: Option<Seq<char>>)
    requires
        !shift || text.len() != 1,
    ensures
        shifted(text, shift, language) == text,
{
}

/// On the Korean layout Shift turns each of ㅂ ㅈ ㄷ ㄱ ㅅ ㅐ ㅔ into its
/// pair ㅃ ㅉ ㄸ ㄲ ㅆ ㅒ ㅖ, leaves every other single character as it is,
/// and shifting the result again changes nothing.
pub proof fn lemma_korean_shift_pairs(c: char)
    ensures
        ({
            let ko = Some(seq!['k', 'o']);
            let s = shifted(seq![c], true, ko);
            &&& c == '\u{3142}' ==> s == seq!['\u{3143}']
            &&& c == '\u{3148}' ==> s == seq!['\u{3149}']
            &&& c == '\u{3137}' ==> s == seq!['\u{3138}']
            &&& c == '\u{3131}' ==> s == seq!['\u{3132}']
            &&& c == '\u{3145}' ==> s == seq!['\u{3146}']
            &&& c == '\u{3150}' ==> s == seq!['\u{3152}']
            &&& c == '\u{3154}' ==> s == seq!['\u{3156}']
            &&& !(c == '\u{3142}' || c == '\u{3148}' || c == '\u{3137}' || c == '\u{3131}'
                || c == '\u{3145}' || c == '\u{3150}' || c == '\u{3154}') ==> s == seq![c]
            &&& s.len() == 1
            &&& shifted(s, true, ko) == s
        }),
{
    let ko = Some(seq!['k', 'o']);
    assert(ko == Some(code_ko()));
    let s = shifted(seq![c], true, ko);
    assert(s == seq![korean_shift(c)]);
    assert(s[0] == korean_shift(c));
    assert(shifted(s, true, ko) == seq![korean_shift(s[0])]);
}

/// Off the Korean layout, Shift on a single character gives the capital
/// dotted İ for the Turkish i and the Unicode uppercase mapping otherwise.
pub proof fn lemma_shift_other_languages(c: char, language: Option<Seq<char>>)
    requires
        language != Some(seq!['k', 'o']),
    ensures
        language == Some(seq!['t', 'r']) && c == 'i' ==> shifted(seq![c], true, language)
            == seq!['\u{130}'],
        !(language == Some(seq!['t', 'r']) && c == 'i') ==> shifted(seq![c], true, language)
            == uppercase(seq![c]),
{
    assert(code_ko() == seq!['k', 'o']);
    assert(code_tr() == seq!['t', 'r']);
    if c != 'i' {
        assert(seq![c] != seq!['i']) by {
            assert(seq![c][0] != seq!['i'][0]);
        }
    }
}

/// The language as a character sequence, when there is one.
pub open spec fn language_view(language: Option<&str>) -> Option<Seq<char>> {
    match language {
        Some(l) => Some(l@),
        None => None,
    }
}

fn korean_shift_char(c: char) -> (r: char)
    ensures
        r == korean_shift(c),
{
    match c {
        '\u{3142}' => '\u{3143}',
        '\u{3148}' => '\u{3149}',
        '\u{3137}' => '\u{3138}',
        '\u{3131}' => '\u{3132}',
        '\u{3145}' => '\u{3146}',
        '\u{3150}' => '\u{3152}',
        '\u{3154}' => '\u{3156}',
        _ => c,
    }
}

/// The text a key inserts with the given Shift state on the given layout.
pub fn shifted_text(text: &str, shift: bool, language: Option<&str>) -> (r: String)
    ensures
        r@ == shifted(text@, shift, language_view(language)),
{
    let chars = chars_of(text);
    if shift && chars.len() == 1 {
        let (is_ko, is_tr) = match language {
            Some(l) => {
                proof {
                    reveal_strlit("ko");
                    reveal_strlit("tr");
                    assert("ko"@ =~= code_ko());
                    assert("tr"@ =~= code_tr());
                }
                (same_text(l, "ko"), same_text(l, "tr"))
            },
            None => (false, false),
        };
        if is_ko {
            let mut r = String::new();
            push_char(&mut r, korean_shift_char(chars[0]));
            assert(r@ =~= seq![korean_shift(text@[0])]);
            r
        } else if is_tr && chars[0] == 'i' {
            let mut r = String::new();
            push_char(&mut r, '\u{130}');
            assert(text@ =~= seq!['i']);
            assert(r@ =~= seq!['\u{130}']);
            r
        } else {
            proof {
                if is_tr && text@ == seq!['i'] {
                    assert(chars@[0] == 'i');
                }
            }
            to_uppercase(text)
        }
    } else {
        text.to_owned()
    }
}

} // verus!
