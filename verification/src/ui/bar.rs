//! What the composition bar shows for a composition state: which controls are
//! offered and enabled, and how the reading is drawn.
use crate::ime::types::{Command, Mode, Snapshot};
use crate::text::{lemma_encode_concat, push_char, same_text, text_len};
use crate::ui::composition::Composition;
use vstd::prelude::*;
use vstd::utf8::{encode_utf8, is_char_boundary};

verus! {

broadcast use vstd::string::group_string_axioms;

/// Input may be edited: no error, or a recoverable one with nothing outstanding
/// and no failed output.
pub open spec fn editable(c: Composition) -> bool {
    c.error is None || (c.recoverable_error && c.pending == 0 && c.failed_output is None)
}

/// What the composition bar offers.
#[derive(Debug, Clone, Copy, PartialEq, Eq, Structural)]
pub struct BarState {
    /// The mode buttons accept taps.
    pub modes_enabled: bool,
    /// A failed delivery may be retried.
    pub retry: bool,
    /// The composition may be discarded.
    pub discard: bool,
    /// The error replaces the reading and the editing tools.
    pub error_shown: bool,
    /// The bar shows the engine's reading and tools rather than direct input.
    pub native: bool,
    /// Candidates accept taps.
    pub candidates_enabled: bool,
    /// The page indicator shows.
    pub page_shown: bool,
    /// The bar shows at all.
    pub visible: bool,
}

/// The bar for `state` in a field that is `sensitive` or not, on a layout with
/// mode buttons (`has_modes`) or without.
pub fn bar_state(state: &Composition, sensitive: bool, has_modes: bool) -> (b: BarState)
    ensures
        b.modes_enabled == (!sensitive && state.transition is None && state.failed_output is None),
        b.retry == (state.failed_output is Some && !state.failed_unknown),
        b.discard == (state.error is Some),
        b.error_shown == (state.error is Some),
        b.native == (state.error is Some || (!sensitive && state.mode != Mode::Latin && has_modes)),
        b.candidates_enabled == (state.pending == 0 && editable(*state) && state.transition is None),
        b.page_shown == (state.snapshot.has_previous || state.snapshot.has_next
            || state.snapshot.segments > 0),
        b.visible == (has_modes || state.error is Some),
{
    let failed = state.failed_output.is_some();
    let transition = state.transition.is_some();
    let error = state.error.is_some();
    let editable = !error || (state.recoverable_error && state.pending == 0 && !failed);
    BarState {
        modes_enabled: !sensitive && !transition && !failed,
        retry: failed && !state.failed_unknown,
        discard: error,
        error_shown: error,
        native: error || (!sensitive && state.mode != Mode::Latin && has_modes),
        candidates_enabled: state.pending == 0 && editable && !transition,
        page_shown: state.snapshot.has_previous || state.snapshot.has_next
            || state.snapshot.segments > 0,
        visible: has_modes || error,
    }
}

/// The label of the direct-input area.
pub fn direct_label(sensitive: bool) -> (r: String)
    ensures
        sensitive ==> r@ == "ABC · private field"@,
        !sensitive ==> r@ == "ABC"@,
{
    if sensitive {
        "ABC · private field".to_owned()
    } else {
        "ABC".to_owned()
    }
}

/// How an editing control of the bar appears.
#[derive(Debug, Clone, Copy, PartialEq, Eq, Structural)]
pub struct ControlState {
    pub shown: bool,
    pub enabled: bool,
    /// The control is blocked until the romaji syllable is complete.
    pub syllable_hint: bool,
}

/// Whether `command` is a cursor movement.
pub open spec fn moves_cursor(c: Command) -> bool {
    c is Left || c is Right
}

/// How the control for `command` appears: page buttons when there is such a
/// page, segment tools during a conversion, cursor keys except on the Korean
/// layout; enabled while editable, no transition waits and no romaji syllable
/// blocks a cursor key.
pub fn control_state(command: &Command, snapshot: &Snapshot, korean: bool, editable: bool, transition: bool) -> (r:
    ControlState)
    ensures
        r.syllable_hint == (snapshot.pending_romaji && moves_cursor(*command)),
        r.enabled == (editable && !transition && !(snapshot.pending_romaji && moves_cursor(*command))),
        r.shown == match *command {
            Command::Page(delta) => if delta < 0 {
                snapshot.has_previous
            } else {
                snapshot.has_next
            },
            Command::Segment(_) => snapshot.segments > 0,
            Command::Resize(_) => snapshot.segments > 0,
            Command::Left => !korean,
            Command::Right => !korean,
            _ => true,
        },
{
    let moves = match command {
        Command::Left | Command::Right => true,
        _ => false,
    };
    let shown = match command {
        Command::Page(delta) => if *delta < 0 {
            snapshot.has_previous
        } else {
            snapshot.has_next
        },
        Command::Segment(_) | Command::Resize(_) => snapshot.segments > 0,
        Command::Left | Command::Right => !korean,
        _ => true,
    };
    ControlState {
        shown,
        enabled: editable && !transition && !(snapshot.pending_romaji && moves),
        syllable_hint: snapshot.pending_romaji && moves,
    }
}

/// The tooltip of a cursor key blocked by an incomplete syllable.
pub fn syllable_hint_text() -> (r: String)
    ensures
        r@ == "音節を完成するか、Backspaceで戻してください"@,
{
    "音節を完成するか、Backspaceで戻してください".to_owned()
}

/// Candidate slot `index`: whether it shows a candidate and whether that is
/// the selected one.
pub fn candidate_slot(snapshot: &Snapshot, index: usize) -> (r: (bool, bool))
    ensures
        r.0 == (index < snapshot.candidates@.len()),
        r.1 == (snapshot.selected == Some(index)),
{
    let selected = match snapshot.selected {
        Some(s) => s == index,
        None => false,
    };
    (index < snapshot.candidates.len(), selected)
}

/// How the reading is drawn.
#[derive(Debug, Clone, PartialEq, Eq)]
pub enum ReadingView {
    /// Nothing is typed: a hint.
    Hint(String),
    /// The active segment between the text before and after it.
    Selection(String, String, String),
    /// The text before and after the cursor.
    Cursor(String, String),
}

/// The hint shown when nothing is typed on a layout.
pub open spec fn hint_of(pending: bool, language: Seq<char>) -> Seq<char> {
    if pending {
        "Preparing input…"@
    } else if language == "zh"@ {
        "输入拼音，选择候选词"@
    } else if language == "ja"@ {
        "ローマ字で入力 · 変換して確定"@
    } else if language == "ko"@ {
        "한글 입력 · 한자 변환"@
    } else {
        Seq::empty()
    }
}

/// A boundary of valid UTF-8 stays a boundary in a prefix that ends on one.
proof fn lemma_prefix_boundary(bytes: Seq<u8>, b: int, a: int)
    requires
        vstd::utf8::valid_utf8(bytes),
        0 <= a <= b <= bytes.len(),
        is_char_boundary(bytes, a),
        is_char_boundary(bytes, b),
    ensures
        is_char_boundary(bytes.subrange(0, b), a),
{
    let prefix = bytes.subrange(0, b);
    vstd::utf8::valid_utf8_split(bytes, b);
    vstd::utf8::is_char_boundary_start_end_of_seq(prefix);
    if 0 < a < b {
        vstd::utf8::is_char_boundary_iff_not_is_continuation_byte(bytes, a);
        vstd::utf8::is_char_boundary_iff_not_is_continuation_byte(prefix, a);
        assert(prefix[a] == bytes[a]);
    }
}

/// Splits `text` at a byte offset on a character boundary.
fn split(text: &str, at: usize) -> (r: (String, String))
    requires
        is_char_boundary(encode_utf8(text@), at as int),
    ensures
        r.0@ + r.1@ == text@,
        encode_utf8(r.0@) == encode_utf8(text@).subrange(0, at as int),
        encode_utf8(r.0@).len() == at,
{
    proof {
        vstd::utf8::encode_utf8_valid_utf8(text@);
        assert(at <= encode_utf8(text@).len());
    }
    let (a, b) = text.split_at(at);
    proof {
        lemma_encode_concat(a@, b@);
        assert(encode_utf8(a@) + encode_utf8(b@) =~= encode_utf8(text@));
        vstd::utf8::encode_utf8_decode_utf8(a@ + b@);
        vstd::utf8::encode_utf8_decode_utf8(text@);
    }
    (a.to_owned(), b.to_owned())
}

/// The reading as drawn: a hint when nothing is typed (preparing while jobs are
/// outstanding), the selected segment when the selection lies on character
/// boundaries within the text, else the cursor moved back onto a boundary.
pub fn reading_view(snapshot: &Snapshot, pending: bool, language: &str) -> (r: ReadingView)
    ensures
        ({
            let text = snapshot.preedit@;
            let bytes = encode_utf8(text);
            &&& text.len() == 0 ==> (r matches ReadingView::Hint(h) && h@ == hint_of(pending, language@))
            &&& text.len() > 0 ==> match snapshot.selection {
                Some((a, b)) if a <= b && b <= bytes.len() && is_char_boundary(bytes, a as int)
                    && is_char_boundary(bytes, b as int) => r matches ReadingView::Selection(x, y, z)
                    && x@ + y@ + z@ == text && encode_utf8(x@).len() == a && encode_utf8(x@ + y@).len()
                    == b,
                _ => r matches ReadingView::Cursor(x, y) && x@ + y@ == text && {
                    let c = encode_utf8(x@).len();
                    let limit = if snapshot.cursor < bytes.len() {
                        snapshot.cursor as int
                    } else {
                        bytes.len() as int
                    };
                    &&& c <= limit
                    &&& forall|k: int| c < k <= limit ==> !is_char_boundary(bytes, k)
                },
            }
        }),
{
    let text = snapshot.preedit.as_str();
    if text.is_empty() {
        proof {
            reveal_strlit("zh");
            reveal_strlit("ja");
            reveal_strlit("ko");
        }
        let hint = if pending {
            "Preparing input…".to_owned()
        } else if same_text(language, "zh") {
            "输入拼音，选择候选词".to_owned()
        } else if same_text(language, "ja") {
            "ローマ字で入力 · 変換して確定".to_owned()
        } else if same_text(language, "ko") {
            "한글 입력 · 한자 변환".to_owned()
        } else {
            String::new()
        };
        return ReadingView::Hint(hint);
    }
    let len = text_len(text);
    proof {
        vstd::utf8::encode_utf8_valid_utf8(text@);
    }
    match snapshot.selection {
        Some((a, b)) => {
            if a <= b && b <= len && text.is_char_boundary(a) && text.is_char_boundary(b) {
                let (front, rest) = split(text, b);
                proof {
                    lemma_prefix_boundary(encode_utf8(text@), b as int, a as int);
                }
                let (x, y) = split(front.as_str(), a);
                assert(x@ + y@ + rest@ == snapshot.preedit@);
                return ReadingView::Selection(x, y, rest);
            }
        },
        None => {},
    }
    let mut c = if snapshot.cursor < len {
        snapshot.cursor
    } else {
        len
    };
    let ghost limit = c as int;
    while !text.is_char_boundary(c)
        invariant
            c <= limit,
            limit <= len,
            len == encode_utf8(text@).len(),
            vstd::utf8::valid_utf8(encode_utf8(text@)),
            forall|k: int| c < k <= limit ==> !is_char_boundary(encode_utf8(text@), k),
        decreases c,
    {
        proof {
            vstd::utf8::is_char_boundary_start_end_of_seq(encode_utf8(text@));
        }
        c = c - 1;
    }
    let (x, y) = split(text, c);
    ReadingView::Cursor(x, y)
}

/// The decimal digits of `n`.
pub open spec fn decimal_of(n: nat) -> Seq<char>
    decreases n,
{
    if n < 10 {
        seq![digit(n)]
    } else {
        decimal_of(n / 10) + seq![digit(n % 10)]
    }
}

/// The digit character for `d` below ten.
pub open spec fn digit(d: nat) -> char {
    (('0' as u32) + d) as char
}

/// `n` written in decimal.
pub fn decimal(n: usize) -> (r: String)
    ensures
        r@ == decimal_of(n as nat),
    decreases n,
{
    let d = n % 10;
    let c = (('0' as u8) + d as u8) as char;
    assert(c == digit(d as nat));
    if n < 10 {
        let mut r = String::new();
        push_char(&mut r, c);
        assert(r@ =~= seq![c]);
        r
    } else {
        let mut r = decimal(n / 10);
        push_char(&mut r, c);
        assert(r@ =~= decimal_of((n / 10) as nat) + seq![c]);
        r
    }
}

/// The page indicator's accessible text and its label: the page (from one),
/// and for Japanese also the active segment of at least one.
pub open spec fn page_texts(language: Seq<char>, page: nat, active: nat, segments: nat) -> (Seq<char>, Seq<char>) {
    let p = decimal_of(page + 1);
    let a = decimal_of(active + 1);
    let n = decimal_of(if segments > 0 { segments } else { 1 });
    if language == "zh"@ {
        let t = "第 "@ + p + " 页"@;
        (t, t)
    } else if language == "ja"@ {
        (p + " ページ · 文節 "@ + a + "/"@ + n, p + "頁 · "@ + a + "/"@ + n)
    } else {
        let t = p + " 페이지"@;
        (t, t)
    }
}

/// The page indicator's accessible text and label for the shown snapshot.
pub fn page_texts_for(language: &str, snapshot: &Snapshot) -> (r: (String, String))
    requires
        snapshot.page < usize::MAX,
        snapshot.active_segment < usize::MAX,
    ensures
        (r.0@, r.1@) == page_texts(
            language@,
            snapshot.page as nat,
            snapshot.active_segment as nat,
            snapshot.segments as nat,
        ),
{
    proof {
        reveal_strlit("zh");
        reveal_strlit("ja");
    }
    let p = decimal(snapshot.page + 1);
    if same_text(language, "zh") {
        let t = "第 ".to_owned().concat(p.as_str()).concat(" 页");
        let u = "第 ".to_owned().concat(p.as_str()).concat(" 页");
        return (t, u);
    }
    let a = decimal(snapshot.active_segment + 1);
    let n = decimal(if snapshot.segments > 0 {
        snapshot.segments
    } else {
        1
    });
    if same_text(language, "ja") {
        let t = p.clone().concat(" ページ · 文節 ").concat(a.as_str()).concat("/").concat(n.as_str());
        let u = p.concat("頁 · ").concat(a.as_str()).concat("/").concat(n.as_str());
        (t, u)
    } else {
        let t = p.clone().concat(" 페이지");
        let u = p.concat(" 페이지");
        (t, u)
    }
}

/// The script modes the bar offers for a layout, each with its button label:
/// simplified, traditional and Latin for Chinese; hiragana, katakana and
/// Latin for Japanese; Hangul and Latin for Korean; none elsewhere.
pub open spec fn mode_choices_of(language: Seq<char>) -> Seq<(Seq<char>, Mode)> {
    if language == "zh"@ {
        seq![("简"@, Mode::Native), ("繁"@, Mode::Traditional), ("ABC"@, Mode::Latin)]
    } else if language == "ja"@ {
        seq![("ひらがな"@, Mode::Native), ("カタカナ"@, Mode::Katakana), ("ABC"@, Mode::Latin)]
    } else if language == "ko"@ {
        seq![("한글"@, Mode::Native), ("ABC"@, Mode::Latin)]
    } else {
        Seq::empty()
    }
}

/// The mode buttons of the bar for `language`, in order.
pub fn mode_choices(language: &str) -> (r: Vec<(String, Mode)>)
    ensures
        r@.map_values(|p: (String, Mode)| (p.0@, p.1)) == mode_choices_of(language@),
{
    let mut r: Vec<(String, Mode)> = Vec::new();
    if same_text(language, "zh") {
        r.push(("简".to_owned(), Mode::Native));
        r.push(("繁".to_owned(), Mode::Traditional));
        r.push(("ABC".to_owned(), Mode::Latin));
    } else if same_text(language, "ja") {
        r.push(("ひらがな".to_owned(), Mode::Native));
        r.push(("カタカナ".to_owned(), Mode::Katakana));
        r.push(("ABC".to_owned(), Mode::Latin));
    } else if same_text(language, "ko") {
        r.push(("한글".to_owned(), Mode::Native));
        r.push(("ABC".to_owned(), Mode::Latin));
    }
    proof {
        assert(r@.map_values(|p: (String, Mode)| (p.0@, p.1)) =~= mode_choices_of(language@));
    }
    r
}

/// The editing buttons of the bar for a layout, each with its label, in
/// order: the arrow keys (not for Korean), Escape, for Japanese conversion
/// and the segment controls, for Korean the Hanja key, and the page arrows.
pub open spec fn control_choices_of(language: Seq<char>) -> Seq<(Seq<char>, Command)> {
    (if language != "ko"@ {
        seq![("←"@, Command::Left), ("→"@, Command::Right)]
    } else {
        Seq::empty()
    }) + seq![("Esc"@, Command::Escape)] + (if language == "ja"@ {
        seq![
            ("変換"@, Command::Space),
            ("前文節"@, Command::Segment(-1i32)),
            ("次文節"@, Command::Segment(1i32)),
            ("縮める"@, Command::Resize(-1i32)),
            ("伸ばす"@, Command::Resize(1i32)),
        ]
    } else {
        Seq::empty()
    }) + (if language == "ko"@ {
        seq![("漢字"@, Command::Hanja)]
    } else {
        Seq::empty()
    }) + seq![("‹"@, Command::Page(-1i32)), ("›"@, Command::Page(1i32))]
}

/// The editing buttons of the bar for `language`, in order.
pub fn control_choices(language: &str) -> (r: Vec<(String, Command)>)
    ensures
        r@.map_values(|p: (String, Command)| (p.0@, p.1)) == control_choices_of(language@),
{
    let korean = same_text(language, "ko");
    let japanese = same_text(language, "ja");
    let mut r: Vec<(String, Command)> = Vec::new();
    if !korean {
        r.push(("←".to_owned(), Command::Left));
        r.push(("→".to_owned(), Command::Right));
    }
    r.push(("Esc".to_owned(), Command::Escape));
    if japanese {
        r.push(("変換".to_owned(), Command::Space));
        r.push(("前文節".to_owned(), Command::Segment(-1)));
        r.push(("次文節".to_owned(), Command::Segment(1)));
        r.push(("縮める".to_owned(), Command::Resize(-1)));
        r.push(("伸ばす".to_owned(), Command::Resize(1)));
    }
    if korean {
        r.push(("漢字".to_owned(), Command::Hanja));
    }
    r.push(("‹".to_owned(), Command::Page(-1)));
    r.push(("›".to_owned(), Command::Page(1)));
    proof {
        assert(r@.map_values(|p: (String, Command)| (p.0@, p.1)) =~= control_choices_of(language@));
    }
    r
}

} // verus!
