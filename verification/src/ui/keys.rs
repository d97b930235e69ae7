//! What a key shows and what a press sends: labels under Shift, the text a
//! key inserts, and the command an action key stands for.
use crate::ime::types::{
    direct_korean_text, korean_keys, korean_keys_of, Command, Mode,
};
use crate::layout::parse::{code_ko, language_view, shifted, shifted_text, Key, LayoutDefinition};
use crate::text::same_text;
use crate::ui::composition::{Composition, Transition};
use vstd::prelude::*;

verus! {

broadcast use vstd::string::group_string_axioms;

/// The layout's language code as characters.
pub open spec fn code_of(layout: LayoutDefinition) -> Option<Seq<char>> {
    match layout.language_code {
        Some(c) => Some(c@),
        None => None,
    }
}

/// What a text on the Korean layout becomes without the engine: jamo become
/// their Latin keys, then ordinary Shift applies.
pub open spec fn direct_korean(text: Seq<char>, shift: bool) -> Seq<char> {
    shifted(korean_keys_of(text, shift), shift, None)
}

/// How a text shows on a key: as the Korean keys it types when the engine is
/// off on the Korean layout, else under Shift for the layout's language.
pub open spec fn shown_text(text: Seq<char>, language: Option<Seq<char>>, shift: bool, native: bool) -> Seq<char> {
    if language == Some(code_ko()) && !native {
        direct_korean(text, shift)
    } else {
        shifted(text, shift, language)
    }
}

/// The label of a text key: its display text, else its text as it shows.
pub open spec fn label_of(key: Key, language: Option<Seq<char>>, shift: bool, native: bool) -> Seq<char> {
    match key.display_text {
        Some(d) => d@,
        None => shown_text(
            match key.text {
                Some(t) => t@,
                None => Seq::empty(),
            },
            language,
            shift,
            native,
        ),
    }
}

fn language_of(layout: &LayoutDefinition) -> (r: Option<&str>)
    ensures
        language_view(r) == code_of(*layout),
{
    match &layout.language_code {
        Some(code) => Some(code.as_str()),
        None => None,
    }
}

fn is_korean(layout: &LayoutDefinition) -> (r: bool)
    ensures
        r == (code_of(*layout) == Some(code_ko())),
{
    match &layout.language_code {
        Some(code) => {
            proof {
                reveal_strlit("ko");
                assert("ko"@ =~= code_ko());
            }
            same_text(code.as_str(), "ko")
        },
        None => false,
    }
}

/// How `text` shows on a key of `layout`.
pub fn shown(layout: &LayoutDefinition, text: &str, shift: bool, native: bool) -> (r: String)
    ensures
        r@ == shown_text(text@, code_of(*layout), shift, native),
{
    if is_korean(layout) && !native {
        direct_korean_text(text, shift)
    } else {
        shifted_text(text, shift, language_of(layout))
    }
}

/// The label of a text key of `layout`.
pub fn key_label(layout: &LayoutDefinition, key: &Key, shift: bool, native: bool) -> (r: String)
    ensures
        r@ == label_of(*key, code_of(*layout), shift, native),
{
    match &key.display_text {
        Some(d) => d.clone(),
        None => match &key.text {
            Some(t) => shown(layout, t.as_str(), shift, native),
            None => {
                proof {
                    reveal_strlit("");
                }
                shown(layout, "", shift, native)
            },
        },
    }
}

/// The labels of a key's alternatives, in order.
pub fn alternative_labels(layout: &LayoutDefinition, key: &Key, shift: bool, native: bool) -> (r: Vec<
    String,
>)
    ensures
        ({
            let alts = match key.alternatives {
                Some(a) => a@,
                None => Seq::empty(),
            };
            &&& r@.len() == alts.len()
            &&& forall|i: int|
                0 <= i < alts.len() ==> (#[trigger] r@[i])@ == shown_text(
                    alts[i]@,
                    code_of(*layout),
                    shift,
                    native,
                )
        }),
{
    let alts = key.get_alternatives();
    let mut r: Vec<String> = Vec::new();
    let mut i: usize = 0;
    while i < alts.len()
        invariant
            alts@ == match key.alternatives {
                Some(a) => a@,
                None => Seq::<String>::empty(),
            },
            i <= alts@.len(),
            r@.len() == i,
            forall|j: int|
                0 <= j < i ==> (#[trigger] r@[j])@ == shown_text(
                    alts@[j]@,
                    code_of(*layout),
                    shift,
                    native,
                ),
        decreases alts@.len() - i,
    {
        r.push(shown(layout, alts[i].as_str(), shift, native));
        i = i + 1;
    }
    r
}

/// The text the key at `row`, `index` of `layout` inserts under Shift, if it
/// exists and inserts text.
pub fn key_text(layout: &LayoutDefinition, row: usize, index: usize, shift: bool) -> (r: Option<String>)
    ensures
        ({
            let rows = layout.layout@;
            if row < rows.len() && index < rows[row as int]@.len()
                && rows[row as int]@[index as int].text is Some {
                r matches Some(s) && s@ == shifted(
                    rows[row as int]@[index as int].text->0@,
                    shift,
                    code_of(*layout),
                )
            } else {
                r is None
            }
        }),
{
    if row >= layout.layout.len() || index >= layout.layout[row].len() {
        return None;
    }
    match &layout.layout[row][index].text {
        Some(t) => Some(shifted_text(t.as_str(), shift, language_of(layout))),
        None => None,
    }
}

/// What an inserted text becomes before dispatch: on the Korean layout its
/// jamo become Latin keys (with ordinary Shift when the engine is off).
pub open spec fn literal_of(text: Seq<char>, current: Seq<char>, native: bool, shift: bool) -> Seq<char> {
    if current == code_ko() {
        if native {
            korean_keys_of(text, shift)
        } else {
            direct_korean(text, shift)
        }
    } else {
        text
    }
}

/// The command for inserting `text` on layout `current`: a lone space is the
/// Space key, anything else text.
pub fn literal_command(text: &str, current: &str, native: bool, shift: bool) -> (r: Command)
    ensures
        ({
            let t = literal_of(text@, current@, native, shift);
            if t == seq![' '] {
                r is Space
            } else {
                r matches Command::Text(s) && s@ == t
            }
        }),
{
    proof {
        reveal_strlit("ko");
        reveal_strlit(" ");
        assert("ko"@ =~= code_ko());
        assert(" "@ =~= seq![' ']);
    }
    let literal = if same_text(current, "ko") {
        if native {
            korean_keys(text, shift)
        } else {
            direct_korean_text(text, shift)
        }
    } else {
        text.to_owned()
    };
    if same_text(literal.as_str(), " ") {
        Command::Space
    } else {
        Command::Text(literal)
    }
}

/// What an action key does.
#[derive(Debug)]
pub enum ActionKey {
    /// Toggles Shift.
    Shift,
    /// Opens the language selector.
    LanguageSelector,
    /// Sends an editing command.
    Send(Command),
}

/// The effect of the action named `action`, if it has one.
pub fn action_key(action: &str) -> (r: Option<ActionKey>)
    ensures
        action@ == "shift"@ ==> r matches Some(ActionKey::Shift),
        action@ == "language_selector"@ ==> r matches Some(ActionKey::LanguageSelector),
        action@ == "backspace"@ ==> r matches Some(ActionKey::Send(Command::Backspace)),
        action@ == "enter"@ ==> r matches Some(ActionKey::Send(Command::Enter)),
        action@ == "space"@ ==> r matches Some(ActionKey::Send(Command::Space)),
        !(action@ == "shift"@ || action@ == "language_selector"@ || action@ == "backspace"@
            || action@ == "enter"@ || action@ == "space"@) ==> r is None,
{
    proof {
        reveal_strlit("shift");
        reveal_strlit("language_selector");
        reveal_strlit("backspace");
        reveal_strlit("enter");
        reveal_strlit("space");
        assert("language_selector"@.len() == 17 && "shift"@.len() == 5 && "backspace"@.len() == 9);
        assert("enter"@[0] != "shift"@[0] && "enter"@.len() == 5);
        assert("space"@[1] != "shift"@[1] && "space"@[0] != "enter"@[0] && "space"@.len() == 5);
    }
    if same_text(action, "shift") {
        Some(ActionKey::Shift)
    } else if same_text(action, "language_selector") {
        Some(ActionKey::LanguageSelector)
    } else if same_text(action, "backspace") {
        Some(ActionKey::Send(Command::Backspace))
    } else if same_text(action, "enter") {
        Some(ActionKey::Send(Command::Enter))
    } else if same_text(action, "space") {
        Some(ActionKey::Send(Command::Space))
    } else {
        None
    }
}

impl Composition {
    /// Whether keys go to the engine as they are: composition is enabled and
    /// no switch to Latin mode waits.
    pub fn native_key_input(&self, enabled: bool) -> (r: bool)
        ensures
            r == (enabled && self.transition != Some(Transition::Mode(Mode::Latin))),
    {
        let latin = match &self.transition {
            Some(Transition::Mode(Mode::Latin)) => true,
            _ => false,
        };
        enabled && !latin
    }

    /// Whether a tap on a candidate shown for `revision` still applies:
    /// nothing newer was asked for and no transition waits.
    pub fn accepts_candidate(&self, revision: u64) -> (r: bool)
        ensures
            r == (revision == self.applied && self.pending == 0 && self.transition is None),
    {
        revision == self.applied && self.pending == 0 && self.transition.is_none()
    }
}

/// The widget a key becomes.
#[derive(Debug, Clone, Copy, PartialEq, Eq, Structural)]
pub enum KeyKind {
    /// The Shift toggle.
    Shift,
    /// Backspace, which repeats while held.
    Repeating,
    /// The language selector, labelled with a flag.
    LanguageSelector,
    /// Any other action.
    Action,
    /// A key that inserts text.
    Text,
    /// A key that does nothing and only takes room.
    Spacer,
}

/// The widget for `key`: by its action when it has one, else text or spacer.
pub open spec fn kind_of(key: Key) -> KeyKind {
    match key.action {
        Some(a) => if a@ == "shift"@ {
            KeyKind::Shift
        } else if a@ == "backspace"@ {
            KeyKind::Repeating
        } else if a@ == "language_selector"@ {
            KeyKind::LanguageSelector
        } else {
            KeyKind::Action
        },
        None => if key.text is Some {
            KeyKind::Text
        } else {
            KeyKind::Spacer
        },
    }
}

/// The widget `key` becomes.
pub fn key_kind(key: &Key) -> (r: KeyKind)
    ensures
        r == kind_of(*key),
{
    match &key.action {
        Some(a) => if same_text(a.as_str(), "shift") {
            KeyKind::Shift
        } else if same_text(a.as_str(), "backspace") {
            KeyKind::Repeating
        } else if same_text(a.as_str(), "language_selector") {
            KeyKind::LanguageSelector
        } else {
            KeyKind::Action
        },
        None => if key.text.is_some() {
            KeyKind::Text
        } else {
            KeyKind::Spacer
        },
    }
}

/// The positions of the keys a row shows: all of them, except language
/// selectors while the switcher is hidden.
pub fn row_keys(row: &Vec<Key>, show_switcher: bool) -> (r: Vec<usize>)
    ensures
        forall|i: int| 0 <= i < r@.len() ==> r@[i] < row@.len(),
        forall|i: int, j: int| 0 <= i < j < r@.len() ==> r@[i] < r@[j],
        forall|k: int|
            0 <= k < row@.len() ==> (r@.contains(k as usize) <==> (show_switcher || kind_of(
                #[trigger] row@[k],
            ) != KeyKind::LanguageSelector)),
{
    let mut r: Vec<usize> = Vec::new();
    let mut i: usize = 0;
    while i < row.len()
        invariant
            i <= row@.len(),
            forall|x: int| 0 <= x < r@.len() ==> r@[x] < i,
            forall|x: int, y: int| 0 <= x < y < r@.len() ==> r@[x] < r@[y],
            forall|k: int|
                0 <= k < i ==> (r@.contains(k as usize) <==> (show_switcher || kind_of(
                    #[trigger] row@[k],
                ) != KeyKind::LanguageSelector)),
        decreases row@.len() - i,
    {
        let hidden = !show_switcher && key_kind(&row[i]) == KeyKind::LanguageSelector;
        let ghost before = r@;
        if !hidden {
            r.push(i);
            proof {
                assert(r@[r@.len() - 1] == i);
            }
        }
        proof {
            assert forall|k: int| 0 <= k < i + 1 implies (r@.contains(k as usize) <==> (
            show_switcher || kind_of(#[trigger] row@[k]) != KeyKind::LanguageSelector)) by {
                if k < i {
                    if r@.contains(k as usize) && !before.contains(k as usize) {
                        let x = choose|x: int| 0 <= x < r@.len() && r@[x] == k as usize;
                        assert(x == r@.len() - 1);
                    }
                    if before.contains(k as usize) {
                        let x = choose|x: int| 0 <= x < before.len() && before[x] == k as usize;
                        assert(r@[x] == k as usize);
                    }
                } else {
                    if !hidden {
                        assert(r@[r@.len() - 1] == i);
                    } else {
                        if r@.contains(k as usize) {
                            let x = choose|x: int| 0 <= x < r@.len() && r@[x] == k as usize;
                            assert(r@[x] < i);
                        }
                    }
                }
            }
        }
        i = i + 1;
    }
    r
}

/// The one-shot Shift: a Shift key toggles it, and the next key or
/// alternative that inserts text uses it and releases it.
pub struct OneShotShift {
    pub pressed: bool,
}

impl OneShotShift {
    /// Shift released.
    pub fn new() -> (s: Self)
        ensures
            !s.pressed,
    {
        OneShotShift { pressed: false }
    }

    /// An action key: Shift toggles it; the other actions leave it as it is.
    pub fn action(&mut self, key: &ActionKey)
        ensures
            final(self).pressed == (if *key is Shift {
                !old(self).pressed
            } else {
                old(self).pressed
            }),
    {
        if let ActionKey::Shift = key {
            self.pressed = !self.pressed;
        }
    }

    /// The key at `row`, `index` of `layout` was pressed: the text it inserts,
    /// under Shift if Shift was pressed, which a key that inserts text releases.
    pub fn text_key(&mut self, layout: &LayoutDefinition, row: usize, index: usize) -> (r: Option<
        String,
    >)
        ensures
            ({
                let rows = layout.layout@;
                if row < rows.len() && index < rows[row as int]@.len()
                    && rows[row as int]@[index as int].text is Some {
                    r matches Some(s) && s@ == shifted(
                        rows[row as int]@[index as int].text->0@,
                        old(self).pressed,
                        code_of(*layout),
                    )
                } else {
                    r is None
                }
            }),
            final(self).pressed == (old(self).pressed && r is None),
    {
        let r = key_text(layout, row, index, self.pressed);
        if r.is_some() {
            self.pressed = false;
        }
        r
    }

    /// An alternative was chosen (its label already shows Shift), or input was
    /// reset: Shift is released.
    pub fn release(&mut self)
        ensures
            !final(self).pressed,
    {
        self.pressed = false;
    }
}

} // verus!
