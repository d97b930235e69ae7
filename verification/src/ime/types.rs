//! Composition requests, results and the rules shared by the CJK engines.
use crate::layout::parse::{shifted, shifted_text};
use crate::text::{byte_len, chars_of, push_char};
use vstd::prelude::*;

verus! {

/// Candidates shown per page.
pub const PAGE_SIZE: usize = 6;

/// Most bytes of uncommitted input an engine accepts.
pub const MAX_INPUT: usize = 1024;

/// Most bytes of text an engine commits at once.
pub const MAX_COMMIT: usize = 4096;

/// An engine failure; `recoverable` rejections left composition untouched.
#[derive(Debug, Clone)]
pub struct EngineError {
    pub message: String,
    /// When true, rejection did not mutate composition or consume engine output.
    pub recoverable: bool,
}

/// Script mode of a composition engine.
#[derive(Debug, Clone, Copy, PartialEq, Eq, Structural)]
pub enum Mode {
    Native,
    Traditional,
    Katakana,
    Latin,
}

impl Default for Mode {
    fn default() -> (m: Self)
        ensures
            m == Mode::Native,
    {
        Mode::Native
    }
}

/// A request to a composition engine.
#[derive(Debug, Clone)]
pub enum Command {
    Reset,
    Text(String),
    Backspace,
    Enter,
    Space,
    Escape,
    Left,
    Right,
    Page(i32),
    Select(usize),
    Segment(i32),
    Resize(i32),
    Hanja,
    Finish,
}

/// What an engine shows and outputs after a command.
#[derive(Debug, Clone)]
pub struct Snapshot {
    pub preedit: String,
    pub cursor: usize,
    pub pending_romaji: bool,
    pub selection: Option<(usize, usize)>,
    pub candidates: Vec<String>,
    pub selected: Option<usize>,
    pub page: usize,
    pub has_previous: bool,
    pub has_next: bool,
    pub segments: usize,
    pub active_segment: usize,
    pub committed: String,
    pub control: Option<char>,
}

impl Default for Snapshot {
    fn default() -> (s: Self)
        ensures
            s.preedit@ == Seq::<char>::empty(),
            s.cursor == 0,
            !s.pending_romaji,
            s.selection is None,
            s.candidates@.len() == 0,
            s.selected is None,
            s.page == 0,
            !s.has_previous,
            !s.has_next,
            s.segments == 0,
            s.active_segment == 0,
            s.committed@ == Seq::<char>::empty(),
            s.control is None,
    {
        Snapshot {
            preedit: String::new(),
            cursor: 0,
            pending_romaji: false,
            selection: None,
            candidates: Vec::new(),
            selected: None,
            page: 0,
            has_previous: false,
            has_next: false,
            segments: 0,
            active_segment: 0,
            committed: String::new(),
            control: None,
        }
    }
}

/// Identifies the input context (generation) and keyboard epoch a job belongs to.
#[derive(Debug, Clone, Copy, PartialEq, Eq, Structural)]
pub struct Token {
    pub generation: u64,
    pub epoch: u64,
}

impl Default for Token {
    fn default() -> (t: Self)
        ensures
            t.generation == 0 && t.epoch == 0,
    {
        Token { generation: 0, epoch: 0 }
    }
}

/// A command for the engine of `language`, tagged for staleness checks.
#[derive(Debug)]
pub struct Job {
    pub token: Token,
    pub revision: u64,
    pub language: String,
    pub mode: Mode,
    pub command: Command,
}

/// The engine's answer to a job.
#[derive(Debug)]
pub struct Response {
    pub token: Token,
    pub revision: u64,
    pub result: Result<Snapshot, EngineError>,
}

/// Refuses more input once `bytes` of uncommitted input would exceed the limit;
/// the refusal is recoverable.
pub fn check_input_limit(bytes: usize) -> (r: Result<(), EngineError>)
    ensures
        r is Ok <==> bytes <= MAX_INPUT,
        r matches Err(e) ==> e.recoverable && e.message@
            == "Commit the current text before typing more"@,
{
    if bytes > MAX_INPUT {
        return Err(
            EngineError {
                message: "Commit the current text before typing more".to_owned(),
                recoverable: true,
            },
        );
    }
    Ok(())
}

/// Refuses typing `add` more bytes onto `have` bytes of uncommitted input
/// once the sum would exceed the limit; the refusal is recoverable.
pub fn check_added_input(have: usize, add: usize) -> (r: Result<(), EngineError>)
    ensures
        r is Ok <==> have + add <= MAX_INPUT,
        r matches Err(e) ==> e.recoverable && e.message@
            == "Commit the current text before typing more"@,
{
    let total = if add <= usize::MAX - have {
        have + add
    } else {
        usize::MAX
    };
    check_input_limit(total)
}

/// Appends `text` to the committed output unless the result would exceed
/// 4096 bytes, in which case the output is left as it was.
pub fn append_commit(target: &mut String, text: &str) -> (r: Result<(), EngineError>)
    ensures
        r is Ok <==> byte_len(old(target)@) + byte_len(text@) <= MAX_COMMIT,
        r is Ok ==> final(target)@ == old(target)@ + text@,
        r is Err ==> final(target)@ == old(target)@,
        r matches Err(e) ==> !e.recoverable,
{
    let have = target.as_str().len();
    let add = text.len();
    if have > MAX_COMMIT || add > MAX_COMMIT - have {
        return Err(
            EngineError { message: "Commit exceeds 4096 bytes".to_owned(), recoverable: false },
        );
    }
    target.append(text);
    Ok(())
}

/// The layouts with a composition engine: Chinese, Japanese and Korean.
pub open spec fn composing_language(code: Seq<char>) -> bool {
    code == seq!['z', 'h'] || code == seq!['j', 'a'] || code == seq!['k', 'o']
}

/// Whether keys go through a composition engine: on a CJK layout, outside the
/// Latin mode, and never in a password or otherwise sensitive field.
pub fn composition_enabled(language: &str, mode: Mode, sensitive: bool) -> (r: bool)
    ensures
        r == (composing_language(language@) && mode != Mode::Latin && !sensitive),
{
    let c = chars_of(language);
    let composing = c.len() == 2 && ((c[0] == 'z' && c[1] == 'h') || (c[0] == 'j' && c[1] == 'a')
        || (c[0] == 'k' && c[1] == 'o'));
    proof {
        if c@.len() == 2 {
            if c@[0] == 'z' && c@[1] == 'h' {
                assert(c@ =~= seq!['z', 'h']);
            }
            if c@[0] == 'j' && c@[1] == 'a' {
                assert(c@ =~= seq!['j', 'a']);
            }
            if c@[0] == 'k' && c@[1] == 'o' {
                assert(c@ =~= seq!['k', 'o']);
            }
        }
    }
    composing && mode != Mode::Latin && !sensitive
}

/// The Latin key(s) of the Dubeolsik keyboard for one jamo, with Shift where it
/// matters; compound vowels become their two-key sequences, and any other
/// character stays as it is.
pub open spec fn korean_key(c: char, shift: bool) -> Seq<char> {
    match c {
        '\u{3142}' => if shift { seq!['Q'] } else { seq!['q'] },
        '\u{3148}' => if shift { seq!['W'] } else { seq!['w'] },
        '\u{3137}' => if shift { seq!['E'] } else { seq!['e'] },
        '\u{3131}' => if shift { seq!['R'] } else { seq!['r'] },
        '\u{3145}' => if shift { seq!['T'] } else { seq!['t'] },
        '\u{315B}' => seq!['y'],
        '\u{3155}' => seq!['u'],
        '\u{3151}' => seq!['i'],
        '\u{3150}' => if shift { seq!['O'] } else { seq!['o'] },
        '\u{3154}' => if shift { seq!['P'] } else { seq!['p'] },
        '\u{3141}' => seq!['a'],
        '\u{3134}' => seq!['s'],
        '\u{3147}' => seq!['d'],
        '\u{3139}' => seq!['f'],
        '\u{314E}' => seq!['g'],
        '\u{3157}' => seq!['h'],
        '\u{3153}' => seq!['j'],
        '\u{314F}' => seq!['k'],
        '\u{3163}' => seq!['l'],
        '\u{314B}' => seq!['z'],
        '\u{314C}' => seq!['x'],
        '\u{314A}' => seq!['c'],
        '\u{314D}' => seq!['v'],
        '\u{3160}' => seq!['b'],
        '\u{315C}' => seq!['n'],
        '\u{3161}' => seq!['m'],
        '\u{3143}' => seq!['Q'],
        '\u{3149}' => seq!['W'],
        '\u{3138}' => seq!['E'],
        '\u{3132}' => seq!['R'],
        '\u{3146}' => seq!['T'],
        '\u{3152}' => seq!['O'],
        '\u{3156}' => seq!['P'],
        '\u{3158}' => seq!['h', 'k'],
        '\u{3159}' => seq!['h', 'o'],
        '\u{315A}' => seq!['h', 'l'],
        '\u{315D}' => seq!['n', 'j'],
        '\u{315E}' => seq!['n', 'p'],
        '\u{315F}' => seq!['n', 'l'],
        '\u{3162}' => seq!['m', 'l'],
        _ => seq![c],
    }
}

/// Each character of `text` replaced by its Dubeolsik key(s).
pub open spec fn korean_keys_of(text: Seq<char>, shift: bool) -> Seq<char>
    decreases text.len(),
{
    if text.len() == 0 {
        Seq::empty()
    } else {
        korean_keys_of(text.drop_last(), shift) + korean_key(text.last(), shift)
    }
}

fn korean_key_chars(c: char, shift: bool) -> (r: (char, Option<char>))
    ensures
        korean_key(c, shift) == (match r.1 {
            Some(d) => seq![r.0, d],
            None => seq![r.0],
        }),
{
    match c {
        '\u{3142}' => (if shift { 'Q' } else { 'q' }, None),
        '\u{3148}' => (if shift { 'W' } else { 'w' }, None),
        '\u{3137}' => (if shift { 'E' } else { 'e' }, None),
        '\u{3131}' => (if shift { 'R' } else { 'r' }, None),
        '\u{3145}' => (if shift { 'T' } else { 't' }, None),
        '\u{315B}' => ('y', None),
        '\u{3155}' => ('u', None),
        '\u{3151}' => ('i', None),
        '\u{3150}' => (if shift { 'O' } else { 'o' }, None),
        '\u{3154}' => (if shift { 'P' } else { 'p' }, None),
        '\u{3141}' => ('a', None),
        '\u{3134}' => ('s', None),
        '\u{3147}' => ('d', None),
        '\u{3139}' => ('f', None),
        '\u{314E}' => ('g', None),
        '\u{3157}' => ('h', None),
        '\u{3153}' => ('j', None),
        '\u{314F}' => ('k', None),
        '\u{3163}' => ('l', None),
        '\u{314B}' => ('z', None),
        '\u{314C}' => ('x', None),
        '\u{314A}' => ('c', None),
        '\u{314D}' => ('v', None),
        '\u{3160}' => ('b', None),
        '\u{315C}' => ('n', None),
        '\u{3161}' => ('m', None),
        '\u{3143}' => ('Q', None),
        '\u{3149}' => ('W', None),
        '\u{3138}' => ('E', None),
        '\u{3132}' => ('R', None),
        '\u{3146}' => ('T', None),
        '\u{3152}' => ('O', None),
        '\u{3156}' => ('P', None),
        '\u{3158}' => ('h', Some('k')),
        '\u{3159}' => ('h', Some('o')),
        '\u{315A}' => ('h', Some('l')),
        '\u{315D}' => ('n', Some('j')),
        '\u{315E}' => ('n', Some('p')),
        '\u{315F}' => ('n', Some('l')),
        '\u{3162}' => ('m', Some('l')),
        _ => (c, None),
    }
}

/// One character's keys are the keys of that character.
proof fn lemma_keys_of_one(c: char, shift: bool)
    ensures
        korean_keys_of(seq![c], shift) == korean_key(c, shift),
{
    reveal_with_fuel(korean_keys_of, 2);
    assert(seq![c].drop_last() =~= Seq::<char>::empty());
    assert(seq![c].last() == c);
    assert(korean_keys_of(Seq::<char>::empty(), shift) == Seq::<char>::empty());
    assert(Seq::<char>::empty() + korean_key(c, shift) =~= korean_key(c, shift));
}

/// The Dubeolsik keyboard: each jamo is typed with its standard key (Shift
/// for the doubled consonants and ㅒ ㅖ), and each compound vowel with its two
/// component keys.
pub proof fn lemma_dubeolsik_keys()
    ensures
        korean_keys_of(seq!['\u{3142}'], false) == seq!['q'],
        korean_keys_of(seq!['\u{3148}'], false) == seq!['w'],
        korean_keys_of(seq!['\u{3137}'], false) == seq!['e'],
        korean_keys_of(seq!['\u{3131}'], false) == seq!['r'],
        korean_keys_of(seq!['\u{3145}'], false) == seq!['t'],
        korean_keys_of(seq!['\u{315B}'], false) == seq!['y'],
        korean_keys_of(seq!['\u{3155}'], false) == seq!['u'],
        korean_keys_of(seq!['\u{3151}'], false) == seq!['i'],
        korean_keys_of(seq!['\u{3150}'], false) == seq!['o'],
        korean_keys_of(seq!['\u{3154}'], false) == seq!['p'],
        korean_keys_of(seq!['\u{3141}'], false) == seq!['a'],
        korean_keys_of(seq!['\u{3134}'], false) == seq!['s'],
        korean_keys_of(seq!['\u{3147}'], false) == seq!['d'],
        korean_keys_of(seq!['\u{3139}'], false) == seq!['f'],
        korean_keys_of(seq!['\u{314E}'], false) == seq!['g'],
        korean_keys_of(seq!['\u{3157}'], false) == seq!['h'],
        korean_keys_of(seq!['\u{3153}'], false) == seq!['j'],
        korean_keys_of(seq!['\u{314F}'], false) == seq!['k'],
        korean_keys_of(seq!['\u{3163}'], false) == seq!['l'],
        korean_keys_of(seq!['\u{314B}'], false) == seq!['z'],
        korean_keys_of(seq!['\u{314C}'], false) == seq!['x'],
        korean_keys_of(seq!['\u{314A}'], false) == seq!['c'],
        korean_keys_of(seq!['\u{314D}'], false) == seq!['v'],
        korean_keys_of(seq!['\u{3160}'], false) == seq!['b'],
        korean_keys_of(seq!['\u{315C}'], false) == seq!['n'],
        korean_keys_of(seq!['\u{3161}'], false) == seq!['m'],
        korean_keys_of(seq!['\u{3143}'], false) == seq!['Q'],
        korean_keys_of(seq!['\u{3149}'], false) == seq!['W'],
        korean_keys_of(seq!['\u{3138}'], false) == seq!['E'],
        korean_keys_of(seq!['\u{3132}'], false) == seq!['R'],
        korean_keys_of(seq!['\u{3146}'], false) == seq!['T'],
        korean_keys_of(seq!['\u{3152}'], false) == seq!['O'],
        korean_keys_of(seq!['\u{3156}'], false) == seq!['P'],
        korean_keys_of(seq!['\u{3158}'], false) == seq!['h', 'k'],
        korean_keys_of(seq!['\u{3159}'], false) == seq!['h', 'o'],
        korean_keys_of(seq!['\u{315A}'], false) == seq!['h', 'l'],
        korean_keys_of(seq!['\u{315D}'], false) == seq!['n', 'j'],
        korean_keys_of(seq!['\u{315E}'], false) == seq!['n', 'p'],
        korean_keys_of(seq!['\u{315F}'], false) == seq!['n', 'l'],
        korean_keys_of(seq!['\u{3162}'], false) == seq!['m', 'l'],
        korean_keys_of(seq!['\u{3142}'], true) == seq!['Q'],
        korean_keys_of(seq!['\u{3148}'], true) == seq!['W'],
        korean_keys_of(seq!['\u{3137}'], true) == seq!['E'],
        korean_keys_of(seq!['\u{3131}'], true) == seq!['R'],
        korean_keys_of(seq!['\u{3145}'], true) == seq!['T'],
        korean_keys_of(seq!['\u{3150}'], true) == seq!['O'],
        korean_keys_of(seq!['\u{3154}'], true) == seq!['P'],
{
    lemma_keys_of_one('\u{3142}', false);
    lemma_keys_of_one('\u{3148}', false);
    lemma_keys_of_one('\u{3137}', false);
    lemma_keys_of_one('\u{3131}', false);
    lemma_keys_of_one('\u{3145}', false);
    lemma_keys_of_one('\u{315B}', false);
    lemma_keys_of_one('\u{3155}', false);
    lemma_keys_of_one('\u{3151}', false);
    lemma_keys_of_one('\u{3150}', false);
    lemma_keys_of_one('\u{3154}', false);
    lemma_keys_of_one('\u{3141}', false);
    lemma_keys_of_one('\u{3134}', false);
    lemma_keys_of_one('\u{3147}', false);
    lemma_keys_of_one('\u{3139}', false);
    lemma_keys_of_one('\u{314E}', false);
    lemma_keys_of_one('\u{3157}', false);
    lemma_keys_of_one('\u{3153}', false);
    lemma_keys_of_one('\u{314F}', false);
    lemma_keys_of_one('\u{3163}', false);
    lemma_keys_of_one('\u{314B}', false);
    lemma_keys_of_one('\u{314C}', false);
    lemma_keys_of_one('\u{314A}', false);
    lemma_keys_of_one('\u{314D}', false);
    lemma_keys_of_one('\u{3160}', false);
    lemma_keys_of_one('\u{315C}', false);
    lemma_keys_of_one('\u{3161}', false);
    lemma_keys_of_one('\u{3143}', false);
    lemma_keys_of_one('\u{3149}', false);
    lemma_keys_of_one('\u{3138}', false);
    lemma_keys_of_one('\u{3132}', false);
    lemma_keys_of_one('\u{3146}', false);
    lemma_keys_of_one('\u{3152}', false);
    lemma_keys_of_one('\u{3156}', false);
    lemma_keys_of_one('\u{3158}', false);
    lemma_keys_of_one('\u{3159}', false);
    lemma_keys_of_one('\u{315A}', false);
    lemma_keys_of_one('\u{315D}', false);
    lemma_keys_of_one('\u{315E}', false);
    lemma_keys_of_one('\u{315F}', false);
    lemma_keys_of_one('\u{3162}', false);
    lemma_keys_of_one('\u{3142}', true);
    lemma_keys_of_one('\u{3148}', true);
    lemma_keys_of_one('\u{3137}', true);
    lemma_keys_of_one('\u{3131}', true);
    lemma_keys_of_one('\u{3145}', true);
    lemma_keys_of_one('\u{3150}', true);
    lemma_keys_of_one('\u{3154}', true);
}

/// Distinct jamo are typed with distinct keys, so the engine can tell every
/// jamo apart from the keys it receives.
pub proof fn lemma_dubeolsik_injective(a: char, b: char)
    requires
        '\u{3131}' <= a <= '\u{318E}',
        '\u{3131}' <= b <= '\u{318E}',
        a != b,
    ensures
        korean_keys_of(seq![a], false) != korean_keys_of(seq![b], false),
{
    lemma_keys_of_one(a, false);
    lemma_keys_of_one(b, false);
    let ka = korean_key(a, false);
    let kb = korean_key(b, false);
    if ka == kb {
        assert(ka[0] == kb[0]);
        assert(ka.len() == kb.len());
        if ka.len() == 2 {
            assert(ka[1] == kb[1]);
        }
    }
}

/// Each character is typed on its own: the keys of a text are the keys of its
/// parts, one after the other.
pub proof fn lemma_korean_keys_concat(a: Seq<char>, b: Seq<char>, shift: bool)
    ensures
        korean_keys_of(a + b, shift) == korean_keys_of(a, shift) + korean_keys_of(b, shift),
    decreases b.len(),
{
    if b.len() == 0 {
        assert(a + b =~= a);
        assert(korean_keys_of(a, shift) + Seq::<char>::empty() =~= korean_keys_of(a, shift));
    } else {
        lemma_korean_keys_concat(a, b.drop_last(), shift);
        assert((a + b).drop_last() =~= a + b.drop_last());
        assert((a + b).last() == b.last());
        assert(korean_keys_of(a, shift) + korean_keys_of(b.drop_last(), shift) + korean_key(
            b.last(),
            shift,
        ) =~= korean_keys_of(a, shift) + (korean_keys_of(b.drop_last(), shift) + korean_key(
            b.last(),
            shift,
        )));
    }
}

/// A character that is not a Hangul compatibility jamo is typed as itself.
pub proof fn lemma_korean_keys_other(c: char, shift: bool)
    requires
        !('\u{3131}' <= c <= '\u{318E}'),
    ensures
        korean_keys_of(seq![c], shift) == seq![c],
{
    lemma_keys_of_one(c, shift);
}

/// Dubeolsik physical key mapping, including Shift and compound-vowel popup keys.
pub fn korean_keys(text: &str, shift: bool) -> (r: String)
    ensures
        r@ == korean_keys_of(text@, shift),
{
    let chars = chars_of(text);
    let mut r = String::new();
    let mut i: usize = 0;
    while i < chars.len()
        invariant
            chars@ == text@,
            i <= chars@.len(),
            r@ == korean_keys_of(chars@.take(i as int), shift),
        decreases chars@.len() - i,
    {
        let (a, b) = korean_key_chars(chars[i], shift);
        push_char(&mut r, a);
        if let Some(d) = b {
            push_char(&mut r, d);
        }
        assert(chars@.take(i + 1).drop_last() =~= chars@.take(i as int));
        assert(r@ =~= korean_keys_of(chars@.take(i + 1), shift));
        i = i + 1;
    }
    assert(chars@.take(i as int) =~= chars@);
    r
}

/// Text typed on the Korean layout without composition: jamo become their
/// Latin keys, then ordinary Shift applies to a single resulting character.
pub fn direct_korean_text(text: &str, shift: bool) -> (r: String)
    ensures
        r@ == shifted(korean_keys_of(text@, shift), shift, None),
{
    let keys = korean_keys(text, shift);
    shifted_text(keys.as_str(), shift, None)
}

} // verus!
