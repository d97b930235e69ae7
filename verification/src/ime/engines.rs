//! The engines' work that does not touch the engines themselves: which keys
//! they take, what passes through, and how their state becomes a snapshot.
use crate::ime::types::{Command, EngineError, Snapshot, MAX_COMMIT, MAX_INPUT, PAGE_SIZE};
use crate::text::{byte_len, lemma_encode_concat, text_len};
use vstd::utf8::{encode_utf8, is_char_boundary};
use vstd::prelude::*;

verus! {

broadcast use vstd::string::group_string_axioms;

/// Rime's key code for an editing command, if it has one.
pub open spec fn rime_key_of(c: Command) -> Option<i32> {
    match c {
        Command::Backspace => Some(0xff08),
        Command::Enter => Some(0xff0d),
        Command::Space => Some(32),
        Command::Escape => Some(0xff1b),
        Command::Left => Some(0xff51),
        Command::Right => Some(0xff53),
        Command::Page(delta) => if delta < 0 {
            Some(0xff55)
        } else {
            Some(0xff56)
        },
        _ => None,
    }
}

/// Rime's key code for an editing command, if it has one.
pub fn rime_key(command: &Command) -> (r: Option<i32>)
    ensures
        r == rime_key_of(*command),
        *command is Left ==> r == Some(0xff51i32),
        *command is Right ==> r == Some(0xff53i32),
{
    match command {
        Command::Backspace => Some(0xff08),
        Command::Enter => Some(0xff0d),
        Command::Space => Some(32),
        Command::Escape => Some(0xff1b),
        Command::Left => Some(0xff51),
        Command::Right => Some(0xff53),
        Command::Page(delta) => if *delta < 0 {
            Some(0xff55)
        } else {
            Some(0xff56)
        },
        _ => None,
    }
}

/// The key code sent to Rime for each editing command is the X keysym of that
/// key: BackSpace, Return, space, Escape, Left, Right, Prior (a page back) and
/// Next (a page forward); the other commands send none.
pub proof fn lemma_rime_keysyms(c: Command)
    ensures
        c is Backspace ==> rime_key_of(c) == Some(0xff08i32),
        c is Enter ==> rime_key_of(c) == Some(0xff0di32),
        c is Space ==> rime_key_of(c) == Some(32i32),
        c is Escape ==> rime_key_of(c) == Some(0xff1bi32),
        c is Left ==> rime_key_of(c) == Some(0xff51i32),
        c is Right ==> rime_key_of(c) == Some(0xff53i32),
        c matches Command::Page(d) && d < 0 ==> rime_key_of(c) == Some(0xff55i32),
        c matches Command::Page(d) && d >= 0 ==> rime_key_of(c) == Some(0xff56i32),
        !(c is Backspace || c is Enter || c is Space || c is Escape || c is Left || c is Right
            || c is Page) ==> rime_key_of(c) is None,
{
}

/// What an editing key outputs when the engine does not consume it: Enter,
/// Backspace and Escape pass through as controls, Space as a space.
pub open spec fn passthrough_of(c: Command) -> (Option<char>, bool) {
    match c {
        Command::Enter => (Some('\n'), false),
        Command::Backspace => (Some('\u{0008}'), false),
        Command::Escape => (Some('\u{001b}'), false),
        Command::Space => (None, true),
        _ => (None, false),
    }
}

/// A key the engine does not consume passes through as itself: Enter as
/// Return, Backspace as BackSpace, Escape as Escape, Space as a committed
/// space; other commands output nothing.
pub proof fn lemma_passthrough_keys(c: Command)
    ensures
        c is Enter ==> passthrough_of(c) == (Some('\n'), false),
        c is Backspace ==> passthrough_of(c) == (Some('\u{8}'), false),
        c is Escape ==> passthrough_of(c) == (Some('\u{1b}'), false),
        c is Space ==> passthrough_of(c) == (None::<char>, true),
        !(c is Enter || c is Backspace || c is Escape || c is Space) ==> passthrough_of(c) == (
            None::<char>,
            false,
        ),
{
}

/// What an editing key outputs when the engine does not consume it: a control,
/// and whether a space is committed.
pub fn passthrough(command: &Command) -> (r: (Option<char>, bool))
    ensures
        r == passthrough_of(*command),
{
    match command {
        Command::Enter => (Some('\n'), false),
        Command::Backspace => (Some('\u{0008}'), false),
        Command::Escape => (Some('\u{001b}'), false),
        Command::Space => (None, true),
        _ => (None, false),
    }
}

/// Pinyin types ü as v.
pub fn pinyin_key(ch: char) -> (r: char)
    ensures
        r == if ch == 'ü' || ch == 'Ü' {
            'v'
        } else {
            ch
        },
{
    if ch == 'ü' || ch == 'Ü' {
        'v'
    } else {
        ch
    }
}

/// The key Rime receives for a typed character: its pinyin key when that is
/// ASCII; other characters finish the composition and are committed as typed.
pub fn rime_char(ch: char) -> (r: Option<char>)
    ensures
        r == (if (if ch == 'ü' || ch == 'Ü' { 'v' } else { ch }) as u32 <= 0x7f {
            Some(if ch == 'ü' || ch == 'Ü' { 'v' } else { ch })
        } else {
            None::<char>
        }),
{
    let key = pinyin_key(ch);
    if (key as u32) <= 0x7f {
        Some(key)
    } else {
        None
    }
}

/// Choosing position `index` of the shown candidates, of which `shown` are
/// on the page: refused when no candidate is there.
pub fn check_shown_candidate(index: usize, shown: usize) -> (r: Result<(), EngineError>)
    ensures
        r is Ok <==> index < shown,
        r matches Err(e) ==> e.message@ == "Candidate has expired"@ && !e.recoverable,
{
    if index < shown {
        Ok(())
    } else {
        Err(EngineError { message: "Candidate has expired".to_owned(), recoverable: false })
    }
}

/// Whether a character goes to the romaji parser: ASCII letters, the
/// apostrophe and the long-vowel hyphen.
pub open spec fn romaji_char(ch: char) -> bool {
    ('a' <= ch && ch <= 'z') || ('A' <= ch && ch <= 'Z') || ch == '\'' || ch == '-'
}

/// The key the romaji parser receives for `ch` (lowercased), or none when
/// `ch` finishes the reading and is committed as it is.
pub fn romaji_key(ch: char) -> (r: Option<char>)
    ensures
        !romaji_char(ch) ==> r is None,
        romaji_char(ch) ==> r == Some(if 'A' <= ch && ch <= 'Z' {
            ((ch as u32) + 32) as char
        } else {
            ch
        }),
{
    if ('a' <= ch && ch <= 'z') || ch == '\'' || ch == '-' {
        Some(ch)
    } else if 'A' <= ch && ch <= 'Z' {
        let lower = ((ch as u32) + 32) as u8;
        Some(lower as char)
    } else {
        None
    }
}

/// Whether the Korean engine receives `ch`: ASCII letters (the Dubeolsik keys).
pub fn hangul_key(ch: char) -> (r: bool)
    ensures
        r == (('a' <= ch && ch <= 'z') || ('A' <= ch && ch <= 'Z')),
{
    ('a' <= ch && ch <= 'z') || ('A' <= ch && ch <= 'Z')
}

/// Text the engines hand out: at most 4096 bytes.
pub fn engine_text(text: String) -> (r: Result<String, EngineError>)
    ensures
        r is Ok <==> byte_len(text@) <= MAX_COMMIT,
        r matches Ok(t) ==> t@ == text@,
        r matches Err(e) ==> e.message@ == "Engine text exceeds 4096 bytes"@ && !e.recoverable,
{
    if text_len(text.as_str()) > MAX_COMMIT {
        return Err(EngineError { message: "Engine text exceeds 4096 bytes".to_owned(), recoverable: false });
    }
    Ok(text)
}

/// What Rime reports of its state besides its texts.
#[derive(Debug, Clone, Copy, PartialEq, Eq, Structural)]
pub struct RimeInfo {
    pub count: i32,
    pub page: i32,
    pub last: i32,
    pub selected: i32,
    pub cursor: i32,
    pub start: i32,
    pub end: i32,
}

/// How many candidates of the shown page to fetch: `count` within 0–6.
pub fn candidate_slots(count: i32) -> (n: usize)
    ensures
        n == if count < 0 {
            0
        } else if count > PAGE_SIZE {
            PAGE_SIZE as int
        } else {
            count as int
        },
{
    if count < 0 {
        0
    } else if count > 6 {
        PAGE_SIZE
    } else {
        count as usize
    }
}

/// A reported cursor kept within the preedit of `len` bytes.
pub open spec fn clamp_cursor(cursor: i32, len: int) -> int {
    let c = if cursor < 0 {
        0
    } else {
        cursor as int
    };
    if c > len {
        len
    } else {
        c
    }
}

/// The snapshot of Rime's state: the cursor kept within the preedit (and on a
/// character boundary, else the state is refused), the selection when it lies
/// within the preedit, the selected candidate when it is shown.
pub fn rime_snapshot(info: RimeInfo, preedit: String, candidates: Vec<String>) -> (r: Result<
    Snapshot,
    EngineError,
>)
    ensures
        ({
            let len = encode_utf8(preedit@).len() as int;
            let cursor = clamp_cursor(info.cursor, len);
            &&& r is Err <==> !is_char_boundary(encode_utf8(preedit@), cursor)
            &&& r matches Err(e) ==> e.message@ == "Invalid Chinese preedit cursor"@ && !e.recoverable
            &&& r matches Ok(s) ==> {
                &&& s.preedit@ == preedit@
                &&& s.cursor == cursor
                &&& s.selection == if info.start >= 0 && info.end >= info.start && info.end <= len {
                    Some((info.start as usize, info.end as usize))
                } else {
                    None::<(usize, usize)>
                }
                &&& s.selected == if 0 <= info.selected < candidates@.len() {
                    Some(info.selected as usize)
                } else {
                    None::<usize>
                }
                &&& s.candidates@ == candidates@
                &&& s.page == if info.page < 0 {
                    0
                } else {
                    info.page as usize
                }
                &&& s.has_previous == (info.page > 0)
                &&& s.has_next == (info.count > 0 && info.last == 0)
                &&& !s.pending_romaji
                &&& s.segments == 0
                &&& s.active_segment == 0
                &&& s.committed@.len() == 0
                &&& s.control is None
            }
        }),
{
    let len = text_len(preedit.as_str());
    let cursor: usize = if info.cursor < 0 {
        0
    } else if info.cursor as usize > len {
        len
    } else {
        info.cursor as usize
    };
    if !preedit.as_str().is_char_boundary(cursor) {
        return Err(EngineError { message: "Invalid Chinese preedit cursor".to_owned(), recoverable: false });
    }
    let selection = if info.start >= 0 && info.end >= info.start && info.end as usize <= len {
        Some((info.start as usize, info.end as usize))
    } else {
        None
    };
    let selected = if info.selected >= 0 && (info.selected as usize) < candidates.len() {
        Some(info.selected as usize)
    } else {
        None
    };
    let mut s = Snapshot::default();
    s.preedit = preedit;
    s.cursor = cursor;
    s.selection = selection;
    s.selected = selected;
    s.candidates = candidates;
    s.page = if info.page < 0 {
        0
    } else {
        info.page as usize
    };
    s.has_previous = info.page > 0;
    s.has_next = info.count > 0 && info.last == 0;
    Ok(s)
}

/// The romaji parser's reading: its text, the cursor (a byte offset) and the
/// romaji not yet turned into kana.
#[derive(Debug, Clone)]
pub struct Reading {
    pub text: String,
    pub cursor: usize,
    pub pending: String,
}

/// Whether the cursor may move in `reading`: not while romaji waits to
/// become kana.
pub fn cursor_may_move(reading: &Reading) -> (r: bool)
    ensures
        r == (reading.pending@.len() == 0),
{
    reading.pending.as_str().is_empty()
}

/// Flag of the preview part that holds the cursor.
pub const CURSOR_FLAG: u32 = 1;

/// Flag of a preview part that is still romaji.
pub const PENDING_FLAG: u32 = 16;

/// The text of all preview parts.
pub open spec fn parts_text(parts: Seq<(String, u32)>) -> Seq<char>
    decreases parts.len(),
{
    if parts.len() == 0 {
        Seq::empty()
    } else {
        parts_text(parts.drop_last()) + parts.last().0@
    }
}

/// The text of the parts still in romaji.
pub open spec fn pending_text(parts: Seq<(String, u32)>) -> Seq<char>
    decreases parts.len(),
{
    if parts.len() == 0 {
        Seq::empty()
    } else {
        pending_text(parts.drop_last()) + if parts.last().1 & PENDING_FLAG != 0 {
            parts.last().0@
        } else {
            Seq::empty()
        }
    }
}

/// Where the last part flagged with the cursor starts, in bytes.
pub open spec fn cursor_at(parts: Seq<(String, u32)>) -> Option<int>
    decreases parts.len(),
{
    if parts.len() == 0 {
        None
    } else if parts.last().1 & CURSOR_FLAG != 0 {
        Some(encode_utf8(parts_text(parts.drop_last())).len() as int)
    } else {
        cursor_at(parts.drop_last())
    }
}

/// The bytes of the preview parts.
pub open spec fn parts_bytes(parts: Seq<(String, u32)>) -> int {
    encode_utf8(parts_text(parts)).len() as int
}

/// A longer prefix of the parts takes at least as many bytes.
pub proof fn lemma_parts_bytes_grow(parts: Seq<(String, u32)>, i: int, j: int)
    requires
        0 <= i <= j <= parts.len(),
    ensures
        parts_bytes(parts.take(i)) <= parts_bytes(parts.take(j)),
    decreases j - i,
{
    if i < j {
        lemma_parts_bytes_grow(parts, i, j - 1);
        let p = parts.take(j);
        assert(p.drop_last() =~= parts.take(j - 1));
        lemma_encode_concat(parts_text(parts.take(j - 1)), p.last().0@);
    }
}

/// The reading of the parser's preview parts, each a text with flags: the
/// parts joined, the cursor where the flagged part starts (else at the end),
/// and the romaji parts. At most 1024 parts and 4096 bytes.
pub fn reading_of(parts: Vec<(String, u32)>) -> (r: Result<Reading, EngineError>)
    ensures
        ({
            let n = parts@.len();
            let shown = if n > MAX_INPUT {
                MAX_INPUT as int
            } else {
                n as int
            };
            &&& r is Ok <==> n <= MAX_INPUT && parts_bytes(parts@) <= MAX_COMMIT
            &&& r matches Err(e) ==> !e.recoverable && if parts_bytes(parts@.take(shown)) > MAX_COMMIT {
                e.message@ == "Japanese reading exceeds text limit"@
            } else {
                e.message@ == "Japanese preview exceeds segment limit"@
            }
            &&& r matches Ok(reading) ==> {
                &&& reading.text@ == parts_text(parts@)
                &&& reading.pending@ == pending_text(parts@)
                &&& reading.cursor == match cursor_at(parts@) {
                    Some(c) => c,
                    None => parts_bytes(parts@),
                }
            }
        }),
{
    let mut text = String::new();
    let mut pending = String::new();
    let mut cursor: Option<usize> = None;
    let mut i: usize = 0;
    let n = parts.len();
    while i < n
        invariant
            n == parts@.len(),
            i <= n,
            i <= MAX_INPUT,
            text@ == parts_text(parts@.take(i as int)),
            pending@ == pending_text(parts@.take(i as int)),
            encode_utf8(text@).len() <= MAX_COMMIT,
            cursor == match cursor_at(parts@.take(i as int)) {
                Some(c) => Some(c as usize),
                None => None::<usize>,
            },
            forall|c: int| cursor_at(parts@.take(i as int)) == Some(c) ==> 0 <= c <= MAX_COMMIT,
        decreases n - i,
    {
        let ghost before = parts@.take(i as int);
        proof {
            assert(parts@.take(i + 1).drop_last() =~= before);
            assert(parts@.take(i + 1).last() == parts@[i as int]);
        }
        if i >= MAX_INPUT {
            proof {
                lemma_parts_bytes_grow(parts@, i as int, n as int);
                assert(parts@.take(n as int) =~= parts@);
                assert(parts@.take(MAX_INPUT as int) =~= before);
            }
            return Err(
                EngineError {
                    message: "Japanese preview exceeds segment limit".to_owned(),
                    recoverable: false,
                },
            );
        }
        let flags = parts[i].1;
        let have = text_len(text.as_str());
        if flags & CURSOR_FLAG != 0 {
            cursor = Some(have);
        }
        let add = text_len(parts[i].0.as_str());
        proof {
            lemma_encode_concat(text@, parts@[i as int].0@);
        }
        if add > MAX_COMMIT - have {
            proof {
                lemma_parts_bytes_grow(parts@, i + 1, n as int);
                assert(parts@.take(n as int) =~= parts@);
                if n > MAX_INPUT {
                    lemma_parts_bytes_grow(parts@, i + 1, MAX_INPUT as int);
                } else {
                    assert(parts@.take(n as int) =~= parts@);
                }
            }
            return Err(
                EngineError {
                    message: "Japanese reading exceeds text limit".to_owned(),
                    recoverable: false,
                },
            );
        }
        text.append(parts[i].0.as_str());
        if flags & PENDING_FLAG != 0 {
            pending.append(parts[i].0.as_str());
        } else {
            assert(pending@ + Seq::<char>::empty() =~= pending@);
        }
        i = i + 1;
    }
    proof {
        assert(parts@.take(n as int) =~= parts@);
    }
    let cursor = match cursor {
        Some(c) => c,
        None => text_len(text.as_str()),
    };
    Ok(Reading { text, cursor, pending })
}

/// The snapshot of an unconverted reading.
pub fn reading_snapshot(reading: Reading) -> (s: Snapshot)
    ensures
        s.preedit@ == reading.text@,
        s.cursor == reading.cursor,
        s.pending_romaji == (reading.pending@.len() > 0),
        s.selection is None,
        s.candidates@.len() == 0,
        s.selected is None,
        s.page == 0,
        !s.has_previous && !s.has_next,
        s.segments == 0 && s.active_segment == 0,
        s.committed@.len() == 0,
        s.control is None,
{
    let mut s = Snapshot::default();
    s.pending_romaji = !reading.pending.as_str().is_empty();
    s.preedit = reading.text;
    s.cursor = reading.cursor;
    s
}

/// The converted segments' texts joined.
pub open spec fn segments_text(segments: Seq<String>) -> Seq<char>
    decreases segments.len(),
{
    if segments.len() == 0 {
        Seq::empty()
    } else {
        segments_text(segments.drop_last()) + segments.last()@
    }
}

/// Bytes of the first `k` segments.
pub open spec fn segments_bytes(segments: Seq<String>, k: int) -> int {
    encode_utf8(segments_text(segments.take(k))).len() as int
}

/// The snapshot of a conversion: the chosen candidates of all segments
/// joined, the active segment selected (the cursor at its end), and the
/// shown page of its candidates, of which `count` exist.
pub fn conversion_snapshot(
    segments: Vec<String>,
    active: usize,
    choice: usize,
    page: usize,
    count: usize,
    candidates: Vec<String>,
) -> (s: Snapshot)
    requires
        page * PAGE_SIZE + PAGE_SIZE <= usize::MAX,
    ensures
        ({
            let n = segments@.len() as int;
            let begin = page * PAGE_SIZE;
            &&& s.preedit@ == segments_text(segments@)
            &&& s.selection == if active < n {
                Some(
                    (
                        segments_bytes(segments@, active as int) as usize,
                        segments_bytes(segments@, active + 1) as usize,
                    ),
                )
            } else {
                None::<(usize, usize)>
            }
            &&& s.cursor == match s.selection {
                Some((_, end)) => end as int,
                None => segments_bytes(segments@, n),
            }
            &&& s.selected == if begin <= choice && choice - begin < candidates@.len() {
                Some((choice - begin) as usize)
            } else {
                None::<usize>
            }
            &&& s.candidates@ == candidates@
            &&& s.page == page
            &&& s.has_previous == (page > 0)
            &&& s.has_next == (begin + PAGE_SIZE < count)
            &&& s.segments == n
            &&& s.active_segment == active
            &&& !s.pending_romaji
            &&& s.committed@.len() == 0
            &&& s.control is None
        }),
{
    let mut preedit = String::new();
    let mut selection: Option<(usize, usize)> = None;
    let n = segments.len();
    let mut i: usize = 0;
    while i < n
        invariant
            n == segments@.len(),
            i <= n,
            preedit@ == segments_text(segments@.take(i as int)),
            selection == if active < i {
                Some(
                    (
                        segments_bytes(segments@, active as int) as usize,
                        segments_bytes(segments@, active + 1) as usize,
                    ),
                )
            } else {
                None::<(usize, usize)>
            },
        decreases n - i,
    {
        proof {
            assert(segments@.take(i + 1).drop_last() =~= segments@.take(i as int));
            assert(segments@.take(i + 1).last() == segments@[i as int]);
        }
        let start = text_len(preedit.as_str());
        preedit.append(segments[i].as_str());
        if i == active {
            selection = Some((start, text_len(preedit.as_str())));
        }
        i = i + 1;
    }
    proof {
        assert(segments@.take(n as int) =~= segments@);
    }
    let cursor = match selection {
        Some((_, end)) => end,
        None => text_len(preedit.as_str()),
    };
    let begin = page * PAGE_SIZE;
    let selected = if choice >= begin && choice - begin < candidates.len() {
        Some(choice - begin)
    } else {
        None
    };
    let mut s = Snapshot::default();
    s.preedit = preedit;
    s.selection = selection;
    s.cursor = cursor;
    s.selected = selected;
    s.candidates = candidates;
    s.page = page;
    s.has_previous = page > 0;
    s.has_next = begin + PAGE_SIZE < count;
    s.segments = n;
    s.active_segment = active;
    s
}

/// The snapshot of Korean input: the preedit with the cursor at its end, and
/// the shown page of the Hanja candidates.
pub fn hanja_snapshot(preedit: String, candidates: &Vec<String>, page: usize) -> (s: Snapshot)
    requires
        page * PAGE_SIZE + PAGE_SIZE <= usize::MAX,
    ensures
        ({
            let begin = page * PAGE_SIZE;
            let len = candidates@.len() as int;
            let shown = if begin >= len {
                0
            } else if len - begin > PAGE_SIZE {
                PAGE_SIZE as int
            } else {
                len - begin
            };
            &&& s.preedit@ == preedit@
            &&& s.cursor == encode_utf8(preedit@).len()
            &&& s.candidates@.len() == shown
            &&& forall|i: int| 0 <= i < shown ==> (#[trigger] s.candidates@[i])@ == candidates@[begin + i]@
            &&& s.page == page
            &&& s.has_previous == (page > 0)
            &&& s.has_next == (begin + PAGE_SIZE < len)
            &&& s.selection is None
            &&& s.selected is None
            &&& !s.pending_romaji
            &&& s.segments == 0
            &&& s.active_segment == 0
            &&& s.committed@.len() == 0
            &&& s.control is None
        }),
{
    let begin = page * PAGE_SIZE;
    let len = candidates.len();
    let end = if begin >= len {
        begin
    } else if len - begin > PAGE_SIZE {
        begin + PAGE_SIZE
    } else {
        len
    };
    let mut shown: Vec<String> = Vec::new();
    let mut i = begin;
    while i < end
        invariant
            begin <= i <= end,
            end <= len || end == begin,
            len == candidates@.len(),
            shown@.len() == i - begin,
            forall|j: int| 0 <= j < i - begin ==> (#[trigger] shown@[j])@ == candidates@[begin + j]@,
        decreases end - i,
    {
        shown.push(candidates[i].clone());
        i = i + 1;
    }
    let mut s = Snapshot::default();
    s.cursor = text_len(preedit.as_str());
    s.preedit = preedit;
    s.candidates = shown;
    s.page = page;
    s.has_previous = page > 0;
    s.has_next = begin + PAGE_SIZE < len;
    s
}

/// How the romaji parser's reading is finished.
#[derive(Debug, Clone, Copy, PartialEq, Eq, Structural)]
pub enum FinishPlan {
    /// Nothing was typed.
    Nothing,
    /// Romaji that is not kana yet is committed as the reading shows it.
    AsShown,
    /// The parser commits its kana.
    Commit,
}

/// How to finish `reading`: a trailing lone `n` still becomes kana.
pub fn finish_plan(reading: &Reading) -> (p: FinishPlan)
    ensures
        reading.text@.len() == 0 ==> p == FinishPlan::Nothing,
        reading.text@.len() > 0 && reading.pending@.len() > 0 && reading.pending@ != seq!['n']
            ==> p == FinishPlan::AsShown,
        reading.text@.len() > 0 && (reading.pending@.len() == 0 || reading.pending@ == seq!['n'])
            ==> p == FinishPlan::Commit,
{
    if reading.text.as_str().is_empty() {
        return FinishPlan::Nothing;
    }
    if !reading.pending.as_str().is_empty() && !is_lone_n(&reading.pending) {
        FinishPlan::AsShown
    } else {
        FinishPlan::Commit
    }
}

/// Whether a conversion must first close a trailing lone `n` with an apostrophe.
pub fn is_lone_n(pending: &String) -> (r: bool)
    ensures
        r == (pending@ == seq!['n']),
{
    let c = crate::text::chars_of(pending.as_str());
    let r = c.len() == 1 && c[0] == 'n';
    proof {
        if r {
            assert(c@ =~= seq!['n']);
        }
    }
    r
}

} // verus!
