//! Japanese conversion: the candidate each segment shows, the active segment
//! and page, and what an editing command does to them. The conversion engine
//! and the romaji parser do the rest, as the returned step says.
use crate::ime::paging::{candidate_index, clamp, move_segment, next_choice, picked, turn_page, turned};
use crate::ime::engines::{romaji_char, romaji_key};
use crate::ime::types::{Command, EngineError, Mode, PAGE_SIZE};
use vstd::prelude::*;

verus! {

/// Most segments a conversion is accepted with.
pub const MAX_SEGMENTS: usize = 64;

/// Most candidates a segment is accepted with.
pub const MAX_CANDIDATES: usize = 10000;

/// Longest candidate text accepted, in bytes.
pub const MAX_CANDIDATE_BYTES: usize = 4096;

/// The work a command leaves to the engine and the romaji parser.
#[derive(Debug, Clone, Copy, PartialEq, Eq, Structural)]
pub enum Step {
    /// Reset the engine, the parser and the conversion.
    Reset,
    /// Feed the text to the parser, character by character.
    Type,
    /// Nothing more.
    Done,
    /// Pass a control key through.
    Control(char),
    /// Commit a space.
    Space,
    /// Remove the parser's last key.
    RomajiBackspace,
    /// Commit the composition as it is shown.
    Finish,
    /// Convert the reading into segments.
    Convert,
    /// Show the active segment's next candidate.
    NextCandidate,
    /// Choose the candidate at this position of the shown page.
    Pick(usize),
    /// Turn the active segment's candidate pages.
    TurnPage(i32),
    /// Resize the active segment by this sign.
    Resize(i32),
    /// Move the parser's cursor.
    MoveCursor(i32),
}

/// The error for a candidate that no longer exists.
pub open spec fn is_expired(e: EngineError) -> bool {
    e.message@ == "Candidate has expired"@ && !e.recoverable
}

fn expired() -> (e: EngineError)
    ensures
        is_expired(e),
{
    EngineError { message: "Candidate has expired".to_owned(), recoverable: false }
}

/// The sign of `d`: -1, 0 or 1.
pub open spec fn sign(d: i32) -> i32 {
    if d < 0 {
        -1i32
    } else if d > 0 {
        1i32
    } else {
        0i32
    }
}

/// The step for `command` while the reading is shown (no conversion), given
/// whether the reading is empty.
pub open spec fn reading_step(command: Command, reading_empty: bool, mode: Mode) -> Option<Step> {
    match command {
        Command::Reset => Some(Step::Reset),
        Command::Text(_) => Some(Step::Type),
        Command::Backspace => Some(
            if reading_empty {
                Step::Control('\u{8}')
            } else {
                Step::RomajiBackspace
            },
        ),
        Command::Space => Some(
            if reading_empty {
                Step::Space
            } else if mode == Mode::Katakana {
                Step::Finish
            } else {
                Step::Convert
            },
        ),
        Command::Enter => Some(
            if reading_empty {
                Step::Control('\n')
            } else {
                Step::Finish
            },
        ),
        Command::Finish => Some(
            if reading_empty {
                Step::Done
            } else {
                Step::Finish
            },
        ),
        Command::Escape => Some(Step::Reset),
        Command::Select(_) => None,
        Command::Left => Some(Step::MoveCursor(-1i32)),
        Command::Right => Some(Step::MoveCursor(1i32)),
        _ => Some(Step::Done),
    }
}

/// The step for `command` while converting.
pub open spec fn converting_step(command: Command) -> Step {
    match command {
        Command::Reset => Step::Reset,
        Command::Text(_) => Step::Type,
        Command::Space => Step::NextCandidate,
        Command::Enter => Step::Finish,
        Command::Finish => Step::Finish,
        Command::Select(i) => Step::Pick(i),
        Command::Page(d) => Step::TurnPage(d),
        Command::Resize(d) => Step::Resize(sign(d)),
        _ => Step::Done,
    }
}

/// While a conversion is shown, Backspace and Escape only drop the conversion
/// and hand the reading back for editing: no command but Reset discards the
/// reading, and none edits the reading, moves its cursor or passes a control
/// through.
pub proof fn lemma_converting_keeps_reading(c: Command)
    ensures
        converting_step(c) is Reset <==> c is Reset,
        c is Backspace ==> converting_step(c) == Step::Done,
        c is Escape ==> converting_step(c) == Step::Done,
        !(converting_step(c) is RomajiBackspace),
        !(converting_step(c) is Control),
        !(converting_step(c) is MoveCursor),
        !(converting_step(c) is Convert),
        !(converting_step(c) is Space),
{
}

/// While converting, each command's step: typing goes on typing, Space shows
/// the next candidate, Enter and Finish commit, a choice picks that very
/// position, a page turn keeps its direction and size, and a resize keeps
/// only its direction.
pub proof fn lemma_converting_steps(c: Command)
    ensures
        c is Text ==> converting_step(c) == Step::Type,
        c is Space ==> converting_step(c) == Step::NextCandidate,
        c is Enter ==> converting_step(c) == Step::Finish,
        c is Finish ==> converting_step(c) == Step::Finish,
        c matches Command::Select(i) ==> converting_step(c) == Step::Pick(i),
        c matches Command::Page(d) ==> converting_step(c) == Step::TurnPage(d),
        c matches Command::Resize(d) ==> (converting_step(c) matches Step::Resize(s) && (d < 0
            ==> s == -1) && (d == 0 ==> s == 0) && (d > 0 ==> s == 1)),
        (c is Left || c is Right || c is Segment || c is Hanja) ==> converting_step(c)
            == Step::Done,
{
}

/// While the reading is shown: Backspace deletes from the reading, or passes
/// through as a control when it is empty; Space converts (commits in
/// Katakana), or types a space on an empty reading; Enter commits, or passes
/// through as Return on an empty reading; Escape discards the reading; the
/// arrows move its cursor by one; a candidate choice has nothing to choose from.
pub proof fn lemma_reading_steps(c: Command, empty: bool, mode: Mode)
    ensures
        c is Backspace && empty ==> reading_step(c, empty, mode) == Some(Step::Control('\u{8}')),
        c is Backspace && !empty ==> reading_step(c, empty, mode) == Some(Step::RomajiBackspace),
        c is Space && empty ==> reading_step(c, empty, mode) == Some(Step::Space),
        c is Space && !empty && mode == Mode::Katakana ==> reading_step(c, empty, mode) == Some(
            Step::Finish,
        ),
        c is Space && !empty && mode != Mode::Katakana ==> reading_step(c, empty, mode) == Some(
            Step::Convert,
        ),
        c is Enter && empty ==> reading_step(c, empty, mode) == Some(Step::Control('\n')),
        c is Enter && !empty ==> reading_step(c, empty, mode) == Some(Step::Finish),
        c is Escape ==> reading_step(c, empty, mode) == Some(Step::Reset),
        c is Left ==> reading_step(c, empty, mode) == Some(Step::MoveCursor(-1i32)),
        c is Right ==> reading_step(c, empty, mode) == Some(Step::MoveCursor(1i32)),
        c is Select <==> reading_step(c, empty, mode) is None,
        c is Text ==> reading_step(c, empty, mode) == Some(Step::Type),
{
}

/// What a typed character does to a Japanese composition.
#[derive(Debug, Clone, Copy, PartialEq, Eq, Structural)]
pub enum Typed {
    /// The parser takes `key`, after the shown conversion (if
    /// `finish_first`) has been committed.
    Key { finish_first: bool, key: char },
    /// The composition is committed, then the character as it is.
    Commit,
}

/// What typing `ch` does while a conversion is shown (`converting`) or not:
/// romaji keys go to the parser (lowercased), committing a shown conversion
/// first; any other character commits the composition and then itself.
pub fn typed_char(ch: char, converting: bool) -> (r: Typed)
    ensures
        !romaji_char(ch) ==> r == Typed::Commit,
        romaji_char(ch) ==> r == (Typed::Key {
            finish_first: converting,
            key: if 'A' <= ch && ch <= 'Z' {
                ((ch as u32) + 32) as char
            } else {
                ch
            },
        }),
{
    match romaji_key(ch) {
        Some(key) => Typed::Key { finish_first: converting, key },
        None => Typed::Commit,
    }
}

/// A conversion in progress, or none (no choices) while the reading is shown.
pub struct Conversion {
    choices: Vec<usize>,
    segment: usize,
    page: usize,
}

impl Conversion {
    #[verifier::type_invariant]
    spec fn bounded(&self) -> bool {
        &&& self.choices@.len() <= MAX_SEGMENTS
        &&& self.segment < MAX_SEGMENTS
        &&& self.choices@.len() > 0 ==> self.segment < self.choices@.len()
        &&& forall|i: int| 0 <= i < self.choices@.len() ==> #[trigger] self.choices@[i] < MAX_CANDIDATES
        &&& self.page * PAGE_SIZE < MAX_CANDIDATES
    }

    /// The chosen candidate of each segment; empty while the reading is shown.
    pub closed spec fn chosen(&self) -> Seq<usize> {
        self.choices@
    }

    /// The active segment.
    pub closed spec fn active(&self) -> int {
        self.segment as int
    }

    /// The shown page of the active segment's candidates.
    pub closed spec fn shown_page(&self) -> int {
        self.page as int
    }

    /// Whether a conversion is shown.
    pub open spec fn is_converting(&self) -> bool {
        self.chosen().len() > 0
    }

    /// No conversion: the reading is shown.
    pub fn new() -> (c: Self)
        ensures
            c.chosen().len() == 0,
            c.active() == 0,
            c.shown_page() == 0,
    {
        Conversion { choices: Vec::new(), segment: 0, page: 0 }
    }

    /// Whether a conversion is shown.
    pub fn converting(&self) -> (r: bool)
        ensures
            r == self.is_converting(),
    {
        self.choices.len() > 0
    }

    /// The chosen candidate of each segment.
    pub fn choices(&self) -> (r: &Vec<usize>)
        ensures
            r@ == self.chosen(),
            r@.len() <= MAX_SEGMENTS,
            forall|i: int| 0 <= i < r@.len() ==> #[trigger] r@[i] < MAX_CANDIDATES,
    {
        proof {
            use_type_invariant(self);
        }
        &self.choices
    }

    /// The active segment, which is one of the segments while converting.
    pub fn segment(&self) -> (r: usize)
        ensures
            r == self.active(),
            r < MAX_SEGMENTS,
            self.is_converting() ==> r < self.chosen().len(),
    {
        proof {
            use_type_invariant(self);
        }
        self.segment
    }

    /// The shown page of the active segment's candidates.
    pub fn page(&self) -> (r: usize)
        ensures
            r == self.shown_page(),
            r * PAGE_SIZE < MAX_CANDIDATES,
    {
        proof {
            use_type_invariant(self);
        }
        self.page
    }

    /// Drops the conversion and every position.
    pub fn reset(&mut self)
        ensures
            final(self).chosen().len() == 0,
            final(self).active() == 0,
            final(self).shown_page() == 0,
    {
        *self = Conversion::new();
    }

    /// The reading was converted into `segments` segments: each shows its
    /// first candidate, the first is active, its first page shown.
    pub fn converted(&mut self, segments: usize)
        requires
            segments <= MAX_SEGMENTS,
        ensures
            final(self).chosen() == Seq::new(segments as nat, |i: int| 0usize),
            final(self).active() == 0,
            final(self).shown_page() == 0,
    {
        *self = Conversion { choices: zeros(segments), segment: 0, page: 0 };
    }

    /// The active segment was resized and the engine now has `segments`
    /// segments: each shows its first candidate again, the active segment
    /// stays where it was if it still exists (else the last one does), and
    /// the first page shows.
    pub fn resized(&mut self, segments: usize)
        requires
            segments <= MAX_SEGMENTS,
        ensures
            final(self).chosen() == Seq::new(segments as nat, |i: int| 0usize),
            final(self).active() == (if segments == 0 {
                0
            } else if old(self).active() < segments - 1 {
                old(self).active()
            } else {
                segments - 1
            }),
            final(self).shown_page() == 0,
    {
        proof {
            use_type_invariant(&*self);
        }
        let segment = if segments == 0 {
            0
        } else if self.segment > segments - 1 {
            segments - 1
        } else {
            self.segment
        };
        *self = Conversion { choices: zeros(segments), segment, page: 0 };
    }

    /// Space while converting: the active segment shows its next candidate
    /// (after the last, the first again) on the page that holds it; the
    /// segment has `count` candidates.
    pub fn next_candidate(&mut self, count: usize)
        requires
            old(self).is_converting(),
            0 < count <= MAX_CANDIDATES,
        ensures
            ({
                let s = old(self).active();
                let next = (old(self).chosen()[s] + 1) % (count as int);
                &&& final(self).chosen() == old(self).chosen().update(s, next as usize)
                &&& final(self).active() == s
                &&& final(self).shown_page() == next / (PAGE_SIZE as int)
            }),
    {
        proof {
            use_type_invariant(&*self);
        }
        let s = self.segment;
        let (next, page) = next_choice(self.choices[s], count);
        let mut choices = self.choices.clone();
        proof {
            assert(choices@ =~= self.choices@);
        }
        choices.set(s, next);
        *self = Conversion { choices, segment: s, page };
    }

    /// Choosing position `index` of the shown page, where the active segment
    /// has `count` candidates: the candidate becomes the segment's choice if
    /// it exists; otherwise the choice has expired and nothing changes.
    pub fn pick(&mut self, index: usize, count: usize) -> (r: Result<(), EngineError>)
        requires
            count <= MAX_CANDIDATES,
        ensures
            ({
                let s = old(self).active();
                let p = picked(old(self).shown_page(), index as int, count as int);
                if old(self).is_converting() && p is Some {
                    &&& r is Ok
                    &&& final(self).chosen() == old(self).chosen().update(s, p->0 as usize)
                    &&& final(self).active() == s
                    &&& final(self).shown_page() == old(self).shown_page()
                } else {
                    &&& r matches Err(e) && is_expired(e)
                    &&& final(self).chosen() == old(self).chosen()
                    &&& final(self).active() == old(self).active()
                    &&& final(self).shown_page() == old(self).shown_page()
                }
            }),
    {
        proof {
            use_type_invariant(&*self);
        }
        if self.choices.len() == 0 {
            return Err(expired());
        }
        match candidate_index(self.page, index, count) {
            Some(choice) => {
                let mut choices = self.choices.clone();
                proof {
                    assert(choices@ =~= self.choices@);
                }
                choices.set(self.segment, choice);
                *self = Conversion { choices, segment: self.segment, page: self.page };
                Ok(())
            },
            None => Err(expired()),
        }
    }

    /// Turns the active segment's pages by `delta`, staying on the pages of
    /// its `count` candidates.
    pub fn turn(&mut self, delta: i32, count: usize)
        requires
            count <= MAX_CANDIDATES,
            i32::MIN <= old(self).shown_page() + delta <= i32::MAX,
        ensures
            final(self).chosen() == old(self).chosen(),
            final(self).active() == old(self).active(),
            final(self).shown_page() == turned(old(self).shown_page(), delta as int, count as int),
    {
        proof {
            use_type_invariant(&*self);
            assert(crate::ime::paging::pages(count as int) <= 1667);
        }
        self.page = turn_page(self.page, delta, count);
    }

    /// What `command` does: the conversion's own changes are made here, and
    /// the returned step is what the engine and the parser still do. Only a
    /// choice without a conversion fails (it has expired).
    pub fn apply(&mut self, command: &Command, reading_empty: bool, mode: Mode) -> (r: Result<
        Step,
        EngineError,
    >)
        requires
            old(self).is_converting() ==> match *command {
                Command::Segment(d) => i32::MIN <= old(self).active() + d <= i32::MAX,
                _ => true,
            },
        ensures
            ({
                let o = *old(self);
                let f = *final(self);
                let n = o.chosen().len() as int;
                if !o.is_converting() {
                    &&& f.chosen() == o.chosen()
                    &&& f.active() == o.active()
                    &&& f.shown_page() == o.shown_page()
                    &&& match reading_step(*command, reading_empty, mode) {
                        Some(s) => r == Ok::<Step, EngineError>(s),
                        None => r matches Err(e) && is_expired(e),
                    }
                } else {
                    &&& r == Ok::<Step, EngineError>(converting_step(*command))
                    &&& match *command {
                        Command::Backspace | Command::Escape => {
                            &&& f.chosen().len() == 0
                            &&& f.active() == o.active()
                            &&& f.shown_page() == o.shown_page()
                        },
                        Command::Segment(d) => {
                            &&& f.chosen() == o.chosen()
                            &&& f.active() == clamp(o.active() + d, 0, n - 1)
                            &&& f.shown_page() == o.chosen()[f.active()] as int / (PAGE_SIZE as int)
                        },
                        Command::Left | Command::Right => {
                            let d: int = if *command is Left {
                                -1
                            } else {
                                1
                            };
                            &&& f.chosen() == o.chosen()
                            &&& f.active() == clamp(o.active() + d, 0, n - 1)
                            &&& f.shown_page() == 0
                        },
                        _ => {
                            &&& f.chosen() == o.chosen()
                            &&& f.active() == o.active()
                            &&& f.shown_page() == o.shown_page()
                        },
                    }
                }
            }),
    {
        proof {
            use_type_invariant(&*self);
        }
        if self.choices.len() == 0 {
            return match command {
                Command::Reset => Ok(Step::Reset),
                Command::Text(_) => Ok(Step::Type),
                Command::Backspace => Ok(
                    if reading_empty {
                        Step::Control('\u{8}')
                    } else {
                        Step::RomajiBackspace
                    },
                ),
                Command::Space => Ok(
                    if reading_empty {
                        Step::Space
                    } else if mode == Mode::Katakana {
                        Step::Finish
                    } else {
                        Step::Convert
                    },
                ),
                Command::Enter => Ok(
                    if reading_empty {
                        Step::Control('\n')
                    } else {
                        Step::Finish
                    },
                ),
                Command::Finish => Ok(
                    if reading_empty {
                        Step::Done
                    } else {
                        Step::Finish
                    },
                ),
                Command::Escape => Ok(Step::Reset),
                Command::Select(_) => Err(expired()),
                Command::Left => Ok(Step::MoveCursor(-1)),
                Command::Right => Ok(Step::MoveCursor(1)),
                _ => Ok(Step::Done),
            };
        }
        let n = self.choices.len();
        match command {
            Command::Reset => Ok(Step::Reset),
            Command::Text(_) => Ok(Step::Type),
            Command::Backspace | Command::Escape => {
                self.choices = Vec::new();
                Ok(Step::Done)
            },
            Command::Space => Ok(Step::NextCandidate),
            Command::Enter | Command::Finish => Ok(Step::Finish),
            Command::Select(i) => Ok(Step::Pick(*i)),
            Command::Page(d) => Ok(Step::TurnPage(*d)),
            Command::Segment(d) => {
                let s = move_segment(self.segment, *d, n);
                self.segment = s;
                self.page = self.choices[s] / PAGE_SIZE;
                Ok(Step::Done)
            },
            Command::Resize(d) => Ok(
                Step::Resize(
                    if *d < 0 {
                        -1
                    } else if *d > 0 {
                        1
                    } else {
                        0
                    },
                ),
            ),
            Command::Left => {
                self.segment = move_segment(self.segment, -1, n);
                self.page = 0;
                Ok(Step::Done)
            },
            Command::Right => {
                self.segment = move_segment(self.segment, 1, n);
                self.page = 0;
                Ok(Step::Done)
            },
            Command::Hanja => Ok(Step::Done),
        }
    }
}

/// `n` zeros.
fn zeros(n: usize) -> (v: Vec<usize>)
    ensures
        v@ == Seq::new(n as nat, |i: int| 0usize),
{
    let mut v: Vec<usize> = Vec::new();
    let mut i: usize = 0;
    while i < n
        invariant
            i <= n,
            v@ == Seq::new(i as nat, |j: int| 0usize),
        decreases n - i,
    {
        v.push(0);
        i = i + 1;
    }
    v
}

/// The engine's segment count, accepted when its status is 0 and the count
/// is at most 64.
pub fn check_segment_count(status: i32, segments: i32) -> (r: Result<usize, EngineError>)
    ensures
        (status == 0 && 0 <= segments <= MAX_SEGMENTS) ==> r == Ok::<usize, EngineError>(
            segments as usize,
        ),
        !(status == 0 && 0 <= segments <= MAX_SEGMENTS) ==> (r matches Err(e) && e.message@
            == "Invalid Japanese segment count"@ && !e.recoverable),
{
    if status == 0 && 0 <= segments && segments <= 64 {
        Ok(segments as usize)
    } else {
        Err(
            EngineError {
                message: "Invalid Japanese segment count".to_owned(),
                recoverable: false,
            },
        )
    }
}

/// A segment's candidate count, accepted when its status is 0 and the count
/// is between 1 and 10000.
pub fn check_candidate_count(status: i32, candidates: i32) -> (r: Result<usize, EngineError>)
    ensures
        (status == 0 && 1 <= candidates <= MAX_CANDIDATES) ==> r == Ok::<usize, EngineError>(
            candidates as usize,
        ),
        !(status == 0 && 1 <= candidates <= MAX_CANDIDATES) ==> (r matches Err(e) && e.message@
            == "Japanese candidates unavailable"@ && !e.recoverable),
{
    if status == 0 && 1 <= candidates && candidates <= 10000 {
        Ok(candidates as usize)
    } else {
        Err(
            EngineError {
                message: "Japanese candidates unavailable".to_owned(),
                recoverable: false,
            },
        )
    }
}

/// A candidate's length in bytes, accepted up to 4096.
pub fn check_candidate_length(length: i32) -> (r: Result<usize, EngineError>)
    ensures
        (0 <= length <= MAX_CANDIDATE_BYTES) ==> r == Ok::<usize, EngineError>(length as usize),
        !(0 <= length <= MAX_CANDIDATE_BYTES) ==> (r matches Err(e) && e.message@
            == "Japanese candidate exceeds text limit"@ && !e.recoverable),
{
    if 0 <= length && length <= 4096 {
        Ok(length as usize)
    } else {
        Err(
            EngineError {
                message: "Japanese candidate exceeds text limit".to_owned(),
                recoverable: false,
            },
        )
    }
}

/// The romaji parser must still be editing unconverted text: state 1 (no
/// input) or 2 (editing).
pub fn check_editable(state: i32) -> (r: Result<(), EngineError>)
    ensures
        r is Ok <==> (state == 1 || state == 2),
        r matches Err(e) ==> e.message@ == "Japanese parser left unconverted editing state"@
            && !e.recoverable,
{
    if state == 1 || state == 2 {
        Ok(())
    } else {
        Err(
            EngineError {
                message: "Japanese parser left unconverted editing state".to_owned(),
                recoverable: false,
            },
        )
    }
}

/// Finishing commits the parser's kana only while it edits unconverted text
/// (state 2), so that no conversion is learned.
pub fn check_unconverted(state: i32) -> (r: Result<(), EngineError>)
    ensures
        r is Ok <==> state == 2,
        r matches Err(e) ==> e.message@ == "Japanese finalization requires unconverted text"@
            && !e.recoverable,
{
    if state == 2 {
        Ok(())
    } else {
        Err(
            EngineError {
                message: "Japanese finalization requires unconverted text".to_owned(),
                recoverable: false,
            },
        )
    }
}

} // verus!
