//! Korean input: the keys typed into the Hangul engine, the Hanja candidates
//! offered for the preedit, and what an editing command does to them. The
//! engine and the Hanja table do the rest, as the returned step says.
use crate::ime::japanese::MAX_CANDIDATES;
use crate::ime::paging::{candidate_index, picked, turn_page, turned};
use crate::ime::types::{check_input_limit, Command, EngineError, MAX_INPUT, PAGE_SIZE};
use crate::text::{byte_len, push_char, scalar_char, text_len};
use vstd::utf8::is_scalar;
use vstd::prelude::*;

verus! {

/// The work a command leaves to the Hangul engine and the Hanja table.
#[derive(Debug, Clone)]
pub enum KoreanStep {
    /// Reset the engine and the input.
    Reset,
    /// Feed the text to the engine, key by key.
    Type,
    /// The engine removes its last key (or is replayed from the keys left).
    Backspace,
    /// Pass a control key through.
    Control(char),
    /// Commit the composition, then a space.
    FinishWithSpace,
    /// Commit the composition.
    Finish,
    /// Nothing more.
    Done,
    /// Look the preedit up in the Hanja table.
    LookUp,
    /// Commit this candidate, then reset.
    Commit(String),
}

/// Whether `e` is the error for a Hanja candidate that no longer exists.
pub open spec fn is_hanja_expired(e: EngineError) -> bool {
    e.message@ == "Hanja candidate has expired"@ && !e.recoverable
}

/// The keys the engine has taken, and the Hanja candidates on offer with the
/// page shown.
pub struct KoreanInput {
    keys: Vec<char>,
    candidates: Vec<String>,
    page: usize,
}

impl KoreanInput {
    /// The candidates fit the limit and the shown page lies within it.
    pub closed spec fn wf(&self) -> bool {
        &&& self.candidates@.len() <= MAX_CANDIDATES
        &&& self.page * PAGE_SIZE < MAX_CANDIDATES
    }

    /// The keys the engine has taken, in order.
    pub closed spec fn typed(&self) -> Seq<char> {
        self.keys@
    }

    /// The Hanja candidates on offer.
    pub closed spec fn offered(&self) -> Seq<String> {
        self.candidates@
    }

    /// The shown page of the candidates.
    pub closed spec fn shown_page(&self) -> int {
        self.page as int
    }

    /// Nothing typed, nothing offered.
    pub fn new() -> (k: Self)
        ensures
            k.wf(),
            k.typed().len() == 0,
            k.offered().len() == 0,
            k.shown_page() == 0,
    {
        KoreanInput { keys: Vec::new(), candidates: Vec::new(), page: 0 }
    }

    /// Forgets the keys and the candidates.
    pub fn reset(&mut self)
        ensures
            final(self).wf(),
            final(self).typed().len() == 0,
            final(self).offered().len() == 0,
            final(self).shown_page() == 0,
    {
        *self = KoreanInput::new();
    }

    /// The keys the engine has taken.
    pub fn keys(&self) -> (r: &Vec<char>)
        ensures
            r@ == self.typed(),
    {
        &self.keys
    }

    /// The Hanja candidates on offer.
    pub fn candidates(&self) -> (r: &Vec<String>)
        requires
            self.wf(),
        ensures
            r@ == self.offered(),
            r@.len() <= MAX_CANDIDATES,
    {
        &self.candidates
    }

    /// The shown page of the candidates.
    pub fn page(&self) -> (r: usize)
        requires
            self.wf(),
        ensures
            r == self.shown_page(),
            r * PAGE_SIZE < MAX_CANDIDATES,
    {
        self.page
    }

    /// The engine took `key`.
    pub fn took(&mut self, key: char)
        requires
            old(self).wf(),
        ensures
            final(self).wf(),
            final(self).typed() == old(self).typed().push(key),
            final(self).offered() == old(self).offered(),
            final(self).shown_page() == old(self).shown_page(),
    {
        self.keys.push(key);
    }

    /// The Hanja table offers `candidates` for the preedit: the first page shows.
    pub fn found(&mut self, candidates: Vec<String>)
        requires
            candidates@.len() <= MAX_CANDIDATES,
        ensures
            final(self).wf(),
            final(self).typed() == old(self).typed(),
            final(self).offered() == candidates@,
            final(self).shown_page() == 0,
    {
        self.candidates = candidates;
        self.page = 0;
    }

    /// What `command` does: the input's own changes are made here, and the
    /// returned step is what the engine and the Hanja table still do. Typing
    /// past 1024 bytes of keys is refused (recoverably, with nothing changed),
    /// and so is choosing a candidate that is not on the shown page.
    pub fn apply(&mut self, command: &Command) -> (r: Result<KoreanStep, EngineError>)
        requires
            old(self).wf(),
            match *command {
                Command::Page(d) => i32::MIN <= old(self).shown_page() + d <= i32::MAX,
                _ => true,
            },
        ensures
            final(self).wf(),
            ({
                let o = *old(self);
                let f = *final(self);
                let n = o.offered().len() as int;
                let unchanged = f.typed() == o.typed() && f.offered() == o.offered()
                    && f.shown_page() == o.shown_page();
                match *command {
                    Command::Reset => (r matches Ok(KoreanStep::Reset)) && unchanged,
                    Command::Text(text) => if o.typed().len() + byte_len(text@) > MAX_INPUT {
                        &&& (r matches Err(e) && e.recoverable)
                        &&& unchanged
                    } else {
                        &&& (r matches Ok(KoreanStep::Type))
                        &&& f.typed() == o.typed()
                        &&& f.offered().len() == 0
                        &&& f.shown_page() == o.shown_page()
                    },
                    Command::Backspace => {
                        &&& f.offered().len() == 0
                        &&& f.shown_page() == o.shown_page()
                        &&& if o.typed().len() > 0 {
                            &&& (r matches Ok(KoreanStep::Backspace))
                            &&& f.typed() == o.typed().drop_last()
                        } else {
                            &&& (r matches Ok(KoreanStep::Control(c)) && c == '\u{8}')
                            &&& f.typed() == o.typed()
                        }
                    },
                    Command::Space => (r matches Ok(KoreanStep::FinishWithSpace)) && unchanged,
                    Command::Enter => unchanged && if o.typed().len() == 0 {
                        r matches Ok(KoreanStep::Control(c)) && c == '\n'
                    } else {
                        r matches Ok(KoreanStep::Finish)
                    },
                    Command::Finish => unchanged && if o.typed().len() == 0 {
                        r matches Ok(KoreanStep::Done)
                    } else {
                        r matches Ok(KoreanStep::Finish)
                    },
                    Command::Escape => if n == 0 {
                        (r matches Ok(KoreanStep::Reset)) && unchanged
                    } else {
                        &&& (r matches Ok(KoreanStep::Done))
                        &&& f.typed() == o.typed()
                        &&& f.offered().len() == 0
                        &&& f.shown_page() == o.shown_page()
                    },
                    Command::Hanja => (r matches Ok(KoreanStep::LookUp)) && unchanged,
                    Command::Select(i) => unchanged && match picked(o.shown_page(), i as int, n) {
                        Some(c) => r matches Ok(KoreanStep::Commit(t)) && t@ == o.offered()[c]@,
                        None => r matches Err(e) && is_hanja_expired(e),
                    },
                    Command::Page(d) => {
                        &&& (r matches Ok(KoreanStep::Done))
                        &&& f.typed() == o.typed()
                        &&& f.offered() == o.offered()
                        &&& f.shown_page() == turned(o.shown_page(), d as int, n)
                    },
                    _ => (r matches Ok(KoreanStep::Done)) && unchanged,
                }
            }),
    {
        match command {
            Command::Reset => Ok(KoreanStep::Reset),
            Command::Text(text) => {
                let have = self.keys.len();
                let add = text_len(text.as_str());
                let total = if add <= usize::MAX - have {
                    have + add
                } else {
                    usize::MAX
                };
                check_input_limit(total)?;
                self.candidates = Vec::new();
                Ok(KoreanStep::Type)
            },
            Command::Backspace => {
                self.candidates = Vec::new();
                match self.keys.pop() {
                    Some(_) => Ok(KoreanStep::Backspace),
                    None => Ok(KoreanStep::Control('\u{8}')),
                }
            },
            Command::Space => Ok(KoreanStep::FinishWithSpace),
            Command::Enter => if self.keys.len() == 0 {
                Ok(KoreanStep::Control('\n'))
            } else {
                Ok(KoreanStep::Finish)
            },
            Command::Finish => if self.keys.len() == 0 {
                Ok(KoreanStep::Done)
            } else {
                Ok(KoreanStep::Finish)
            },
            Command::Escape => if self.candidates.len() == 0 {
                Ok(KoreanStep::Reset)
            } else {
                self.candidates = Vec::new();
                Ok(KoreanStep::Done)
            },
            Command::Hanja => Ok(KoreanStep::LookUp),
            Command::Select(i) => match candidate_index(self.page, *i, self.candidates.len()) {
                Some(c) => Ok(KoreanStep::Commit(self.candidates[c].clone())),
                None => Err(
                    EngineError {
                        message: "Hanja candidate has expired".to_owned(),
                        recoverable: false,
                    },
                ),
            },
            Command::Page(d) => {
                self.page = turn_page(self.page, *d, self.candidates.len());
                Ok(KoreanStep::Done)
            },
            _ => Ok(KoreanStep::Done),
        }
    }
}

/// The Hanja table's candidate count, accepted up to 10000.
pub fn check_hanja_count(count: i32) -> (r: Result<usize, EngineError>)
    ensures
        (0 <= count <= MAX_CANDIDATES) ==> r == Ok::<usize, EngineError>(count as usize),
        !(0 <= count <= MAX_CANDIDATES) ==> (r matches Err(e) && e.message@
            == "Hanja candidate count exceeds limit"@ && !e.recoverable),
{
    if 0 <= count && count <= 10000 {
        Ok(count as usize)
    } else {
        Err(
            EngineError {
                message: "Hanja candidate count exceeds limit".to_owned(),
                recoverable: false,
            },
        )
    }
}

/// The first `k` values are characters, none of them the terminating zero.
pub open spec fn characters_before(values: Seq<u32>, k: int) -> bool {
    forall|i: int| 0 <= i < k ==> #[trigger] values[i] != 0 && is_scalar(values[i])
}

/// The text of a zero-terminated UTF-32 string the Hangul engine hands out,
/// read from its first values: the characters before the first zero. A value
/// that is no character, or no zero among the first 1024 values, is an error.
pub fn ucs4_text(values: &Vec<u32>) -> (r: Result<String, EngineError>)
    ensures
        ({
            let v = values@;
            let n = if v.len() < MAX_INPUT {
                v.len() as int
            } else {
                MAX_INPUT as int
            };
            &&& forall|z: int|
                0 <= z < n && v[z] == 0 && characters_before(v, z) ==> (r matches Ok(t) && t@.len()
                    == z && forall|i: int| 0 <= i < z ==> #[trigger] t@[i] as u32 == v[i])
            &&& forall|i: int|
                0 <= i < n && v[i] != 0 && !is_scalar(v[i]) && characters_before(v, i) ==> (r matches Err(
                    e,
                ) && e.message@ == "Invalid Korean engine character"@ && !e.recoverable)
            &&& characters_before(v, n) ==> (r matches Err(e) && e.message@
                == "Korean engine text exceeds limit"@ && !e.recoverable)
        }),
{
    let n = if values.len() < MAX_INPUT {
        values.len()
    } else {
        MAX_INPUT
    };
    let mut text = String::new();
    let mut i: usize = 0;
    while i < n
        invariant
            n <= values@.len(),
            n == (if values@.len() < MAX_INPUT { values@.len() as int } else { MAX_INPUT as int }),
            i <= n,
            characters_before(values@, i as int),
            text@.len() == i,
            forall|j: int| 0 <= j < i ==> #[trigger] text@[j] as u32 == values@[j],
        decreases n - i,
    {
        let v = values[i];
        if v == 0 {
            return Ok(text);
        }
        match scalar_char(v) {
            Some(c) => push_char(&mut text, c),
            None => {
                return Err(
                    EngineError {
                        message: "Invalid Korean engine character".to_owned(),
                        recoverable: false,
                    },
                );
            },
        }
        i = i + 1;
    }
    Err(EngineError { message: "Korean engine text exceeds limit".to_owned(), recoverable: false })
}

} // verus!
