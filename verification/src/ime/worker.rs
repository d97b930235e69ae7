//! Decisions of the engine worker: which engine serves a layout, when the
//! engines are reset, and which jobs and responses are stale.
use crate::ime::types::{EngineError, Job, Mode, Token};
use crate::text::{chars_of, same_text};
use vstd::prelude::*;

verus! {

/// The composition engines.
#[derive(Debug, Clone, Copy, PartialEq, Eq, Structural)]
pub enum Engine {
    Chinese,
    Japanese,
    Korean,
}

/// The engine that serves a layout code, if any.
pub open spec fn engine_of(language: Seq<char>) -> Option<Engine> {
    if language == seq!['z', 'h'] {
        Some(Engine::Chinese)
    } else if language == seq!['j', 'a'] {
        Some(Engine::Japanese)
    } else if language == seq!['k', 'o'] {
        Some(Engine::Korean)
    } else {
        None
    }
}

/// The engine that serves `language`: Chinese for `zh`, Japanese for `ja`,
/// Korean for `ko`.
pub fn engine_for(language: &str) -> (r: Option<Engine>)
    ensures
        r == engine_of(language@),
{
    let c = chars_of(language);
    if c.len() != 2 {
        return None;
    }
    if c[0] == 'z' && c[1] == 'h' {
        assert(c@ =~= seq!['z', 'h']);
        Some(Engine::Chinese)
    } else if c[0] == 'j' && c[1] == 'a' {
        assert(c@ =~= seq!['j', 'a']);
        Some(Engine::Japanese)
    } else if c[0] == 'k' && c[1] == 'o' {
        assert(c@ =~= seq!['k', 'o']);
        Some(Engine::Korean)
    } else {
        None
    }
}

/// The refusal for a layout without an engine.
pub fn no_engine() -> (e: EngineError)
    ensures
        e.message@ == "No composition engine for this layout"@,
        !e.recoverable,
{
    EngineError { message: "No composition engine for this layout".to_owned(), recoverable: false }
}

/// Why the worker did not take a job: its queue was full (recoverable), or
/// it has stopped.
pub fn refused_job(queue_full: bool) -> (e: EngineError)
    ensures
        queue_full ==> e.message@ == "Input is busy; wait for the current keys to finish"@,
        !queue_full ==> e.message@ == "Input worker has stopped"@,
        e.recoverable == queue_full,
{
    if queue_full {
        EngineError {
            message: "Input is busy; wait for the current keys to finish".to_owned(),
            recoverable: true,
        }
    } else {
        EngineError { message: "Input worker has stopped".to_owned(), recoverable: false }
    }
}

/// What the worker does with a job.
#[derive(Debug, Clone, Copy, PartialEq, Eq, Structural)]
pub enum Step {
    /// The job is stale (or a bare reset): clear the engines and drop it.
    Skip,
    /// Reset the engines for the job's layout and mode, then run it.
    Reset,
    /// Run the job in the engines as they are.
    Run,
}

/// The engine session the worker has set up: context, layout and mode.
pub struct Session {
    current: Option<(Token, String, Mode)>,
}

impl Session {
    /// The context, layout and mode the engines were last reset for.
    pub closed spec fn view(&self) -> Option<(Token, Seq<char>, Mode)> {
        match self.current {
            Some((t, l, m)) => Some((t, l@, m)),
            None => None,
        }
    }

    /// No session yet.
    pub fn new() -> (s: Session)
        ensures
            s.view() is None,
    {
        Session { current: None }
    }

    /// The step for `job` while `active` is the live context: a job of another
    /// context or without a layout is skipped and ends the session; a job of
    /// the session runs; any other needs a reset first.
    pub fn step(&mut self, active: Token, job: &Job) -> (s: Step)
        ensures
            (job.token != active || job.language@.len() == 0) ==> s == Step::Skip && final(self).view() is None,
            !(job.token != active || job.language@.len() == 0) ==> final(self).view() == old(self).view() && (
            s == if old(self).view() == Some((job.token, job.language@, job.mode)) {
                Step::Run
            } else {
                Step::Reset
            }),
    {
        if job.token != active || job.language.as_str().is_empty() {
            self.current = None;
            return Step::Skip;
        }
        let same = match &self.current {
            Some((t, l, m)) => *t == job.token && same_text(l.as_str(), job.language.as_str()) && *m
                == job.mode,
            None => false,
        };
        if same {
            Step::Run
        } else {
            Step::Reset
        }
    }

    /// Records that the engines were reset for `job`.
    pub fn reset_done(&mut self, job: &Job)
        ensures
            final(self).view() == Some((job.token, job.language@, job.mode)),
    {
        self.current = Some((job.token, job.language.as_str().to_owned(), job.mode));
    }

    /// Whether the result of a job of context `token` still belongs to the
    /// live context `active`; a stale one ends the session.
    pub fn deliverable(&mut self, active: Token, token: Token) -> (r: bool)
        ensures
            r == (token == active),
            r ==> final(self).view() == old(self).view(),
            !r ==> final(self).view() is None,
    {
        if token != active {
            self.current = None;
            false
        } else {
            true
        }
    }
}

} // verus!
