//! The state reported by `get-status`.
use crate::language::manager::LanguageManager;
use vstd::prelude::*;

verus! {

/// The keyboard's state as reported to a status request.
#[derive(Debug, Clone)]
pub struct Status {
    pub current_language: String,
    pub languages: Vec<String>,
    pub shift_pressed: bool,
    pub composition_enabled: bool,
}

impl Status {
    /// The status of a keyboard with this language selection: the current
    /// code and every available code in order.
    pub fn of(manager: &LanguageManager, shift_pressed: bool, composition_enabled: bool) -> (s: Status)
        ensures
            s.current_language@ == manager.current(),
            s.languages@.len() == manager.codes().len(),
            forall|i: int| 0 <= i < s.languages@.len() ==> #[trigger] s.languages@[i]@ == manager.codes()[i],
            s.shift_pressed == shift_pressed,
            s.composition_enabled == composition_enabled,
    {
        let infos = manager.get_available_languages();
        let mut languages: Vec<String> = Vec::new();
        let mut i: usize = 0;
        while i < infos.len()
            invariant
                infos@.len() == manager.codes().len(),
                forall|j: int| 0 <= j < infos@.len() ==> (#[trigger] infos@[j]).code@ == manager.codes()[j],
                i <= infos@.len(),
                languages@.len() == i,
                forall|j: int| 0 <= j < i ==> #[trigger] languages@[j]@ == manager.codes()[j],
            decreases infos@.len() - i,
        {
            languages.push(infos[i].code.clone());
            i = i + 1;
        }
        Status {
            current_language: manager.get_current_language().to_owned(),
            languages,
            shift_pressed,
            composition_enabled,
        }
    }
}

} // verus!
