//! Descriptions of the available languages.
use vstd::prelude::*;

verus! {

/// What the language selector shows of a layout.
#[derive(Debug, Clone)]
pub struct LanguageInfo {
    pub name: String,
    pub flag: String,
    pub code: String,
    pub layout_file: String,
}

} // verus!
