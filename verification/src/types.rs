//! Small value types shared by the keyboard's parts.
use vstd::prelude::*;

verus! {

/// A layout's language code.
#[derive(Debug, Clone, PartialEq, Eq)]
pub struct LanguageCode(String);

impl LanguageCode {
    /// The code's characters.
    pub closed spec fn code(&self) -> Seq<char> {
        self.0@
    }

    /// Wraps a code.
    pub fn new(code: String) -> (r: Self)
        ensures
            r.code() == code@,
    {
        LanguageCode(code)
    }

    /// The code as text.
    pub fn as_str(&self) -> (r: &str)
        ensures
            r@ == self.code(),
    {
        self.0.as_str()
    }

    /// The code as an owned string (what displaying it shows).
    pub fn to_string(&self) -> (r: String)
        ensures
            r@ == self.code(),
    {
        self.0.clone()
    }
}

impl From<String> for LanguageCode {
    fn from(code: String) -> (r: Self) {
        LanguageCode(code)
    }
}

impl vstd::std_specs::convert::FromSpecImpl<String> for LanguageCode {
    open spec fn obeys_from_spec() -> bool {
        true
    }

    closed spec fn from_spec(v: String) -> LanguageCode {
        LanguageCode(v)
    }
}

/// Position of a row in a layout.
#[derive(Debug, Clone, Copy, PartialEq, Eq, Structural)]
pub struct RowIndex(pub usize);

impl RowIndex {
    pub fn get(&self) -> (r: usize)
        ensures
            r == self.0,
    {
        self.0
    }
}

impl From<usize> for RowIndex {
    fn from(index: usize) -> (r: Self) {
        RowIndex(index)
    }
}

impl vstd::std_specs::convert::FromSpecImpl<usize> for RowIndex {
    open spec fn obeys_from_spec() -> bool {
        true
    }

    open spec fn from_spec(v: usize) -> RowIndex {
        RowIndex(v)
    }
}

/// Position of a key in a row.
#[derive(Debug, Clone, Copy, PartialEq, Eq, Structural)]
pub struct KeyIndex(pub usize);

impl KeyIndex {
    pub fn get(&self) -> (r: usize)
        ensures
            r == self.0,
    {
        self.0
    }
}

impl From<usize> for KeyIndex {
    fn from(index: usize) -> (r: Self) {
        KeyIndex(index)
    }
}

impl vstd::std_specs::convert::FromSpecImpl<usize> for KeyIndex {
    open spec fn obeys_from_spec() -> bool {
        true
    }

    open spec fn from_spec(v: usize) -> KeyIndex {
        KeyIndex(v)
    }
}

} // verus!
