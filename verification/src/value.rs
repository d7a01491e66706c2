//! Constants, as a chunk holds them.

use vstd::prelude::*;
use vstd::string::*;

verus! {

/// A constant of a chunk's pool.
///
/// A chunk never computes with its constants: it stores them, hands them
/// back, and shows them in listings. So a constant is held here as the text
/// that shows it (`3` for the number three), which whoever makes the constant
/// supplies. Its view is that text.
#[derive(Debug, PartialEq, Eq)]
pub struct Value {
    shown: String,
}

impl View for Value {
    type V = Seq<char>;

    closed spec fn view(&self) -> Seq<char> {
        self.shown@
    }
}

impl Value {
    /// The constant that is shown as `shown`.
    pub fn new(shown: &str) -> (value: Value)
        ensures
            value@ == shown@,
    {
        Value { shown: shown.to_owned() }
    }

    /// The text that shows this constant.
    pub fn as_str(&self) -> (shown: &str)
        ensures
            shown@ == self@,
    {
        self.shown.as_str()
    }

    /// Appends the text that shows this constant.
    pub fn print(&self, out: &mut String)
        ensures
            final(out)@ == old(out)@ + self@,
    {
        out.append(self.shown.as_str());
    }
}

impl Clone for Value {
    fn clone(&self) -> (copy: Value)
        ensures
            copy@ == self@,
    {
        Value { shown: self.shown.clone() }
    }
}

} // verus!
