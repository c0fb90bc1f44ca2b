//! Reading a value from a text, and writing one down for a reader.

use vstd::prelude::*;

verus! {

/// A value that can be read from a text.
pub trait MyFromStr: Sized {
    /// Why a text could not be read.
    type Err;

    /// Reads a value from `s`.
    fn from_str(s: &str) -> Result<Self, Self::Err>;
}

/// A value that can be written down for a reader.
pub trait MyDisplay {
    /// The value's text.
    spec fn display_text(&self) -> Seq<char>;

    /// Writes the value down.
    fn my_display(&self) -> (text: String)
        ensures
            text@ == self.display_text(),
    ;
}

} // verus!
