//! Properties that hold for a whole type.
use vstd::prelude::*;

verus! {

/// The byte order, or the bit order, of multi-byte values.
#[derive(Clone, Copy, Debug, PartialEq, Eq, Structural)]
pub enum Endianness {
    Be,
    Le,
}

impl Endianness {
    /// How the names of the stream's read methods end.
    pub open spec fn suffix_text(self) -> Seq<char> {
        match self {
            Endianness::Be => "be"@,
            Endianness::Le => "le"@,
        }
    }

    /// How the names of the stream's read methods end.
    pub fn suffix(self) -> (r: &'static str)
        ensures
            r@ == self.suffix_text(),
    {
        match self {
            Endianness::Be => "be",
            Endianness::Le => "le",
        }
    }
}

} // verus!
