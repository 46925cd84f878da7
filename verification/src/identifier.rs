//! Names of the inputs of a document.

use vstd::prelude::*;

verus! {

/// The name of one logical input, such as `main` or `data.txt`.
///
/// Two identifiers are the same input exactly when their names are the same
/// text; nothing in this crate reads anything else out of a name.
#[derive(Debug, Clone, PartialEq, Eq, Hash)]
pub struct Identifier {
    name: String,
}

impl View for Identifier {
    type V = Seq<char>;

    closed spec fn view(&self) -> Seq<char> {
        self.name@
    }
}

impl Identifier {
    /// The identifier with the given name.
    pub fn new(name: &str) -> (id: Identifier)
        ensures
            id@ == name@,
    {
        Identifier { name: name.to_owned() }
    }

    /// The name this identifier was made from.
    pub fn as_str(&self) -> (name: &str)
        ensures
            name@ == self@,
    {
        self.name.as_str()
    }

    /// Whether both identifiers name the same input.
    pub fn same(&self, other: &Identifier) -> (equal: bool)
        ensures
            equal == (self@ == other@),
    {
        self.name == other.name
    }

    /// A second handle on the same input.
    pub fn duplicate(&self) -> (id: Identifier)
        ensures
            id@ == self@,
    {
        Identifier { name: self.name.clone() }
    }
}

} // verus!
