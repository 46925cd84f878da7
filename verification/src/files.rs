//! The inputs of a document, kept in memory under their identifiers.
//!
//! A document reads nothing from disk: whatever it may see was written into
//! this table before.

use vstd::prelude::*;
use crate::fingerprint::{loaded_view, ErrorKind, Loaded};
use crate::identifier::Identifier;
use crate::names::{first_match, lemma_absent, lemma_place, lemma_present, lemma_pushed, place, present};

verus! {

/// Whoever serves the bytes of an input: a table in memory, a disk, a
/// network. The cache asks it at most once for each identifier in a build.
pub trait ContentProvider {
    /// Serves `id`: its bytes, or the reason why there are none. A provider
    /// is expected to give the same answer for the same identifier as long as
    /// what it serves from is not changed.
    fn load(&self, id: &Identifier) -> (loaded: Result<Vec<u8>, ErrorKind>);
}

/// One input with the identifier it was written under.
struct File {
    id: Identifier,
    bytes: Vec<u8>,
}

/// The table of inputs: the content provider of a document.
pub struct MemoryFiles {
    files: Vec<File>,
}

/// The names of the files, in their order.
spec fn names_of(files: Seq<File>) -> Seq<Seq<char>> {
    Seq::new(files.len(), |i: int| files[i].id@)
}

impl View for MemoryFiles {
    type V = Map<Seq<char>, Seq<u8>>;

    closed spec fn view(&self) -> Map<Seq<char>, Seq<u8>> {
        Map::new(
            |name: Seq<char>| present(names_of(self.files@), name),
            |name: Seq<char>| self.files@[place(names_of(self.files@), name)].bytes@,
        )
    }
}

/// What a table with the given content serves for `name`: the bytes written
/// under it, or `NotFound`.
pub open spec fn served(files: Map<Seq<char>, Seq<u8>>, name: Seq<char>) -> Loaded {
    if files.contains_key(name) {
        Ok(files[name])
    } else {
        Err(ErrorKind::NotFound)
    }
}

impl MemoryFiles {
    /// A table without inputs.
    pub fn new() -> (files: MemoryFiles)
        ensures
            files@ == Map::<Seq<char>, Seq<u8>>::empty(),
    {
        let files = MemoryFiles { files: Vec::new() };
        proof {
            assert(files@ =~= Map::<Seq<char>, Seq<u8>>::empty());
        }
        files
    }

    /// The place of the first file of `id`, if it has one.
    fn position(&self, id: &Identifier) -> (found: Option<usize>)
        ensures
            match found {
                Some(i) => {
                    &&& first_match(names_of(self.files@), id@, i as int)
                    &&& self@.contains_key(id@)
                    &&& self@[id@] == self.files[i as int].bytes@
                },
                None => !present(names_of(self.files@), id@) && !self@.contains_key(id@),
            },
    {
        let ghost names = names_of(self.files@);
        let mut i: usize = 0;
        while i < self.files.len()
            invariant
                i <= self.files.len(),
                names == names_of(self.files@),
                forall|j: int| 0 <= j < i ==> #[trigger] names[j] != id@,
            decreases self.files.len() - i,
        {
            if self.files[i].id.same(id) {
                proof {
                    assert(names[i as int] == id@);
                    lemma_place(names, id@, i as int);
                }
                return Some(i);
            }
            i += 1;
        }
        proof {
            lemma_absent(names, id@);
        }
        None
    }

    /// Whether something was written under `id`.
    pub fn contains(&self, id: &Identifier) -> (present: bool)
        ensures
            present == self@.contains_key(id@),
    {
        self.position(id).is_some()
    }

    /// Writes `bytes` under `id`, in place of what was there. Every other
    /// input stays as it is.
    pub fn write(&mut self, id: &Identifier, bytes: Vec<u8>)
        ensures
            final(self)@ == old(self)@.insert(id@, bytes@),
    {
        match self.position(id) {
            Some(i) => {
                self.files[i].bytes = bytes;
                proof {
                    assert(names_of(self.files@) =~= names_of(old(self).files@));
                    assert(self@ =~= old(self)@.insert(id@, bytes@)) by {
                        assert forall|name: Seq<char>| #[trigger]
                            self@.contains_key(name) && name != id@ implies self@[name] == old(
                            self,
                        )@[name] by {
                            lemma_present(names_of(self.files@), name);
                        }
                    }
                }
            },
            None => {
                let file = File { id: id.duplicate(), bytes };
                proof {
                    lemma_pushed(names_of(self.files@), id@);
                    assert(names_of(self.files@.push(file)) =~= names_of(self.files@).push(id@));
                }
                self.files.push(file);
                proof {
                    lemma_place(names_of(self.files@), id@, self.files.len() - 1);
                    assert(self@ =~= old(self)@.insert(id@, bytes@)) by {
                        assert forall|name: Seq<char>| #[trigger]
                            self@.contains_key(name) && name != id@ implies self@[name] == old(
                            self,
                        )@[name] by {
                            lemma_present(names_of(old(self).files@), name);
                        }
                    }
                }
            },
        }
    }

}

impl ContentProvider for MemoryFiles {
    /// Serves `id`: a copy of the bytes written under it, or `NotFound`
    /// where nothing was. The table stays as it is, so the same identifier
    /// gives the same answer until it is written again.
    fn load(&self, id: &Identifier) -> (loaded: Result<Vec<u8>, ErrorKind>)
        ensures
            loaded_view(loaded) == served(self@, id@),
    {
        match self.position(id) {
            Some(i) => Ok(self.files[i].bytes.clone()),
            None => Err(ErrorKind::NotFound),
        }
    }
}

} // verus!
