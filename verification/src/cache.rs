//! The slots of a document, found by identifier.

use vstd::prelude::*;
use crate::files::ContentProvider;
use crate::fingerprint::{loaded_view, ErrorKind, Fingerprint};
use crate::identifier::Identifier;
use crate::names::{first_match, lemma_absent, lemma_place, lemma_present, lemma_pushed, place, present};
use crate::slot::{result_cloned, Slot, SlotView};

verus! {

/// One slot with the identifier it belongs to.
struct Entry<T> {
    id: Identifier,
    slot: Slot<T>,
}

/// The slots of all inputs that were ever resolved, each under its
/// identifier.
pub struct SlotCache<T> {
    entries: Vec<Entry<T>>,
}

/// The names of the entries, in their order.
spec fn names_of<T>(entries: Seq<Entry<T>>) -> Seq<Seq<char>> {
    Seq::new(entries.len(), |i: int| entries[i].id@)
}

/// The mapping that a list of entries stands for: each name goes to the slot
/// of the first entry that carries it.
spec fn mapping<T>(entries: Seq<Entry<T>>) -> Map<Seq<char>, SlotView<T>> {
    Map::new(
        |name: Seq<char>| present(names_of(entries), name),
        |name: Seq<char>| entries[place(names_of(entries), name)].slot@,
    )
}

/// The slot that `slots` holds for `name`, or a fresh one where the name was
/// never resolved.
pub open spec fn slot_or_fresh<T>(slots: Map<Seq<char>, SlotView<T>>, name: Seq<char>) -> SlotView<
    T,
> {
    if slots.contains_key(name) {
        slots[name]
    } else {
        SlotView::fresh()
    }
}

/// The slots with the access flag of `name` cleared, if it has a slot.
pub open spec fn invalidated<T>(slots: Map<Seq<char>, SlotView<T>>, name: Seq<char>) -> Map<
    Seq<char>,
    SlotView<T>,
> {
    if slots.contains_key(name) {
        slots.insert(name, slots[name].reset())
    } else {
        slots
    }
}

/// The slots with every access flag cleared.
pub open spec fn all_reset<T>(slots: Map<Seq<char>, SlotView<T>>) -> Map<Seq<char>, SlotView<T>> {
    Map::new(|name: Seq<char>| slots.contains_key(name), |name: Seq<char>| slots[name].reset())
}

impl<T> View for SlotCache<T> {
    type V = Map<Seq<char>, SlotView<T>>;

    closed spec fn view(&self) -> Map<Seq<char>, SlotView<T>> {
        mapping(self.entries@)
    }
}

impl<T> SlotCache<T> {
    /// What the cache holds for `name`: its slot, or a fresh one where the
    /// name was never resolved.
    pub open spec fn slot_of(&self, name: Seq<char>) -> SlotView<T> {
        slot_or_fresh(self@, name)
    }

    /// A cache without slots.
    pub fn new() -> (cache: SlotCache<T>)
        ensures
            cache@ == Map::<Seq<char>, SlotView<T>>::empty(),
    {
        let cache = SlotCache { entries: Vec::new() };
        proof {
            assert(cache@ =~= Map::<Seq<char>, SlotView<T>>::empty());
        }
        cache
    }

    /// The place of the first entry of `id`, if it has one.
    fn position(&self, id: &Identifier) -> (found: Option<usize>)
        ensures
            match found {
                Some(i) => {
                    &&& first_match(names_of(self.entries@), id@, i as int)
                    &&& self@.contains_key(id@)
                    &&& self@[id@] == self.entries[i as int].slot@
                },
                None => !present(names_of(self.entries@), id@) && !self@.contains_key(id@),
            },
    {
        let ghost names = names_of(self.entries@);
        let mut i: usize = 0;
        while i < self.entries.len()
            invariant
                i <= self.entries.len(),
                names == names_of(self.entries@),
                forall|j: int| 0 <= j < i ==> #[trigger] names[j] != id@,
            decreases self.entries.len() - i,
        {
            if self.entries[i].id.same(id) {
                proof {
                    assert(names[i as int] == id@);
                    lemma_place(names, id@, i as int);
                }
                return Some(i);
            }
            i += 1;
        }
        proof {
            lemma_absent(names, id@);
        }
        None
    }

    /// Whether `id` has a slot.
    pub fn contains(&self, id: &Identifier) -> (present: bool)
        ensures
            present == self@.contains_key(id@),
    {
        self.position(id).is_some()
    }

    /// Whether the slot of `id` was resolved in the current build. An
    /// identifier without a slot was not.
    pub fn is_accessed(&self, id: &Identifier) -> (accessed: bool)
        ensures
            accessed == self.slot_of(id@).accessed,
    {
        match self.position(id) {
            Some(i) => self.entries[i].slot.is_accessed(),
            None => false,
        }
    }

    /// The fingerprint that the slot of `id` holds, if `id` has a slot.
    pub fn fingerprint(&self, id: &Identifier) -> (fingerprint: Option<Fingerprint>)
        ensures
            fingerprint == if self@.contains_key(id@) {
                Some(self@[id@].fingerprint)
            } else {
                None
            },
    {
        match self.position(id) {
            Some(i) => Some(self.entries[i].slot.last_fingerprint()),
            None => None,
        }
    }

    /// Clears the access flag of every slot, before a build starts.
    /// Fingerprints and derived values stay.
    pub fn reset_all(&mut self)
        ensures
            final(self)@ == all_reset(old(self)@),
    {
        let mut i: usize = 0;
        while i < self.entries.len()
            invariant
                i <= self.entries.len(),
                self.entries.len() == old(self).entries.len(),
                names_of(self.entries@) == names_of(old(self).entries@),
                forall|j: int|
                    0 <= j < i ==> (#[trigger] self.entries[j]).slot@ == old(
                        self,
                    ).entries[j].slot@.reset(),
                forall|j: int|
                    i <= j < self.entries.len() ==> (#[trigger] self.entries[j]).slot@ == old(
                        self,
                    ).entries[j].slot@,
            decreases self.entries.len() - i,
        {
            let ghost before = self.entries@;
            self.entries[i].slot.reset();
            proof {
                assert(names_of(self.entries@) =~= names_of(before));
            }
            i += 1;
        }
        proof {
            assert(self@ =~= all_reset(old(self)@)) by {
                assert forall|name: Seq<char>| #[trigger] self@.contains_key(name) implies self@[name]
                    == old(self)@[name].reset() by {
                    lemma_present(names_of(self.entries@), name);
                }
            }
        }
    }

    /// Clears the access flag of the slot of `id`, if it has one, so that the
    /// next resolution loads again. Nothing else changes.
    pub fn invalidate(&mut self, id: &Identifier)
        ensures
            final(self)@ == invalidated(old(self)@, id@),
            !final(self).slot_of(id@).hit(),
    {
        match self.position(id) {
            Some(i) => {
                self.entries[i].slot.reset();
                proof {
                    assert(names_of(self.entries@) =~= names_of(old(self).entries@));
                    assert(self@ =~= old(self)@.insert(id@, old(self)@[id@].reset())) by {
                        assert forall|name: Seq<char>| #[trigger]
                            self@.contains_key(name) && name != id@ implies self@[name] == old(
                            self,
                        )@[name] by {
                            lemma_present(names_of(self.entries@), name);
                        }
                    }
                }
            },
            None => {},
        }
    }
}

impl<T: Clone> SlotCache<T> {
    /// Resolves `id` through its slot, which is made on the first reference.
    ///
    /// The slot of `id` goes through one resolution, as `Slot::get_or_init`
    /// describes it; every other slot stays as it is.
    pub fn get_or_init<L, D>(&mut self, id: &Identifier, load: L, derive: D) -> (out: Result<
        T,
        ErrorKind,
    >)
        where
            L: FnOnce() -> Result<Vec<u8>, ErrorKind>,
            D: FnOnce(Vec<u8>, Option<T>) -> Result<T, ErrorKind>,
        requires
            !old(self).slot_of(id@).hit() ==> load.requires(()),
            forall|bytes: Vec<u8>|
                !old(self).slot_of(id@).hit() && #[trigger] load.ensures((), Ok(bytes)) && !old(
                    self,
                ).slot_of(id@).reuses(Ok(bytes@)) ==> derive.requires(
                    (bytes, old(self).slot_of(id@).previous()),
                ),
        ensures
            final(self)@.contains_key(id@),
            final(self)@ == old(self)@.insert(id@, final(self)@[id@]),
            final(self)@[id@].accessed,
            final(self)@[id@].derived is Some,
            result_cloned(final(self)@[id@].derived->0, out),
            old(self).slot_of(id@).hit() ==> final(self)@ == old(self)@,
            !old(self).slot_of(id@).hit() ==> exists|
                loaded: Result<Vec<u8>, ErrorKind>,
                value: Result<T, ErrorKind>,
            |
                {
                    &&& load.ensures((), loaded)
                    &&& loaded is Ok && !old(self).slot_of(id@).reuses(loaded_view(loaded))
                        ==> derive.ensures((loaded->Ok_0, old(self).slot_of(id@).previous()), value)
                    &&& final(self)@[id@] == old(self).slot_of(id@).resolved(
                        loaded_view(loaded),
                        value,
                    )
                },
    {
        let i = match self.position(id) {
            Some(i) => i,
            None => {
                let entry = Entry { id: id.duplicate(), slot: Slot::new() };
                proof {
                    lemma_pushed(names_of(self.entries@), id@);
                    assert(names_of(self.entries@.push(entry)) =~= names_of(self.entries@).push(
                        id@,
                    ));
                }
                self.entries.push(entry);
                self.entries.len() - 1
            },
        };
        let ghost middle = self.entries@;
        proof {
            lemma_place(names_of(middle), id@, i as int);
            assert(middle[i as int].slot@ == old(self).slot_of(id@));
            assert(mapping(middle) =~= old(self)@.insert(id@, old(self).slot_of(id@))) by {
                assert forall|name: Seq<char>| #[trigger]
                    mapping(middle).contains_key(name) && name != id@ implies mapping(
                    middle,
                )[name] == old(self)@[name] by {
                    lemma_present(names_of(middle), name);
                }
            }
        }
        let out = self.entries[i].slot.get_or_init(load, derive);
        proof {
            assert(names_of(self.entries@) =~= names_of(middle));
            assert(self@ =~= old(self)@.insert(id@, self@[id@])) by {
                assert forall|name: Seq<char>| #[trigger]
                    self@.contains_key(name) && name != id@ implies self@[name] == mapping(
                    middle,
                )[name] by {
                    lemma_present(names_of(middle), name);
                }
            }
            if old(self).slot_of(id@).hit() {
                assert(self@ =~= old(self)@);
            }
        }
        out
    }
}

impl<T: Clone> SlotCache<T> {
    /// Resolves `id` with `provider` as the source of its bytes: the
    /// resolution that `get_or_init` describes, with one call of
    /// `provider.load` for `id` in the place of `load`.
    pub fn resolve<P, D>(&mut self, provider: &P, id: &Identifier, derive: D) -> (out: Result<
        T,
        ErrorKind,
    >) where P: ContentProvider, D: FnOnce(Vec<u8>, Option<T>) -> Result<T, ErrorKind>
        requires
            !old(self).slot_of(id@).hit() ==> call_requires(P::load, (provider, id)),
            forall|bytes: Vec<u8>|
                !old(self).slot_of(id@).hit() && #[trigger] call_ensures(
                    P::load,
                    (provider, id),
                    Ok(bytes),
                ) && !old(self).slot_of(id@).reuses(Ok(bytes@)) ==> derive.requires(
                    (bytes, old(self).slot_of(id@).previous()),
                ),
        ensures
            final(self)@.contains_key(id@),
            final(self)@ == old(self)@.insert(id@, final(self)@[id@]),
            final(self)@[id@].accessed,
            final(self)@[id@].derived is Some,
            result_cloned(final(self)@[id@].derived->0, out),
            old(self).slot_of(id@).hit() ==> final(self)@ == old(self)@,
            !old(self).slot_of(id@).hit() ==> exists|
                loaded: Result<Vec<u8>, ErrorKind>,
                value: Result<T, ErrorKind>,
            |
                {
                    &&& call_ensures(P::load, (provider, id), loaded)
                    &&& loaded is Ok && !old(self).slot_of(id@).reuses(loaded_view(loaded))
                        ==> derive.ensures((loaded->Ok_0, old(self).slot_of(id@).previous()), value)
                    &&& final(self)@[id@] == old(self).slot_of(id@).resolved(
                        loaded_view(loaded),
                        value,
                    )
                },
    {
        let load = || -> (loaded: Result<Vec<u8>, ErrorKind>)
            requires
                call_requires(P::load, (provider, id)),
            ensures
                call_ensures(P::load, (provider, id), loaded),
            { provider.load(id) };
        self.get_or_init(id, load, derive)
    }
}

} // verus!
