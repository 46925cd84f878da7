//! One memoised derivation: the value derived from an input, with the
//! fingerprint of the content it was derived from.

use vstd::prelude::*;
use vstd::pervasive::cloned;
use crate::fingerprint::{loaded_view, spec_fingerprint, ErrorKind, Fingerprint, Loaded};

verus! {

/// What a slot holds, as a mathematical value.
pub struct SlotView<T> {
    /// Digest of the load result that `derived` was made from.
    pub fingerprint: Fingerprint,
    /// Whether the slot was resolved in the current build.
    pub accessed: bool,
    /// What was last derived, a failure included; `None` before the first
    /// resolution.
    pub derived: Option<Result<T, ErrorKind>>,
}

impl<T> SlotView<T> {
    /// The slot of an input that was never resolved.
    pub open spec fn fresh() -> SlotView<T> {
        SlotView { fingerprint: Fingerprint { digest: 0 }, accessed: false, derived: None }
    }

    /// The slot at the start of the next build: the access flag is cleared,
    /// fingerprint and derived value stay.
    pub open spec fn reset(self) -> SlotView<T> {
        SlotView { accessed: false, ..self }
    }

    /// Whether a resolution is answered from the slot without loading.
    pub open spec fn hit(self) -> bool {
        self.accessed && self.derived is Some
    }

    /// Whether, `loaded` being what the provider returned, the derived value
    /// is kept and nothing is derived anew.
    pub open spec fn reuses(self, loaded: Loaded) -> bool {
        self.derived is Some && self.fingerprint == spec_fingerprint(loaded)
    }

    /// The last successfully derived value, handed to the derivation as a
    /// hint.
    pub open spec fn previous(self) -> Option<T> {
        match self.derived {
            Some(Ok(value)) => Some(value),
            _ => None,
        }
    }

    /// The slot after one resolution in which the provider, if asked,
    /// returned `loaded`, and the derivation, if run, returned `value`.
    pub open spec fn resolved(self, loaded: Loaded, value: Result<T, ErrorKind>) -> SlotView<T> {
        if self.hit() {
            self
        } else if self.reuses(loaded) {
            SlotView { accessed: true, ..self }
        } else {
            SlotView {
                fingerprint: spec_fingerprint(loaded),
                accessed: true,
                derived: Some(
                    match loaded {
                        Ok(_) => value,
                        Err(kind) => Err(kind),
                    },
                ),
            }
        }
    }
}

/// Within one build a second reference to an input is answered from the
/// slot: after any resolution the slot is a hit, so the next one asks the
/// provider nothing, runs no derivation and leaves the slot as it is,
/// whatever the provider would have returned.
pub proof fn law_second_reference_is_cached<T>(
    slot: SlotView<T>,
    loaded: Loaded,
    value: Result<T, ErrorKind>,
    later: Loaded,
    other: Result<T, ErrorKind>,
)
    ensures
        slot.resolved(loaded, value).hit(),
        slot.resolved(loaded, value).resolved(later, other) == slot.resolved(loaded, value),
{
}

/// Content that has the same fingerprint in the next build is not derived
/// again: once the access flags are cleared the slot loads anew, finds the
/// fingerprint it holds, and keeps the derived value of the build before, a
/// failure included.
pub proof fn law_unchanged_content_is_reused<T>(
    slot: SlotView<T>,
    loaded: Loaded,
    value: Result<T, ErrorKind>,
    later: Loaded,
    other: Result<T, ErrorKind>,
)
    requires
        !slot.hit(),
        spec_fingerprint(later) == spec_fingerprint(loaded),
    ensures
        !slot.resolved(loaded, value).reset().hit(),
        slot.resolved(loaded, value).reset().reuses(later),
        slot.resolved(loaded, value).reset().resolved(later, other) == slot.resolved(loaded, value),
{
}

/// Content with another fingerprint replaces what the slot holds: the
/// derivation runs and its outcome, or the failure of the load, becomes the
/// derived value.
pub proof fn law_changed_content_is_derived<T>(
    slot: SlotView<T>,
    later: Loaded,
    other: Result<T, ErrorKind>,
)
    requires
        !slot.hit(),
        spec_fingerprint(later) != slot.fingerprint,
    ensures
        !slot.reuses(later),
        slot.resolved(later, other).fingerprint == spec_fingerprint(later),
        slot.resolved(later, other).derived == Some(
            match later {
                Ok(_) => other,
                Err(kind) => Err(kind),
            },
        ),
{
}

/// A slot whose access flag was cleared is never a hit, so its next
/// resolution has to load: the flag alone cannot skip the fingerprint
/// check.
pub proof fn law_reset_forces_load<T>(slot: SlotView<T>)
    ensures
        !slot.reset().hit(),
        slot.reset().fingerprint == slot.fingerprint,
        slot.reset().derived == slot.derived,
{
}

/// Whether `copy` is a clone of `held`, a failure being copied as it is.
pub open spec fn result_cloned<T: Clone>(
    held: Result<T, ErrorKind>,
    copy: Result<T, ErrorKind>,
) -> bool {
    match (held, copy) {
        (Ok(a), Ok(b)) => cloned(a, b),
        (Err(a), Err(b)) => a == b,
        _ => false,
    }
}

/// Clones a derived result.
pub fn clone_result<T: Clone>(held: &Result<T, ErrorKind>) -> (copy: Result<T, ErrorKind>)
    ensures
        result_cloned(*held, copy),
{
    match held {
        Ok(value) => Ok(value.clone()),
        Err(kind) => Err(*kind),
    }
}

/// The memo cell of one input.
pub struct Slot<T> {
    fingerprint: Fingerprint,
    accessed: bool,
    derived: Option<Result<T, ErrorKind>>,
}

impl<T> View for Slot<T> {
    type V = SlotView<T>;

    closed spec fn view(&self) -> SlotView<T> {
        SlotView { fingerprint: self.fingerprint, accessed: self.accessed, derived: self.derived }
    }
}

impl<T> Slot<T> {
    /// A slot that holds nothing yet.
    pub fn new() -> (slot: Slot<T>)
        ensures
            slot@ == SlotView::<T>::fresh(),
    {
        Slot { fingerprint: Fingerprint::blank(), accessed: false, derived: None }
    }

    /// Clears the access flag and keeps fingerprint and derived value.
    pub fn reset(&mut self)
        ensures
            final(self)@ == old(self)@.reset(),
    {
        self.accessed = false;
    }

    /// Whether the slot was resolved in the current build.
    pub fn is_accessed(&self) -> (accessed: bool)
        ensures
            accessed == self@.accessed,
    {
        self.accessed
    }

    /// The fingerprint of the load result last derived from.
    pub fn last_fingerprint(&self) -> (fingerprint: Fingerprint)
        ensures
            fingerprint == self@.fingerprint,
    {
        self.fingerprint
    }

    /// Whether anything was derived yet.
    pub fn has_derived(&self) -> (present: bool)
        ensures
            present == self@.derived is Some,
    {
        self.derived.is_some()
    }
}

impl<T: Clone> Slot<T> {
    /// Resolves the input of this slot.
    ///
    /// A slot already accessed in this build answers from what it holds and
    /// calls neither `load` nor `derive`. Otherwise `load` is called once. If
    /// the digest of what it returned is the one the slot holds, and a derived
    /// value exists, that value is returned and `derive` is not called.
    /// Otherwise a failed load becomes the derived value as it is, and a
    /// successful one is handed to `derive` with the last good value; the
    /// outcome replaces the derived value.
    pub fn get_or_init<L, D>(&mut self, load: L, derive: D) -> (out: Result<T, ErrorKind>)
        where
            L: FnOnce() -> Result<Vec<u8>, ErrorKind>,
            D: FnOnce(Vec<u8>, Option<T>) -> Result<T, ErrorKind>,
        requires
            !old(self)@.hit() ==> load.requires(()),
            forall|bytes: Vec<u8>|
                !old(self)@.hit() && #[trigger] load.ensures((), Ok(bytes)) && !old(self)@.reuses(
                    Ok(bytes@),
                ) ==> derive.requires((bytes, old(self)@.previous())),
        ensures
            final(self)@.accessed,
            final(self)@.derived is Some,
            result_cloned(final(self)@.derived->0, out),
            old(self)@.hit() ==> final(self)@ == old(self)@,
            !old(self)@.hit() ==> exists|loaded: Result<Vec<u8>, ErrorKind>, value: Result<T, ErrorKind>|
                {
                    &&& load.ensures((), loaded)
                    &&& loaded is Ok && !old(self)@.reuses(loaded_view(loaded)) ==> derive.ensures(
                        (loaded->Ok_0, old(self)@.previous()),
                        value,
                    )
                    &&& final(self)@ == old(self)@.resolved(loaded_view(loaded), value)
                },
    {
        if self.accessed && self.derived.is_some() {
            return clone_result(self.derived.as_ref().unwrap());
        }
        let loaded = load();
        let fingerprint = Fingerprint::of(&loaded);
        if self.derived.is_some() && self.fingerprint.matches(&fingerprint) {
            self.accessed = true;
            let out = clone_result(self.derived.as_ref().unwrap());
            proof {
                assert(load.ensures((), loaded));
                assert(final(self)@ == old(self)@.resolved(loaded_view(loaded), out));
            }
            return out;
        }
        let ghost witness = loaded;
        let previous = match self.derived.take() {
            Some(Ok(value)) => Some(value),
            _ => None,
        };
        let value = match loaded {
            Ok(bytes) => derive(bytes, previous),
            Err(kind) => Err(kind),
        };
        let out = clone_result(&value);
        proof {
            assert(old(self)@.resolved(loaded_view(witness), value) == (SlotView {
                fingerprint,
                accessed: true,
                derived: Some(value),
            }));
        }
        self.derived = Some(value);
        self.fingerprint = fingerprint;
        self.accessed = true;
        proof {
            assert(load.ensures((), witness));
            assert(final(self)@ == old(self)@.resolved(loaded_view(witness), value));
        }
        out
    }
}

} // verus!
