//! A document that is compiled from inputs held in memory.
//!
//! The document owns its inputs and the slots derived from them. Whoever
//! holds it exclusively may write inputs, resolve them and start builds;
//! sharing it between callers is a matter of a lock around the whole value.

use vstd::prelude::*;
use vstd::string::StrSliceExecFns;
use vstd::utf8::{decode_utf8, encode_utf8, valid_utf8};
use crate::cache::{all_reset, invalidated, slot_or_fresh, SlotCache};
use crate::calendar::{civil_date, narrowed, today, zone_seconds};
use crate::driver::{Driver, DriverState};
use crate::files::{served, ContentProvider, MemoryFiles};
use crate::fingerprint::{loaded_view, ErrorKind, Loaded};
use crate::identifier::Identifier;
use crate::slot::{result_cloned, SlotView};

verus! {

/// The identifier under which `render_with_data` writes its data.
pub const DATA_PATH: &'static str = "data.txt";

/// The retry cap of a document that was given none.
pub const DEFAULT_RETRY_CAP: usize = 5;

/// `String::from_utf8` of std: the text that `bytes` encode. The result is
/// `Some` exactly when the bytes are valid UTF-8, and then holds the
/// characters that they decode to.
#[verifier::external_body]
fn decode_text(bytes: Vec<u8>) -> (text: Option<String>)
    ensures
        text is Some <==> valid_utf8(bytes@),
        text is Some ==> text->0@ == decode_utf8(bytes@),
{
    match String::from_utf8(bytes) {
        Ok(text) => Some(text),
        Err(_) => None,
    }
}

/// What a source slot derives from a load result when the parser, where it
/// ran, returned `parsed`: a failed load stays the failure it is, bytes that
/// are no text give `InvalidText`, and text gives what the parser made of it.
pub open spec fn source_value<S>(loaded: Loaded, parsed: Result<S, ErrorKind>) -> Result<
    S,
    ErrorKind,
> {
    match loaded {
        Ok(bytes) => if valid_utf8(bytes) {
            parsed
        } else {
            Err(ErrorKind::InvalidText)
        },
        Err(kind) => Err(kind),
    }
}

/// Whether resolving a source slot that is in state `slot`, the provider
/// returning `loaded`, runs the parser.
pub open spec fn parses<S>(slot: SlotView<S>, loaded: Loaded) -> bool {
    &&& !slot.hit()
    &&& !slot.reuses(loaded)
    &&& loaded is Ok
    &&& valid_utf8(loaded->Ok_0)
}

/// A slot over bytes as a mathematical value: the bytes it holds stand for
/// the vector that holds them.
pub open spec fn bytes_slot(slot: SlotView<Vec<u8>>) -> SlotView<Seq<u8>> {
    SlotView {
        fingerprint: slot.fingerprint,
        accessed: slot.accessed,
        derived: match slot.derived {
            Some(held) => Some(loaded_view(held)),
            None => None,
        },
    }
}

/// Slots over bytes as mathematical values.
pub open spec fn bytes_slots(slots: Map<Seq<char>, SlotView<Vec<u8>>>) -> Map<
    Seq<char>,
    SlotView<Seq<u8>>,
> {
    Map::new(|name: Seq<char>| slots.contains_key(name), |name: Seq<char>| bytes_slot(slots[name]))
}

/// Taking slots over bytes as mathematical values commutes with what is done
/// to them.
proof fn lemma_bytes_slots(slots: Map<Seq<char>, SlotView<Vec<u8>>>, name: Seq<char>)
    ensures
        bytes_slots(Map::<Seq<char>, SlotView<Vec<u8>>>::empty()) == Map::<
            Seq<char>,
            SlotView<Seq<u8>>,
        >::empty(),
        bytes_slots(invalidated(slots, name)) == invalidated(bytes_slots(slots), name),
        bytes_slots(all_reset(slots)) == all_reset(bytes_slots(slots)),
        slot_or_fresh(bytes_slots(slots), name) == bytes_slot(slot_or_fresh(slots, name)),
        forall|slot: SlotView<Vec<u8>>| #[trigger]
            bytes_slots(slots.insert(name, slot)) == bytes_slots(slots).insert(
                name,
                bytes_slot(slot),
            ),
{
    assert(bytes_slots(Map::<Seq<char>, SlotView<Vec<u8>>>::empty()) =~= Map::<
        Seq<char>,
        SlotView<Seq<u8>>,
    >::empty());
    assert(bytes_slots(invalidated(slots, name)) =~= invalidated(bytes_slots(slots), name));
    assert(bytes_slots(all_reset(slots)) =~= all_reset(bytes_slots(slots)));
    assert forall|slot: SlotView<Vec<u8>>| #[trigger]
        bytes_slots(slots.insert(name, slot)) == bytes_slots(slots).insert(
            name,
            bytes_slot(slot),
        ) by {
        assert(bytes_slots(slots.insert(name, slot)) =~= bytes_slots(slots).insert(
            name,
            bytes_slot(slot),
        ));
    }
}

/// A document: its inputs, and what was derived from them so far.
pub struct PDF<S> {
    main: Identifier,
    now: i64,
    cap: usize,
    files: MemoryFiles,
    sources: SlotCache<S>,
    resources: SlotCache<Vec<u8>>,
}

impl<S> PDF<S> {
    /// The name of the main input.
    pub closed spec fn main_name(&self) -> Seq<char> {
        self.main@
    }

    /// The moment the document was made at, in seconds after the Unix epoch.
    pub closed spec fn made_at(&self) -> int {
        self.now as int
    }

    /// The largest number of layout passes of a build.
    pub closed spec fn cap(&self) -> nat {
        self.cap as nat
    }

    /// The inputs written so far, each under its name.
    pub closed spec fn inputs(&self) -> Map<Seq<char>, Seq<u8>> {
        self.files@
    }

    /// The slots of the inputs that were resolved as sources.
    pub closed spec fn source_slots(&self) -> Map<Seq<char>, SlotView<S>> {
        self.sources@
    }

    /// The slots of the inputs that were resolved as plain bytes.
    pub closed spec fn resource_slots(&self) -> Map<Seq<char>, SlotView<Seq<u8>>> {
        bytes_slots(self.resources@)
    }

    /// A document without inputs whose main input is named `main`, made at
    /// `now` seconds after the Unix epoch. Remember to write the main input,
    /// and what it refers to, before a build.
    pub fn new(main: &str, now: i64) -> (pdf: PDF<S>)
        ensures
            pdf.main_name() == main@,
            pdf.made_at() == now,
            pdf.cap() == DEFAULT_RETRY_CAP,
            pdf.inputs() == Map::<Seq<char>, Seq<u8>>::empty(),
            pdf.source_slots() == Map::<Seq<char>, SlotView<S>>::empty(),
            pdf.resource_slots() == Map::<Seq<char>, SlotView<Seq<u8>>>::empty(),
    {
        proof {
            lemma_bytes_slots(Map::empty(), Seq::empty());
        }
        PDF {
            main: Identifier::new(main),
            now,
            cap: DEFAULT_RETRY_CAP,
            files: MemoryFiles::new(),
            sources: SlotCache::new(),
            resources: SlotCache::new(),
        }
    }

    /// Sets the largest number of layout passes of a build. Nothing else
    /// changes.
    pub fn set_retry_cap(&mut self, cap: usize)
        ensures
            final(self).cap() == cap,
            final(self).made_at() == old(self).made_at(),
            final(self).main_name() == old(self).main_name(),
            final(self).inputs() == old(self).inputs(),
            final(self).source_slots() == old(self).source_slots(),
            final(self).resource_slots() == old(self).resource_slots(),
    {
        self.cap = cap;
    }

    /// The identifier of the main input.
    pub fn main(&self) -> (main: Identifier)
        ensures
            main@ == self.main_name(),
    {
        self.main.duplicate()
    }

    /// The moment the document was made at, in seconds after the Unix epoch.
    pub fn created(&self) -> (now: i64)
        ensures
            now == self.made_at(),
    {
        self.now
    }

    /// The largest number of layout passes of a build.
    pub fn retry_cap(&self) -> (cap: usize)
        ensures
            cap == self.cap(),
    {
        self.cap
    }

    /// The date that the document sees as today: the date at the moment it
    /// was made, in the zone `offset` hours east of UTC, or in the zone
    /// `local` seconds east of UTC where no offset is given.
    pub fn today(&self, offset: Option<i64>, local: i32) -> (date: Option<(i32, u8, u8)>)
        ensures
            date == match zone_seconds(offset, local) {
                Some(zone) => narrowed(civil_date(self.made_at(), zone as int)),
                None => None,
            },
    {
        today(self.now, offset, local)
    }

    /// Whether an input was written under `path`.
    pub fn contains(&self, path: &str) -> (present: bool)
        ensures
            present == self.inputs().contains_key(path@),
    {
        self.files.contains(&Identifier::new(path))
    }

    /// Whether `path` was resolved as a source in the current build.
    pub fn source_accessed(&self, path: &str) -> (accessed: bool)
        ensures
            accessed == slot_or_fresh(self.source_slots(), path@).accessed,
    {
        self.sources.is_accessed(&Identifier::new(path))
    }

    /// Whether `path` was resolved as plain bytes in the current build.
    pub fn file_accessed(&self, path: &str) -> (accessed: bool)
        ensures
            accessed == slot_or_fresh(self.resource_slots(), path@).accessed,
    {
        proof {
            lemma_bytes_slots(self.resources@, path@);
        }
        self.resources.is_accessed(&Identifier::new(path))
    }

    /// Writes `data` under `path`, in place of what was there, and clears the
    /// access flag of the slots of `path` at once, so that the next
    /// resolution of `path` loads and compares again whatever the build it
    /// falls in. The bytes are parsed only when `path` is asked for as a
    /// source.
    pub fn write(&mut self, path: &str, data: Vec<u8>)
        ensures
            final(self).inputs() == old(self).inputs().insert(path@, data@),
            final(self).source_slots() == invalidated(old(self).source_slots(), path@),
            final(self).resource_slots() == invalidated(old(self).resource_slots(), path@),
            !slot_or_fresh(final(self).source_slots(), path@).hit(),
            !slot_or_fresh(final(self).resource_slots(), path@).hit(),
            final(self).main_name() == old(self).main_name(),
            final(self).cap() == old(self).cap(),
            final(self).made_at() == old(self).made_at(),
    {
        let id = Identifier::new(path);
        self.files.write(&id, data);
        self.sources.invalidate(&id);
        self.resources.invalidate(&id);
        proof {
            lemma_bytes_slots(old(self).resources@, path@);
            lemma_bytes_slots(self.resources@, path@);
        }
    }

    /// Starts a build: clears the access flag of every slot and hands out
    /// the driver of the build, which says what has to be done until the
    /// document is stable. Inputs, fingerprints and derived values stay.
    pub fn render(&mut self) -> (driver: Driver)
        ensures
            driver@ == DriverState::initial(old(self).cap()),
            final(self).source_slots() == all_reset(old(self).source_slots()),
            final(self).resource_slots() == all_reset(old(self).resource_slots()),
            final(self).inputs() == old(self).inputs(),
            final(self).main_name() == old(self).main_name(),
            final(self).cap() == old(self).cap(),
            final(self).made_at() == old(self).made_at(),
    {
        self.sources.reset_all();
        self.resources.reset_all();
        proof {
            lemma_bytes_slots(old(self).resources@, Seq::empty());
        }
        Driver::new(self.cap)
    }

    /// Writes `data` under `data.txt` and starts a build.
    pub fn render_with_data(&mut self, data: Vec<u8>) -> (driver: Driver)
        ensures
            driver@ == DriverState::initial(old(self).cap()),
            started_with(*old(self), *final(self), data@),
    {
        self.write(DATA_PATH, data);
        proof {
            assert(all_reset(invalidated(old(self).source_slots(), DATA_PATH@)) =~= all_reset(
                old(self).source_slots(),
            ));
            assert(all_reset(invalidated(old(self).resource_slots(), DATA_PATH@)) =~= all_reset(
                old(self).resource_slots(),
            ));
        }
        self.render()
    }

    /// Resolves `id` as plain bytes through its resource slot.
    ///
    /// A slot already accessed in this build answers with the bytes it
    /// holds. Otherwise the input is looked up; a slot that holds the
    /// fingerprint of what was found keeps its bytes, and any other takes
    /// what was found, a missing input as `NotFound`.
    pub fn file(&mut self, id: &Identifier) -> (out: Result<Vec<u8>, ErrorKind>)
        ensures
            final(self).resource_slots() == old(self).resource_slots().insert(
                id@,
                slot_or_fresh(old(self).resource_slots(), id@).resolved(
                    served(old(self).inputs(), id@),
                    served(old(self).inputs(), id@),
                ),
            ),
            Some(loaded_view(out)) == slot_or_fresh(final(self).resource_slots(), id@).derived,
            final(self).inputs() == old(self).inputs(),
            final(self).source_slots() == old(self).source_slots(),
            final(self).main_name() == old(self).main_name(),
            final(self).cap() == old(self).cap(),
            final(self).made_at() == old(self).made_at(),
    {
        let files = &self.files;
        let ghost wanted = served(files@, id@);
        let load = || -> (loaded: Result<Vec<u8>, ErrorKind>)
            ensures
                loaded_view(loaded) == wanted,
            { files.load(id) };
        let derive = |bytes: Vec<u8>, previous: Option<Vec<u8>>| -> (value: Result<
            Vec<u8>,
            ErrorKind,
        >)
            ensures
                value == Ok::<Vec<u8>, ErrorKind>(bytes),
            { Ok(bytes) };
        let out = self.resources.get_or_init(id, load, derive);
        proof {
            let after = slot_or_fresh(self.resources@, id@);
            let before = slot_or_fresh(old(self).resources@, id@);
            lemma_bytes_slots(old(self).resources@, id@);
            lemma_bytes_slots(self.resources@, id@);
            lemma_bytes_cloned(after.derived->0, out);
            if !before.hit() {
                let (loaded, value) = choose|
                    loaded: Result<Vec<u8>, ErrorKind>,
                    value: Result<Vec<u8>, ErrorKind>,
                |
                    {
                        &&& load.ensures((), loaded)
                        &&& loaded is Ok && !before.reuses(loaded_view(loaded)) ==> derive.ensures(
                            (loaded->Ok_0, before.previous()),
                            value,
                        )
                        &&& after == before.resolved(loaded_view(loaded), value)
                    };
                assert(bytes_slot(after) == bytes_slot(before).resolved(wanted, wanted));
            } else {
                assert(bytes_slot(after) == bytes_slot(before).resolved(wanted, wanted));
            }
            assert(self.resources@ == old(self).resources@.insert(id@, after));
        }
        out
    }
}

impl<S: Clone> PDF<S> {
    /// Resolves `id` as a source through its source slot.
    ///
    /// A slot already accessed in this build answers with what it holds.
    /// Otherwise the input is looked up. A slot that holds the fingerprint of
    /// what was found keeps its derived value, and `parse` does not run. Any
    /// other slot takes a missing input as `NotFound`, bytes that are not
    /// UTF-8 as `InvalidText`, and text as what `parse` makes of it and of the
    /// last good value.
    pub fn source<P>(&mut self, id: &Identifier, parse: P) -> (out: Result<S, ErrorKind>) where
        P: FnOnce(String, Option<S>) -> Result<S, ErrorKind>,

        requires
            forall|text: String|
                parses(
                    slot_or_fresh(old(self).source_slots(), id@),
                    served(old(self).inputs(), id@),
                ) && text@ == decode_utf8(served(old(self).inputs(), id@)->Ok_0)
                    ==> #[trigger] parse.requires(
                    (text, slot_or_fresh(old(self).source_slots(), id@).previous()),
                ),
        ensures
            final(self).source_slots() == old(self).source_slots().insert(
                id@,
                slot_or_fresh(final(self).source_slots(), id@),
            ),
            slot_or_fresh(final(self).source_slots(), id@).derived is Some,
            result_cloned(slot_or_fresh(final(self).source_slots(), id@).derived->0, out),
            exists|text: String, parsed: Result<S, ErrorKind>|
                source_resolved(*old(self), *final(self), id@, parse, text, parsed),
            final(self).inputs() == old(self).inputs(),
            final(self).resource_slots() == old(self).resource_slots(),
            final(self).main_name() == old(self).main_name(),
            final(self).cap() == old(self).cap(),
            final(self).made_at() == old(self).made_at(),
    {
        let files = &self.files;
        let ghost wanted = served(files@, id@);
        let ghost before = slot_or_fresh(self.source_slots(), id@);
        let load = || -> (loaded: Result<Vec<u8>, ErrorKind>)
            ensures
                loaded_view(loaded) == wanted,
            { files.load(id) };
        let derive = move |bytes: Vec<u8>, previous: Option<S>| -> (value: Result<S, ErrorKind>)
            requires
                forall|text: String|
                    valid_utf8(bytes@) && text@ == decode_utf8(bytes@) ==> #[trigger] parse.requires(
                        (text, previous),
                    ),
            ensures
                !valid_utf8(bytes@) ==> value == Err::<S, ErrorKind>(ErrorKind::InvalidText),
                valid_utf8(bytes@) ==> exists|text: String|
                    text@ == decode_utf8(bytes@) && #[trigger] parse.ensures((text, previous), value),
            {
                match decode_text(bytes) {
                    Some(text) => parse(text, previous),
                    None => Err(ErrorKind::InvalidText),
                }
            };
        let out = self.sources.get_or_init(id, load, derive);
        proof {
            let after = slot_or_fresh(self.source_slots(), id@);
            if before.hit() {
                let parsed: Result<S, ErrorKind> = arbitrary();
                let text: String = arbitrary();
                assert(after == before.resolved(wanted, source_value(wanted, parsed)));
                assert(!parses(before, wanted));
                lemma_source_witness(*old(self), *self, *id, parse, text, parsed);
            } else {
                let (loaded, value) = choose|
                    loaded: Result<Vec<u8>, ErrorKind>,
                    value: Result<S, ErrorKind>,
                |
                    {
                        &&& load.ensures((), loaded)
                        &&& loaded is Ok && !before.reuses(loaded_view(loaded)) ==> derive.ensures(
                            (loaded->Ok_0, before.previous()),
                            value,
                        )
                        &&& after == before.resolved(loaded_view(loaded), value)
                    };
                if parses(before, wanted) {
                    let text = choose|text: String|
                        text@ == decode_utf8(loaded->Ok_0@) && #[trigger] parse.ensures(
                            (text, before.previous()),
                            value,
                        );
                    assert(after == before.resolved(wanted, source_value(wanted, value)));
                    lemma_source_witness(*old(self), *self, *id, parse, text, value);
                } else {
                    let text: String = arbitrary();
                    assert(after == before.resolved(wanted, source_value(wanted, value)));
                    lemma_source_witness(*old(self), *self, *id, parse, text, value);
                }
            }
        }
        out
    }
}

impl<S: Clone> PDF<S> {
    /// Writes `text` under `path` as a source and parses it at once.
    ///
    /// The bytes of `text` become the input, and the access flags of the
    /// slots of `path` are cleared. The source slot is then brought up to
    /// date: where it held the fingerprint of these very bytes it keeps its
    /// derived value and `parse` does not run; elsewhere `parse` runs on the
    /// text and the last good value, and its outcome becomes the derived
    /// value. The access flag stays cleared, so the next resolution checks the
    /// fingerprint again.
    pub fn write_source<P>(&mut self, path: &str, text: String, parse: P) where
        P: FnOnce(String, Option<S>) -> Result<S, ErrorKind>,

        requires
            !slot_or_fresh(old(self).source_slots(), path@).reset().reuses(
                Ok(encode_utf8(text@)),
            ) ==> parse.requires(
                (text, slot_or_fresh(old(self).source_slots(), path@).reset().previous()),
            ),
        ensures
            exists|parsed: Result<S, ErrorKind>|
                source_written(*old(self), *final(self), path@, text, parse, parsed),
    {
        let id = Identifier::new(path);
        let bytes = text.as_str().as_bytes_vec();
        let copy = bytes.clone();
        let ghost slot = slot_or_fresh(self.source_slots(), path@).reset();
        self.files.write(&id, bytes);
        self.resources.invalidate(&id);
        self.sources.invalidate(&id);
        let ghost middle = self.sources@;
        let load = move || -> (loaded: Result<Vec<u8>, ErrorKind>)
            ensures
                loaded == Ok::<Vec<u8>, ErrorKind>(copy),
            { Ok(copy) };
        let derive = move |bytes: Vec<u8>, previous: Option<S>| -> (value: Result<S, ErrorKind>)
            requires
                parse.requires((text, previous)),
            ensures
                parse.ensures((text, previous), value),
            { parse(text, previous) };
        proof {
            assert(copy@ =~= encode_utf8(text@));
            assert(slot_or_fresh(middle, id@) == slot);
        }
        let _ = self.sources.get_or_init(&id, load, derive);
        let ghost resolved = self.sources@[id@];
        self.sources.invalidate(&id);
        proof {
            let (loaded, value) = choose|
                loaded: Result<Vec<u8>, ErrorKind>,
                value: Result<S, ErrorKind>,
            |
                {
                    &&& load.ensures((), loaded)
                    &&& loaded is Ok && !slot.reuses(loaded_view(loaded)) ==> derive.ensures(
                        (loaded->Ok_0, slot.previous()),
                        value,
                    )
                    &&& resolved == slot.resolved(loaded_view(loaded), value)
                };
            assert(self.sources@ =~= old(self).sources@.insert(
                path@,
                slot.resolved(Ok(encode_utf8(text@)), value).reset(),
            ));
            lemma_bytes_slots(old(self).resources@, path@);
            assert(source_written(*old(self), *self, path@, text, parse, value));
        }
    }

    /// A document with the main input `main` into which each of `items`, a
    /// path with its text, was written as a source, in their order.
    pub fn make<P>(main: &str, now: i64, items: &Vec<(String, String)>, parse: P) -> (pdf: PDF<
        S,
    >) where
        P: Fn(String, Option<S>) -> Result<S, ErrorKind>,

        requires
            forall|text: String, previous: Option<S>| #[trigger] parse.requires((text, previous)),
        ensures
            exists|stages: Seq<PDF<S>>, outcomes: Seq<Result<S, ErrorKind>>|
                made(main@, now, items@, parse, stages, outcomes, pdf),
    {
        let mut pdf: PDF<S> = PDF::new(main, now);
        let ghost mut stages: Seq<PDF<S>> = seq![pdf];
        let ghost mut outcomes: Seq<Result<S, ErrorKind>> = Seq::empty();
        let mut i: usize = 0;
        while i < items.len()
            invariant
                i <= items.len(),
                stages.len() == i + 1,
                outcomes.len() == i,
                stages[0].main_name() == main@,
                stages[0].made_at() == now,
                stages[0].cap() == DEFAULT_RETRY_CAP,
                stages[0].inputs() == Map::<Seq<char>, Seq<u8>>::empty(),
                stages[0].source_slots() == Map::<Seq<char>, SlotView<S>>::empty(),
                stages[0].resource_slots() == Map::<Seq<char>, SlotView<Seq<u8>>>::empty(),
                stages.last() == pdf,
                forall|k: int|
                    0 <= k < i ==> source_written(
                        stages[k],
                        stages[k + 1],
                        items[k].0@,
                        items[k].1,
                        parse,
                        #[trigger] outcomes[k],
                    ),
                forall|text: String, previous: Option<S>| #[trigger]
                    parse.requires((text, previous)),
            decreases items.len() - i,
        {
            let text = items[i].1.clone();
            let ghost before = pdf;
            let parser = &parse;
            let once = |text: String, previous: Option<S>| -> (value: Result<S, ErrorKind>)
                ensures
                    parse.ensures((text, previous), value),
                { parser(text, previous) };
            pdf.write_source(items[i].0.as_str(), text, once);
            proof {
                let parsed = choose|parsed: Result<S, ErrorKind>|
                    source_written(before, pdf, items[i as int].0@, text, once, parsed);
                assert(source_written(before, pdf, items[i as int].0@, items[i as int].1, parse, parsed));
                stages = stages.push(pdf);
                outcomes = outcomes.push(parsed);
            }
            i += 1;
        }
        proof {
            assert(made(main@, now, items@, parse, stages, outcomes, pdf));
        }
        pdf
    }
}

/// What `write_source` promises when the parser, where it ran, returned
/// `parsed`.
pub open spec fn source_written<S, P>(
    before: PDF<S>,
    after: PDF<S>,
    name: Seq<char>,
    text: String,
    parse: P,
    parsed: Result<S, ErrorKind>,
) -> bool where P: FnOnce(String, Option<S>) -> Result<S, ErrorKind> {
    let slot = slot_or_fresh(before.source_slots(), name).reset();
    let bytes = encode_utf8(text@);
    &&& !slot.reuses(Ok(bytes)) ==> parse.ensures((text, slot.previous()), parsed)
    &&& after.source_slots() == before.source_slots().insert(
        name,
        slot.resolved(Ok(bytes), parsed).reset(),
    )
    &&& after.inputs() == before.inputs().insert(name, bytes)
    &&& after.resource_slots() == invalidated(before.resource_slots(), name)
    &&& after.main_name() == before.main_name()
    &&& after.cap() == before.cap()
    &&& after.made_at() == before.made_at()
}

/// Whether `pdf` is what `make` builds: `stages` starts with the empty
/// document named `main` and made at `now`, each item takes one stage to the next as
/// `write_source` does, and `pdf` is the last stage.
pub open spec fn made<S, P>(
    main: Seq<char>,
    now: i64,
    items: Seq<(String, String)>,
    parse: P,
    stages: Seq<PDF<S>>,
    outcomes: Seq<Result<S, ErrorKind>>,
    pdf: PDF<S>,
) -> bool where P: Fn(String, Option<S>) -> Result<S, ErrorKind> {
    &&& stages.len() == items.len() + 1
    &&& outcomes.len() == items.len()
    &&& stages[0].main_name() == main
    &&& stages[0].made_at() == now
    &&& stages[0].cap() == DEFAULT_RETRY_CAP
    &&& stages[0].inputs() == Map::<Seq<char>, Seq<u8>>::empty()
    &&& stages[0].source_slots() == Map::<Seq<char>, SlotView<S>>::empty()
    &&& stages[0].resource_slots() == Map::<Seq<char>, SlotView<Seq<u8>>>::empty()
    &&& forall|k: int|
        0 <= k < items.len() ==> source_written(
            stages[k],
            stages[k + 1],
            items[k].0@,
            items[k].1,
            parse,
            #[trigger] outcomes[k],
        )
    &&& stages.last() == pdf
}

/// Whether `after` is `before` at the start of a build with `data`: the data
/// is written under `data.txt`, every access flag is cleared, and the rest
/// is as it was.
pub open spec fn started_with<S>(before: PDF<S>, after: PDF<S>, data: Seq<u8>) -> bool {
    &&& after.inputs() == before.inputs().insert(DATA_PATH@, data)
    &&& after.source_slots() == all_reset(before.source_slots())
    &&& after.resource_slots() == all_reset(before.resource_slots())
    &&& after.main_name() == before.main_name()
    &&& after.cap() == before.cap()
    &&& after.made_at() == before.made_at()
}

/// What `source` promises of the slot it resolved, for one text and one
/// outcome of the parser.
pub open spec fn source_resolved<S, P>(
    before: PDF<S>,
    after: PDF<S>,
    name: Seq<char>,
    parse: P,
    text: String,
    parsed: Result<S, ErrorKind>,
) -> bool where P: FnOnce(String, Option<S>) -> Result<S, ErrorKind> {
    &&& parses(slot_or_fresh(before.source_slots(), name), served(before.inputs(), name))
        ==> text@ == decode_utf8(served(before.inputs(), name)->Ok_0) && parse.ensures(
        (text, slot_or_fresh(before.source_slots(), name).previous()),
        parsed,
    )
    &&& slot_or_fresh(after.source_slots(), name) == slot_or_fresh(
        before.source_slots(),
        name,
    ).resolved(served(before.inputs(), name), source_value(served(before.inputs(), name), parsed))
}

/// Names the text and the outcome that `source` went through.
proof fn lemma_source_witness<S, P>(
    before: PDF<S>,
    after: PDF<S>,
    id: Identifier,
    parse: P,
    text: String,
    parsed: Result<S, ErrorKind>,
) where P: FnOnce(String, Option<S>) -> Result<S, ErrorKind>
    requires
        source_resolved(before, after, id@, parse, text, parsed),
    ensures
        exists|text: String, parsed: Result<S, ErrorKind>|
            source_resolved(before, after, id@, parse, text, parsed),
{
}

/// Writing the same text again changes nothing that a build can see. Let a
/// source be written, resolved in a build, and written once more with the
/// same bytes: the build used the value parsed at the first write, the second
/// write does not parse, and it leaves the slot exactly as the first write
/// left it. Two builds around such a write therefore start from the same
/// inputs and the same derived source.
pub proof fn law_rewrite_keeps_source<S>(
    slot: SlotView<S>,
    bytes: Seq<u8>,
    first: Result<S, ErrorKind>,
    during: Result<S, ErrorKind>,
    second: Result<S, ErrorKind>,
)
    ensures
        ({
            let written = slot.reset().resolved(Ok(bytes), first).reset();
            let built = written.resolved(Ok(bytes), during);
            let rewritten = built.reset().resolved(Ok(bytes), second).reset();
            &&& written.reuses(Ok(bytes))
            &&& built.derived == written.derived
            &&& built.reset().reuses(Ok(bytes))
            &&& rewritten == written
        }),
{
}

/// After a write to an input its slots are never hits, whether a build is
/// under way or not: the next resolution looks the input up again and
/// compares fingerprints. The derived values stay until that comparison
/// fails.
pub proof fn law_write_forces_load<T>(slots: Map<Seq<char>, SlotView<T>>, name: Seq<char>)
    ensures
        !slot_or_fresh(invalidated(slots, name), name).hit(),
        slot_or_fresh(invalidated(slots, name), name).derived == slot_or_fresh(slots, name).derived,
        slot_or_fresh(invalidated(slots, name), name).fingerprint == slot_or_fresh(
            slots,
            name,
        ).fingerprint,
        forall|other: Seq<char>|
            other != name ==> #[trigger] slot_or_fresh(invalidated(slots, name), other)
                == slot_or_fresh(slots, other),
{
}

/// An input that no write touched between two builds is not derived again.
/// Let a slot be resolved in one build with the provider returning `loaded`,
/// the flags be cleared for the next build, and the provider return `loaded`
/// again: the slot loads once more, finds its fingerprint, keeps the derived
/// value of the first build, a failure such as `NotFound` included, and ends
/// in the state in which the first build left it.
pub proof fn law_unchanged_input_is_reused<T>(
    slots: Map<Seq<char>, SlotView<T>>,
    name: Seq<char>,
    loaded: Loaded,
    first: Result<T, ErrorKind>,
    second: Result<T, ErrorKind>,
)
    requires
        !slot_or_fresh(slots, name).hit(),
    ensures
        ({
            let built = slots.insert(name, slot_or_fresh(slots, name).resolved(loaded, first));
            let next = all_reset(built);
            &&& !slot_or_fresh(next, name).hit()
            &&& slot_or_fresh(next, name).reuses(loaded)
            &&& slot_or_fresh(next, name).resolved(loaded, second) == built[name]
        }),
{
}

/// A document that `make` built has the retry cap that every new document
/// has.
pub proof fn lemma_made_caps<S, P>(
    main: Seq<char>,
    now: i64,
    items: Seq<(String, String)>,
    parse: P,
    stages: Seq<PDF<S>>,
    outcomes: Seq<Result<S, ErrorKind>>,
    pdf: PDF<S>,
) where P: Fn(String, Option<S>) -> Result<S, ErrorKind>
    requires
        made(main, now, items, parse, stages, outcomes, pdf),
    ensures
        pdf.cap() == DEFAULT_RETRY_CAP,
        pdf.main_name() == main,
        pdf.made_at() == now,
{
    lemma_made_prefix(main, now, items, parse, stages, outcomes, items.len() as int);
}

/// Every stage of `make` has the name, the moment and the cap of the first.
proof fn lemma_made_prefix<S, P>(
    main: Seq<char>,
    now: i64,
    items: Seq<(String, String)>,
    parse: P,
    stages: Seq<PDF<S>>,
    outcomes: Seq<Result<S, ErrorKind>>,
    upto: int,
) where P: Fn(String, Option<S>) -> Result<S, ErrorKind>
    requires
        made(main, now, items, parse, stages, outcomes, stages.last()),
        0 <= upto <= items.len(),
    ensures
        stages[upto].cap() == DEFAULT_RETRY_CAP,
        stages[upto].main_name() == main,
        stages[upto].made_at() == now,
    decreases upto,
{
    if upto > 0 {
        lemma_made_prefix(main, now, items, parse, stages, outcomes, upto - 1);
        assert(source_written(
            stages[upto - 1],
            stages[upto - 1 + 1],
            items[upto - 1].0@,
            items[upto - 1].1,
            parse,
            outcomes[upto - 1],
        ));
    }
}

/// A clone of a result over bytes holds the same bytes.
proof fn lemma_bytes_cloned(held: Result<Vec<u8>, ErrorKind>, copy: Result<Vec<u8>, ErrorKind>)
    requires
        result_cloned(held, copy),
    ensures
        loaded_view(held) == loaded_view(copy),
{
    match (held, copy) {
        (Ok(a), Ok(b)) => {
            assert(a@ =~= b@);
        },
        _ => {},
    }
}

} // verus!
