//! The decisions of one build: resolve, lay out, compare, and lay out again
//! until the document's view of itself stops changing or the retry cap is
//! reached.
//!
//! The driver performs none of the work itself. It says which step is due,
//! is told how the step ended, and moves on.

use vstd::prelude::*;

verus! {

/// Where a build stands.
#[derive(Debug, Clone, Copy, PartialEq, Eq, Structural)]
pub enum Phase {
    /// The main input is being evaluated.
    Resolving,
    /// The first layout pass is running.
    LayingOut,
    /// A pass has finished and its snapshot is being compared with the one
    /// it started from.
    CheckingStability,
    /// The snapshots differed; another layout pass is running on the new one.
    Retrying,
    /// The snapshots were equal: the candidate is final.
    Stable,
    /// The snapshots still differed after the last pass that the cap allows:
    /// the last candidate is returned as it is.
    Exhausted,
    /// A step failed for good, or reported something the phase does not
    /// expect: the build has no result.
    Failed,
}

/// How a step ended.
#[derive(Debug, Clone, Copy, PartialEq, Eq, Structural)]
pub enum Event {
    /// The main input was evaluated.
    Resolved,
    /// A layout pass produced a candidate and a snapshot.
    LaidOut,
    /// The new snapshot was compared with the one the pass started from.
    Compared { equal: bool },
    /// The step failed with an error that no retry can mend.
    HardError,
}

/// What has to happen next.
#[derive(Debug, Clone, Copy, PartialEq, Eq, Structural)]
pub enum Action {
    /// Evaluate the main input.
    Resolve,
    /// Run a layout pass on the newest snapshot.
    Layout,
    /// Compare the snapshot of the pass with the one it started from.
    Compare,
    /// Hand the newest candidate to the exporter.
    Export,
    /// Give up and report the error.
    Abort,
}

/// The state of a build as a mathematical value.
pub struct DriverState {
    /// The largest number of layout passes.
    pub cap: nat,
    /// The number of layout passes finished so far.
    pub passes: nat,
    /// The current phase.
    pub phase: Phase,
}

impl DriverState {
    /// The number of layout passes that a build may run at most: the cap, and
    /// one where the cap is zero, since a build without a pass has nothing to
    /// return.
    pub open spec fn limit(self) -> nat {
        if self.cap == 0 {
            1
        } else {
            self.cap
        }
    }

    /// The state in which every build starts.
    pub open spec fn initial(cap: nat) -> DriverState {
        DriverState { cap, passes: 0, phase: Phase::Resolving }
    }

    /// What the count of passes can be in each phase.
    pub open spec fn wf(self) -> bool {
        match self.phase {
            Phase::Resolving | Phase::LayingOut => self.passes == 0,
            Phase::Retrying => 1 <= self.passes < self.cap,
            Phase::CheckingStability | Phase::Stable => 1 <= self.passes <= self.limit(),
            Phase::Exhausted => self.passes == self.limit(),
            Phase::Failed => self.passes <= self.limit(),
        }
    }

    /// Whether the build is over.
    pub open spec fn terminal(self) -> bool {
        self.phase == Phase::Stable || self.phase == Phase::Exhausted || self.phase
            == Phase::Failed
    }

    /// The step that is due in this state.
    pub open spec fn action(self) -> Action {
        match self.phase {
            Phase::Resolving => Action::Resolve,
            Phase::LayingOut | Phase::Retrying => Action::Layout,
            Phase::CheckingStability => Action::Compare,
            Phase::Stable | Phase::Exhausted => Action::Export,
            Phase::Failed => Action::Abort,
        }
    }

    /// The state after `event`. A finished build stays as it is. Elsewhere an
    /// event that the phase does not expect fails the build.
    pub open spec fn next(self, event: Event) -> DriverState {
        match (self.phase, event) {
            (Phase::Stable, _) | (Phase::Exhausted, _) | (Phase::Failed, _) => self,
            (Phase::Resolving, Event::Resolved) => DriverState { phase: Phase::LayingOut, ..self },
            (Phase::LayingOut, Event::LaidOut) | (Phase::Retrying, Event::LaidOut) => DriverState {
                phase: Phase::CheckingStability,
                passes: self.passes + 1,
                ..self
            },
            (Phase::CheckingStability, Event::Compared { equal }) => if equal {
                DriverState { phase: Phase::Stable, ..self }
            } else if self.passes < self.cap {
                DriverState { phase: Phase::Retrying, ..self }
            } else {
                DriverState { phase: Phase::Exhausted, ..self }
            },
            _ => DriverState { phase: Phase::Failed, ..self },
        }
    }

    /// An upper bound on the number of steps that are left.
    pub open spec fn steps_left(self) -> nat {
        match self.phase {
            Phase::Resolving => 2 * self.limit() + 1,
            Phase::LayingOut => 2 * self.limit(),
            Phase::Retrying => (2 * (self.limit() - self.passes)) as nat,
            Phase::CheckingStability => (2 * (self.limit() - self.passes) + 1) as nat,
            Phase::Stable | Phase::Exhausted | Phase::Failed => 0,
        }
    }

    /// The state after a run of events, taken one after the other.
    pub open spec fn run(self, events: Seq<Event>) -> DriverState
        decreases events.len(),
    {
        if events.len() == 0 {
            self
        } else {
            self.run(events.drop_last()).next(events.last())
        }
    }
}

/// Every step keeps the state well formed and the cap as it was.
pub proof fn law_step_keeps_wf(state: DriverState, event: Event)
    requires
        state.wf(),
    ensures
        state.next(event).wf(),
        state.next(event).cap == state.cap,
        state.next(event).passes >= state.passes,
{
}

/// Every step of a build that is not over brings its end nearer by at least
/// one, whatever the event.
pub proof fn law_step_makes_progress(state: DriverState, event: Event)
    requires
        state.wf(),
        !state.terminal(),
    ensures
        state.next(event).steps_left() < state.steps_left(),
{
}

/// A build runs at most as many layout passes as the cap allows (one where
/// the cap is zero), whatever the steps report.
pub proof fn law_passes_within_cap(cap: nat, events: Seq<Event>)
    ensures
        DriverState::initial(cap).run(events).wf(),
        DriverState::initial(cap).run(events).cap == cap,
        DriverState::initial(cap).run(events).passes <= DriverState::initial(cap).limit(),
    decreases events.len(),
{
    if events.len() > 0 {
        law_passes_within_cap(cap, events.drop_last());
        law_step_keeps_wf(DriverState::initial(cap).run(events.drop_last()), events.last());
    }
}

/// A build is over after at most two steps for each pass that the cap
/// allows, and one for the resolution.
pub proof fn law_build_terminates(cap: nat, events: Seq<Event>)
    requires
        events.len() >= 2 * DriverState::initial(cap).limit() + 1,
    ensures
        DriverState::initial(cap).run(events).terminal(),
{
    lemma_steps_left_after(cap, events);
}

/// After `n` events at most `2 * limit + 1 - n` steps are left.
proof fn lemma_steps_left_after(cap: nat, events: Seq<Event>)
    ensures
        DriverState::initial(cap).run(events).wf(),
        DriverState::initial(cap).run(events).steps_left() + events.len() <= 2
            * DriverState::initial(cap).limit() + 1 || DriverState::initial(cap).run(
            events,
        ).terminal(),
    decreases events.len(),
{
    if events.len() > 0 {
        let before = DriverState::initial(cap).run(events.drop_last());
        lemma_steps_left_after(cap, events.drop_last());
        law_passes_within_cap(cap, events.drop_last());
        law_step_keeps_wf(before, events.last());
        if !before.terminal() {
            law_step_makes_progress(before, events.last());
        }
    }
}

/// A document whose snapshots never compare equal is laid out exactly as
/// often as the cap allows and then returned: as long as the comparison fails
/// below the cap the build retries, and at the cap it is exhausted.
pub proof fn law_divergence_exhausts(state: DriverState)
    requires
        state.wf(),
        state.phase == Phase::CheckingStability,
    ensures
        state.passes < state.cap ==> state.next(Event::Compared { equal: false }).phase
            == Phase::Retrying,
        state.passes >= state.cap ==> state.next(Event::Compared { equal: false }).phase
            == Phase::Exhausted && state.passes == state.limit(),
        state.next(Event::Compared { equal: true }).phase == Phase::Stable,
{
}

/// The driver of one build.
pub struct Driver {
    cap: usize,
    passes: usize,
    phase: Phase,
}

impl View for Driver {
    type V = DriverState;

    closed spec fn view(&self) -> DriverState {
        DriverState { cap: self.cap as nat, passes: self.passes as nat, phase: self.phase }
    }
}

impl Driver {
    #[verifier::type_invariant]
    spec fn well_formed(self) -> bool {
        self@.wf()
    }

    /// The driver of a build that has not started, with the given retry cap.
    pub fn new(cap: usize) -> (driver: Driver)
        ensures
            driver@ == DriverState::initial(cap as nat),
    {
        Driver { cap, passes: 0, phase: Phase::Resolving }
    }

    /// The retry cap.
    pub fn cap(&self) -> (cap: usize)
        ensures
            cap == self@.cap,
    {
        self.cap
    }

    /// The number of layout passes finished so far.
    pub fn passes(&self) -> (passes: usize)
        ensures
            passes == self@.passes,
            self@.wf(),
            passes <= self@.limit(),
    {
        proof {
            use_type_invariant(self);
        }
        self.passes
    }

    /// The current phase.
    pub fn phase(&self) -> (phase: Phase)
        ensures
            phase == self@.phase,
    {
        self.phase
    }

    /// Whether the build is over.
    pub fn is_terminal(&self) -> (over: bool)
        ensures
            over == self@.terminal(),
    {
        match self.phase {
            Phase::Stable | Phase::Exhausted | Phase::Failed => true,
            _ => false,
        }
    }

    /// The step that is due.
    pub fn action(&self) -> (action: Action)
        ensures
            action == self@.action(),
    {
        match self.phase {
            Phase::Resolving => Action::Resolve,
            Phase::LayingOut | Phase::Retrying => Action::Layout,
            Phase::CheckingStability => Action::Compare,
            Phase::Stable | Phase::Exhausted => Action::Export,
            Phase::Failed => Action::Abort,
        }
    }

    /// Takes in how the step that was due ended, and returns the step that
    /// is due now.
    pub fn advance(&mut self, event: Event) -> (action: Action)
        ensures
            final(self)@ == old(self)@.next(event),
            final(self)@.wf(),
            action == final(self)@.action(),
            !old(self)@.terminal() ==> final(self)@.steps_left() < old(self)@.steps_left(),
    {
        proof {
            use_type_invariant(&*self);
            law_step_keeps_wf(self@, event);
            if !self@.terminal() {
                law_step_makes_progress(self@, event);
            }
        }
        match self.phase {
            Phase::Stable | Phase::Exhausted | Phase::Failed => {},
            Phase::Resolving => match event {
                Event::Resolved => {
                    self.phase = Phase::LayingOut;
                },
                _ => {
                    self.phase = Phase::Failed;
                },
            },
            Phase::LayingOut | Phase::Retrying => match event {
                Event::LaidOut => {
                    *self = Driver {
                        cap: self.cap,
                        passes: self.passes + 1,
                        phase: Phase::CheckingStability,
                    };
                },
                _ => {
                    self.phase = Phase::Failed;
                },
            },
            Phase::CheckingStability => match event {
                Event::Compared { equal } => {
                    if equal {
                        self.phase = Phase::Stable;
                    } else if self.passes < self.cap {
                        self.phase = Phase::Retrying;
                    } else {
                        self.phase = Phase::Exhausted;
                    }
                },
                _ => {
                    self.phase = Phase::Failed;
                },
            },
        }
        self.action()
    }
}

/// How a build ended.
#[derive(Debug)]
pub enum Outcome<D, E> {
    /// The pass numbered `passes` reproduced the snapshot it started from.
    Stable { document: D, passes: usize },
    /// The last pass that the cap allows still changed the snapshot; its
    /// candidate is returned all the same.
    Exhausted { document: D, passes: usize },
    /// The resolution, or the pass after `passes` finished ones, failed for
    /// good.
    Failed { error: E, passes: usize },
}

/// The snapshot that pass `i` starts from: the initial one, then the one of
/// the pass before.
pub open spec fn snapshot_before<S>(initial: S, snapshots: Seq<S>, i: int) -> S {
    if i == 0 {
        initial
    } else {
        snapshots[i - 1]
    }
}

/// Whether `snapshots` and `candidates` are what the first passes of a build
/// produced: each pass started from the snapshot of the one before, and each
/// of the first `unequal` passes ended in a snapshot that the comparison
/// found changed.
pub open spec fn passes_chain<C, S, D, E, L, Q>(
    layout: L,
    same: Q,
    content: C,
    initial: S,
    snapshots: Seq<S>,
    candidates: Seq<D>,
    unequal: int,
) -> bool where L: Fn(&C, &S) -> Result<(D, S), E>, Q: Fn(&S, &S) -> bool {
    &&& snapshots.len() == candidates.len()
    &&& forall|i: int|
        0 <= i < snapshots.len() ==> layout.ensures(
            (&content, &snapshot_before(initial, snapshots, i)),
            Ok((#[trigger] candidates[i], snapshots[i])),
        )
    &&& forall|i: int|
        0 <= i < unequal ==> same.ensures(
            (&snapshot_before(initial, snapshots, i), &#[trigger] snapshots[i]),
            false,
        )
}

/// Whether a build that ended stable after `passes` passes went through the
/// given content, snapshots and candidates: all passes but the last changed
/// the snapshot, the last reproduced the one it started from, and
/// `document` is its candidate.
pub open spec fn ends_stable<C, S, D, E, R, L, Q>(
    cap: usize,
    resolve: R,
    initial: S,
    layout: L,
    same: Q,
    content: C,
    snapshots: Seq<S>,
    candidates: Seq<D>,
    document: D,
    passes: usize,
) -> bool where
    R: FnOnce() -> Result<C, E>,
    L: Fn(&C, &S) -> Result<(D, S), E>,
    Q: Fn(&S, &S) -> bool,
 {
    &&& resolve.ensures((), Ok(content))
    &&& passes_chain(layout, same, content, initial, snapshots, candidates, passes - 1)
    &&& snapshots.len() == passes
    &&& 1 <= passes <= DriverState::initial(cap as nat).limit()
    &&& candidates.last() == document
    &&& same.ensures((&snapshot_before(initial, snapshots, passes - 1), &snapshots.last()), true)
}

/// Whether a build that ended exhausted went through the given content,
/// snapshots and candidates: it ran as many passes as the cap allows, every
/// one of them changed the snapshot, and `document` is the candidate of the
/// last.
pub open spec fn ends_exhausted<C, S, D, E, R, L, Q>(
    cap: usize,
    resolve: R,
    initial: S,
    layout: L,
    same: Q,
    content: C,
    snapshots: Seq<S>,
    candidates: Seq<D>,
    document: D,
    passes: usize,
) -> bool where
    R: FnOnce() -> Result<C, E>,
    L: Fn(&C, &S) -> Result<(D, S), E>,
    Q: Fn(&S, &S) -> bool,
 {
    &&& resolve.ensures((), Ok(content))
    &&& passes_chain(layout, same, content, initial, snapshots, candidates, passes as int)
    &&& snapshots.len() == passes
    &&& passes == DriverState::initial(cap as nat).limit()
    &&& candidates.last() == document
}

/// Whether a build that failed in a layout pass went through the given
/// content, snapshots and candidates: `passes` passes finished, fewer than
/// the cap allows, each changed the snapshot, and the next one failed with
/// `error`.
pub open spec fn ends_failed<C, S, D, E, R, L, Q>(
    cap: usize,
    resolve: R,
    initial: S,
    layout: L,
    same: Q,
    content: C,
    snapshots: Seq<S>,
    candidates: Seq<D>,
    error: E,
    passes: usize,
) -> bool where
    R: FnOnce() -> Result<C, E>,
    L: Fn(&C, &S) -> Result<(D, S), E>,
    Q: Fn(&S, &S) -> bool,
 {
    &&& resolve.ensures((), Ok(content))
    &&& passes_chain(layout, same, content, initial, snapshots, candidates, passes as int)
    &&& snapshots.len() == passes
    &&& passes < DriverState::initial(cap as nat).limit()
    &&& layout.ensures((&content, &snapshot_before(initial, snapshots, passes as int)), Err(error))
}

/// Runs one build: resolves the content, then lays it out until a pass
/// reproduces the snapshot it started from, or the cap is reached.
///
/// `resolve` evaluates the main input. `layout` runs one pass on the content
/// and a snapshot and returns a candidate with the snapshot it ends in.
/// `same` says whether two snapshots are equal. The first failure of
/// `resolve` or `layout` ends the build with that error and is not retried.
/// At most `cap` passes run, and one where `cap` is zero.
pub fn build<C, S, D, E, R, L, Q>(cap: usize, resolve: R, initial: S, layout: L, same: Q) -> (outcome:
    Outcome<D, E>) where
    R: FnOnce() -> Result<C, E>,
    L: Fn(&C, &S) -> Result<(D, S), E>,
    Q: Fn(&S, &S) -> bool,

    requires
        resolve.requires(()),
        forall|content: C, snapshot: S| #[trigger] layout.requires((&content, &snapshot)),
        forall|before: S, after: S| #[trigger] same.requires((&before, &after)),
    ensures
        match outcome {
            Outcome::Failed { error, passes } => {
                ||| passes == 0 && resolve.ensures((), Err(error))
                ||| exists|content: C, snapshots: Seq<S>, candidates: Seq<D>|
                    ends_failed(
                        cap,
                        resolve,
                        initial,
                        layout,
                        same,
                        content,
                        snapshots,
                        candidates,
                        error,
                        passes,
                    )
            },
            Outcome::Stable { document, passes } => exists|
                content: C,
                snapshots: Seq<S>,
                candidates: Seq<D>,
            |
                ends_stable(
                    cap,
                    resolve,
                    initial,
                    layout,
                    same,
                    content,
                    snapshots,
                    candidates,
                    document,
                    passes,
                ),
            Outcome::Exhausted { document, passes } => exists|
                content: C,
                snapshots: Seq<S>,
                candidates: Seq<D>,
            |
                ends_exhausted(
                    cap,
                    resolve,
                    initial,
                    layout,
                    same,
                    content,
                    snapshots,
                    candidates,
                    document,
                    passes,
                ),
        },
{
    let mut driver = Driver::new(cap);
    let content = match resolve() {
        Ok(content) => {
            driver.advance(Event::Resolved);
            content
        },
        Err(error) => {
            driver.advance(Event::HardError);
            return Outcome::Failed { error, passes: 0 };
        },
    };
    let mut snapshot = initial;
    let ghost mut snapshots: Seq<S> = Seq::empty();
    let ghost mut candidates: Seq<D> = Seq::empty();
    loop
        invariant
            driver@.wf(),
            driver@.cap == cap,
            driver@.phase == Phase::LayingOut || driver@.phase == Phase::Retrying,
            driver@.passes == snapshots.len(),
            snapshot == snapshot_before(initial, snapshots, snapshots.len() as int),
            resolve.ensures((), Ok(content)),
            passes_chain(
                layout,
                same,
                content,
                initial,
                snapshots,
                candidates,
                snapshots.len() as int,
            ),
            forall|content: C, snapshot: S| #[trigger] layout.requires((&content, &snapshot)),
            forall|before: S, after: S| #[trigger] same.requires((&before, &after)),
        decreases driver@.steps_left(),
    {
        let ghost done = snapshots.len() as int;
        match layout(&content, &snapshot) {
            Err(error) => {
                driver.advance(Event::HardError);
                let passes = driver.passes();
                let outcome = Outcome::Failed { error, passes };
                proof {
                    assert(ends_failed(
                        cap,
                        resolve,
                        initial,
                        layout,
                        same,
                        content,
                        snapshots,
                        candidates,
                        outcome->Failed_error,
                        outcome->Failed_passes,
                    ));
                }
                return outcome;
            },
            Ok((document, next)) => {
                driver.advance(Event::LaidOut);
                let equal = same(&snapshot, &next);
                driver.advance(Event::Compared { equal });
                let passes = driver.passes();
                proof {
                    let longer = snapshots.push(next);
                    assert forall|i: int| 0 <= i <= done implies snapshot_before(
                        initial,
                        longer,
                        i,
                    ) == snapshot_before(initial, snapshots, i) by {}
                    assert(snapshot_before(initial, longer, done) == snapshot);
                    snapshots = longer;
                    candidates = candidates.push(document);
                    assert(passes_chain(layout, same, content, initial, snapshots, candidates, done));
                }
                match driver.phase() {
                    Phase::Retrying => {
                        proof {
                            assert(passes_chain(
                                layout,
                                same,
                                content,
                                initial,
                                snapshots,
                                candidates,
                                done + 1,
                            ));
                        }
                        snapshot = next;
                    },
                    Phase::Stable => {
                        let outcome = Outcome::Stable { document, passes };
                        proof {
                            assert(ends_stable(
                                cap,
                                resolve,
                                initial,
                                layout,
                                same,
                                content,
                                snapshots,
                                candidates,
                                outcome->Stable_document,
                                outcome->Stable_passes,
                            ));
                        }
                        return outcome;
                    },
                    _ => {
                        let outcome = Outcome::Exhausted { document, passes };
                        proof {
                            assert(ends_exhausted(
                                cap,
                                resolve,
                                initial,
                                layout,
                                same,
                                content,
                                snapshots,
                                candidates,
                                outcome->Exhausted_document,
                                outcome->Exhausted_passes,
                            ));
                        }
                        return outcome;
                    },
                }
            },
        }
    }
}

} // verus!
