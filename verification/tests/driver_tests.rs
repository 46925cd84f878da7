use std::cell::Cell;

use pdforum::driver::{build, Action, Driver, Event, Outcome, Phase};

#[test]
fn a_build_starts_by_resolving() {
    let driver = Driver::new(5);
    assert_eq!(driver.cap(), 5);
    assert_eq!(driver.passes(), 0);
    assert_eq!(driver.phase(), Phase::Resolving);
    assert_eq!(driver.action(), Action::Resolve);
    assert!(!driver.is_terminal());
}

#[test]
fn a_build_that_converges_at_once() {
    let mut driver = Driver::new(5);
    assert_eq!(driver.advance(Event::Resolved), Action::Layout);
    assert_eq!(driver.phase(), Phase::LayingOut);
    assert_eq!(driver.advance(Event::LaidOut), Action::Compare);
    assert_eq!(driver.phase(), Phase::CheckingStability);
    assert_eq!(driver.passes(), 1);
    assert_eq!(driver.advance(Event::Compared { equal: true }), Action::Export);
    assert_eq!(driver.phase(), Phase::Stable);
    assert!(driver.is_terminal());
}

#[test]
fn a_build_that_never_converges_is_exhausted_at_the_cap() {
    let mut driver = Driver::new(5);
    driver.advance(Event::Resolved);
    let mut layouts = 0;
    while driver.action() == Action::Layout {
        layouts += 1;
        driver.advance(Event::LaidOut);
        driver.advance(Event::Compared { equal: false });
        assert!(layouts <= 5);
    }
    assert_eq!(layouts, 5);
    assert_eq!(driver.passes(), 5);
    assert_eq!(driver.phase(), Phase::Exhausted);
    assert_eq!(driver.action(), Action::Export);
}

#[test]
fn retrying_is_the_phase_between_two_passes() {
    let mut driver = Driver::new(2);
    driver.advance(Event::Resolved);
    driver.advance(Event::LaidOut);
    assert_eq!(driver.advance(Event::Compared { equal: false }), Action::Layout);
    assert_eq!(driver.phase(), Phase::Retrying);
    assert_eq!(driver.passes(), 1);
    driver.advance(Event::LaidOut);
    assert_eq!(driver.passes(), 2);
    assert_eq!(driver.advance(Event::Compared { equal: false }), Action::Export);
    assert_eq!(driver.phase(), Phase::Exhausted);
}

#[test]
fn a_cap_of_zero_still_runs_one_pass() {
    let mut driver = Driver::new(0);
    driver.advance(Event::Resolved);
    assert_eq!(driver.action(), Action::Layout);
    driver.advance(Event::LaidOut);
    driver.advance(Event::Compared { equal: false });
    assert_eq!(driver.phase(), Phase::Exhausted);
    assert_eq!(driver.passes(), 1);
}

#[test]
fn a_hard_error_fails_the_build_without_a_retry() {
    let mut resolving = Driver::new(5);
    assert_eq!(resolving.advance(Event::HardError), Action::Abort);
    assert_eq!(resolving.phase(), Phase::Failed);
    let mut laying_out = Driver::new(5);
    laying_out.advance(Event::Resolved);
    assert_eq!(laying_out.advance(Event::HardError), Action::Abort);
    assert_eq!(laying_out.phase(), Phase::Failed);
    assert!(laying_out.is_terminal());
}

#[test]
fn an_unexpected_event_fails_the_build() {
    let mut driver = Driver::new(5);
    assert_eq!(driver.advance(Event::LaidOut), Action::Abort);
    let mut other = Driver::new(5);
    other.advance(Event::Resolved);
    assert_eq!(other.advance(Event::Compared { equal: true }), Action::Abort);
    let mut third = Driver::new(5);
    third.advance(Event::Resolved);
    third.advance(Event::LaidOut);
    assert_eq!(third.advance(Event::Resolved), Action::Abort);
}

#[test]
fn a_finished_build_takes_no_more_events() {
    let mut driver = Driver::new(5);
    driver.advance(Event::Resolved);
    driver.advance(Event::LaidOut);
    driver.advance(Event::Compared { equal: true });
    assert_eq!(driver.advance(Event::HardError), Action::Export);
    assert_eq!(driver.advance(Event::LaidOut), Action::Export);
    assert_eq!(driver.phase(), Phase::Stable);
    assert_eq!(driver.passes(), 1);
}

#[test]
fn build_runs_exactly_cap_passes_on_a_document_that_always_differs() {
    let layouts = Cell::new(0u32);
    let outcome: Outcome<u32, String> = build(
        5,
        || Ok("content"),
        0u32,
        |_content: &&str, snapshot: &u32| {
            layouts.set(layouts.get() + 1);
            Ok((*snapshot * 10, *snapshot + 1))
        },
        |before: &u32, after: &u32| before == after,
    );
    assert_eq!(layouts.get(), 5);
    match outcome {
        Outcome::Exhausted { document, passes } => {
            assert_eq!(passes, 5);
            assert_eq!(document, 40);
        }
        _ => panic!("the build should be exhausted"),
    }
}

#[test]
fn build_stops_at_the_first_pass_that_changes_nothing() {
    let layouts = Cell::new(0u32);
    let outcome: Outcome<u32, String> = build(
        5,
        || Ok(3u32),
        0u32,
        |content: &u32, snapshot: &u32| {
            layouts.set(layouts.get() + 1);
            Ok((layouts.get(), (*snapshot + 1).min(*content)))
        },
        |before: &u32, after: &u32| before == after,
    );
    assert_eq!(layouts.get(), 4);
    match outcome {
        Outcome::Stable { document, passes } => {
            assert_eq!(passes, 4);
            assert_eq!(document, 4);
        }
        _ => panic!("the build should be stable"),
    }
}

#[test]
fn build_reports_a_failed_resolution() {
    let layouts = Cell::new(0u32);
    let outcome: Outcome<u32, String> = build(
        5,
        || Err::<u32, String>("no main input".to_string()),
        0u32,
        |_content: &u32, snapshot: &u32| {
            layouts.set(layouts.get() + 1);
            Ok((0, *snapshot))
        },
        |before: &u32, after: &u32| before == after,
    );
    assert_eq!(layouts.get(), 0);
    match outcome {
        Outcome::Failed { error, passes } => {
            assert_eq!(error, "no main input");
            assert_eq!(passes, 0);
        }
        _ => panic!("the build should have failed"),
    }
}

#[test]
fn build_reports_a_failed_pass_and_does_not_retry_it() {
    let layouts = Cell::new(0u32);
    let outcome: Outcome<u32, String> = build(
        5,
        || Ok(()),
        0u32,
        |_content: &(), snapshot: &u32| {
            layouts.set(layouts.get() + 1);
            if *snapshot == 2 {
                Err("malformed".to_string())
            } else {
                Ok((*snapshot, *snapshot + 1))
            }
        },
        |before: &u32, after: &u32| before == after,
    );
    assert_eq!(layouts.get(), 3);
    match outcome {
        Outcome::Failed { error, passes } => {
            assert_eq!(error, "malformed");
            assert_eq!(passes, 2);
        }
        _ => panic!("the build should have failed"),
    }
}

#[test]
fn build_with_a_cap_of_zero_or_one_runs_one_pass() {
    for cap in [0usize, 1usize] {
        let layouts = Cell::new(0u32);
        let outcome: Outcome<u32, String> = build(
            cap,
            || Ok(()),
            0u32,
            |_content: &(), snapshot: &u32| {
                layouts.set(layouts.get() + 1);
                Ok((7, *snapshot + 1))
            },
            |before: &u32, after: &u32| before == after,
        );
        assert_eq!(layouts.get(), 1);
        assert!(matches!(outcome, Outcome::Exhausted { document: 7, passes: 1 }));
    }
}
