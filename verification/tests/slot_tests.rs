use std::cell::Cell;

use pdforum::cache::SlotCache;
use pdforum::fingerprint::{ErrorKind, Fingerprint};
use pdforum::identifier::Identifier;
use pdforum::slot::{clone_result, Slot};

fn upper(bytes: Vec<u8>, _previous: Option<String>) -> Result<String, ErrorKind> {
    Ok(String::from_utf8_lossy(&bytes).to_uppercase())
}

#[test]
fn new_slot_holds_nothing() {
    let slot: Slot<String> = Slot::new();
    assert!(!slot.is_accessed());
    assert!(!slot.has_derived());
    assert_eq!(slot.last_fingerprint(), Fingerprint::blank());
}

#[test]
fn first_resolution_loads_and_derives() {
    let mut slot: Slot<String> = Slot::new();
    let loads = Cell::new(0);
    let derives = Cell::new(0);
    let out = slot.get_or_init(
        || {
            loads.set(loads.get() + 1);
            Ok(b"main".to_vec())
        },
        |bytes, previous| {
            derives.set(derives.get() + 1);
            assert_eq!(previous, None);
            upper(bytes, previous)
        },
    );
    assert_eq!(out, Ok("MAIN".to_string()));
    assert_eq!((loads.get(), derives.get()), (1, 1));
    assert!(slot.is_accessed());
    assert!(slot.has_derived());
    assert_eq!(slot.last_fingerprint(), Fingerprint::of(&Ok(b"main".to_vec())));
}

#[test]
fn second_reference_in_a_build_calls_nothing() {
    let mut slot: Slot<String> = Slot::new();
    let first = slot.get_or_init(|| Ok(b"main".to_vec()), upper);
    let loads = Cell::new(0);
    let derives = Cell::new(0);
    let second = slot.get_or_init(
        || {
            loads.set(loads.get() + 1);
            Ok(b"other".to_vec())
        },
        |bytes, previous| {
            derives.set(derives.get() + 1);
            upper(bytes, previous)
        },
    );
    assert_eq!(first, second);
    assert_eq!((loads.get(), derives.get()), (0, 0));
}

#[test]
fn unchanged_content_is_not_derived_again() {
    let mut slot: Slot<String> = Slot::new();
    let first = slot.get_or_init(|| Ok(b"main".to_vec()), upper);
    slot.reset();
    assert!(!slot.is_accessed());
    let loads = Cell::new(0);
    let derives = Cell::new(0);
    let second = slot.get_or_init(
        || {
            loads.set(loads.get() + 1);
            Ok(b"main".to_vec())
        },
        |bytes, previous| {
            derives.set(derives.get() + 1);
            upper(bytes, previous)
        },
    );
    assert_eq!(first, second);
    assert_eq!((loads.get(), derives.get()), (1, 0));
    assert!(slot.is_accessed());
}

#[test]
fn changed_content_is_derived_with_the_previous_value() {
    let mut slot: Slot<String> = Slot::new();
    let _ = slot.get_or_init(|| Ok(b"one".to_vec()), upper);
    slot.reset();
    let out = slot.get_or_init(
        || Ok(b"two".to_vec()),
        |bytes, previous| {
            assert_eq!(previous, Some("ONE".to_string()));
            upper(bytes, previous)
        },
    );
    assert_eq!(out, Ok("TWO".to_string()));
    assert_eq!(slot.last_fingerprint(), Fingerprint::of(&Ok(b"two".to_vec())));
}

#[test]
fn failed_load_is_cached_like_content() {
    let mut slot: Slot<String> = Slot::new();
    let derives = Cell::new(0);
    let first = slot.get_or_init(
        || Err(ErrorKind::NotFound),
        |bytes, previous| {
            derives.set(derives.get() + 1);
            upper(bytes, previous)
        },
    );
    assert_eq!(first, Err(ErrorKind::NotFound));
    assert_eq!(derives.get(), 0);
    assert_eq!(slot.last_fingerprint(), Fingerprint::of(&Err(ErrorKind::NotFound)));
    slot.reset();
    let second = slot.get_or_init(
        || Err(ErrorKind::NotFound),
        |bytes, previous| {
            derives.set(derives.get() + 1);
            upper(bytes, previous)
        },
    );
    assert_eq!(second, Err(ErrorKind::NotFound));
    assert_eq!(derives.get(), 0);
}

#[test]
fn missing_input_stays_missing_across_builds() {
    let missing = Identifier::new("missing");
    let mut cache: SlotCache<String> = SlotCache::new();
    let loads = Cell::new(0);
    let derives = Cell::new(0);
    cache.reset_all();
    let first = cache.get_or_init(
        &missing,
        || {
            loads.set(loads.get() + 1);
            Err(ErrorKind::NotFound)
        },
        |bytes, previous| {
            derives.set(derives.get() + 1);
            upper(bytes, previous)
        },
    );
    let again = cache.get_or_init(
        &missing,
        || {
            loads.set(loads.get() + 1);
            Err(ErrorKind::NotFound)
        },
        |bytes, previous| {
            derives.set(derives.get() + 1);
            upper(bytes, previous)
        },
    );
    assert_eq!(first, Err(ErrorKind::NotFound));
    assert_eq!(again, Err(ErrorKind::NotFound));
    assert_eq!((loads.get(), derives.get()), (1, 0));
    cache.reset_all();
    let second = cache.get_or_init(
        &missing,
        || {
            loads.set(loads.get() + 1);
            Err(ErrorKind::NotFound)
        },
        |bytes, previous| {
            derives.set(derives.get() + 1);
            upper(bytes, previous)
        },
    );
    assert_eq!(second, Err(ErrorKind::NotFound));
    assert_eq!((loads.get(), derives.get()), (2, 0));
}

#[test]
fn an_error_that_is_mended_is_derived() {
    let mut slot: Slot<String> = Slot::new();
    let _ = slot.get_or_init(|| Err(ErrorKind::AccessDenied), upper);
    slot.reset();
    let out = slot.get_or_init(
        || Ok(b"now".to_vec()),
        |bytes, previous| {
            assert_eq!(previous, None);
            upper(bytes, previous)
        },
    );
    assert_eq!(out, Ok("NOW".to_string()));
}

#[test]
fn failed_derivation_is_cached() {
    let mut slot: Slot<String> = Slot::new();
    let out = slot.get_or_init(|| Ok(vec![0xff]), |_, _| Err(ErrorKind::InvalidText));
    assert_eq!(out, Err(ErrorKind::InvalidText));
    slot.reset();
    let derives = Cell::new(0);
    let again = slot.get_or_init(
        || Ok(vec![0xff]),
        |_, _| {
            derives.set(derives.get() + 1);
            Ok(String::new())
        },
    );
    assert_eq!(again, Err(ErrorKind::InvalidText));
    assert_eq!(derives.get(), 0);
}

#[test]
fn clone_result_copies_both_cases() {
    let good: Result<String, ErrorKind> = Ok("text".to_string());
    let bad: Result<String, ErrorKind> = Err(ErrorKind::Io(7));
    assert_eq!(clone_result(&good), good);
    assert_eq!(clone_result(&bad), bad);
}

#[test]
fn cache_keeps_slots_apart() {
    let a = Identifier::new("a");
    let b = Identifier::new("b");
    let mut cache: SlotCache<String> = SlotCache::new();
    assert!(!cache.contains(&a));
    assert_eq!(cache.fingerprint(&a), None);
    assert_eq!(cache.get_or_init(&a, || Ok(b"x".to_vec()), upper), Ok("X".to_string()));
    assert_eq!(cache.get_or_init(&b, || Ok(b"y".to_vec()), upper), Ok("Y".to_string()));
    assert!(cache.contains(&a));
    assert!(cache.contains(&b));
    assert!(cache.is_accessed(&a));
    assert_eq!(cache.fingerprint(&a), Some(Fingerprint::of(&Ok(b"x".to_vec()))));
    assert_eq!(cache.fingerprint(&b), Some(Fingerprint::of(&Ok(b"y".to_vec()))));
    assert_eq!(cache.get_or_init(&a, || Ok(b"z".to_vec()), upper), Ok("X".to_string()));
}

#[test]
fn reset_all_clears_every_flag_and_keeps_values() {
    let a = Identifier::new("a");
    let b = Identifier::new("b");
    let mut cache: SlotCache<String> = SlotCache::new();
    let _ = cache.get_or_init(&a, || Ok(b"x".to_vec()), upper);
    let _ = cache.get_or_init(&b, || Err(ErrorKind::IsDirectory), upper);
    cache.reset_all();
    assert!(!cache.is_accessed(&a));
    assert!(!cache.is_accessed(&b));
    assert_eq!(cache.fingerprint(&a), Some(Fingerprint::of(&Ok(b"x".to_vec()))));
    assert_eq!(cache.fingerprint(&b), Some(Fingerprint::of(&Err(ErrorKind::IsDirectory))));
    let derives = Cell::new(0);
    let out = cache.get_or_init(
        &a,
        || Ok(b"x".to_vec()),
        |bytes, previous| {
            derives.set(derives.get() + 1);
            upper(bytes, previous)
        },
    );
    assert_eq!(out, Ok("X".to_string()));
    assert_eq!(derives.get(), 0);
}

#[test]
fn invalidate_clears_one_flag_only() {
    let a = Identifier::new("a");
    let b = Identifier::new("b");
    let c = Identifier::new("c");
    let mut cache: SlotCache<String> = SlotCache::new();
    let _ = cache.get_or_init(&a, || Ok(b"x".to_vec()), upper);
    let _ = cache.get_or_init(&b, || Ok(b"y".to_vec()), upper);
    cache.invalidate(&a);
    cache.invalidate(&c);
    assert!(!cache.is_accessed(&a));
    assert!(cache.is_accessed(&b));
    assert!(!cache.contains(&c));
    let loads = Cell::new(0);
    let out = cache.get_or_init(
        &a,
        || {
            loads.set(loads.get() + 1);
            Ok(b"x2".to_vec())
        },
        upper,
    );
    assert_eq!(loads.get(), 1);
    assert_eq!(out, Ok("X2".to_string()));
}

#[test]
fn identifiers_compare_by_name() {
    let a = Identifier::new("main");
    assert_eq!(a.as_str(), "main");
    assert!(a.same(&Identifier::new("main")));
    assert!(!a.same(&Identifier::new("Main")));
    assert!(a.duplicate().same(&a));
    assert_eq!(a, Identifier::new("main"));
}
