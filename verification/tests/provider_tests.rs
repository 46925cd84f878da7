use std::cell::{Cell, RefCell};

use pdforum::cache::SlotCache;
use pdforum::files::{ContentProvider, MemoryFiles};
use pdforum::fingerprint::ErrorKind;
use pdforum::identifier::Identifier;

/// A provider that counts how often each call reaches it.
struct Counting {
    content: RefCell<Result<Vec<u8>, ErrorKind>>,
    loads: Cell<u32>,
}

impl Counting {
    fn serving(content: Result<Vec<u8>, ErrorKind>) -> Counting {
        Counting { content: RefCell::new(content), loads: Cell::new(0) }
    }
}

impl ContentProvider for Counting {
    fn load(&self, _id: &Identifier) -> Result<Vec<u8>, ErrorKind> {
        self.loads.set(self.loads.get() + 1);
        self.content.borrow().clone()
    }
}

fn length(bytes: Vec<u8>, previous: Option<usize>) -> Result<usize, ErrorKind> {
    Ok(bytes.len() + previous.unwrap_or(0))
}

#[test]
fn provider_is_asked_once_in_a_build() {
    let provider = Counting::serving(Ok(vec![1, 2, 3]));
    let a = Identifier::new("A");
    let mut cache: SlotCache<usize> = SlotCache::new();
    cache.reset_all();
    let derives = Cell::new(0);
    let mut outs = Vec::new();
    for _ in 0..8 {
        outs.push(cache.resolve(&provider, &a, |bytes, previous| {
            derives.set(derives.get() + 1);
            length(bytes, previous)
        }));
    }
    assert_eq!(provider.loads.get(), 1);
    assert_eq!(derives.get(), 1);
    assert!(outs.iter().all(|out| *out == Ok(3)));
}

#[test]
fn provider_is_asked_once_in_each_build_and_unchanged_content_is_kept() {
    let provider = Counting::serving(Ok(vec![1, 2, 3]));
    let a = Identifier::new("A");
    let mut cache: SlotCache<usize> = SlotCache::new();
    let derives = Cell::new(0);
    cache.reset_all();
    let first = cache.resolve(&provider, &a, |bytes, previous| {
        derives.set(derives.get() + 1);
        length(bytes, previous)
    });
    cache.reset_all();
    let second = cache.resolve(&provider, &a, |bytes, previous| {
        derives.set(derives.get() + 1);
        length(bytes, previous)
    });
    assert_eq!(first, Ok(3));
    assert_eq!(second, first);
    assert_eq!(provider.loads.get(), 2);
    assert_eq!(derives.get(), 1);
}

#[test]
fn changed_content_is_derived_in_the_next_build() {
    let provider = Counting::serving(Ok(vec![1, 2, 3]));
    let a = Identifier::new("A");
    let mut cache: SlotCache<usize> = SlotCache::new();
    assert_eq!(cache.resolve(&provider, &a, length), Ok(3));
    *provider.content.borrow_mut() = Ok(vec![9; 10]);
    assert_eq!(cache.resolve(&provider, &a, length), Ok(3));
    cache.reset_all();
    assert_eq!(cache.resolve(&provider, &a, length), Ok(13));
    *provider.content.borrow_mut() = Err(ErrorKind::AccessDenied);
    cache.reset_all();
    assert_eq!(cache.resolve(&provider, &a, length), Err(ErrorKind::AccessDenied));
    assert_eq!(provider.loads.get(), 3);
}

#[test]
fn a_missing_input_is_cached_as_not_found() {
    let provider = Counting::serving(Err(ErrorKind::NotFound));
    let missing = Identifier::new("missing");
    let mut cache: SlotCache<usize> = SlotCache::new();
    let derives = Cell::new(0);
    cache.reset_all();
    let first = cache.resolve(&provider, &missing, |bytes, previous| {
        derives.set(derives.get() + 1);
        length(bytes, previous)
    });
    let again = cache.resolve(&provider, &missing, |bytes, previous| {
        derives.set(derives.get() + 1);
        length(bytes, previous)
    });
    assert_eq!(provider.loads.get(), 1);
    cache.reset_all();
    let second = cache.resolve(&provider, &missing, |bytes, previous| {
        derives.set(derives.get() + 1);
        length(bytes, previous)
    });
    assert_eq!(first, Err(ErrorKind::NotFound));
    assert_eq!(again, Err(ErrorKind::NotFound));
    assert_eq!(second, Err(ErrorKind::NotFound));
    assert_eq!(derives.get(), 0);
    assert_eq!(provider.loads.get(), 2);
}

#[test]
fn invalidated_slot_asks_the_provider_again() {
    let provider = Counting::serving(Ok(vec![7]));
    let x = Identifier::new("X");
    let mut cache: SlotCache<usize> = SlotCache::new();
    assert_eq!(cache.resolve(&provider, &x, length), Ok(1));
    assert_eq!(provider.loads.get(), 1);
    cache.invalidate(&x);
    assert_eq!(cache.resolve(&provider, &x, length), Ok(1));
    assert_eq!(provider.loads.get(), 2);
}

#[test]
fn memory_files_are_a_provider() {
    let mut files = MemoryFiles::new();
    let a = Identifier::new("a");
    files.write(&a, vec![1, 2]);
    let mut cache: SlotCache<usize> = SlotCache::new();
    assert_eq!(cache.resolve(&files, &a, length), Ok(2));
    assert_eq!(cache.resolve(&files, &Identifier::new("b"), length), Err(ErrorKind::NotFound));
}
