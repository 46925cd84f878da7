use pdforum::fingerprint::{ErrorKind, Fingerprint};

fn digest_of(loaded: Result<Vec<u8>, ErrorKind>) -> u128 {
    Fingerprint::of(&loaded).digest
}

#[test]
fn blank_fingerprint_is_zero() {
    assert_eq!(Fingerprint::blank().digest, 0);
}

#[test]
fn fingerprint_of_empty_content() {
    assert_eq!(digest_of(Ok(Vec::new())), 0xd228cb69101a8caf78912b704e4a147f);
}

#[test]
fn fingerprint_of_content() {
    assert_eq!(digest_of(Ok(b"hello".to_vec())), 0x6141ca7d2d3c64bf6dc57d8f76f4cf45);
    assert_eq!(digest_of(Ok(b"hellp".to_vec())), 0x6141ca7d0e3c64bf6dc57d8f76f4a920);
}

#[test]
fn fingerprint_of_each_error_kind() {
    assert_eq!(digest_of(Err(ErrorKind::NotFound)), 0x08809458daab1be95aa073305525b5e7);
    assert_eq!(digest_of(Err(ErrorKind::AccessDenied)), 0x08809458dbab1be95aa073305525b722);
    assert_eq!(digest_of(Err(ErrorKind::IsDirectory)), 0x08809458dcab1be95aa073305525b85d);
    assert_eq!(digest_of(Err(ErrorKind::InvalidText)), 0x08809458d5ab1be95aa073305525afc0);
    assert_eq!(digest_of(Err(ErrorKind::Io(0x01020304))), 0xfb888f03453c64bf6dc3224d6f4616db);
}

#[test]
fn fingerprint_is_deterministic() {
    let first = Fingerprint::of(&Ok(b"same bytes".to_vec()));
    let second = Fingerprint::of(&Ok(b"same bytes".to_vec()));
    assert_eq!(first, second);
    assert!(first.matches(&second));
}

#[test]
fn fingerprint_tells_content_from_failure() {
    let missing = Fingerprint::of(&Err(ErrorKind::NotFound));
    let empty = Fingerprint::of(&Ok(Vec::new()));
    let tag = Fingerprint::of(&Ok(vec![1u8]));
    assert!(!missing.matches(&empty));
    assert!(!missing.matches(&tag));
    assert_ne!(Fingerprint::of(&Err(ErrorKind::Io(1))), Fingerprint::of(&Err(ErrorKind::Io(2))));
}
