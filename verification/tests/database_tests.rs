use pdforum::database::{
    hash, hash_salt, hash_with, login, register, same_bytes, Inserted, Registration,
    UNIQUE_VIOLATION,
};

const DIGEST: [u8; 32] = [
    223, 230, 77, 217, 102, 197, 60, 171, 181, 232, 206, 163, 158, 116, 212, 164, 248, 188, 61,
    106, 130, 167, 163, 168, 35, 65, 125, 112, 126, 190, 16, 156,
];

const EMPTY_DIGEST: [u8; 32] = [
    0xe3, 0xb0, 0xc4, 0x42, 0x98, 0xfc, 0x1c, 0x14, 0x9a, 0xfb, 0xf4, 0xc8, 0x99, 0x6f, 0xb9,
    0x24, 0x27, 0xae, 0x41, 0xe4, 0x64, 0x9b, 0x93, 0x4c, 0xa4, 0x95, 0x99, 0x1b, 0x78, 0x52,
    0xb8, 0x55,
];

#[test]
fn hash_salt_is_sha256_of_password_then_salt() {
    assert_eq!(hash_salt("hunter2", &[1, 2, 3, 4, 5, 6, 7, 8]), DIGEST);
    assert_eq!(hash_salt("hunter", &[b'2', 1, 2, 3, 4, 5, 6, 7, 8]), DIGEST);
    assert_eq!(hash_salt("", &[]), EMPTY_DIGEST);
}

#[test]
fn hash_salt_depends_on_the_salt() {
    assert_ne!(hash_salt("hunter2", &[1, 2, 3, 4, 5, 6, 7, 9]), DIGEST);
    assert_ne!(hash_salt("hunter2", &[]), DIGEST);
}

#[test]
fn hash_returns_the_digest_for_its_salt() {
    let (digest, salt) = hash("correct horse").expect("the system has a random source");
    assert_eq!(digest, hash_salt("correct horse", &salt));
    assert_eq!(login(9, "correct horse", &salt, &digest), Some(9));
    assert_eq!(login(9, "wrong horse", &salt, &digest), None);
}

#[test]
fn hash_with_keeps_the_salt_it_was_given() {
    assert_eq!(
        hash_with("hunter2", Some([1, 2, 3, 4, 5, 6, 7, 8])),
        Some((DIGEST, [1, 2, 3, 4, 5, 6, 7, 8]))
    );
    assert_eq!(hash_with("hunter2", None), None);
}

#[test]
fn login_checks_the_password() {
    assert_eq!(login(42, "hunter2", &[1, 2, 3, 4, 5, 6, 7, 8], &DIGEST), Some(42));
    assert_eq!(login(42, "hunter3", &[1, 2, 3, 4, 5, 6, 7, 8], &DIGEST), None);
    assert_eq!(login(42, "hunter2", &[8, 7, 6, 5, 4, 3, 2, 1], &DIGEST), None);
    assert_eq!(login(42, "hunter2", &[1, 2, 3, 4, 5, 6, 7, 8], &DIGEST[..31]), None);
    assert_eq!(login(42, "hunter2", &[1, 2, 3, 4, 5, 6, 7, 8], &[]), None);
}

#[test]
fn same_bytes_compares_length_and_content() {
    assert!(same_bytes(&[], &[]));
    assert!(same_bytes(&[1, 2], &[1, 2]));
    assert!(!same_bytes(&[1, 2], &[1, 3]));
    assert!(!same_bytes(&[1, 2], &[1]));
    assert!(!same_bytes(&[], &[0]));
}

#[test]
fn register_reads_the_outcome_of_the_insert() {
    assert_eq!(register(&Inserted::Row(17)), Registration::Registered(17));
    assert_eq!(UNIQUE_VIOLATION, "23505");
    assert_eq!(
        register(&Inserted::Refused { code: Some("23505".to_string()) }),
        Registration::Taken
    );
    assert_eq!(
        register(&Inserted::Refused { code: Some("23503".to_string()) }),
        Registration::Failed
    );
    assert_eq!(
        register(&Inserted::Refused { code: Some("235050".to_string()) }),
        Registration::Failed
    );
    assert_eq!(register(&Inserted::Refused { code: None }), Registration::Failed);
}
