//! What the user store decides without the database: how a password is
//! hashed and checked, and what an insert that was refused means.

use vstd::prelude::*;
use vstd::string::{StrSliceExecFns, StringSliceAdditionalSpecFns};
use rand::RngCore;
use sha2::Digest;

verus! {

/// The SHA-256 digest of a byte string, as the `sha2` crate computes it.
pub uninterp spec fn sha256(data: Seq<u8>) -> Seq<u8>;

/// The error code with which the database refuses a row that breaks a
/// unique constraint.
pub const UNIQUE_VIOLATION: &'static str = "23505";

/// `Sha256::digest` of the `sha2` crate: the digest of `data`, which this
/// crate knows under the name `sha256`.
#[verifier::external_body]
fn sha256_digest(data: &[u8]) -> (digest: [u8; 32])
    ensures
        digest@ == sha256(data@),
{
    sha2::Sha256::digest(data).into()
}

/// `OsRng::try_fill_bytes` of the `rand` crate: eight bytes from the
/// operating system's random source, or `None` where it hands out none.
/// Nothing is known of the bytes.
#[verifier::external_body]
fn random_salt() -> (salt: Option<[u8; 8]>) {
    let mut salt = [0u8; 8];
    match rand::rngs::OsRng.try_fill_bytes(&mut salt) {
        Ok(()) => Some(salt),
        Err(_) => None,
    }
}

/// The bytes that are hashed for a password and a salt: the UTF-8 bytes of
/// the password, then the salt.
pub open spec fn salted(password: Seq<char>, salt: Seq<u8>) -> Seq<u8> {
    vstd::utf8::encode_utf8(password) + salt
}

/// Hashes `password` with `salt`: the SHA-256 digest of the bytes of the
/// password followed by the salt.
pub fn hash_salt(password: &str, salt: &[u8]) -> (digest: [u8; 32])
    ensures
        digest@ == sha256(salted(password@, salt@)),
{
    let mut data = password.as_bytes_vec();
    let mut i: usize = 0;
    while i < salt.len()
        invariant
            i <= salt.len(),
            data@ == password.spec_bytes() + salt@.take(i as int),
        decreases salt.len() - i,
    {
        data.push(salt[i]);
        proof {
            assert(salt@.take(i + 1) == salt@.take(i as int).push(salt@[i as int]));
        }
        i += 1;
    }
    proof {
        assert(salt@.take(salt.len() as int) == salt@);
    }
    sha256_digest(data.as_slice())
}

/// Hashes `password` with a fresh random salt and returns the digest with
/// the salt, or `None` where the operating system gave no random bytes.
pub fn hash(password: &str) -> (hashed: Option<([u8; 32], [u8; 8])>)
    ensures
        hashed matches Some((digest, salt)) ==> digest@ == sha256(salted(password@, salt@)),
{
    hash_with(password, random_salt())
}

/// What `hash` makes of what the random source handed out: for a salt, the
/// digest of the password under that salt together with the salt, and
/// nothing where there was no salt.
pub fn hash_with(password: &str, salt: Option<[u8; 8]>) -> (hashed: Option<([u8; 32], [u8; 8])>)
    ensures
        match salt {
            Some(bytes) => hashed matches Some((digest, kept)) && kept == bytes && digest@
                == sha256(salted(password@, bytes@)),
            None => hashed is None,
        },
{
    match salt {
        Some(bytes) => {
            let digest = hash_salt(password, bytes.as_slice());
            Some((digest, bytes))
        },
        None => None,
    }
}

/// Whether both slices hold the same bytes.
pub fn same_bytes(left: &[u8], right: &[u8]) -> (equal: bool)
    ensures
        equal == (left@ == right@),
{
    if left.len() != right.len() {
        return false;
    }
    let mut i: usize = 0;
    while i < left.len()
        invariant
            i <= left.len(),
            left.len() == right.len(),
            forall|j: int| 0 <= j < i ==> left@[j] == right@[j],
        decreases left.len() - i,
    {
        if left[i] != right[i] {
            return false;
        }
        i += 1;
    }
    proof {
        assert(left@ =~= right@);
    }
    true
}

/// Checks a login: the user's id where `password`, hashed with the stored
/// salt, gives the stored digest, and `None` where it does not.
pub fn login(id: i32, password: &str, salt: &[u8], stored: &[u8]) -> (user: Option<i32>)
    ensures
        user == if sha256(salted(password@, salt@)) == stored@ {
            Some(id)
        } else {
            None
        },
{
    let digest = hash_salt(password, salt);
    if same_bytes(digest.as_slice(), stored) {
        Some(id)
    } else {
        None
    }
}

/// What the insert of a new user came to, as far as this crate reads it:
/// the id of the new row, or the refusal with the error code that the
/// database gave, if it gave one.
pub enum Inserted {
    /// The row was inserted under this id.
    Row(i32),
    /// The insert failed; `code` is the database's error code, where the
    /// failure came from the database and carried one.
    Refused { code: Option<String> },
}

/// How a registration ended.
#[derive(Debug, Clone, Copy, PartialEq, Eq, Structural)]
pub enum Registration {
    /// The user was registered under this id.
    Registered(i32),
    /// A user of that name exists already.
    Taken,
    /// The insert failed for another reason.
    Failed,
}

/// Whether `code` is the code of a broken unique constraint.
pub open spec fn is_unique_violation(code: Option<String>) -> bool {
    code is Some && code->0@ == UNIQUE_VIOLATION@
}

/// Reads the outcome of the insert of a new user: a row is a registration,
/// a refusal for a broken unique constraint means that the name is taken,
/// and every other refusal is a failure.
pub fn register(inserted: &Inserted) -> (outcome: Registration)
    ensures
        outcome == match *inserted {
            Inserted::Row(id) => Registration::Registered(id),
            Inserted::Refused { code } => if is_unique_violation(code) {
                Registration::Taken
            } else {
                Registration::Failed
            },
        },
{
    match inserted {
        Inserted::Row(id) => Registration::Registered(*id),
        Inserted::Refused { code } => match code {
            Some(text) => {
                let wanted = UNIQUE_VIOLATION.to_owned();
                if *text == wanted {
                    Registration::Taken
                } else {
                    Registration::Failed
                }
            },
            None => Registration::Failed,
        },
    }
}

} // verus!
