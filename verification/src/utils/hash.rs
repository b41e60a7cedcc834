//! Hashing of passwords and codes with Argon2.

use crate::errors::AppError;
use argon2::password_hash::PasswordHash;
use argon2::password_hash::PasswordHasher;
use argon2::password_hash::PasswordVerifier;
use argon2::password_hash::Salt;
use argon2::password_hash::SaltString;
use argon2::Argon2;
use vstd::prelude::*;
use vstd::string::StringSliceAdditionalSpecFns;

verus! {

/// The encoded Argon2 hash of `value` under `salt` with the default
/// parameters, or `None` where the library reports an error.
pub uninterp spec fn argon2_hashed(value: Seq<char>, salt: Seq<u8>) -> Option<Seq<char>>;

/// Whether `value` matches the encoded Argon2 hash `encoded`, or `None`
/// where `encoded` is not an encoded hash.
pub uninterp spec fn argon2_verified(value: Seq<char>, encoded: Seq<char>) -> Option<bool>;

/// The salt under which codes are hashed, so that equal codes have equal
/// hashes.
pub open spec fn code_salt() -> Seq<u8> {
    "financial_tracker_salt".spec_bytes()
}

/// The hash that `hash_value` gives for `value`.
pub open spec fn spec_hash_value(value: Seq<char>) -> Option<Seq<char>> {
    argon2_hashed(value, code_salt())
}

/// What an attempt to hash gives its caller: the hash, or `InternalError`.
pub open spec fn hashed_or_internal(
    outcome: Option<Seq<char>>,
    r: Result<String, AppError>,
) -> bool {
    match outcome {
        Some(h) => r matches Ok(s) && s@ == h,
        None => r matches Err(e) && e is InternalError,
    }
}

/// Hashes a sensitive value, such as a code, under the fixed salt.
pub fn hash_value(value: &str) -> (r: Result<String, AppError>)
    ensures
        hashed_or_internal(spec_hash_value(value@), r),
{
    hash_outcome(argon2_hash(value, "financial_tracker_salt".as_bytes()))
}

/// Hashes a password under `salt`.
pub fn hash_with_salt(value: &str, salt: &[u8]) -> (r: Result<String, AppError>)
    ensures
        hashed_or_internal(argon2_hashed(value@, salt@), r),
{
    hash_outcome(argon2_hash(value, salt))
}

/// Turns the outcome of hashing into a result: a missing hash is an
/// internal error.
pub fn hash_outcome(outcome: Option<String>) -> (r: Result<String, AppError>)
    ensures
        match outcome {
            Some(h) => r == Ok::<String, AppError>(h),
            None => r matches Err(e) && e is InternalError,
        },
{
    match outcome {
        Some(h) => Ok(h),
        None => Err(AppError::InternalError),
    }
}

/// Checks a plain value against an encoded hash. An `encoded` that is no
/// hash at all is an internal error.
pub fn verify_hash(value: &str, encoded: &str) -> (r: Result<bool, AppError>)
    ensures
        match argon2_verified(value@, encoded@) {
            Some(b) => r == Ok::<bool, AppError>(b),
            None => r matches Err(e) && e is InternalError,
        },
{
    verify_outcome(argon2_verify(value, encoded))
}

/// Turns the outcome of a check into a result: a hash that could not be
/// read is an internal error.
pub fn verify_outcome(outcome: Option<bool>) -> (r: Result<bool, AppError>)
    ensures
        match outcome {
            Some(b) => r == Ok::<bool, AppError>(b),
            None => r matches Err(e) && e is InternalError,
        },
{
    match outcome {
        Some(b) => Ok(b),
        None => Err(AppError::InternalError),
    }
}

/// Encodes `salt` with `SaltString::encode_b64`, hashes `value` under it
/// with `Argon2::default().hash_password`, and writes the hash out. Any
/// error of the three steps gives `None`. Trusted: the outcome depends on
/// `value` and `salt` alone.
#[verifier::external_body]
fn argon2_hash(value: &str, salt: &[u8]) -> (r: Option<String>)
    ensures
        argon2_hashed(value@, salt@) == (match r {
            Some(h) => Some(h@),
            None => None,
        }),
{
    let salt_string = SaltString::encode_b64(salt).ok()?;
    let salt = Salt::from_b64(salt_string.as_str()).ok()?;
    match Argon2::default().hash_password(value.as_bytes(), salt) {
        Ok(h) => Some(h.to_string()),
        Err(_) => None,
    }
}

/// Reads `encoded` with `PasswordHash::new` and checks `value` against it
/// with `Argon2::default().verify_password`. An `encoded` that cannot be
/// read gives `None`. Trusted: the outcome depends on `value` and `encoded`
/// alone.
#[verifier::external_body]
fn argon2_verify(value: &str, encoded: &str) -> (r: Option<bool>)
    ensures
        argon2_verified(value@, encoded@) == r,
{
    match PasswordHash::new(encoded) {
        Ok(parsed) => Some(Argon2::default().verify_password(value.as_bytes(), &parsed).is_ok()),
        Err(_) => None,
    }
}

} // verus!
