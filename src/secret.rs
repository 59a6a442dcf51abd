use vstd::prelude::*;
use pbkdf2::password_hash::{PasswordHash, PasswordHasher, PasswordVerifier, SaltString};
use pbkdf2::{Params, Pbkdf2};
use pbkdf2::password_hash::Error as PhcError;
use rand::rngs::ThreadRng;
use crate::error::Error;
use crate::text::push_char;

verus! {

#[verifier::external_type_specification]
#[verifier::external_body]
pub struct ExThreadRng(ThreadRng);

#[verifier::external_type_specification]
#[verifier::external_body]
pub struct ExPhcError(PhcError);

/// A character of the 62-symbol alphabet `A-Z`, `a-z`, `0-9`.
pub open spec fn is_alphanumeric(c: char) -> bool {
    ('A' <= c && c <= 'Z') || ('a' <= c && c <= 'z') || ('0' <= c && c <= '9')
}

/// Every character of `s` is alphanumeric.
pub open spec fn all_alphanumeric(s: Seq<char>) -> bool {
    forall|i: int| 0 <= i < s.len() ==> is_alphanumeric(#[trigger] s[i])
}

/// Whether `PasswordHash::new` reads `digest` as a PHC string.
pub uninterp spec fn digest_parses(digest: Seq<char>) -> bool;

/// Whether PBKDF2 verification of `password` against the PHC string `digest` succeeds.
pub uninterp spec fn digest_accepts(digest: Seq<char>, password: Seq<char>) -> bool;

/// A PHC string begins with the separator `$`.
pub open spec fn is_phc_rendering(digest: Seq<char>) -> bool {
    digest.len() > 0 && digest[0] == '$'
}

/// `digest` is a well-formed digest under which `secret` verifies.
pub open spec fn is_digest_of(digest: Seq<char>, secret: Seq<char>) -> bool {
    digest_parses(digest) && digest_accepts(digest, secret)
}

/// The outcome of checking `password` against the stored `digest`: an internal
/// error where the digest is corrupt, an authorization failure where the
/// password does not match.
pub open spec fn password_check(digest: Seq<char>, password: Seq<char>) -> Result<(), Error> {
    if !digest_parses(digest) {
        Err(Error::INTERNAL_SERVER_ERROR)
    } else if digest_accepts(digest, password) {
        Ok(())
    } else {
        Err(Error::UNAUTHORIZED)
    }
}

/// Relies on rand's `Alphanumeric` distribution, which samples uniformly one
/// byte of `A-Z`, `a-z`, `0-9`.
#[verifier::external_body]
fn draw_alphanumeric(rng: &mut ThreadRng) -> (c: char)
    ensures
        is_alphanumeric(c),
{
    char::from(rand::Rng::sample(rng, rand::distributions::Alphanumeric))
}

/// Number of PBKDF2 rounds of a digest.
pub const HASH_ROUNDS: u32 = 10;

/// Length in bytes of a digest's PBKDF2 output.
pub const HASH_OUTPUT_LENGTH: usize = 32;

/// Relies on pbkdf2's `PasswordHasher::hash_password_customized` (PBKDF2-SHA256)
/// over a fresh salt from `SaltString::generate`: with the default algorithm,
/// no version, a 16-byte salt and an output of 10 to 64 bytes (the bounds of
/// password_hash's `Output`), nothing in it fails. The PHC string it renders
/// starts with `$`, parses again, and verification of the same password
/// against it recomputes the same output.
#[verifier::external_body]
fn pbkdf2_digest(rng: &mut ThreadRng, password: &str, rounds: u32, output_length: usize) -> (r: Result<String, PhcError>)
    requires
        10 <= output_length <= 64,
    ensures
        r is Ok,
        r matches Ok(d) ==> is_phc_rendering(d@) && digest_parses(d@) && digest_accepts(d@, password@),
{
    let salt = SaltString::generate(rng);
    let params = Params { output_length, rounds };
    Pbkdf2
        .hash_password_customized(password.as_bytes(), None, None, params, salt.as_salt())
        .map(|h| h.to_string())
}

/// Relies on password_hash's `PasswordHash::new`, which parses a PHC string.
#[verifier::external_body]
fn digest_well_formed(digest: &str) -> (r: bool)
    ensures
        r == digest_parses(digest@),
{
    PasswordHash::new(digest).is_ok()
}

/// Relies on `PasswordVerifier::verify_password` of `Pbkdf2`, on the digest as
/// `PasswordHash::new` reads it.
#[verifier::external_body]
fn digest_matches(digest: &str, password: &str) -> (r: bool)
    ensures
        r == digest_accepts(digest@, password@),
{
    match PasswordHash::new(digest) {
        Ok(h) => Pbkdf2.verify_password(password.as_bytes(), &h).is_ok(),
        Err(_) => false,
    }
}

/// A random text of `length` alphanumeric characters.
pub fn get_random_text(rng: &mut ThreadRng, length: usize) -> (r: String)
    ensures
        r@.len() == length,
        all_alphanumeric(r@),
{
    let mut s = String::new();
    let mut i: usize = 0;
    while i < length
        invariant
            i <= length,
            s@.len() == i,
            all_alphanumeric(s@),
        decreases length - i,
    {
        let c = draw_alphanumeric(rng);
        push_char(&mut s, c);
        i = i + 1;
    }
    s
}

/// A salted one-way digest of `password`, under which `password` verifies.
/// It starts with `$`, so it never equals an alphanumeric secret.
pub fn hash_password(rng: &mut ThreadRng, password: &str) -> (r: String)
    ensures
        is_digest_of(r@, password@),
        is_phc_rendering(r@),
{
    let digest = pbkdf2_digest(rng, password, HASH_ROUNDS, HASH_OUTPUT_LENGTH);
    match digest {
        Ok(d) => d,
        Err(_) => {
            // The hasher never fails on a generated salt.
            proof {
                assert(false);
            }
            String::new()
        },
    }
}

/// A digest never equals a non-empty alphanumeric text: it starts with `$`.
pub proof fn lemma_digest_differs_from_alphanumeric(digest: Seq<char>, secret: Seq<char>)
    requires
        is_phc_rendering(digest),
        all_alphanumeric(secret),
    ensures
        digest != secret,
{
    if digest == secret {
        assert(is_alphanumeric(secret[0]));
    }
}

/// Checks `password` against the stored `digest`.
pub fn check_password(digest: &str, password: &str) -> (r: Result<(), Error>)
    ensures
        r == password_check(digest@, password@),
{
    if !digest_well_formed(digest) {
        return Err(Error::INTERNAL_SERVER_ERROR);
    }
    if digest_matches(digest, password) {
        Ok(())
    } else {
        Err(Error::UNAUTHORIZED)
    }
}

/// A secret passes the check against every digest that hashing made of it,
/// whichever salt each drew: two digests of one secret may differ, and both
/// accept it.
pub proof fn lemma_digest_accepts_its_secret(first: Seq<char>, second: Seq<char>, secret: Seq<char>)
    requires
        is_digest_of(first, secret),
        is_digest_of(second, secret),
    ensures
        password_check(first, secret) == Ok::<(), Error>(()),
        password_check(second, secret) == Ok::<(), Error>(()),
{
}

} // verus!
