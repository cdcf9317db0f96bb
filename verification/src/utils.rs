//! Password hashing and random link generation.
//!
//! The two password functions delegate to the bcrypt crate; what relates a
//! password to a stored hash is named by the uninterpreted `bcrypt_accepts`,
//! since a bcrypt digest cannot reasonably be written out as a spec function.
//! The link generator delegates to the rand crate and promises only length
//! and alphabet, never a particular value.

use vstd::prelude::*;

verus! {

/// What `bcrypt::verify(password, hash)` returns, with a verification error
/// (for instance a malformed stored hash) coerced to `false`. It is a
/// deterministic function of the two strings: the salt and cost are embedded
/// in the hash itself.
pub uninterp spec fn bcrypt_accepts(password: Seq<char>, stored: Seq<char>) -> bool;

/// Relies on bcrypt::hash with the crate's default cost: it draws a fresh
/// random salt, and every hash it produces verifies against the hashed
/// password (bcrypt::verify recomputes with the salt embedded in the hash).
/// The hash string has bcrypt's fixed shape: sixty characters opening with
/// the version-2b prefix and the default cost, `$2b$12$`. Returns `None`
/// only on a catastrophic internal error (the salt comes from the operating
/// system's randomness, which can fail).
#[verifier::external_body]
pub fn encrypt_password(password: &str) -> (r: Option<String>)
    ensures
        match r {
            Some(h) => bcrypt_accepts(password@, h@) && h@.len() == 60 && h@.subrange(0, 7)
                == "$2b$12$"@,
            None => true,
        },
{
    bcrypt::hash(password, bcrypt::DEFAULT_COST).ok()
}

/// Relies on bcrypt::verify: deterministic in the password and the stored
/// hash. A malformed stored hash is a deny (`false`), never a panic.
#[verifier::external_body]
pub fn verify_password(password: &str, hash_password: &str) -> (r: bool)
    ensures
        r == bcrypt_accepts(password@, hash_password@),
{
    bcrypt::verify(password, hash_password).unwrap_or(false)
}

/// The alphabet of opaque share links: ASCII digits and letters.
pub open spec fn is_alnum(c: char) -> bool {
    ('0' <= c && c <= '9') || ('A' <= c && c <= 'Z') || ('a' <= c && c <= 'z')
}

/// Relies on rand's `Alphanumeric` distribution sampled from the thread's
/// cryptographically secure generator: the result has exactly the requested
/// number of characters, each drawn uniformly from `[0-9A-Za-z]`. Nothing
/// more is promised: the value depends on the random source.
#[verifier::external_body]
pub fn generate_random_string(length: usize) -> (r: String)
    ensures
        r@.len() == length,
        forall|i: int| 0 <= i < r@.len() ==> is_alnum(#[trigger] r@[i]),
{
    rand::distr::SampleString::sample_string(&rand::distr::Alphanumeric, &mut rand::rng(), length)
}

/// Character-for-character string comparison, verified against the views.
pub fn str_eq(a: &str, b: &str) -> (r: bool)
    ensures
        r == (a@ == b@),
{
    let len_a = a.unicode_len();
    let len_b = b.unicode_len();
    if len_a != len_b {
        return false;
    }
    let mut i: usize = 0;
    while i < len_a
        invariant
            len_a == a@.len(),
            len_a == b@.len(),
            i <= len_a,
            forall|j: int| 0 <= j < i ==> a@[j] == b@[j],
        decreases len_a - i,
    {
        if a.get_char(i) != b.get_char(i) {
            return false;
        }
        i = i + 1;
    }
    proof {
        assert(a@ =~= b@);
    }
    true
}

} // verus!
