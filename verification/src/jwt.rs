//! Issuing and checking of the signed session token.
//!
//! A token carries a minimal claim set: the subject (the user id) and an
//! absolute expiry instant, two hours after issue. It is signed with a
//! process-wide symmetric key in the standard compact form (header, payload
//! and signature, base64url-encoded and dot-separated), so that standard
//! tooling can read it. The token bytes themselves are produced and checked
//! by the jsonwebtoken crate behind two trusted wrappers; everything around
//! them — expiry arithmetic, the expiry check, the cookie gate and the error
//! taxonomy — is verified.

use vstd::prelude::*;

verus! {

/// How long a token stays valid, in seconds: two hours.
pub const TOKEN_LIFETIME_SECS: u64 = 7200;

/// The payload of a session token.
pub struct Claims {
    /// Subject: the authenticated user's id.
    pub sub: i32,
    /// Expiry instant, in seconds since the Unix epoch.
    pub exp: u64,
}

impl Claims {
    /// Constructor for Claims.
    pub fn new(sub: i32, exp: u64) -> (r: Claims)
        ensures
            r.sub == sub,
            r.exp == exp,
    {
        Claims { sub, exp }
    }
}

/// Why a request carries no usable identity.
#[derive(Clone, Copy, Debug, PartialEq, Eq, Structural)]
pub enum AuthError {
    /// No token cookie was presented.
    Missing,
    /// The token is not a well-formed signed token with numeric claims.
    Malformed,
    /// The signature does not match the signing key.
    InvalidSignature,
    /// The token was valid once, but its expiry instant has passed.
    Expired,
}

/// The slice of an inbound request that authentication reads: the value of
/// the `auth_token` cookie, if the client sent one.
pub struct Request {
    pub auth_token: Option<String>,
}

impl View for Request {
    type V = Option<Seq<char>>;

    open spec fn view(&self) -> Option<Seq<char>> {
        match self.auth_token {
            Some(ref t) => Some(t@),
            None => None,
        }
    }
}

/// The token that jsonwebtoken::encode produces for the claim set
/// `{sub, exp}` under the given key, with the default HS256 header. The
/// serialization and the HMAC are deterministic, so the token is a function
/// of the claims and the key alone.
pub uninterp spec fn jwt_token(sub: i64, exp: u64, key: Seq<u8>) -> Seq<char>;

/// What jsonwebtoken::decode (signature check on, expiry check off) makes of
/// a token under a key: `Ok((sub, exp))` when the token is well-formed, is
/// signed with the key, and carries numeric `sub` and `exp` claims;
/// `Err(true)` when the signature does not match; `Err(false)` for every
/// other defect. Deterministic in the token and the key.
pub uninterp spec fn jwt_claims(token: Seq<char>, key: Seq<u8>) -> Result<(i64, u64), bool>;

/// Relies on jsonwebtoken::encode with the default (HS256) header: the token
/// is a deterministic function of the claims and the key, and decoding it
/// with the same key yields the claims back. The call cannot fail on these
/// inputs — key and header are both of the HMAC family, an HMAC key of any
/// length is accepted, HMAC signing itself is infallible, and two numeric
/// claims always serialize — so the result is never `None`.
#[verifier::external_body]
fn encode_claims(sub: i64, exp: u64, key: &[u8]) -> (r: Option<String>)
    ensures
        r is Some,
        match r {
            Some(t) => t@ == jwt_token(sub, exp, key@) && jwt_claims(t@, key@) == Ok::<
                (i64, u64),
                bool,
            >((sub, exp)),
            None => false,
        },
{
    let mut claims = serde_json::Map::new();
    claims.insert("sub".to_string(), serde_json::Value::from(sub));
    claims.insert("exp".to_string(), serde_json::Value::from(exp));
    jsonwebtoken::encode(
        &jsonwebtoken::Header::default(),
        &serde_json::Value::Object(claims),
        &jsonwebtoken::EncodingKey::from_secret(key),
    )
    .ok()
}

/// Relies on jsonwebtoken::decode over HS256 with the expiry check switched
/// off (expiry is checked by verified code): it verifies the signature,
/// decodes the payload, and is deterministic in the token and the key. The
/// error is reduced to one bit: was it a signature mismatch?
#[verifier::external_body]
fn decode_claims(token: &str, key: &[u8]) -> (r: Result<(i64, u64), bool>)
    ensures
        r == jwt_claims(token@, key@),
{
    let mut validation = jsonwebtoken::Validation::new(jsonwebtoken::Algorithm::HS256);
    validation.validate_exp = false;
    validation.required_spec_claims = std::collections::HashSet::new();
    let key = jsonwebtoken::DecodingKey::from_secret(key);
    match jsonwebtoken::decode::<serde_json::Value>(token, &key, &validation) {
        Ok(data) => {
            let sub = data.claims.get("sub").and_then(serde_json::Value::as_i64);
            let exp = data.claims.get("exp").and_then(serde_json::Value::as_u64);
            match (sub, exp) {
                (Some(s), Some(e)) => Ok((s, e)),
                _ => Err(false),
            }
        },
        Err(e) => Err(matches!(e.kind(), jsonwebtoken::errors::ErrorKind::InvalidSignature)),
    }
}

/// The verdict on a token at instant `now` under a key: the subject when the
/// signature matches and the token has not expired, and the precise failure
/// otherwise. A subject outside the id range is a malformed token.
pub open spec fn token_check(token: Seq<char>, now: u64, key: Seq<u8>) -> Result<i32, AuthError> {
    match jwt_claims(token, key) {
        Err(sig_mismatch) => if sig_mismatch {
            Err(AuthError::InvalidSignature)
        } else {
            Err(AuthError::Malformed)
        },
        Ok(claims) => if claims.0 < i32::MIN as i64 || claims.0 > i32::MAX as i64 {
            Err(AuthError::Malformed)
        } else if claims.1 <= now {
            Err(AuthError::Expired)
        } else {
            Ok(claims.0 as i32)
        },
    }
}

/// The verdict on a whole request: a missing cookie is `Missing`, a present
/// one is judged by `token_check`.
pub open spec fn gate_check(cookie: Option<Seq<char>>, now: u64, key: Seq<u8>) -> Result<
    i32,
    AuthError,
> {
    match cookie {
        None => Err(AuthError::Missing),
        Some(t) => token_check(t, now, key),
    }
}

/// Issues a token for the user id `id` at instant `now`: the claims are
/// `{sub: id, exp: now + 2h}`, signed with `key`. Issuance always succeeds;
/// the result is pinned down to the token of exactly those claims, and it
/// decodes back to them under the same key.
pub fn generate_token(id: i32, now: u64, key: &[u8]) -> (r: String)
    requires
        now + TOKEN_LIFETIME_SECS <= u64::MAX,
    ensures
        r@ == jwt_token(id as i64, (now + TOKEN_LIFETIME_SECS) as u64, key@),
        jwt_claims(r@, key@) == Ok::<(i64, u64), bool>(
            (id as i64, (now + TOKEN_LIFETIME_SECS) as u64),
        ),
{
    let claims = Claims::new(id, now + TOKEN_LIFETIME_SECS);
    encode_claims(claims.sub as i64, claims.exp, key).unwrap()
}

/// Checks a token string at instant `now`: the signature must match `key`,
/// the claims must be numeric, and the expiry must lie strictly after `now`.
pub fn verify_token(token: &str, now: u64, key: &[u8]) -> (r: Result<i32, AuthError>)
    ensures
        r == token_check(token@, now, key@),
{
    match decode_claims(token, key) {
        Err(sig_mismatch) => if sig_mismatch {
            Err(AuthError::InvalidSignature)
        } else {
            Err(AuthError::Malformed)
        },
        Ok((sub, exp)) => if sub < i32::MIN as i64 || sub > i32::MAX as i64 {
            Err(AuthError::Malformed)
        } else if exp <= now {
            Err(AuthError::Expired)
        } else {
            Ok(sub as i32)
        },
    }
}

/// The doorkeeper of every protected operation: reads the `auth_token`
/// cookie from the request and judges it at instant `now` under `key`.
/// Failure short-circuits the caller; no downstream work happens without a
/// subject.
pub fn validate_token(req: &Request, now: u64, key: &[u8]) -> (r: Result<i32, AuthError>)
    ensures
        r == gate_check(req@, now, key@),
{
    match req.auth_token {
        None => Err(AuthError::Missing),
        Some(ref t) => verify_token(t.as_str(), now, key),
    }
}

/// A token whose claims read `(uid, exp)` under a key — as every token that
/// `generate_token` issues for `uid` does — is judged by its expiry alone:
/// it verifies to `uid` strictly before `exp` and is `Expired` from `exp` on.
pub proof fn lemma_issued_token_round_trip(uid: i32, exp: u64, token: Seq<char>, now: u64, key: Seq<u8>)
    requires
        jwt_claims(token, key) == Ok::<(i64, u64), bool>((uid as i64, exp)),
    ensures
        now < exp ==> token_check(token, now, key) == Ok::<i32, AuthError>(uid),
        exp <= now ==> token_check(token, now, key) == Err::<i32, AuthError>(AuthError::Expired),
{
    assert((uid as i64) as i32 == uid);
}

} // verus!
