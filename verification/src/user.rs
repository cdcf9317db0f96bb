//! User records and the account operations: registration and sign-in.

use vstd::prelude::*;
use crate::db::{Db, DbError};
use crate::jwt;
use crate::utils;

verus! {

/// A stored user row: a stable id, a globally unique username, and the
/// bcrypt hash of the password. The hash never leaves the trust boundary;
/// everything echoed outward is a `PublicUser`.
pub struct User {
    pub id: i32,
    pub username: String,
    pub password: String,
}

/// The mathematical image of a stored user row.
pub ghost struct UserView {
    pub id: int,
    pub username: Seq<char>,
    pub password: Seq<char>,
}

impl View for User {
    type V = UserView;

    open spec fn view(&self) -> UserView {
        UserView { id: self.id as int, username: self.username@, password: self.password@ }
    }
}

/// The projection of a user that may be shown to clients: id and username,
/// never the password hash.
pub struct PublicUser {
    pub id: i32,
    pub username: String,
}

/// A registration or sign-in request body: a username and a plain password.
pub struct CreateUser {
    pub username: String,
    pub password: String,
}

/// Why a registration failed.
#[derive(Clone, Copy, Debug, PartialEq, Eq, Structural)]
pub enum RegistrationError {
    /// A user with the same username already exists.
    Duplicate,
    /// The hashing backend or the store itself failed; nothing was written.
    Internal,
}

/// Why a sign-in failed.
#[derive(Clone, Copy, Debug, PartialEq, Eq, Structural)]
pub enum SigninError {
    /// No user with the given username exists.
    NotFound,
    /// The user exists but the password does not verify against the stored
    /// hash.
    BadCredential,
}

impl User {
    /// Registers a new account: rejects a taken username as `Duplicate`,
    /// otherwise hashes the password and stores the row, echoing back the
    /// public projection of the new user. `Internal` (the hashing backend or
    /// the id counter failed) leaves the store untouched.
    pub fn create_user(db: &mut Db, user: &CreateUser) -> (r: Result<PublicUser, RegistrationError>)
        requires
            old(db)@.wf(),
        ensures
            final(db)@.wf(),
            (r matches Err(e) && e == RegistrationError::Duplicate) <==> old(db)@.has_user(
                user.username@,
            ),
            match r {
                Ok(pu) => {
                    &&& pu.id as int == old(db)@.next_user_id
                    &&& pu.username@ == user.username@
                    &&& exists|h: Seq<char>|
                        #[trigger] utils::bcrypt_accepts(user.password@, h) && final(db)@.users
                            == old(db)@.users.push(
                            UserView { id: pu.id as int, username: user.username@, password: h },
                        )
                    &&& final(db)@.contents == old(db)@.contents
                    &&& final(db)@.next_user_id == old(db)@.next_user_id + 1
                    &&& final(db)@.next_content_id == old(db)@.next_content_id
                    &&& final(db)@.has_user(user.username@)
                },
                Err(_) => final(db)@ == old(db)@,
            },
    {
        if db.check_user_exists(&user.username) {
            return Err(RegistrationError::Duplicate);
        }
        let hashed = match utils::encrypt_password(&user.password) {
            Some(h) => h,
            None => {
                return Err(RegistrationError::Internal);
            },
        };
        match db.insert_user(&user.username, &hashed) {
            Ok(id) => {
                proof {
                    crate::db::lemma_registered_name_is_taken(
                        old(db)@,
                        db@,
                        UserView { id: id as int, username: user.username@, password: hashed@ },
                    );
                }
                Ok(PublicUser { id, username: user.username.clone() })
            },
            Err(DbError::Duplicate) => Err(RegistrationError::Duplicate),
            Err(DbError::Full) => Err(RegistrationError::Internal),
        }
    }

    /// Signs an existing user in: looks the username up, verifies the
    /// password against the stored hash, and issues a fresh two-hour token
    /// for the user's id. Success is owed exactly when the username exists
    /// and the password verifies; the caller puts the token into the session
    /// cookie.
    pub fn signin_user(db: &Db, body: &CreateUser, now: u64, key: &[u8]) -> (r: Result<
        String,
        SigninError,
    >)
        requires
            db@.wf(),
            now + jwt::TOKEN_LIFETIME_SECS <= u64::MAX,
        ensures
            (r matches Err(e) && e == SigninError::NotFound) <==> !db@.has_user(body.username@),
            (r matches Err(e) && e == SigninError::BadCredential) <==> (db@.has_user(body.username@)
                && !utils::bcrypt_accepts(
                body.password@,
                db@.user_named(body.username@).password,
            )),
            (r matches Ok(_)) <==> (db@.has_user(body.username@) && utils::bcrypt_accepts(
                body.password@,
                db@.user_named(body.username@).password,
            )),
            match r {
                Ok(token) => {
                    &&& token@ == jwt::jwt_token(
                        db@.user_named(body.username@).id as i64,
                        (now + jwt::TOKEN_LIFETIME_SECS) as u64,
                        key@,
                    )
                    &&& jwt::jwt_claims(token@, key@) == Ok::<(i64, u64), bool>(
                        (
                            db@.user_named(body.username@).id as i64,
                            (now + jwt::TOKEN_LIFETIME_SECS) as u64,
                        ),
                    )
                },
                Err(_) => true,
            },
    {
        let user = match db.select_user(&body.username) {
            Some(u) => u,
            None => {
                return Err(SigninError::NotFound);
            },
        };
        if !utils::verify_password(&body.password, &user.password) {
            return Err(SigninError::BadCredential);
        }
        Ok(jwt::generate_token(user.id, now, key))
    }
}

} // verus!
