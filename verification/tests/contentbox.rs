use contentbox::content::{Content, ContentError, ContentType};
use contentbox::db::Db;
use contentbox::jwt::{generate_token, validate_token, verify_token, AuthError, Request};
use contentbox::user::{CreateUser, RegistrationError, SigninError, User};
use contentbox::utils::{encrypt_password, generate_random_string, verify_password};

const KEY: &[u8] = b"test_signing_key";

fn body(username: &str, password: &str) -> CreateUser {
    CreateUser { username: username.to_string(), password: password.to_string() }
}

fn request_with(token: &str) -> Request {
    Request { auth_token: Some(token.to_string()) }
}

fn token_for(uid: i32, now: u64) -> String {
    generate_token(uid, now, KEY)
}

fn is_alnum_char(c: char) -> bool {
    c.is_ascii_digit() || c.is_ascii_uppercase() || c.is_ascii_lowercase()
}

#[test]
fn password_hash_verifies() {
    let h = encrypt_password("pw").expect("hashing failed");
    assert_ne!(h, "pw");
    assert_eq!(h.len(), 60);
    assert!(h.starts_with("$2b$12$"));
    assert!(verify_password("pw", &h));
    assert!(!verify_password("other", &h));
}

#[test]
fn password_hashes_are_salted_fresh() {
    let h1 = encrypt_password("same-password").expect("hashing failed");
    let h2 = encrypt_password("same-password").expect("hashing failed");
    assert_ne!(h1, h2);
    assert!(verify_password("same-password", &h1));
    assert!(verify_password("same-password", &h2));
}

#[test]
fn malformed_stored_hash_is_a_deny_not_a_panic() {
    assert!(!verify_password("pw", "pw"));
    assert!(!verify_password("pw", "$2b$totally-broken"));
    assert!(!verify_password("pw", ""));
}

#[test]
fn issued_token_verifies_to_its_subject() {
    let now: u64 = 1_700_000_000;
    let t = token_for(42, now);
    assert_eq!(verify_token(&t, now, KEY), Ok(42));
    assert_eq!(verify_token(&t, now + 7199, KEY), Ok(42));
}

#[test]
fn token_expires_at_its_instant() {
    let now: u64 = 1_700_000_000;
    let t = token_for(42, now);
    assert_eq!(verify_token(&t, now + 7200, KEY), Err(AuthError::Expired));
    assert_eq!(verify_token(&t, now + 1_000_000, KEY), Err(AuthError::Expired));
}

#[test]
fn token_with_wrong_key_is_rejected() {
    let now: u64 = 1_700_000_000;
    let t = token_for(42, now);
    assert_eq!(verify_token(&t, now, b"another_key"), Err(AuthError::InvalidSignature));
}

#[test]
fn garbage_token_is_malformed() {
    let now: u64 = 1_700_000_000;
    assert_eq!(verify_token("garbage", now, KEY), Err(AuthError::Malformed));
    assert_eq!(verify_token("a.b.c", now, KEY), Err(AuthError::Malformed));
    assert_eq!(verify_token("", now, KEY), Err(AuthError::Malformed));
}

#[test]
fn missing_cookie_is_rejected() {
    let req = Request { auth_token: None };
    assert_eq!(validate_token(&req, 0, KEY), Err(AuthError::Missing));
}

#[test]
fn cookie_with_valid_token_authenticates() {
    let now: u64 = 1_700_000_000;
    let req = request_with(&token_for(7, now));
    assert_eq!(validate_token(&req, now, KEY), Ok(7));
}

#[test]
fn duplicate_registration_is_rejected() {
    let mut db = Db::new();
    let first = User::create_user(&mut db, &body("alice", "pw")).expect("first registration");
    assert_eq!(first.id, 1);
    assert_eq!(first.username, "alice");
    let second = User::create_user(&mut db, &body("alice", "anything"));
    assert!(matches!(second, Err(RegistrationError::Duplicate)));
}

#[test]
fn signin_unknown_user_is_not_found() {
    let db = Db::new();
    let r = User::signin_user(&db, &body("nobody", "pw"), 0, KEY);
    assert!(matches!(r, Err(SigninError::NotFound)));
}

#[test]
fn signin_wrong_password_is_bad_credential() {
    let mut db = Db::new();
    User::create_user(&mut db, &body("carol", "right")).expect("registration");
    let r = User::signin_user(&db, &body("carol", "wrong"), 0, KEY);
    assert!(matches!(r, Err(SigninError::BadCredential)));
}

#[test]
fn signin_issues_a_working_token() {
    let mut db = Db::new();
    let pu = User::create_user(&mut db, &body("dave", "secret")).expect("registration");
    let now: u64 = 1_700_000_000;
    let token = User::signin_user(&db, &body("dave", "secret"), now, KEY).expect("signin");
    assert_eq!(verify_token(&token, now, KEY), Ok(pu.id));
}

#[test]
fn created_content_is_invisible_to_another_owner() {
    let mut db = Db::new();
    let now: u64 = 1_700_000_000;
    let req_one = request_with(&token_for(1, now));
    let req_two = request_with(&token_for(2, now));
    let payload = Content { type_: ContentType::Image, title: "T".to_string() };
    let resp = Content::create_content(&mut db, &req_one, now, KEY, &payload).expect("create");
    assert_eq!(resp.title, "T");
    assert_eq!(resp.type_, ContentType::Image);

    let cross = Content::get_content_by_id(&db, &req_two, now, KEY, 1);
    assert!(matches!(cross, Err(ContentError::NotFound)));

    let own = Content::get_content_by_id(&db, &req_one, now, KEY, 1).expect("own fetch");
    assert_eq!(own.0, 1);
    assert_eq!(own.1, "T");
    assert_eq!(own.2, "Image");
    assert_eq!(own.3, resp.link);
}

#[test]
fn delete_succeeds_once_then_not_found() {
    let mut db = Db::new();
    let now: u64 = 1_700_000_000;
    let req = request_with(&token_for(1, now));
    let payload = Content { type_: ContentType::Video, title: "gone soon".to_string() };
    Content::create_content(&mut db, &req, now, KEY, &payload).expect("create");

    let first = Content::delete_content(&mut db, &req, now, KEY, 1);
    assert!(first.is_ok());
    let second = Content::delete_content(&mut db, &req, now, KEY, 1);
    assert!(matches!(second, Err(ContentError::NotFound)));
}

#[test]
fn delete_is_owner_scoped() {
    let mut db = Db::new();
    let now: u64 = 1_700_000_000;
    let req_one = request_with(&token_for(1, now));
    let req_two = request_with(&token_for(2, now));
    let payload = Content { type_: ContentType::Audio, title: "mine".to_string() };
    Content::create_content(&mut db, &req_one, now, KEY, &payload).expect("create");

    let foreign = Content::delete_content(&mut db, &req_two, now, KEY, 1);
    assert!(matches!(foreign, Err(ContentError::NotFound)));
    let own = Content::get_content_by_id(&db, &req_one, now, KEY, 1);
    assert!(own.is_ok());
}

#[test]
fn link_generator_gives_sixteen_alphanumerics() {
    let s = generate_random_string(16);
    assert_eq!(s.chars().count(), 16);
    assert!(s.chars().all(is_alnum_char));
}

#[test]
fn link_generator_draws_do_not_collide() {
    let mut seen = std::collections::HashSet::new();
    for _ in 0..10_000 {
        let s = generate_random_string(16);
        assert_eq!(s.chars().count(), 16);
        assert!(seen.insert(s), "duplicate link drawn");
    }
}

#[test]
fn content_type_round_trips_through_its_wire_string() {
    let table = [
        (ContentType::Image, "Image"),
        (ContentType::Video, "Video"),
        (ContentType::Article, "Article"),
        (ContentType::Audio, "Audio"),
    ];
    for (t, s) in table {
        assert_eq!(t.enum_to_string(), s);
        assert_eq!(ContentType::enum_from_string(s), Some(t));
    }
    assert_eq!(ContentType::enum_from_string("Bogus"), None);
    assert_eq!(ContentType::enum_from_string("image"), None);
    assert_eq!(ContentType::enum_from_string(""), None);
}

#[test]
fn listing_skips_rows_whose_kind_no_longer_parses() {
    let mut db = Db::new();
    let now: u64 = 1_700_000_000;
    let req = request_with(&token_for(1, now));
    let payload = Content { type_: ContentType::Article, title: "kept".to_string() };
    Content::create_content(&mut db, &req, now, KEY, &payload).expect("create");
    db.insert_content("0123456789abcdef", "Hologram", "skipped", 1).expect("raw insert");

    let items = Content::get_all_content(&db, &req, now, KEY).expect("list");
    assert_eq!(items.len(), 1);
    assert_eq!(items[0].id, 1);
    assert_eq!(items[0].title, "kept");
    assert_eq!(items[0].type_, ContentType::Article);
}

#[test]
fn listing_is_scoped_to_the_caller() {
    let mut db = Db::new();
    let now: u64 = 1_700_000_000;
    let req_one = request_with(&token_for(1, now));
    let req_two = request_with(&token_for(2, now));
    let a = Content { type_: ContentType::Image, title: "a".to_string() };
    let b = Content { type_: ContentType::Video, title: "b".to_string() };
    Content::create_content(&mut db, &req_one, now, KEY, &a).expect("create a");
    Content::create_content(&mut db, &req_two, now, KEY, &b).expect("create b");

    let ones = Content::get_all_content(&db, &req_one, now, KEY).expect("list");
    assert_eq!(ones.len(), 1);
    assert_eq!(ones[0].title, "a");
    let twos = Content::get_all_content(&db, &req_two, now, KEY).expect("list");
    assert_eq!(twos.len(), 1);
    assert_eq!(twos[0].title, "b");
}

#[test]
fn protected_operations_reject_expired_tokens() {
    let mut db = Db::new();
    let issued: u64 = 1_700_000_000;
    let later = issued + 7200;
    let req = request_with(&token_for(1, issued));
    let payload = Content { type_: ContentType::Image, title: "never".to_string() };
    let r = Content::create_content(&mut db, &req, later, KEY, &payload);
    assert!(matches!(r, Err(ContentError::Auth(AuthError::Expired))));
    let l = Content::get_all_content(&db, &req, later, KEY);
    assert!(matches!(l, Err(ContentError::Auth(AuthError::Expired))));
}

#[test]
fn duplicate_link_insert_hits_the_uniqueness_constraint() {
    let mut db = Db::new();
    db.insert_content("samelink00000000", "Image", "one", 1).expect("first insert");
    let r = db.insert_content("samelink00000000", "Video", "two", 2);
    assert!(r.is_err());
}

#[test]
fn end_to_end_share_flow() {
    let mut db = Db::new();
    let now: u64 = 1_700_000_000;

    let bob = User::create_user(&mut db, &body("bob", "secret")).expect("signup");
    assert_eq!(bob.username, "bob");

    let token = User::signin_user(&db, &body("bob", "secret"), now, KEY).expect("signin");
    let req = request_with(&token);

    let payload = Content { type_: ContentType::Article, title: "Hi".to_string() };
    let resp = Content::create_content(&mut db, &req, now, KEY, &payload).expect("create");
    assert_eq!(resp.link.chars().count(), 16);
    assert!(resp.link.chars().all(is_alnum_char));

    let fetched = Content::get_content_by_link(&db, &req, now, KEY, &resp.link).expect("by link");
    assert_eq!(fetched.1, "Hi");
    assert_eq!(fetched.2, "Article");

    let id = fetched.0;
    assert!(Content::delete_content(&mut db, &req, now, KEY, id).is_ok());
    let again = Content::delete_content(&mut db, &req, now, KEY, id);
    assert!(matches!(again, Err(ContentError::NotFound)));
    let lookup = Content::get_content_by_link(&db, &req, now, KEY, &resp.link);
    assert!(matches!(lookup, Err(ContentError::NotFound)));
}

#[test]
fn check_user_exists_tracks_registrations() {
    let mut db = Db::new();
    assert!(!db.check_user_exists("erin"));
    User::create_user(&mut db, &body("erin", "pw")).expect("registration");
    assert!(db.check_user_exists("erin"));
    assert!(!db.check_user_exists("Erin"));
}

#[test]
fn claims_constructor_keeps_its_fields() {
    let c = contentbox::jwt::Claims::new(9, 12345);
    assert_eq!(c.sub, 9);
    assert_eq!(c.exp, 12345);
}
