//! Content records, their wire representation, and the owner-scoped
//! operations over them.

use vstd::prelude::*;
use crate::db::{owned_rows, without_row, Db, DbError};
use crate::jwt::{gate_check, validate_token, AuthError, Request};
use crate::utils;

verus! {

/// The closed set of content kinds. Its string form is part of the wire
/// contract: exactly `Image`, `Video`, `Article`, `Audio`, mapped by an
/// explicit table in both directions.
#[derive(Clone, Copy, Debug, PartialEq, Eq, Structural)]
pub enum ContentType {
    Image,
    Video,
    Article,
    Audio,
}

/// The exact string a content kind is stored and sent as.
pub open spec fn type_str(t: ContentType) -> Seq<char> {
    match t {
        ContentType::Image => "Image"@,
        ContentType::Video => "Video"@,
        ContentType::Article => "Article"@,
        ContentType::Audio => "Audio"@,
    }
}

/// The inverse of `type_str`: which content kind a stored string denotes,
/// if any.
pub open spec fn parse_type(s: Seq<char>) -> Option<ContentType> {
    if s == "Image"@ {
        Some(ContentType::Image)
    } else if s == "Video"@ {
        Some(ContentType::Video)
    } else if s == "Article"@ {
        Some(ContentType::Article)
    } else if s == "Audio"@ {
        Some(ContentType::Audio)
    } else {
        None
    }
}

impl ContentType {
    /// Convert a content kind to its wire string.
    pub fn enum_to_string(&self) -> (r: String)
        ensures
            r@ == type_str(*self),
    {
        match self {
            ContentType::Image => "Image".to_owned(),
            ContentType::Video => "Video".to_owned(),
            ContentType::Article => "Article".to_owned(),
            ContentType::Audio => "Audio".to_owned(),
        }
    }

    /// Convert a wire string back to a content kind, if it denotes one.
    pub fn enum_from_string(value: &str) -> (r: Option<ContentType>)
        ensures
            r == parse_type(value@),
    {
        if utils::str_eq(value, "Image") {
            Some(ContentType::Image)
        } else if utils::str_eq(value, "Video") {
            Some(ContentType::Video)
        } else if utils::str_eq(value, "Article") {
            Some(ContentType::Article)
        } else if utils::str_eq(value, "Audio") {
            Some(ContentType::Audio)
        } else {
            None
        }
    }
}

/// The wire mapping of content kinds loses nothing: every kind parses back
/// from its own string.
pub proof fn lemma_type_label_round_trip(t: ContentType)
    ensures
        parse_type(type_str(t)) == Some(t),
{
    reveal_strlit("Image");
    reveal_strlit("Video");
    reveal_strlit("Article");
    reveal_strlit("Audio");
    assert("Video"@[0] == 'V' && "Image"@[0] == 'I');
    assert("Article"@.len() == 7 && "Image"@.len() == 5 && "Video"@.len() == 5);
    assert("Audio"@[1] == 'u' && "Video"@[1] == 'i');
}

/// A content creation request: the kind and the title.
pub struct Content {
    pub type_: ContentType,
    pub title: String,
}

/// What a successful creation echoes back: the kind, the title, and the
/// freshly generated share link.
pub struct ContentResponse {
    pub type_: ContentType,
    pub title: String,
    pub link: String,
}

/// One content item as listed back to its owner: the stored row with its
/// kind parsed back into the closed set.
pub struct UserContents {
    pub id: i32,
    pub title: String,
    pub type_: ContentType,
    pub link: String,
}

/// The mathematical image of a listed content item.
pub ghost struct UcView {
    pub id: int,
    pub title: Seq<char>,
    pub type_: ContentType,
    pub link: Seq<char>,
}

impl View for UserContents {
    type V = UcView;

    open spec fn view(&self) -> UcView {
        UcView { id: self.id as int, title: self.title@, type_: self.type_, link: self.link@ }
    }
}

/// A stored content row, as the persistence layer keeps it: the kind is held
/// as its wire string, so a row written by an older revision may fail to
/// parse back and is then skipped by listings.
pub struct StoredContent {
    pub id: i32,
    pub title: String,
    pub type_: String,
    pub link: String,
    pub user_id: i32,
}

/// The mathematical image of a stored content row.
pub ghost struct RowView {
    pub id: int,
    pub title: Seq<char>,
    pub type_: Seq<char>,
    pub link: Seq<char>,
    pub user_id: int,
}

impl View for StoredContent {
    type V = RowView;

    open spec fn view(&self) -> RowView {
        RowView {
            id: self.id as int,
            title: self.title@,
            type_: self.type_@,
            link: self.link@,
            user_id: self.user_id as int,
        }
    }
}

impl StoredContent {
    /// A field-for-field copy of the row.
    pub fn duplicate(&self) -> (r: StoredContent)
        ensures
            r@ == self@,
    {
        StoredContent {
            id: self.id,
            title: self.title.clone(),
            type_: self.type_.clone(),
            link: self.link.clone(),
            user_id: self.user_id,
        }
    }
}

/// Why a content operation failed.
#[derive(Clone, Copy, Debug, PartialEq, Eq, Structural)]
pub enum ContentError {
    /// The request carried no valid identity; nothing was executed.
    Auth(AuthError),
    /// No row with the requested id or link is visible to the caller. A row
    /// owned by someone else is indistinguishable from a missing one.
    NotFound,
    /// Link generation kept colliding with stored links; the creation was
    /// given up after its bounded retries.
    LinkExhausted,
    /// The store itself failed; nothing was written.
    Internal,
}

/// How a listing presents stored rows: the rows whose stored kind still
/// parses into the closed set, in order, with the kind parsed — a row with
/// an alien kind string is silently skipped, never an error.
pub open spec fn listed_rows(rows: Seq<RowView>) -> Seq<UcView>
    decreases rows.len(),
{
    if rows.len() == 0 {
        Seq::empty()
    } else {
        let prefix = listed_rows(rows.drop_last());
        let r = rows.last();
        match parse_type(r.type_) {
            Some(t) => prefix.push(UcView { id: r.id, title: r.title, type_: t, link: r.link }),
            None => prefix,
        }
    }
}

/// The number of retries `create_content` grants the link generator before
/// giving up with `LinkExhausted`.
pub const LINK_RETRY_LIMIT: usize = 5;

impl Content {
    /// Creates a content row for the authenticated caller: draws a fresh
    /// sixteen-character link, retrying a bounded number of times when the
    /// draw collides with a stored link, and echoes back kind, title and
    /// link. Only the validated token decides the owner; no failure writes
    /// anything.
    pub fn create_content(
        db: &mut Db,
        req: &Request,
        now: u64,
        key: &[u8],
        content: &Content,
    ) -> (r: Result<ContentResponse, ContentError>)
        requires
            old(db)@.wf(),
        ensures
            final(db)@.wf(),
            match gate_check(req@, now, key@) {
                Err(e) => r == Err::<ContentResponse, ContentError>(ContentError::Auth(e))
                    && final(db)@ == old(db)@,
                Ok(uid) => match r {
                    Ok(resp) => {
                        &&& resp.title@ == content.title@
                        &&& resp.type_ == content.type_
                        &&& resp.link@.len() == 16
                        &&& forall|i: int|
                            0 <= i < resp.link@.len() ==> utils::is_alnum(#[trigger] resp.link@[i])
                        &&& !old(db)@.has_link(resp.link@)
                        &&& final(db)@.contents == old(db)@.contents.push(
                            RowView {
                                id: old(db)@.next_content_id,
                                title: content.title@,
                                type_: type_str(content.type_),
                                link: resp.link@,
                                user_id: uid as int,
                            },
                        )
                        &&& final(db)@.users == old(db)@.users
                        &&& final(db)@.next_content_id == old(db)@.next_content_id + 1
                        &&& final(db)@.next_user_id == old(db)@.next_user_id
                    },
                    Err(ContentError::LinkExhausted) => final(db)@ == old(db)@,
                    Err(ContentError::Internal) => final(db)@ == old(db)@
                        && old(db)@.next_content_id == i32::MAX,
                    Err(_) => false,
                },
            },
    {
        let uid = match validate_token(req, now, key) {
            Ok(u) => u,
            Err(e) => {
                return Err(ContentError::Auth(e));
            },
        };
        let label = content.type_.enum_to_string();
        let mut attempts: usize = 0;
        while attempts < LINK_RETRY_LIMIT
            invariant
                old(db)@.wf(),
                db@ == old(db)@,
                gate_check(req@, now, key@) == Ok::<i32, AuthError>(uid),
                label@ == type_str(content.type_),
                attempts <= LINK_RETRY_LIMIT,
            decreases LINK_RETRY_LIMIT - attempts,
        {
            let link = utils::generate_random_string(16);
            match db.insert_content(&link, &label, &content.title, uid) {
                Ok(_) => {
                    return Ok(
                        ContentResponse {
                            type_: content.type_,
                            title: content.title.clone(),
                            link,
                        },
                    );
                },
                Err(DbError::Duplicate) => {},
                Err(DbError::Full) => {
                    return Err(ContentError::Internal);
                },
            }
            attempts = attempts + 1;
        }
        Err(ContentError::LinkExhausted)
    }

    /// Fetches one row by id, scoped to the authenticated caller: a row of
    /// another owner and a missing row are the same `NotFound`. Returns the
    /// raw stored row — id, title, kind string, link — as the query does.
    pub fn get_content_by_id(db: &Db, req: &Request, now: u64, key: &[u8], id: i32) -> (r: Result<
        (i32, String, String, String),
        ContentError,
    >)
        requires
            db@.wf(),
        ensures
            match gate_check(req@, now, key@) {
                Err(e) => r == Err::<(i32, String, String, String), ContentError>(
                    ContentError::Auth(e),
                ),
                Ok(uid) => match r {
                    Ok(row) => db@.has_content(id as int, uid as int) && {
                        let c = db@.content_at(id as int, uid as int);
                        row.0 as int == c.id && row.1@ == c.title && row.2@ == c.type_ && row.3@
                            == c.link
                    },
                    Err(ContentError::NotFound) => !db@.has_content(id as int, uid as int),
                    Err(_) => false,
                },
            },
    {
        let uid = match validate_token(req, now, key) {
            Ok(u) => u,
            Err(e) => {
                return Err(ContentError::Auth(e));
            },
        };
        match db.select_content_by_id(id, uid) {
            Some(c) => Ok((c.id, c.title.clone(), c.type_.clone(), c.link.clone())),
            None => Err(ContentError::NotFound),
        }
    }

    /// Lists every row of the authenticated caller, in storage order,
    /// parsing each stored kind string back into the closed set; a row whose
    /// kind no longer parses is skipped, not an error.
    pub fn get_all_content(db: &Db, req: &Request, now: u64, key: &[u8]) -> (r: Result<
        Vec<UserContents>,
        ContentError,
    >)
        requires
            db@.wf(),
        ensures
            match gate_check(req@, now, key@) {
                Err(e) => r == Err::<Vec<UserContents>, ContentError>(ContentError::Auth(e)),
                Ok(uid) => match r {
                    Ok(items) => items@.map_values(|u: UserContents| u@) == listed_rows(
                        owned_rows(db@.contents, uid as int),
                    ),
                    Err(_) => false,
                },
            },
    {
        let uid = match validate_token(req, now, key) {
            Ok(u) => u,
            Err(e) => {
                return Err(ContentError::Auth(e));
            },
        };
        let rows = db.select_contents_by_owner(uid);
        let ghost rv = rows@.map_values(|c: StoredContent| c@);
        let mut out: Vec<UserContents> = Vec::new();
        let mut i: usize = 0;
        proof {
            assert(out@.map_values(|u: UserContents| u@) =~= listed_rows(rv.take(0)));
        }
        while i < rows.len()
            invariant
                i <= rows.len(),
                rv == rows@.map_values(|c: StoredContent| c@),
                rv.len() == rows@.len(),
                out@.map_values(|u: UserContents| u@) == listed_rows(rv.take(i as int)),
            decreases rows.len() - i,
        {
            proof {
                assert(rv[i as int] == rows@[i as int]@);
                assert(rv.take(i + 1 as int).drop_last() =~= rv.take(i as int));
                assert(rv.take(i + 1 as int).last() == rv[i as int]);
            }
            let ghost prev = out@;
            let row = &rows[i];
            match ContentType::enum_from_string(row.type_.as_str()) {
                Some(t) => {
                    out.push(
                        UserContents {
                            id: row.id,
                            title: row.title.clone(),
                            type_: t,
                            link: row.link.clone(),
                        },
                    );
                    proof {
                        assert(out@.map_values(|u: UserContents| u@) =~= prev.map_values(
                            |u: UserContents| u@,
                        ).push(
                            UcView {
                                id: rv[i as int].id,
                                title: rv[i as int].title,
                                type_: t,
                                link: rv[i as int].link,
                            },
                        ));
                    }
                },
                None => {},
            }
            i = i + 1;
        }
        proof {
            assert(rv.take(i as int) =~= rv);
        }
        Ok(out)
    }

    /// Deletes one row by id, scoped to the authenticated caller: success
    /// exactly when an owned row matched, `NotFound` both for a missing row
    /// and for someone else's row, and the matched row is gone afterwards —
    /// an immediately repeated deletion reports `NotFound`.
    pub fn delete_content(db: &mut Db, req: &Request, now: u64, key: &[u8], id: i32) -> (r: Result<
        (),
        ContentError,
    >)
        requires
            old(db)@.wf(),
        ensures
            final(db)@.wf(),
            match gate_check(req@, now, key@) {
                Err(e) => r == Err::<(), ContentError>(ContentError::Auth(e))
                    && final(db)@ == old(db)@,
                Ok(uid) => {
                    &&& final(db)@.contents == without_row(old(db)@.contents, id as int, uid as int)
                    &&& final(db)@.users == old(db)@.users
                    &&& final(db)@.next_user_id == old(db)@.next_user_id
                    &&& final(db)@.next_content_id == old(db)@.next_content_id
                    &&& !final(db)@.has_content(id as int, uid as int)
                    &&& match r {
                        Ok(_) => old(db)@.has_content(id as int, uid as int),
                        Err(ContentError::NotFound) => !old(db)@.has_content(id as int, uid as int),
                        Err(_) => false,
                    }
                },
            },
    {
        let uid = match validate_token(req, now, key) {
            Ok(u) => u,
            Err(e) => {
                return Err(ContentError::Auth(e));
            },
        };
        let affected = db.delete_content_rows(id, uid);
        if affected > 0 {
            Ok(())
        } else {
            Err(ContentError::NotFound)
        }
    }

    /// Fetches one row by its opaque share link — the only read that is not
    /// owner-scoped, since the link itself is the unguessable capability.
    /// Still requires a valid token, as the route does.
    pub fn get_content_by_link(db: &Db, req: &Request, now: u64, key: &[u8], link: &str) -> (r:
        Result<(i32, String, String, String), ContentError>)
        requires
            db@.wf(),
        ensures
            match gate_check(req@, now, key@) {
                Err(e) => r == Err::<(i32, String, String, String), ContentError>(
                    ContentError::Auth(e),
                ),
                Ok(_) => match r {
                    Ok(row) => db@.has_link(link@) && {
                        let c = db@.content_by_link(link@);
                        row.0 as int == c.id && row.1@ == c.title && row.2@ == c.type_ && row.3@
                            == c.link
                    },
                    Err(ContentError::NotFound) => !db@.has_link(link@),
                    Err(_) => false,
                },
            },
    {
        match validate_token(req, now, key) {
            Ok(_) => {},
            Err(e) => {
                return Err(ContentError::Auth(e));
            },
        };
        match db.select_content_by_link(link) {
            Some(c) => Ok((c.id, c.title.clone(), c.type_.clone(), c.link.clone())),
            None => Err(ContentError::NotFound),
        }
    }
}

} // verus!
