//! The persistence model: an in-memory store with the same shape and the
//! same constraints as the backing tables — storage-assigned integer ids,
//! a unique-username constraint on users, and a unique-link constraint on
//! content rows. Every operation mirrors one parameterized query of the
//! service and is specified against the store's mathematical view.

use vstd::prelude::*;
use crate::content::{RowView, StoredContent};
use crate::user::{User, UserView};
use crate::utils;

verus! {

/// The mathematical image of the whole store.
pub ghost struct DbView {
    pub users: Seq<UserView>,
    pub contents: Seq<RowView>,
    pub next_user_id: int,
    pub next_content_id: int,
}

/// Does a row match an owner-scoped id? The conjunction a `WHERE id = ? AND
/// user_id = ?` clause tests.
pub open spec fn row_matches(r: RowView, id: int, owner: int) -> bool {
    r.id == id && r.user_id == owner
}

/// The rows that survive deleting the owner-scoped id: everything else, in
/// order.
pub open spec fn without_row(rows: Seq<RowView>, id: int, owner: int) -> Seq<RowView>
    decreases rows.len(),
{
    if rows.len() == 0 {
        Seq::empty()
    } else {
        let prefix = without_row(rows.drop_last(), id, owner);
        if row_matches(rows.last(), id, owner) {
            prefix
        } else {
            prefix.push(rows.last())
        }
    }
}

/// The rows of one owner, in storage order.
pub open spec fn owned_rows(rows: Seq<RowView>, owner: int) -> Seq<RowView>
    decreases rows.len(),
{
    if rows.len() == 0 {
        Seq::empty()
    } else {
        let prefix = owned_rows(rows.drop_last(), owner);
        if rows.last().user_id == owner {
            prefix.push(rows.last())
        } else {
            prefix
        }
    }
}

impl DbView {
    /// The store's invariant: ids are positive, below their counter and
    /// unique; usernames and links are unique.
    pub open spec fn wf(self) -> bool {
        &&& 1 <= self.next_user_id <= i32::MAX
        &&& 1 <= self.next_content_id <= i32::MAX
        &&& forall|i: int|
            0 <= i < self.users.len() ==> 1 <= (#[trigger] self.users[i]).id < self.next_user_id
        &&& forall|i: int, j: int|
            #![trigger self.users[i], self.users[j]]
            0 <= i < j < self.users.len() ==> self.users[i].id != self.users[j].id
                && self.users[i].username != self.users[j].username
        &&& forall|i: int|
            0 <= i < self.contents.len() ==> 1 <= (#[trigger] self.contents[i]).id
                < self.next_content_id
        &&& forall|i: int, j: int|
            #![trigger self.contents[i], self.contents[j]]
            0 <= i < j < self.contents.len() ==> self.contents[i].id != self.contents[j].id
                && self.contents[i].link != self.contents[j].link
    }

    /// Is some user stored under this username?
    pub open spec fn has_user(self, name: Seq<char>) -> bool {
        exists|i: int| 0 <= i < self.users.len() && (#[trigger] self.users[i]).username == name
    }

    /// The user stored under this username (meaningful when `has_user`).
    pub open spec fn user_named(self, name: Seq<char>) -> UserView {
        self.users[choose|i: int|
            0 <= i < self.users.len() && (#[trigger] self.users[i]).username == name]
    }

    /// Is some row stored under this owner-scoped id?
    pub open spec fn has_content(self, id: int, owner: int) -> bool {
        exists|i: int|
            0 <= i < self.contents.len() && row_matches(#[trigger] self.contents[i], id, owner)
    }

    /// The row stored under this owner-scoped id (meaningful when
    /// `has_content`).
    pub open spec fn content_at(self, id: int, owner: int) -> RowView {
        self.contents[choose|i: int|
            0 <= i < self.contents.len() && row_matches(#[trigger] self.contents[i], id, owner)]
    }

    /// Is some row stored under this share link?
    pub open spec fn has_link(self, link: Seq<char>) -> bool {
        exists|i: int| 0 <= i < self.contents.len() && (#[trigger] self.contents[i]).link == link
    }

    /// The row stored under this share link (meaningful when `has_link`).
    pub open spec fn content_by_link(self, link: Seq<char>) -> RowView {
        self.contents[choose|i: int|
            0 <= i < self.contents.len() && (#[trigger] self.contents[i]).link == link]
    }
}

/// How a store write can fail, mirroring the constraint machinery of the
/// backing tables.
#[derive(Clone, Copy, Debug, PartialEq, Eq, Structural)]
pub enum DbError {
    /// A uniqueness constraint (username or link) rejected the write.
    Duplicate,
    /// The id counter is exhausted; nothing was written.
    Full,
}

/// The store itself: user and content rows plus the two id counters.
pub struct Db {
    users: Vec<User>,
    contents: Vec<StoredContent>,
    next_user_id: i32,
    next_content_id: i32,
}

impl View for Db {
    type V = DbView;

    closed spec fn view(&self) -> DbView {
        DbView {
            users: self.users@.map_values(|u: User| u@),
            contents: self.contents@.map_values(|c: StoredContent| c@),
            next_user_id: self.next_user_id as int,
            next_content_id: self.next_content_id as int,
        }
    }
}

impl Db {
    /// An empty store.
    pub fn new() -> (r: Db)
        ensures
            r@.wf(),
            r@.users.len() == 0,
            r@.contents.len() == 0,
            r@.next_user_id == 1,
            r@.next_content_id == 1,
    {
        let db = Db { users: Vec::new(), contents: Vec::new(), next_user_id: 1, next_content_id: 1 };
        proof {
            assert(db@.users =~= Seq::<UserView>::empty());
            assert(db@.contents =~= Seq::<RowView>::empty());
        }
        db
    }

    /// The index of the user row with this username, if one is stored.
    fn find_user_index(&self, username: &str) -> (r: Option<usize>)
        ensures
            match r {
                Some(i) => i < self@.users.len() && self@.users[i as int].username == username@
                    && self@.has_user(username@),
                None => !self@.has_user(username@),
            },
    {
        let mut i: usize = 0;
        while i < self.users.len()
            invariant
                i <= self.users.len(),
                self@.users.len() == self.users.len(),
                forall|j: int| 0 <= j < i ==> (#[trigger] self@.users[j]).username != username@,
            decreases self.users.len() - i,
        {
            if utils::str_eq(self.users[i].username.as_str(), username) {
                proof {
                    assert(self@.users[i as int] == self.users@[i as int]@);
                }
                return Some(i);
            }
            i = i + 1;
        }
        None
    }

    /// Does a user with this username exist? The existence query run before
    /// an insert.
    pub fn check_user_exists(&self, username: &str) -> (r: bool)
        ensures
            r == self@.has_user(username@),
    {
        self.find_user_index(username).is_some()
    }

    /// The user row with this username, if one is stored. The lookup query
    /// behind sign-in.
    pub fn select_user(&self, username: &str) -> (r: Option<&User>)
        requires
            self@.wf(),
        ensures
            match r {
                Some(u) => self@.has_user(username@) && u@ == self@.user_named(username@),
                None => !self@.has_user(username@),
            },
    {
        match self.find_user_index(username) {
            Some(i) => {
                proof {
                    assert(self@.users[i as int] == self.users@[i as int]@);
                    let j = choose|j: int|
                        0 <= j < self@.users.len() && (#[trigger] self@.users[j]).username
                            == username@;
                    if i as int != j {
                        if (i as int) < j {
                            assert(self@.users[i as int].username != self@.users[j].username);
                        } else {
                            assert(self@.users[j].username != self@.users[i as int].username);
                        }
                    }
                }
                Some(&self.users[i])
            },
            None => None,
        }
    }

    /// Stores a new user row, assigning it the next id. Fails with
    /// `Duplicate` when the username is already taken (the uniqueness
    /// constraint) and with `Full` when the id counter is exhausted; either
    /// failure leaves the store untouched.
    pub fn insert_user(&mut self, username: &str, password: &str) -> (r: Result<i32, DbError>)
        requires
            old(self)@.wf(),
        ensures
            final(self)@.wf(),
            match r {
                Ok(id) => {
                    &&& !old(self)@.has_user(username@)
                    &&& id as int == old(self)@.next_user_id
                    &&& final(self)@.users == old(self)@.users.push(
                        UserView { id: id as int, username: username@, password: password@ },
                    )
                    &&& final(self)@.contents == old(self)@.contents
                    &&& final(self)@.next_user_id == old(self)@.next_user_id + 1
                    &&& final(self)@.next_content_id == old(self)@.next_content_id
                },
                Err(DbError::Duplicate) => old(self)@.has_user(username@) && final(self)@ == old(
                    self,
                )@,
                Err(DbError::Full) => !old(self)@.has_user(username@) && old(self)@.next_user_id
                    == i32::MAX && final(self)@ == old(self)@,
            },
    {
        if self.check_user_exists(username) {
            return Err(DbError::Duplicate);
        }
        if self.next_user_id == i32::MAX {
            return Err(DbError::Full);
        }
        let id = self.next_user_id;
        let user = User { id, username: username.to_owned(), password: password.to_owned() };
        self.users.push(user);
        self.next_user_id = id + 1;
        proof {
            let uv = UserView { id: id as int, username: username@, password: password@ };
            assert(self@.users =~= old(self)@.users.push(uv));
            assert(self@.contents =~= old(self)@.contents);
            assert forall|p: int, q: int|
                #![trigger self@.users[p], self@.users[q]]
                0 <= p < q < self@.users.len() implies self@.users[p].id != self@.users[q].id
                && self@.users[p].username != self@.users[q].username by {
                if q == self@.users.len() - 1 {
                    assert(self@.users[p] == old(self)@.users[p]);
                    assert(!old(self)@.has_user(username@));
                }
            }
        }
        Ok(id)
    }

    /// The index of the content row with this share link, if one is stored.
    fn find_link_index(&self, link: &str) -> (r: Option<usize>)
        ensures
            match r {
                Some(i) => i < self@.contents.len() && self@.contents[i as int].link == link@
                    && self@.has_link(link@),
                None => !self@.has_link(link@),
            },
    {
        let mut i: usize = 0;
        while i < self.contents.len()
            invariant
                i <= self.contents.len(),
                self@.contents.len() == self.contents.len(),
                forall|j: int| 0 <= j < i ==> (#[trigger] self@.contents[j]).link != link@,
            decreases self.contents.len() - i,
        {
            if utils::str_eq(self.contents[i].link.as_str(), link) {
                proof {
                    assert(self@.contents[i as int] == self.contents@[i as int]@);
                }
                return Some(i);
            }
            i = i + 1;
        }
        None
    }

    /// Stores a new content row under a share link, assigning it the next
    /// id. Fails with `Duplicate` when the link is already taken (the
    /// uniqueness constraint that makes collisions of the random generator
    /// harmless) and with `Full` when the id counter is exhausted; either
    /// failure leaves the store untouched.
    pub fn insert_content(
        &mut self,
        link: &str,
        type_label: &str,
        title: &str,
        user_id: i32,
    ) -> (r: Result<i32, DbError>)
        requires
            old(self)@.wf(),
        ensures
            final(self)@.wf(),
            match r {
                Ok(id) => {
                    &&& !old(self)@.has_link(link@)
                    &&& id as int == old(self)@.next_content_id
                    &&& final(self)@.contents == old(self)@.contents.push(
                        RowView {
                            id: id as int,
                            title: title@,
                            type_: type_label@,
                            link: link@,
                            user_id: user_id as int,
                        },
                    )
                    &&& final(self)@.users == old(self)@.users
                    &&& final(self)@.next_content_id == old(self)@.next_content_id + 1
                    &&& final(self)@.next_user_id == old(self)@.next_user_id
                },
                Err(DbError::Duplicate) => old(self)@.has_link(link@) && final(self)@ == old(
                    self,
                )@,
                Err(DbError::Full) => !old(self)@.has_link(link@) && old(self)@.next_content_id
                    == i32::MAX && final(self)@ == old(self)@,
            },
    {
        if self.find_link_index(link).is_some() {
            return Err(DbError::Duplicate);
        }
        if self.next_content_id == i32::MAX {
            return Err(DbError::Full);
        }
        let id = self.next_content_id;
        let row = StoredContent {
            id,
            title: title.to_owned(),
            type_: type_label.to_owned(),
            link: link.to_owned(),
            user_id,
        };
        self.contents.push(row);
        self.next_content_id = id + 1;
        proof {
            let rv = RowView {
                id: id as int,
                title: title@,
                type_: type_label@,
                link: link@,
                user_id: user_id as int,
            };
            assert(self@.contents =~= old(self)@.contents.push(rv));
            assert(self@.users =~= old(self)@.users);
            assert forall|p: int, q: int|
                #![trigger self@.contents[p], self@.contents[q]]
                0 <= p < q < self@.contents.len() implies self@.contents[p].id
                != self@.contents[q].id && self@.contents[p].link != self@.contents[q].link by {
                if q == self@.contents.len() - 1 {
                    assert(self@.contents[p] == old(self)@.contents[p]);
                    assert(!old(self)@.has_link(link@));
                }
            }
        }
        Ok(id)
    }

    /// The content row with this owner-scoped id, if one is stored. A row
    /// under another owner is as invisible as a missing one.
    pub fn select_content_by_id(&self, id: i32, user_id: i32) -> (r: Option<&StoredContent>)
        requires
            self@.wf(),
        ensures
            match r {
                Some(c) => self@.has_content(id as int, user_id as int) && c@ == self@.content_at(
                    id as int,
                    user_id as int,
                ),
                None => !self@.has_content(id as int, user_id as int),
            },
    {
        let mut i: usize = 0;
        while i < self.contents.len()
            invariant
                self@.wf(),
                i <= self.contents.len(),
                self@.contents.len() == self.contents.len(),
                forall|j: int|
                    0 <= j < i ==> !row_matches(
                        #[trigger] self@.contents[j],
                        id as int,
                        user_id as int,
                    ),
            decreases self.contents.len() - i,
        {
            if self.contents[i].id == id && self.contents[i].user_id == user_id {
                proof {
                    assert(self@.contents[i as int] == self.contents@[i as int]@);
                    let j = choose|j: int|
                        0 <= j < self@.contents.len() && row_matches(
                            #[trigger] self@.contents[j],
                            id as int,
                            user_id as int,
                        );
                    if i as int != j {
                        if (i as int) < j {
                            assert(self@.contents[i as int].id != self@.contents[j].id);
                        } else {
                            assert(self@.contents[j].id != self@.contents[i as int].id);
                        }
                    }
                }
                return Some(&self.contents[i]);
            }
            i = i + 1;
        }
        None
    }

    /// The content row with this share link, if one is stored. The one read
    /// that is not owner-scoped: it serves the public share path.
    pub fn select_content_by_link(&self, link: &str) -> (r: Option<&StoredContent>)
        requires
            self@.wf(),
        ensures
            match r {
                Some(c) => self@.has_link(link@) && c@ == self@.content_by_link(link@),
                None => !self@.has_link(link@),
            },
    {
        match self.find_link_index(link) {
            Some(i) => {
                proof {
                    assert(self@.contents[i as int] == self.contents@[i as int]@);
                    let j = choose|j: int|
                        0 <= j < self@.contents.len() && (#[trigger] self@.contents[j]).link
                            == link@;
                    if i as int != j {
                        if (i as int) < j {
                            assert(self@.contents[i as int].link != self@.contents[j].link);
                        } else {
                            assert(self@.contents[j].link != self@.contents[i as int].link);
                        }
                    }
                }
                Some(&self.contents[i])
            },
            None => None,
        }
    }

    /// All content rows of one owner, in storage order. The listing query.
    pub fn select_contents_by_owner(&self, user_id: i32) -> (r: Vec<StoredContent>)
        ensures
            r@.map_values(|c: StoredContent| c@) == owned_rows(self@.contents, user_id as int),
    {
        let mut out: Vec<StoredContent> = Vec::new();
        let mut i: usize = 0;
        proof {
            assert(out@.map_values(|c: StoredContent| c@) =~= owned_rows(
                self@.contents.take(0),
                user_id as int,
            ));
        }
        while i < self.contents.len()
            invariant
                i <= self.contents.len(),
                self@.contents.len() == self.contents.len(),
                out@.map_values(|c: StoredContent| c@) == owned_rows(
                    self@.contents.take(i as int),
                    user_id as int,
                ),
            decreases self.contents.len() - i,
        {
            proof {
                assert(self@.contents[i as int] == self.contents@[i as int]@);
                assert(self@.contents.take(i + 1 as int).drop_last() =~= self@.contents.take(
                    i as int,
                ));
                assert(self@.contents.take(i + 1 as int).last() == self@.contents[i as int]);
            }
            let ghost prev = out@.map_values(|c: StoredContent| c@);
            if self.contents[i].user_id == user_id {
                out.push(self.contents[i].duplicate());
                proof {
                    assert(out@.map_values(|c: StoredContent| c@) =~= prev.push(
                        self@.contents[i as int],
                    ));
                }
            }
            i = i + 1;
        }
        proof {
            assert(self@.contents.take(i as int) =~= self@.contents);
        }
        out
    }

    /// Deletes the content row matching both the id and the owner — the
    /// owner-scoped DELETE. Returns how many rows were removed: zero when no
    /// owned row matched (a row of another owner is left untouched and
    /// unrevealed), one otherwise.
    pub fn delete_content_rows(&mut self, id: i32, user_id: i32) -> (r: usize)
        requires
            old(self)@.wf(),
        ensures
            final(self)@.wf(),
            final(self)@.users == old(self)@.users,
            final(self)@.next_user_id == old(self)@.next_user_id,
            final(self)@.next_content_id == old(self)@.next_content_id,
            final(self)@.contents == without_row(old(self)@.contents, id as int, user_id as int),
            r > 0 <==> old(self)@.has_content(id as int, user_id as int),
            !final(self)@.has_content(id as int, user_id as int),
    {
        let ghost cv = self@.contents;
        let mut kept: Vec<StoredContent> = Vec::new();
        let mut removed: usize = 0;
        let mut i: usize = 0;
        proof {
            assert(kept@.map_values(|c: StoredContent| c@) =~= without_row(
                cv.take(0),
                id as int,
                user_id as int,
            ));
        }
        while i < self.contents.len()
            invariant
                old(self)@.wf(),
                i <= self.contents.len(),
                self@ == old(self)@,
                self@.contents.len() == self.contents.len(),
                removed <= i,
                kept@.map_values(|c: StoredContent| c@) == without_row(
                    cv.take(i as int),
                    id as int,
                    user_id as int,
                ),
                cv == self@.contents,
                forall|p: int|
                    0 <= p < kept@.len() ==> exists|k: int|
                        0 <= k < i && (#[trigger] kept@[p])@ == cv[k],
                forall|p: int, q: int|
                    #![trigger kept@[p], kept@[q]]
                    0 <= p < q < kept@.len() ==> kept@[p]@.id != kept@[q]@.id && kept@[p]@.link
                        != kept@[q]@.link,
                forall|p: int| 0 <= p < kept@.len() ==> 1 <= (#[trigger] kept@[p])@.id
                    < self@.next_content_id,
                (removed > 0) <==> exists|k: int|
                    0 <= k < i && row_matches(#[trigger] cv[k], id as int, user_id as int),
            decreases self.contents.len() - i,
        {
            proof {
                assert(self@.contents[i as int] == self.contents@[i as int]@);
                assert(cv.take(i + 1 as int).drop_last() =~= cv.take(i as int));
                assert(cv.take(i + 1 as int).last() == cv[i as int]);
            }
            let ghost prev = kept@;
            if self.contents[i].id == id && self.contents[i].user_id == user_id {
                removed = removed + 1;
                proof {
                    assert(row_matches(cv[i as int], id as int, user_id as int));
                }
            } else {
                kept.push(self.contents[i].duplicate());
                proof {
                    assert(kept@.map_values(|c: StoredContent| c@) =~= prev.map_values(
                        |c: StoredContent| c@,
                    ).push(cv[i as int]));
                    assert(kept@[prev.len() as int]@ == cv[i as int]);
                    assert forall|p: int, q: int|
                        #![trigger kept@[p], kept@[q]]
                        0 <= p < q < kept@.len() implies kept@[p]@.id != kept@[q]@.id
                        && kept@[p]@.link != kept@[q]@.link by {
                        if q == kept@.len() - 1 {
                            assert(kept@[p] == prev[p]);
                            let k = choose|k: int| 0 <= k < i && prev[p]@ == cv[k];
                            assert(cv[k].id != cv[i as int].id && cv[k].link != cv[i as int].link);
                        }
                    }
                }
            }
            i = i + 1;
        }
        proof {
            assert(cv.take(i as int) =~= cv);
        }
        self.contents = kept;
        proof {
            assert(self@.contents =~= kept@.map_values(|c: StoredContent| c@));
            assert(self@.users =~= old(self)@.users);
            assert forall|p: int, q: int|
                #![trigger self@.contents[p], self@.contents[q]]
                0 <= p < q < self@.contents.len() implies self@.contents[p].id
                != self@.contents[q].id && self@.contents[p].link != self@.contents[q].link by {
                assert(self@.contents[p] == kept@[p]@);
                assert(self@.contents[q] == kept@[q]@);
            }
            lemma_without_row_gone(cv, id as int, user_id as int);
        }
        removed
    }
}

/// Deletion leaves no trace: after removing an owner-scoped id, no row of
/// the result matches it — which is why an immediately repeated deletion
/// reports the row as missing.
pub proof fn lemma_without_row_gone(rows: Seq<RowView>, id: int, owner: int)
    ensures
        forall|i: int|
            0 <= i < without_row(rows, id, owner).len() ==> !row_matches(
                #[trigger] without_row(rows, id, owner)[i],
                id,
                owner,
            ),
    decreases rows.len(),
{
    if rows.len() > 0 {
        lemma_without_row_gone(rows.drop_last(), id, owner);
        let wr = without_row(rows, id, owner);
        let wd = without_row(rows.drop_last(), id, owner);
        if !row_matches(rows.last(), id, owner) {
            assert forall|i: int| 0 <= i < wr.len() implies !row_matches(wr[i], id, owner) by {
                if i < wd.len() {
                    assert(wr[i] == wd[i]);
                    assert(!row_matches(wd[i], id, owner));
                } else {
                    assert(wr[i] == rows.last());
                }
            }
        }
    }
}

/// Ownership scoping: a row stored under one owner is invisible to every
/// other owner — the owner-scoped lookup of the same id finds nothing.
pub proof fn lemma_owner_scoping(db: DbView, id: int, owner: int, other: int)
    requires
        db.wf(),
        db.has_content(id, owner),
        other != owner,
    ensures
        !db.has_content(id, other),
{
    let i = choose|i: int|
        0 <= i < db.contents.len() && row_matches(#[trigger] db.contents[i], id, owner);
    if db.has_content(id, other) {
        let j = choose|j: int|
            0 <= j < db.contents.len() && row_matches(#[trigger] db.contents[j], id, other);
        if i < j {
            assert(db.contents[i].id != db.contents[j].id);
        }
        if j < i {
            assert(db.contents[j].id != db.contents[i].id);
        }
        assert(false);
    }
}

/// A freshly stored row is immediately visible to its owner under its new
/// id: the owner-scoped lookup resolves to exactly that row.
pub proof fn lemma_created_row_visible(pre: DbView, post: DbView, row: RowView)
    requires
        pre.wf(),
        post.contents == pre.contents.push(row),
        row.id == pre.next_content_id,
    ensures
        post.has_content(row.id, row.user_id),
        post.content_at(row.id, row.user_id) == row,
{
    assert(post.contents[pre.contents.len() as int] == row);
    let j = choose|j: int|
        0 <= j < post.contents.len() && row_matches(#[trigger] post.contents[j], row.id, row.user_id);
    if j != pre.contents.len() as int {
        assert(post.contents[j] == pre.contents[j]);
        assert(1 <= pre.contents[j].id < pre.next_content_id);
        assert(false);
    }
}

/// A successful registration leaves the username present in the store, so a
/// second registration of the same name must report a duplicate.
pub proof fn lemma_registered_name_is_taken(pre: DbView, post: DbView, u: UserView)
    requires
        post.users == pre.users.push(u),
    ensures
        post.has_user(u.username),
{
    assert(post.users[pre.users.len() as int].username == u.username);
}

} // verus!
