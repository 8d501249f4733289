//! The in-memory store: the relations the data-access layer works on, with
//! uniqueness invariants on identities, slugs, ids and relation pairs, and
//! query and mutation operations whose contracts the resource-access service
//! builds on. A mutation restricted by a filter reports how many rows it affected,
//! which is what the deferred-authorization protocol diagnoses.

use vstd::prelude::*;
use crate::filters::{UserFilter, UpdateUserFilter};
use crate::models::{User, UserUpdate, Profile};

verus! {

/// A follow relation: `follower` follows `celeb`.
#[derive(Debug)]
pub struct Follow {
    pub follower: String,
    pub celeb: String,
}

impl Clone for Follow {
    /// A clone is equal to the original.
    fn clone(&self) -> (r: Self)
        ensures
            r == *self,
    {
        Follow { follower: self.follower.clone(), celeb: self.celeb.clone() }
    }
}

/// A stored article.
#[derive(Debug)]
pub struct ArticleRow {
    pub id: u32,
    pub slug: String,
    pub title: String,
    pub description: Option<String>,
    pub body: String,
    pub tag_list: Vec<String>,
    pub created_at: i64,
    pub updated_at: i64,
    pub author: String,
}

/// Clones an optional string; the result is equal to the original.
pub fn clone_opt_string(s: &Option<String>) -> (r: Option<String>)
    ensures
        r == *s,
{
    match s {
        Some(v) => Some(v.clone()),
        None => None,
    }
}

/// Clones a list of strings; the clone's view equals the original's.
pub fn clone_string_vec(v: &Vec<String>) -> (r: Vec<String>)
    ensures
        r@ == v@,
{
    let r = v.clone();
    proof {
        assert(forall|i: int| #![all_triggers] 0 <= i < v@.len() ==> r@[i] == v@[i]);
        assert(r@ =~= v@);
    }
    r
}

/// Whether two article rows carry the same data. Rows are compared this way
/// rather than as whole values because a cloned tag list is known only up to
/// its view.
pub open spec fn same_article_row(a: ArticleRow, b: ArticleRow) -> bool {
    &&& a.id == b.id
    &&& a.slug == b.slug
    &&& a.title == b.title
    &&& a.description == b.description
    &&& a.body == b.body
    &&& a.tag_list@ == b.tag_list@
    &&& a.created_at == b.created_at
    &&& a.updated_at == b.updated_at
    &&& a.author == b.author
}

impl Clone for ArticleRow {
    /// A clone carries the same data as the original.
    fn clone(&self) -> (r: Self)
        ensures
            same_article_row(r, *self),
    {
        ArticleRow {
            id: self.id,
            slug: self.slug.clone(),
            title: self.title.clone(),
            description: clone_opt_string(&self.description),
            body: self.body.clone(),
            tag_list: clone_string_vec(&self.tag_list),
            created_at: self.created_at,
            updated_at: self.updated_at,
            author: self.author.clone(),
        }
    }
}

/// A favorite relation: `username` favorited the article with id
/// `article_id`.
#[derive(Debug)]
pub struct Favorite {
    pub article_id: u32,
    pub username: String,
}

impl Clone for Favorite {
    /// A clone is equal to the original.
    fn clone(&self) -> (r: Self)
        ensures
            r == *self,
    {
        Favorite { article_id: self.article_id, username: self.username.clone() }
    }
}

/// A stored comment.
#[derive(Debug)]
pub struct CommentRow {
    pub id: i32,
    pub article_id: u32,
    pub body: String,
    pub created_at: i64,
    pub updated_at: i64,
    pub author: String,
}

impl Clone for CommentRow {
    /// A clone is equal to the original.
    fn clone(&self) -> (r: Self)
        ensures
            r == *self,
    {
        CommentRow {
            id: self.id,
            article_id: self.article_id,
            body: self.body.clone(),
            created_at: self.created_at,
            updated_at: self.updated_at,
            author: self.author.clone(),
        }
    }
}

/// Whether some user in `users` has the given username.
pub open spec fn has_username(users: Seq<User>, name: Seq<char>) -> bool {
    exists|i: int| 0 <= i < users.len() && users[i].username@ == name
}

/// Whether some user in `users` has the given email.
pub open spec fn has_email(users: Seq<User>, email: Seq<char>) -> bool {
    exists|i: int| 0 <= i < users.len() && users[i].email@ == email
}

/// Whether a user satisfies every constraint a user filter sets; a filter
/// with no fields set matches every user.
pub open spec fn user_matches(f: UserFilter, u: User) -> bool {
    &&& (f.username matches Some(v) ==> u.username@ == v@)
    &&& (f.email matches Some(v) ==> u.email@ == v@)
    &&& (f.password matches Some(v) ==> u.hashed_password@ == v@)
}

/// Whether a user satisfies every constraint an update filter sets; a
/// filter with no fields set matches every user.
pub open spec fn update_user_matches(f: UpdateUserFilter, u: User) -> bool {
    &&& (f.username matches Some(v) ==> u.username@ == v@)
    &&& (f.email matches Some(v) ==> u.email@ == v@)
}

/// Whether `i` is the first position of `users` whose user matches `f`.
pub open spec fn is_first_user_match(users: Seq<User>, f: UserFilter, i: int) -> bool {
    &&& 0 <= i < users.len()
    &&& user_matches(f, users[i])
    &&& forall|k: int| 0 <= k < i ==> !user_matches(f, users[k])
}

/// Whether `i` is the first position of `users` whose user matches the
/// update filter `f`.
pub open spec fn is_first_update_match(users: Seq<User>, f: UpdateUserFilter, i: int) -> bool {
    &&& 0 <= i < users.len()
    &&& update_user_matches(f, users[i])
    &&& forall|k: int| 0 <= k < i ==> !update_user_matches(f, users[k])
}

/// Whether updating the user at position `i` to `target` would collide with
/// another user's username or email.
pub open spec fn update_collides(users: Seq<User>, i: int, target: User) -> bool {
    exists|j: int|
        0 <= j < users.len() && j != i && ((#[trigger] users[j]).username@ == target.username@
            || users[j].email@ == target.email@)
}

/// Whether the follow relation from `follower` to `celeb` is present.
pub open spec fn follow_pair_in(follows: Seq<Follow>, follower: Seq<char>, celeb: Seq<char>) -> bool {
    exists|i: int|
        0 <= i < follows.len() && follows[i].follower@ == follower && follows[i].celeb@ == celeb
}

/// The user a self-update turns a stored user into: each set field replaces
/// the stored value, each unset field leaves it unchanged.
pub open spec fn apply_user_update(u: User, up: UserUpdate) -> User {
    User {
        username: match up.username {
            Some(n) => n,
            None => u.username,
        },
        email: match up.email {
            Some(e) => e,
            None => u.email,
        },
        hashed_password: match up.password {
            Some(p) => p,
            None => u.hashed_password,
        },
        bio: match up.profile.bio {
            Some(b) => b,
            None => u.bio,
        },
        image: match up.profile.image {
            Some(i) => Some(i),
            None => u.image,
        },
    }
}

/// The outcome of a filtered user update.
pub enum UpdateUserOutcome {
    /// Exactly this user was updated.
    Updated(User),
    /// No stored user matched the filter; nothing changed.
    NoMatch,
    /// The new username or email is taken by another user; nothing changed.
    Conflict,
}

/// The store: every relation of the data model, plus the id counters.
#[derive(Debug)]
pub struct Store {
    pub users: Vec<User>,
    pub follows: Vec<Follow>,
    pub articles: Vec<ArticleRow>,
    pub favorites: Vec<Favorite>,
    pub comments: Vec<CommentRow>,
    pub next_article_id: u32,
    pub next_comment_id: i32,
}

impl Store {
    /// The store's invariant: usernames, emails and slugs are unique, ids
    /// are unique and below their counters, and relation pairs are unique.
    pub open spec fn inv(&self) -> bool {
        &&& forall|i: int, j: int|
            #![trigger self.users@[i], self.users@[j]]
            0 <= i < j < self.users@.len() ==> self.users@[i].username@
                != self.users@[j].username@ && self.users@[i].email@ != self.users@[j].email@
        &&& forall|i: int, j: int|
            #![trigger self.articles@[i], self.articles@[j]]
            0 <= i < j < self.articles@.len() ==> self.articles@[i].slug@
                != self.articles@[j].slug@ && self.articles@[i].id != self.articles@[j].id
        &&& forall|i: int|
            0 <= i < self.articles@.len() ==> (#[trigger] self.articles@[i]).id
                < self.next_article_id
        &&& forall|i: int, j: int|
            #![trigger self.comments@[i], self.comments@[j]]
            0 <= i < j < self.comments@.len() ==> self.comments@[i].id < self.comments@[j].id
        &&& forall|i: int|
            0 <= i < self.comments@.len() ==> (#[trigger] self.comments@[i]).id
                < self.next_comment_id
        &&& forall|i: int, j: int|
            #![trigger self.follows@[i], self.follows@[j]]
            0 <= i < j < self.follows@.len() ==> !(self.follows@[i].follower@
                == self.follows@[j].follower@ && self.follows@[i].celeb@
                == self.follows@[j].celeb@)
        &&& forall|i: int, j: int|
            #![trigger self.favorites@[i], self.favorites@[j]]
            0 <= i < j < self.favorites@.len() ==> !(self.favorites@[i].article_id
                == self.favorites@[j].article_id && self.favorites@[i].username@
                == self.favorites@[j].username@)
        &&& self.next_comment_id >= 1
    }

    /// An empty store.
    pub fn new() -> (r: Self)
        ensures
            r.inv(),
            r.users@ == Seq::<User>::empty(),
            r.follows@ == Seq::<Follow>::empty(),
            r.articles@ == Seq::<ArticleRow>::empty(),
            r.favorites@ == Seq::<Favorite>::empty(),
            r.comments@ == Seq::<CommentRow>::empty(),
            r.next_article_id == 1,
            r.next_comment_id == 1,
    {
        Store {
            users: Vec::new(),
            follows: Vec::new(),
            articles: Vec::new(),
            favorites: Vec::new(),
            comments: Vec::new(),
            next_article_id: 1,
            next_comment_id: 1,
        }
    }

    /// Decides whether a user satisfies every constraint the filter sets.
    fn user_matches_exec(f: &UserFilter, u: &User) -> (r: bool)
        ensures
            r == user_matches(*f, *u),
    {
        let username_ok = match &f.username {
            Some(v) => u.username == *v,
            None => true,
        };
        let email_ok = match &f.email {
            Some(v) => u.email == *v,
            None => true,
        };
        let password_ok = match &f.password {
            Some(v) => u.hashed_password == *v,
            None => true,
        };
        username_ok && email_ok && password_ok
    }

    /// The position of the first user the filter matches, if any.
    fn find_user_index(&self, filter: &UserFilter) -> (r: Option<usize>)
        ensures
            r matches Some(i) ==> is_first_user_match(self.users@, *filter, i as int),
            r is None ==> forall|k: int|
                0 <= k < self.users@.len() ==> !user_matches(*filter, self.users@[k]),
    {
        let n = self.users.len();
        let mut k: usize = 0;
        while k < n
            invariant
                0 <= k <= n,
                n == self.users@.len(),
                forall|m: int| 0 <= m < k ==> !user_matches(*filter, self.users@[m]),
            decreases n - k,
        {
            if Self::user_matches_exec(filter, &self.users[k]) {
                return Some(k);
            }
            k += 1;
        }
        None
    }

    /// The first user the filter matches, if any.
    pub fn get_user(&self, filter: &UserFilter) -> (r: Option<User>)
        ensures
            r matches Some(u) ==> exists|i: int|
                is_first_user_match(self.users@, *filter, i) && u == self.users@[i],
            r is None ==> forall|k: int|
                0 <= k < self.users@.len() ==> !user_matches(*filter, self.users@[k]),
            (r is Some) == exists|i: int|
                0 <= i < self.users@.len() && user_matches(*filter, self.users@[i]),
    {
        match self.find_user_index(filter) {
            Some(i) => Some(self.users[i].clone()),
            None => None,
        }
    }

    /// Decides whether the username or email is already taken.
    fn identity_taken(&self, username: &String, email: &String) -> (r: bool)
        ensures
            r == (has_username(self.users@, username@) || has_email(self.users@, email@)),
    {
        let n = self.users.len();
        let mut k: usize = 0;
        while k < n
            invariant
                0 <= k <= n,
                n == self.users@.len(),
                forall|m: int|
                    0 <= m < k ==> (#[trigger] self.users@[m]).username@ != username@
                        && self.users@[m].email@ != email@,
            decreases n - k,
        {
            if self.users[k].username == *username || self.users[k].email == *email {
                return true;
            }
            k += 1;
        }
        false
    }

    /// Decides whether any user other than the one at `excluded` has the
    /// given username or email.
    fn identity_taken_by_other(&self, excluded: usize, username: &String, email: &String) -> (r:
        bool)
        ensures
            r == exists|j: int|
                0 <= j < self.users@.len() && j != excluded && (self.users@[j].username@
                    == username@ || self.users@[j].email@ == email@),
    {
        let n = self.users.len();
        let mut k: usize = 0;
        while k < n
            invariant
                0 <= k <= n,
                n == self.users@.len(),
                forall|m: int|
                    0 <= m < k && m != excluded ==> (#[trigger] self.users@[m]).username@
                        != username@ && self.users@[m].email@ != email@,
            decreases n - k,
        {
            if k != excluded && (self.users[k].username == *username || self.users[k].email
                == *email) {
                return true;
            }
            k += 1;
        }
        false
    }

    /// The position of the first user the update filter matches, if any.
    fn find_update_user_index(&self, filter: &UpdateUserFilter) -> (r: Option<usize>)
        ensures
            r matches Some(i) ==> {
                &&& 0 <= i < self.users@.len()
                &&& update_user_matches(*filter, self.users@[i as int])
                &&& forall|k: int|
                    0 <= k < i ==> !update_user_matches(*filter, self.users@[k])
            },
            r is None ==> forall|k: int|
                0 <= k < self.users@.len() ==> !update_user_matches(*filter, self.users@[k]),
    {
        let n = self.users.len();
        let mut k: usize = 0;
        while k < n
            invariant
                0 <= k <= n,
                n == self.users@.len(),
                forall|m: int| 0 <= m < k ==> !update_user_matches(*filter, self.users@[m]),
            decreases n - k,
        {
            let username_ok = match &filter.username {
                Some(v) => self.users[k].username == *v,
                None => true,
            };
            let email_ok = match &filter.email {
                Some(v) => self.users[k].email == *v,
                None => true,
            };
            if username_ok && email_ok {
                return Some(k);
            }
            k += 1;
        }
        None
    }

    /// Registers a user: succeeds exactly when neither the username nor the
    /// email is taken, and then appends the user; otherwise nothing changes.
    pub fn insert_user(&mut self, user: User) -> (r: Result<(), ()>)
        requires
            old(self).inv(),
        ensures
            final(self).inv(),
            (r is Ok) == (!has_username(old(self).users@, user.username@) && !has_email(
                old(self).users@,
                user.email@,
            )),
            r is Ok ==> final(self).users@ == old(self).users@.push(user),
            r is Err ==> final(self).users@ == old(self).users@,
            final(self).follows@ == old(self).follows@,
            final(self).articles@ == old(self).articles@,
            final(self).favorites@ == old(self).favorites@,
            final(self).comments@ == old(self).comments@,
            final(self).next_article_id == old(self).next_article_id,
            final(self).next_comment_id == old(self).next_comment_id,
    {
        if self.identity_taken(&user.username, &user.email) {
            return Err(());
        }
        self.users.push(user);
        Ok(())
    }

    /// Applies a self-update to the first user the filter matches: replaces
    /// exactly the set fields, unless the new username or email is taken by
    /// another user.
    pub fn update_user(&mut self, update: &UserUpdate, filter: &UpdateUserFilter) -> (r:
        UpdateUserOutcome)
        requires
            old(self).inv(),
        ensures
            final(self).inv(),
            (r is NoMatch) == (forall|k: int|
                0 <= k < old(self).users@.len() ==> !update_user_matches(
                    *filter,
                    old(self).users@[k],
                )),
            r is NoMatch ==> final(self).users@ == old(self).users@,
            r is Conflict ==> final(self).users@ == old(self).users@,
            forall|i: int|
                #![trigger old(self).users@[i]]
                is_first_update_match(old(self).users@, *filter, i) ==> {
                    let target = apply_user_update(old(self).users@[i], *update);
                    &&& update_collides(old(self).users@, i, target) == (r is Conflict)
                    &&& (!update_collides(old(self).users@, i, target) ==> (
                    r matches UpdateUserOutcome::Updated(u) && u == target && final(self).users@
                        == old(self).users@.update(i, target)))
                },
            final(self).follows@ == old(self).follows@,
            final(self).articles@ == old(self).articles@,
            final(self).favorites@ == old(self).favorites@,
            final(self).comments@ == old(self).comments@,
            final(self).next_article_id == old(self).next_article_id,
            final(self).next_comment_id == old(self).next_comment_id,
    {
        let i = match self.find_update_user_index(filter) {
            Some(i) => i,
            None => {
                return UpdateUserOutcome::NoMatch;
            },
        };
        let current = &self.users[i];
        let updated = User {
            username: match &update.username {
                Some(n_) => n_.clone(),
                None => current.username.clone(),
            },
            email: match &update.email {
                Some(e) => e.clone(),
                None => current.email.clone(),
            },
            hashed_password: match &update.password {
                Some(p) => p.clone(),
                None => current.hashed_password.clone(),
            },
            bio: match &update.profile.bio {
                Some(b) => b.clone(),
                None => current.bio.clone(),
            },
            image: match &update.profile.image {
                Some(im) => Some(im.clone()),
                None => clone_opt_string(&current.image),
            },
        };
        assert(updated == apply_user_update(self.users@[i as int], *update));
        if self.identity_taken_by_other(i, &updated.username, &updated.email) {
            return UpdateUserOutcome::Conflict;
        }
        let result = updated.clone();
        self.users.set(i, updated);
        UpdateUserOutcome::Updated(result)
    }

    /// The public projection of a user: the profile, with `following` true
    /// exactly when the viewer follows them.
    pub fn get_profile(&self, viewer: Option<&str>, username: &str) -> (r: Option<Profile>)
        ensures
            (r is Some) == has_username(self.users@, username@),
            r matches Some(p) ==> exists|i: int|
                {
                    &&& 0 <= i < self.users@.len()
                    &&& self.users@[i].username@ == username@
                    &&& p.username == self.users@[i].username
                    &&& p.bio matches Some(b) && b == self.users@[i].bio
                    &&& p.image == self.users@[i].image
                },
            r matches Some(p) ==> p.following == (viewer matches Some(v) && follow_pair_in(
                self.follows@,
                v@,
                username@,
            )),
    {
        let n = self.users.len();
        let mut k: usize = 0;
        while k < n
            invariant
                0 <= k <= n,
                n == self.users@.len(),
                forall|m: int| 0 <= m < k ==> (#[trigger] self.users@[m]).username@ != username@,
            decreases n - k,
        {
            if crate::text::str_eq(self.users[k].username.as_str(), username) {
                let following = match viewer {
                    Some(v) => self.follows_contains(v, username),
                    None => false,
                };
                let u = &self.users[k];
                return Some(
                    Profile {
                        username: u.username.clone(),
                        bio: Some(u.bio.clone()),
                        image: clone_opt_string(&u.image),
                        following,
                    },
                );
            }
            k += 1;
        }
        None
    }

    /// Decides whether the follow relation from `follower` to `celeb` is
    /// present.
    pub fn follows_contains(&self, follower: &str, celeb: &str) -> (r: bool)
        ensures
            r == follow_pair_in(self.follows@, follower@, celeb@),
    {
        match self.find_follow_index(follower, celeb) {
            Some(_) => true,
            None => false,
        }
    }

    /// The position of the follow relation from `follower` to `celeb`, if
    /// it is present.
    fn find_follow_index(&self, follower: &str, celeb: &str) -> (r: Option<usize>)
        ensures
            r matches Some(i) ==> 0 <= i < self.follows@.len()
                && self.follows@[i as int].follower@ == follower@
                && self.follows@[i as int].celeb@ == celeb@,
            r is None ==> !follow_pair_in(self.follows@, follower@, celeb@),
            (r is Some) == follow_pair_in(self.follows@, follower@, celeb@),
    {
        let n = self.follows.len();
        let mut k: usize = 0;
        while k < n
            invariant
                0 <= k <= n,
                n == self.follows@.len(),
                forall|m: int|
                    0 <= m < k ==> !((#[trigger] self.follows@[m]).follower@ == follower@
                        && self.follows@[m].celeb@ == celeb@),
            decreases n - k,
        {
            if crate::text::str_eq(self.follows[k].follower.as_str(), follower)
                && crate::text::str_eq(self.follows[k].celeb.as_str(), celeb) {
                return Some(k);
            }
            k += 1;
        }
        None
    }

    /// Decides whether some user has the given username.
    pub fn has_user(&self, username: &str) -> (r: bool)
        ensures
            r == has_username(self.users@, username@),
    {
        let n = self.users.len();
        let mut k: usize = 0;
        while k < n
            invariant
                0 <= k <= n,
                n == self.users@.len(),
                forall|m: int| 0 <= m < k ==> (#[trigger] self.users@[m]).username@ != username@,
            decreases n - k,
        {
            if crate::text::str_eq(self.users[k].username.as_str(), username) {
                return true;
            }
            k += 1;
        }
        false
    }

    /// Makes `follower` follow `celeb`: inserts the relation if it is
    /// absent, leaves the store unchanged if it is already present, and
    /// returns the celebrity's profile as the follower now sees it. Fails
    /// (with nothing changed) only when no such user exists. Repeating the
    /// operation is a no-op: the relation is present either way.
    pub fn follow(&mut self, follower: &str, celeb: &str) -> (r: Option<Profile>)
        requires
            old(self).inv(),
        ensures
            final(self).inv(),
            (r is Some) == has_username(old(self).users@, celeb@),
            r is None ==> final(self).follows@ == old(self).follows@,
            r is Some && follow_pair_in(old(self).follows@, follower@, celeb@)
                ==> final(self).follows@ == old(self).follows@,
            r is Some && !follow_pair_in(old(self).follows@, follower@, celeb@) ==> {
                &&& final(self).follows@.len() == old(self).follows@.len() + 1
                &&& final(self).follows@.subrange(0, old(self).follows@.len() as int)
                    == old(self).follows@
                &&& final(self).follows@.last().follower@ == follower@
                &&& final(self).follows@.last().celeb@ == celeb@
            },
            follow_pair_in(final(self).follows@, follower@, celeb@) == (r is Some
                || follow_pair_in(old(self).follows@, follower@, celeb@)),
            r matches Some(p) ==> p.username@ == celeb@ && p.following,
            final(self).users@ == old(self).users@,
            final(self).articles@ == old(self).articles@,
            final(self).favorites@ == old(self).favorites@,
            final(self).comments@ == old(self).comments@,
            final(self).next_article_id == old(self).next_article_id,
            final(self).next_comment_id == old(self).next_comment_id,
    {
        if !self.has_user(celeb) {
            return None;
        }
        if !self.follows_contains(follower, celeb) {
            self.follows.push(Follow { follower: follower.to_owned(), celeb: celeb.to_owned() });
            assert(self.follows@.subrange(0, old(self).follows@.len() as int) =~= old(
                self,
            ).follows@);
        }
        let p = self.get_profile(Some(follower), celeb);
        p
    }

    /// Makes `follower` no longer follow `celeb`: removes the relation if
    /// it is present, leaves the store unchanged if it is absent, and
    /// returns the celebrity's profile as the follower now sees it. Fails
    /// (with nothing changed) only when no such user exists. Repeating the
    /// operation is a no-op: the relation is absent either way.
    pub fn unfollow(&mut self, follower: &str, celeb: &str) -> (r: Option<Profile>)
        requires
            old(self).inv(),
        ensures
            final(self).inv(),
            (r is Some) == has_username(old(self).users@, celeb@),
            r is None ==> final(self).follows@ == old(self).follows@,
            r is Some ==> !follow_pair_in(final(self).follows@, follower@, celeb@),
            r is Some && !follow_pair_in(old(self).follows@, follower@, celeb@)
                ==> final(self).follows@ == old(self).follows@,
            r is Some && follow_pair_in(old(self).follows@, follower@, celeb@) ==> exists|i: int|
                {
                    &&& 0 <= i < old(self).follows@.len()
                    &&& old(self).follows@[i].follower@ == follower@
                    &&& old(self).follows@[i].celeb@ == celeb@
                    &&& final(self).follows@ == old(self).follows@.remove(i)
                },
            r matches Some(p) ==> p.username@ == celeb@ && !p.following,
            final(self).users@ == old(self).users@,
            final(self).articles@ == old(self).articles@,
            final(self).favorites@ == old(self).favorites@,
            final(self).comments@ == old(self).comments@,
            final(self).next_article_id == old(self).next_article_id,
            final(self).next_comment_id == old(self).next_comment_id,
    {
        if !self.has_user(celeb) {
            return None;
        }
        if let Some(i) = self.find_follow_index(follower, celeb) {
            self.follows.remove(i);
            proof {
                if follow_pair_in(self.follows@, follower@, celeb@) {
                    let j = choose|j: int|
                        0 <= j < self.follows@.len() && self.follows@[j].follower@ == follower@
                            && self.follows@[j].celeb@ == celeb@;
                    if j < i {
                        assert(old(self).follows@[j].follower@ == follower@);
                        assert(old(self).follows@[j].celeb@ == celeb@);
                    } else {
                        assert(old(self).follows@[j + 1].follower@ == follower@);
                        assert(old(self).follows@[j + 1].celeb@ == celeb@);
                    }
                }
            }
        }
        let p = self.get_profile(Some(follower), celeb);
        p
    }
}

} // verus!
