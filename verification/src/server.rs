//! The resource-access service: authenticate, build filters, invoke the
//! store, and on mutation ambiguity run the diagnosis protocol, returning a
//! typed result or a typed error.
//!
//! Caller identity is threaded explicitly: every operation that needs time
//! or identity takes the current instant and the caller's token as
//! arguments, never ambient state.

use vstd::prelude::*;
use crate::auth::{Auth, TOKEN_VALIDITY_SECONDS, claims_of};
use crate::config::Config;
use crate::email::email_ok;
use crate::errors::BackendError;
use crate::filters::{ArticleFilterByValues, LimitOffsetFilter, OrderByFilter, UpdateUserFilter};
use crate::models::{LoggedInUser, Profile, User, UserUpdate, ProfileUpdate};
use crate::password::{hash_password, scrypt_check, verify_password};
use crate::requests::{AuthenticatedRequest, CreateArticleRequest, CreateArticleRequestAuthenticated,
    DeleteArticleRequest, DeleteArticleRequestAuthenticated, LoginRequest, UpdateArticleRequest,
    UpdateArticleRequestAuthenticated, UserReg, UserUpdateRequest};
use crate::articles::{UpdateArticleOutcome, article_matches, article_updated, has_slug,
    scoped_matches, fav_pair_in};
use crate::filters::UpdateArticleFilter;
use crate::models::{ArticleResponse, MultipleArticleResponse};
use crate::queries::{represents_matching_article, response_matches, some_response_matches};
use crate::slug::slug_of;
use crate::store::same_article_row;
use crate::comments::{comment_matches, comment_response_matches, represents_article_comment,
    some_comment_response_matches, article_comment_selection, comment_paged_projection,
    comment_selection,
    represents_matching_comment};
use crate::filters::CommentFilterByValues;
use crate::filters::OrderColumn;
use crate::queries::article_resp_key;
use crate::queries::{article_selection, feed_selection, paged_projection};
use crate::models::{CommentResponse, MultipleCommentResponse, TagList};
use crate::queries::{feed_matches, represents_feed_article};
use crate::requests::{AddCommentRequest, AddCommentRequestAuthenticated, DeleteCommentRequest,
    DeleteCommentRequestAuthenticated};
use crate::store::{Store, UpdateUserOutcome, apply_user_update, follow_pair_in, has_email,
    has_username, update_user_matches};
use crate::filters::UserFilter;

verus! {

/// The resource-access service: the store, the process-wide signing secret,
/// and the configuration it was built from.
#[derive(Debug)]
pub struct Server {
    pub config: Config,
    pub secret: Vec<u8>,
    pub store: Store,
}

impl Server {
    /// A server over an empty store, with the signing secret taken from the
    /// configuration.
    pub fn with_config(config: Config) -> (r: Self)
        ensures
            r.store.inv(),
            r.store.users@ == Seq::<User>::empty(),
            r.store.follows@ == Seq::<crate::store::Follow>::empty(),
            r.store.articles@ == Seq::<crate::store::ArticleRow>::empty(),
            r.store.favorites@ == Seq::<crate::store::Favorite>::empty(),
            r.store.comments@ == Seq::<crate::store::CommentRow>::empty(),
            r.store.next_article_id == 1,
            r.store.next_comment_id == 1,
            r.config == config,
    {
        let secret = config.secret.as_str().as_bytes_vec();
        Self { config, secret, store: Store::new() }
    }

    /// The process-wide signing secret.
    pub fn secret(&self) -> (r: &Vec<u8>)
        ensures
            r@ == self.secret@,
    {
        &self.secret
    }

    /// Registers a user: validates the email shape, stores the user with a
    /// salted password digest, and logs them in by issuing a token.
    ///
    /// Succeeds exactly when the email is well-shaped, neither username nor
    /// email is taken, and the token expiry computation does not overflow; a
    /// taken username or email is a conflict, never an overwrite.
    pub fn register_user(&mut self, user_reg: UserReg, now: i64) -> (r: Result<
        LoggedInUser,
        BackendError,
    >)
        requires
            old(self).store.inv(),
        ensures
            final(self).store.inv(),
            final(self).secret == old(self).secret,
            final(self).config == old(self).config,
            (!email_ok(user_reg.email@)) == (r matches Err(e) && e is ValidationError),
            (email_ok(user_reg.email@) && (has_username(old(self).store.users@, user_reg.username@)
                || has_email(old(self).store.users@, user_reg.email@))) == (r matches Err(e)
                && e is UsernameOrEmailExists),
            (r is Ok) == (email_ok(user_reg.email@) && !has_username(
                old(self).store.users@,
                user_reg.username@,
            ) && !has_email(old(self).store.users@, user_reg.email@) && now
                + TOKEN_VALIDITY_SECONDS <= i64::MAX),
            r matches Ok(u) ==> {
                &&& u.username == user_reg.username
                &&& u.email == user_reg.email
                &&& final(self).store.users@.len() == old(self).store.users@.len() + 1
                &&& final(self).store.users@.subrange(0, old(self).store.users@.len() as int)
                    == old(self).store.users@
                &&& final(self).store.users@.last().username == user_reg.username
                &&& final(self).store.users@.last().email == user_reg.email
                &&& final(self).store.users@.last().bio@ == Seq::<char>::empty()
                &&& final(self).store.users@.last().image is None
                &&& u.bio@ == Seq::<char>::empty()
                &&& u.image is None
                &&& scrypt_check(
                    user_reg.password@,
                    final(self).store.users@.last().hashed_password@,
                ) == Some(true)
                &&& claims_of(u.token@, old(self).secret@) == Some(
                    (user_reg.username@, user_reg.email@, now + TOKEN_VALIDITY_SECONDS),
                )
                &&& forall|m: int|
                    m < now + TOKEN_VALIDITY_SECONDS ==> Auth::spec_verify(
                        u.token@,
                        old(self).secret@,
                        m,
                    ) == Some((user_reg.username@, user_reg.email@, now + TOKEN_VALIDITY_SECONDS))
            },
            r matches Err(e) ==> (e is ValidationError || e is UsernameOrEmailExists
                || e is TokenCreationFailure),
            (r matches Err(e) && !(e is TokenCreationFailure)) ==> final(self).store.users@ == old(self).store.users@,
            final(self).store.follows@ == old(self).store.follows@,
            final(self).store.articles@ == old(self).store.articles@,
            final(self).store.favorites@ == old(self).store.favorites@,
            final(self).store.comments@ == old(self).store.comments@,
            final(self).store.next_article_id == old(self).store.next_article_id,
            final(self).store.next_comment_id == old(self).store.next_comment_id,
    {
        match user_reg.validate() {
            Ok(()) => (),
            Err(e) => {
                return Err(e);
            },
        }
        let digest = match hash_password(user_reg.password.as_str()) {
            Ok(d) => d,
            Err(_) => {
                return Err(BackendError::UnexpectedError("could not register user".to_owned()));
            },
        };
        let user = User {
            email: user_reg.email,
            username: user_reg.username,
            bio: "".to_owned(),
            image: None,
            hashed_password: digest,
        };
        let stored = user.clone();
        proof {
            reveal_strlit("");
            assert(stored.bio@ =~= Seq::<char>::empty());
        }
        match self.store.insert_user(user) {
            Ok(()) => (),
            Err(()) => {
                return Err(BackendError::UsernameOrEmailExists);
            },
        }
        let token = match Auth::create_token(&stored, self.secret.as_slice(), now) {
            Ok(t) => t,
            Err(e) => {
                return Err(e);
            },
        };
        Ok(LoggedInUser::from_user_and_token(stored, token))
    }

    /// Logs a user in by username or email plus password, and issues a
    /// token. An unknown identity and a wrong password fail with one and
    /// the same incorrect-credentials error, to avoid leaking whether an
    /// account exists.
    pub fn login_user(&self, login_req: LoginRequest, now: i64) -> (r: Result<
        LoggedInUser,
        BackendError,
    >)
        requires
            self.store.inv(),
        ensures
            (!has_email(self.store.users@, login_req.email@) && !has_username(
                self.store.users@,
                login_req.email@,
            )) ==> (r matches Err(e) && e is IncorrectUsernameOrPassword),
            has_email(self.store.users@, login_req.email@) ==> forall|i: int|
                0 <= i < self.store.users@.len() && (#[trigger] self.store.users@[i]).email@
                    == login_req.email@ ==> Self::login_outcome_for(
                    r,
                    login_req,
                    self.store.users@[i],
                    self.secret@,
                    now,
                ),
            (!has_email(self.store.users@, login_req.email@) && has_username(
                self.store.users@,
                login_req.email@,
            )) ==> forall|i: int|
                0 <= i < self.store.users@.len() && (#[trigger] self.store.users@[i]).username@
                    == login_req.email@ ==> Self::login_outcome_for(
                    r,
                    login_req,
                    self.store.users@[i],
                    self.secret@,
                    now,
                ),
            r matches Err(e) ==> (e is IncorrectUsernameOrPassword || e is TokenCreationFailure
                || e is UnexpectedError),
    {
        let by_email = UserFilter::default().email(login_req.email.clone());
        let user = match self.store.get_user(&by_email) {
            Some(u) => u,
            None => {
                let by_username = UserFilter::default().username(login_req.email.clone());
                match self.store.get_user(&by_username) {
                    Some(u) => u,
                    None => {
                        return Err(
                            BackendError::IncorrectUsernameOrPassword(login_req.email),
                        );
                    },
                }
            },
        };
        match verify_password(login_req.password.as_str(), user.hashed_password.as_str()) {
            Ok(true) => (),
            Ok(false) => {
                return Err(BackendError::IncorrectUsernameOrPassword(login_req.email));
            },
            Err(_) => {
                return Err(
                    BackendError::UnexpectedError(
                        "could not parse hashed user password".to_owned(),
                    ),
                );
            },
        }
        let token = match Auth::create_token(&user, self.secret.as_slice(), now) {
            Ok(t) => t,
            Err(e) => {
                return Err(e);
            },
        };
        Ok(LoggedInUser::from_user_and_token(user, token))
    }

    /// What logging in as the stored user `u` must yield: success with a
    /// fresh token exactly when the password verifies against the stored
    /// digest; the incorrect-credentials error when it does not; the
    /// unexpected error when the stored digest does not parse.
    pub open spec fn login_outcome_for(
        r: Result<LoggedInUser, BackendError>,
        login_req: LoginRequest,
        u: User,
        secret: Seq<u8>,
        now: i64,
    ) -> bool {
        match scrypt_check(login_req.password@, u.hashed_password@) {
            Some(true) => (match r {
                Ok(l) => {
                    &&& now + TOKEN_VALIDITY_SECONDS <= i64::MAX
                    &&& l.username == u.username
                    &&& l.email == u.email
                    &&& l.bio == u.bio
                    &&& l.image == u.image
                    &&& claims_of(l.token@, secret) == Some(
                        (u.username@, u.email@, now + TOKEN_VALIDITY_SECONDS),
                    )
                },
                Err(e) => e is TokenCreationFailure && now + TOKEN_VALIDITY_SECONDS > i64::MAX,
            }),
            Some(false) => r matches Err(e) && e is IncorrectUsernameOrPassword,
            None => r matches Err(e) && e is UnexpectedError,
        }
    }

    /// The user a token asserts: verifies the token and returns the stored
    /// user it names, carrying the same token.
    pub fn user_by_token(&self, token: &str, now: i64) -> (r: Result<LoggedInUser, BackendError>)
        requires
            self.store.inv(),
        ensures
            Auth::spec_verify(token@, self.secret@, now as int) is None ==> (r matches Err(e)
                && e is AuthenticationFailure),
            Auth::spec_verify(token@, self.secret@, now as int) matches Some(c) ==> {
                &&& !has_username(self.store.users@, c.0) ==> (r matches Err(e)
                    && e is NoUserFound)
                &&& has_username(self.store.users@, c.0) ==> (r matches Ok(u) && u.username@
                    == c.0 && u.token@ == token@ && forall|i: int|
                    0 <= i < self.store.users@.len() && (#[trigger] self.store.users@[i]).username@
                        == c.0 ==> u.email == self.store.users@[i].email && u.bio
                        == self.store.users@[i].bio && u.image == self.store.users@[i].image)
            },
    {
        let claims = match Auth::authenticate(token, self.secret.as_slice(), now) {
            Ok(c) => c,
            Err(e) => {
                return Err(e);
            },
        };
        let filter = UserFilter::default().username(claims.username);
        match self.store.get_user(&filter) {
            Some(u) => Ok(LoggedInUser::from_user_and_token(u, token.to_owned())),
            None => Err(BackendError::NoUserFound("token subject".to_owned())),
        }
    }

    /// The public profile of a user, with the `following` flag derived for
    /// the viewer when one is known. Reads never gate on ownership; a
    /// missing viewer is not an error.
    pub fn profile(&self, viewer: Option<&str>, username: &str) -> (r: Result<
        Profile,
        BackendError,
    >)
        ensures
            (r is Ok) == has_username(self.store.users@, username@),
            r matches Err(e) ==> e is NoUserFound,
            r matches Ok(p) ==> p.username@ == username@ && p.following == (viewer matches Some(v)
                && follow_pair_in(self.store.follows@, v@, username@)),
    {
        match self.store.get_profile(viewer, username) {
            Some(p) => {
                proof {
                    let i = choose|i: int|
                        0 <= i < self.store.users@.len() && self.store.users@[i].username@
                            == username@ && p.username == self.store.users@[i].username;
                }
                Ok(p)
            },
            None => Err(BackendError::NoUserFound(username.to_owned())),
        }
    }

    /// Applies a self-update to the verified caller: replaces exactly the
    /// set fields, hashing a new password before it is stored. A new
    /// username or email that another user holds is a conflict.
    pub fn update_user(&mut self, token: &str, req: UserUpdateRequest, now: i64) -> (r: Result<
        LoggedInUser,
        BackendError,
    >)
        requires
            old(self).store.inv(),
        ensures
            final(self).store.inv(),
            final(self).secret == old(self).secret,
            final(self).config == old(self).config,
            Auth::spec_verify(token@, old(self).secret@, now as int) is None ==> (r matches Err(e)
                && e is AuthenticationFailure && final(self).store.users@ == old(self).store.users@),
            r matches Err(e) ==> (e is AuthenticationFailure || e is NoUserFound
                || e is UsernameOrEmailExists) && final(self).store.users@ == old(
                self,
            ).store.users@,
            Auth::spec_verify(token@, old(self).secret@, now as int) matches Some(c) ==> {
                &&& (forall|k: int|
                    0 <= k < old(self).store.users@.len() ==> (#[trigger] old(
                        self,
                    ).store.users@[k]).username@ != c.0) ==> (r matches Err(e)
                    && e is NoUserFound)
                &&& forall|i: int|
                    #![trigger old(self).store.users@[i]]
                    (0 <= i < old(self).store.users@.len() && old(self).store.users@[i].username@
                        == c.0) ==> {
                        let new_name = match req.username {
                            Some(n) => n@,
                            None => old(self).store.users@[i].username@,
                        };
                        let new_email = match req.email {
                            Some(e2) => e2@,
                            None => old(self).store.users@[i].email@,
                        };
                        let collides = exists|j: int|
                            0 <= j < old(self).store.users@.len() && j != i && ((#[trigger] old(
                                self,
                            ).store.users@[j]).username@ == new_name || old(
                                self,
                            ).store.users@[j].email@ == new_email);
                        &&& collides == (r matches Err(e) && e is UsernameOrEmailExists)
                        &&& (!collides ==> r is Ok)
                    }
            },
            Auth::spec_verify(token@, old(self).secret@, now as int) matches Some(c) ==> (
            r matches Ok(l) ==> exists|i: int, up: UserUpdate|
                #![trigger apply_user_update(old(self).store.users@[i], up)]
                {
                    &&& 0 <= i < old(self).store.users@.len()
                    &&& old(self).store.users@[i].username@ == c.0
                    &&& up.username == req.username
                    &&& up.email == req.email
                    &&& (req.password matches Some(pw) ==> up.password matches Some(d)
                        && scrypt_check(pw@, d@) == Some(true))
                    &&& (req.password is None ==> up.password is None)
                    &&& up.profile.bio == req.bio
                    &&& up.profile.image == req.image
                    &&& final(self).store.users@ == old(self).store.users@.update(
                        i,
                        apply_user_update(old(self).store.users@[i], up),
                    )
                    &&& l.username == apply_user_update(old(self).store.users@[i], up).username
                    &&& l.email == apply_user_update(old(self).store.users@[i], up).email
                    &&& l.token@ == token@
                }),
            final(self).store.follows@ == old(self).store.follows@,
            final(self).store.articles@ == old(self).store.articles@,
            final(self).store.favorites@ == old(self).store.favorites@,
            final(self).store.comments@ == old(self).store.comments@,
            final(self).store.next_article_id == old(self).store.next_article_id,
            final(self).store.next_comment_id == old(self).store.next_comment_id,
    {
        let claims = match Auth::authenticate(token, self.secret.as_slice(), now) {
            Ok(c) => c,
            Err(e) => {
                return Err(e);
            },
        };
        let password = match &req.password {
            Some(pw) => {
                match hash_password(pw.as_str()) {
                    Ok(d) => Some(d),
                    Err(_) => {
                        return Err(
                            BackendError::UnexpectedError("could not hash password".to_owned()),
                        );
                    },
                }
            },
            None => None,
        };
        let update = UserUpdate {
            username: req.username,
            email: req.email,
            password,
            profile: ProfileUpdate { bio: req.bio, image: req.image },
        };
        let filter = UpdateUserFilter::default().username(claims.username);
        let ghost gupdate = update;
        match self.store.update_user(&update, &filter) {
            UpdateUserOutcome::Updated(u) => {
                proof {
                    let i = choose|i: int|
                        {
                            &&& 0 <= i < old(self).store.users@.len()
                            &&& update_user_matches(filter, old(self).store.users@[i])
                            &&& forall|k: int|
                                0 <= k < i ==> !update_user_matches(
                                    filter,
                                    old(self).store.users@[k],
                                )
                            &&& u == apply_user_update(old(self).store.users@[i], gupdate)
                            &&& final(self).store.users@ == old(self).store.users@.update(i, u)
                        };
                }
                Ok(LoggedInUser::from_user_and_token(u, token.to_owned()))
            },
            UpdateUserOutcome::NoMatch => Err(
                BackendError::NoUserFound("token subject".to_owned()),
            ),
            UpdateUserOutcome::Conflict => Err(BackendError::UsernameOrEmailExists),
        }
    }

    /// Makes the verified caller follow `celeb`. Idempotent: repeating the
    /// operation is a no-op reporting the current state, never a conflict.
    pub fn follow(&mut self, token: &str, celeb: &str, now: i64) -> (r: Result<
        Profile,
        BackendError,
    >)
        requires
            old(self).store.inv(),
        ensures
            final(self).store.inv(),
            final(self).secret == old(self).secret,
            final(self).config == old(self).config,
            Auth::spec_verify(token@, old(self).secret@, now as int) is None ==> (r matches Err(e)
                && e is AuthenticationFailure && final(self).store.follows@ == old(self).store.follows@),
            Auth::spec_verify(token@, old(self).secret@, now as int) matches Some(c) ==> {
                &&& (r is Ok) == has_username(old(self).store.users@, celeb@)
                &&& (r matches Err(e) ==> (e is AuthenticationFailure || (e is NoUserFound
                    && final(self).store.follows@ == old(self).store.follows@)))
                &&& r matches Ok(p) ==> {
                    &&& p.username@ == celeb@
                    &&& p.following
                    &&& follow_pair_in(final(self).store.follows@, c.0, celeb@)
                    &&& follow_pair_in(old(self).store.follows@, c.0, celeb@) ==> final(self).store.follows@ == old(self).store.follows@
                    &&& !follow_pair_in(old(self).store.follows@, c.0, celeb@) ==> {
                        &&& final(self).store.follows@.len() == old(self).store.follows@.len() + 1
                        &&& final(self).store.follows@.subrange(
                            0,
                            old(self).store.follows@.len() as int,
                        ) == old(self).store.follows@
                        &&& final(self).store.follows@.last().follower@ == c.0
                        &&& final(self).store.follows@.last().celeb@ == celeb@
                    }
                }
            },
            final(self).store.users@ == old(self).store.users@,
            final(self).store.articles@ == old(self).store.articles@,
            final(self).store.favorites@ == old(self).store.favorites@,
            final(self).store.comments@ == old(self).store.comments@,
            final(self).store.next_article_id == old(self).store.next_article_id,
            final(self).store.next_comment_id == old(self).store.next_comment_id,
    {
        let claims = match Auth::authenticate(token, self.secret.as_slice(), now) {
            Ok(c) => c,
            Err(e) => {
                return Err(e);
            },
        };
        match self.store.follow(claims.username.as_str(), celeb) {
            Some(p) => Ok(p),
            None => Err(BackendError::NoUserFound(celeb.to_owned())),
        }
    }

    /// Makes the verified caller no longer follow `celeb`. Idempotent:
    /// repeating the operation is a no-op reporting the current state.
    pub fn unfollow(&mut self, token: &str, celeb: &str, now: i64) -> (r: Result<
        Profile,
        BackendError,
    >)
        requires
            old(self).store.inv(),
        ensures
            final(self).store.inv(),
            final(self).secret == old(self).secret,
            final(self).config == old(self).config,
            Auth::spec_verify(token@, old(self).secret@, now as int) is None ==> (r matches Err(e)
                && e is AuthenticationFailure && final(self).store.follows@ == old(self).store.follows@),
            Auth::spec_verify(token@, old(self).secret@, now as int) matches Some(c) ==> {
                &&& (r is Ok) == has_username(old(self).store.users@, celeb@)
                &&& (r matches Err(e) ==> (e is AuthenticationFailure || (e is NoUserFound
                    && final(self).store.follows@ == old(self).store.follows@)))
                &&& r matches Ok(p) ==> {
                    &&& p.username@ == celeb@
                    &&& !p.following
                    &&& !follow_pair_in(final(self).store.follows@, c.0, celeb@)
                    &&& !follow_pair_in(old(self).store.follows@, c.0, celeb@) ==> final(self).store.follows@ == old(self).store.follows@
                }
            },
            final(self).store.users@ == old(self).store.users@,
            final(self).store.articles@ == old(self).store.articles@,
            final(self).store.favorites@ == old(self).store.favorites@,
            final(self).store.comments@ == old(self).store.comments@,
            final(self).store.next_article_id == old(self).store.next_article_id,
            final(self).store.next_comment_id == old(self).store.next_comment_id,
    {
        let claims = match Auth::authenticate(token, self.secret.as_slice(), now) {
            Ok(c) => c,
            Err(e) => {
                return Err(e);
            },
        };
        match self.store.unfollow(claims.username.as_str(), celeb) {
            Some(p) => Ok(p),
            None => Err(BackendError::NoUserFound(celeb.to_owned())),
        }
    }

    /// Creates an article for the verified caller: the slug is derived
    /// deterministically from the title, and the caller becomes the owning
    /// author.
    pub fn create_article(
        &mut self,
        token: &str,
        article_request: CreateArticleRequest,
        now: i64,
    ) -> (r: Result<ArticleResponse, BackendError>)
        requires
            old(self).store.inv(),
        ensures
            final(self).store.inv(),
            final(self).secret == old(self).secret,
            final(self).config == old(self).config,
            final(self).store.users@ == old(self).store.users@,
            final(self).store.follows@ == old(self).store.follows@,
            final(self).store.favorites@ == old(self).store.favorites@,
            final(self).store.comments@ == old(self).store.comments@,
            final(self).store.next_comment_id == old(self).store.next_comment_id,
            r is Ok ==> final(self).store.next_article_id == old(self).store.next_article_id + 1,
            r matches Err(e2) ==> final(self).store.next_article_id == old(
                self,
            ).store.next_article_id,
            Auth::spec_verify(token@, old(self).secret@, now as int) is None ==> ((r matches Err(e)
                && e is AuthenticationFailure) && final(self).store.articles@ == old(self).store.articles@),
            Auth::spec_verify(token@, old(self).secret@, now as int) matches Some(c) ==> {
                &&& (has_slug(old(self).store.articles@, slug_of(article_request.title@)) || old(self).store.next_article_id == u32::MAX) ==> ((r matches Err(e)
                    && e is UnexpectedError) && final(self).store.articles@ == old(self).store.articles@)
                &&& (!has_slug(old(self).store.articles@, slug_of(article_request.title@)) && old(self).store.next_article_id < u32::MAX) ==> (r matches Ok(resp) && {
                    &&& final(self).store.articles@.len() == old(self).store.articles@.len() + 1
                    &&& final(self).store.articles@.subrange(
                        0,
                        old(self).store.articles@.len() as int,
                    ) == old(self).store.articles@
                    &&& final(self).store.articles@.last().slug@ == slug_of(
                        article_request.title@,
                    )
                    &&& final(self).store.articles@.last().title == article_request.title
                    &&& final(self).store.articles@.last().description
                        == article_request.description
                    &&& final(self).store.articles@.last().tag_list@ == (match article_request
                        .tag_list {
                        Some(tags) => tags@,
                        None => Seq::<String>::empty(),
                    })
                    &&& final(self).store.articles@.last().body == article_request.body
                    &&& final(self).store.articles@.last().author@ == c.0
                    &&& final(self).store.articles@.last().created_at == now
                    &&& final(self).store.articles@.last().updated_at == now
                    &&& response_matches(
                        resp,
                        final(self).store.articles@.last(),
                        final(self).store.favorites@,
                        final(self).store.users@,
                    )
                })
            },
    {
        let claims = match Auth::authenticate(token, self.secret.as_slice(), now) {
            Ok(c) => c,
            Err(e) => {
                return Err(e);
            },
        };
        let auth_req = CreateArticleRequestAuthenticated::from_request_with_claims(
            article_request,
            claims,
        );
        let slug = crate::slug::slugify_title(auth_req.article_request.title.as_str());
        let tag_list = match auth_req.article_request.tag_list {
            Some(tags) => tags,
            None => Vec::new(),
        };
        match self.store.create_article(
            slug,
            auth_req.article_request.title,
            auth_req.article_request.description,
            auth_req.article_request.body,
            tag_list,
            auth_req.author,
            now,
        ) {
            Ok(_) => {
                let i = self.store.articles.len() - 1;
                Ok(self.store.make_article_response(i, None))
            },
            Err(()) => Err(
                BackendError::UnexpectedError("article could not be created".to_owned()),
            ),
        }
    }

    /// The article with the given slug.
    pub fn get_article_by_slug(&self, slug: &str) -> (r: Result<ArticleResponse, BackendError>)
        ensures
            (r is Ok) == has_slug(self.store.articles@, slug@),
            r matches Err(e) ==> e is NoArticleFound,
            r matches Ok(resp) ==> exists|i: int|
                0 <= i < self.store.articles@.len() && (#[trigger] self.store.articles@[i]).slug@
                    == slug@ && response_matches(
                    resp,
                    self.store.articles@[i],
                    self.store.favorites@,
                    self.store.users@,
                ),
    {
        match self.store.get_article_response(slug, None) {
            Some(resp) => Ok(resp),
            None => Err(BackendError::NoArticleFound),
        }
    }

    /// Lists articles: any subset of constraints, any ordering, any
    /// pagination window. Reads never gate on ownership.
    pub fn get_articles(
        &self,
        article_by: ArticleFilterByValues,
        order_by: OrderByFilter,
        limit_offset: LimitOffsetFilter,
    ) -> (r: Result<MultipleArticleResponse, BackendError>)
        requires
            self.store.inv(),
        ensures
            r is Ok,
            r matches Ok(m) ==> {
                &&& m.articles_count == m.articles@.len()
                &&& exists|sel: Seq<usize>|
                    article_selection(
                        sel,
                        article_by,
                        order_by,
                        self.store.articles@,
                        self.store.favorites@,
                    ) && #[trigger] paged_projection(
                        m.articles@,
                        sel,
                        limit_offset,
                        self.store.articles@,
                        self.store.favorites@,
                        self.store.users@,
                    )
                &&& forall|k1: int, k2: int|
                    #![trigger m.articles@[k1], m.articles@[k2]]
                    0 <= k1 < k2 < m.articles@.len() ==> m.articles@[k1].article.slug@
                        != m.articles@[k2].article.slug@
                &&& (match order_by {
                    OrderByFilter::Descending(c) => c == OrderColumn::Id || forall|
                        k1: int,
                        k2: int,
                    |
                        #![trigger m.articles@[k1], m.articles@[k2]]
                        0 <= k1 < k2 < m.articles@.len() ==> article_resp_key(
                            c,
                            m.articles@[k1].article,
                        ) >= article_resp_key(c, m.articles@[k2].article),
                    _ => true,
                })
                &&& (match order_by {
                    OrderByFilter::Ascending(c) => c == OrderColumn::Id || forall|
                        k1: int,
                        k2: int,
                    |
                        #![trigger m.articles@[k1], m.articles@[k2]]
                        0 <= k1 < k2 < m.articles@.len() ==> article_resp_key(
                            c,
                            m.articles@[k1].article,
                        ) <= article_resp_key(c, m.articles@[k2].article),
                    _ => true,
                })
                &&& forall|k: int|
                    #![trigger m.articles@[k]]
                    0 <= k < m.articles@.len() ==> represents_matching_article(
                        m.articles@[k],
                        article_by,
                        self.store.articles@,
                        self.store.favorites@,
                        self.store.users@,
                    )
                &&& (limit_offset.limit is None && limit_offset.offset is None) ==> forall|i: int|
                    #![trigger self.store.articles@[i]]
                    0 <= i < self.store.articles@.len() && article_matches(
                        article_by,
                        self.store.articles@[i],
                        self.store.favorites@,
                    ) ==> some_response_matches(
                        m.articles@,
                        self.store.articles@[i],
                        self.store.favorites@,
                        self.store.users@,
                    )
                &&& (limit_offset.limit matches Some(l) ==> m.articles@.len() <= (if l < 0 {
                    0int
                } else {
                    l as int
                }))
            },
    {
        let articles = self.store.query_articles(&article_by, &order_by, &limit_offset, None);
        let ghost ga = articles@;
        let m = MultipleArticleResponse::from_articles(articles);
        proof {
            assert(m.articles@ == ga);
            let sel = choose|sel: Seq<usize>|
                article_selection(
                    sel,
                    article_by,
                    order_by,
                    self.store.articles@,
                    self.store.favorites@,
                ) && #[trigger] paged_projection(
                    ga,
                    sel,
                    limit_offset,
                    self.store.articles@,
                    self.store.favorites@,
                    self.store.users@,
                );
            assert(paged_projection(
                m.articles@,
                sel,
                limit_offset,
                self.store.articles@,
                self.store.favorites@,
                self.store.users@,
            ));
        }
        Ok(m)
    }

    /// The deferred-authorization update protocol: one scoped attempt
    /// restricted to selector-and-owner, then, on zero affected rows, a
    /// diagnosis re-fetch that distinguishes a missing article from one the
    /// caller does not own. Exactly four outcomes are reachable: success,
    /// authentication failure, forbidden, and not-found; the unexpected
    /// error guards the invariant-violation path and a slug regenerated
    /// into a collision.
    #[verifier::rlimit(100)]
    #[verifier::spinoff_prover]
    pub fn update_article(
        &mut self,
        token: &str,
        update_article_req: UpdateArticleRequest,
        now: i64,
    ) -> (r: Result<ArticleResponse, BackendError>)
        requires
            old(self).store.inv(),
        ensures
            final(self).store.inv(),
            final(self).secret == old(self).secret,
            final(self).config == old(self).config,
            final(self).store.users@ == old(self).store.users@,
            final(self).store.follows@ == old(self).store.follows@,
            final(self).store.favorites@ == old(self).store.favorites@,
            final(self).store.comments@ == old(self).store.comments@,
            final(self).store.next_article_id == old(self).store.next_article_id,
            final(self).store.next_comment_id == old(self).store.next_comment_id,
            r is Ok || (r matches Err(e) && (e is AuthenticationFailure || e is Forbidden
                || e is NoArticleFound || e is UnexpectedError)),
            r matches Err(e) ==> final(self).store.articles@ == old(self).store.articles@,
            Auth::spec_verify(token@, old(self).secret@, now as int) is None ==> (r matches Err(e)
                && e is AuthenticationFailure),
            Auth::spec_verify(token@, old(self).secret@, now as int) matches Some(c) ==> {
                &&& !has_slug(old(self).store.articles@, update_article_req.slug@) ==> (
                r matches Err(e) && e is NoArticleFound)
                &&& forall|i: int|
                    #![trigger old(self).store.articles@[i]]
                    (0 <= i < old(self).store.articles@.len() && old(self).store.articles@[i].slug@
                        == update_article_req.slug@) ==> {
                        let row = old(self).store.articles@[i];
                        &&& (row.author@ != c.0 ==> (r matches Err(e) && e is Forbidden))
                        &&& (row.author@ == c.0 ==> {
                            let collision = update_article_req.article.title matches Some(t)
                                && slug_of(t@) != row.slug@ && has_slug(
                                old(self).store.articles@,
                                slug_of(t@),
                            );
                            &&& (collision ==> (r matches Err(e) && e is UnexpectedError))
                            &&& (!collision ==> (r matches Ok(resp) && {
                                &&& article_updated(
                                    row,
                                    update_article_req.article,
                                    now,
                                    final(self).store.articles@[i],
                                )
                                &&& final(self).store.articles@ == old(self).store.articles@.update(i, final(self).store.articles@[i])
                                &&& response_matches(
                                    resp,
                                    final(self).store.articles@[i],
                                    final(self).store.favorites@,
                                    final(self).store.users@,
                                )
                            }))
                        })
                    }
            },
    {
        let claims = match Auth::authenticate(token, self.secret.as_slice(), now) {
            Ok(c) => c,
            Err(e) => {
                return Err(e);
            },
        };
        let auth_req = UpdateArticleRequestAuthenticated::from_request_with_claims(
            update_article_req,
            claims,
        );
        let update_by = UpdateArticleFilter {
            slug: auth_req.article_request.slug.clone(),
            author: auth_req.author.clone(),
        };
        match self.store.update_article(&auth_req.article_request.article, &update_by, now) {
            UpdateArticleOutcome::Updated(row) => {
                // success path: re-fetch and return the resulting resource
                match self.store.find_article_by_slug(row.slug.as_str()) {
                    Some(i) => Ok(self.store.make_article_response(i, None)),
                    None => {
                        proof {
                            let i = choose|i: int|
                                {
                                    &&& 0 <= i < old(self).store.articles@.len()
                                    &&& scoped_matches(update_by, old(self).store.articles@[i])
                                    &&& same_article_row(row, final(self).store.articles@[i])
                                };
                            assert(self.store.articles@[i].slug@ == row.slug@);
                        }
                        Err(
                            BackendError::UnexpectedError(
                                "updated article not found".to_owned(),
                            ),
                        )
                    },
                }
            },
            UpdateArticleOutcome::SlugTaken => Err(
                BackendError::UnexpectedError("article slug already exists".to_owned()),
            ),
            UpdateArticleOutcome::NoMatch => {
                // ambiguous path: re-fetch the resource by the selector alone
                match self.store.get_article_row(auth_req.article_request.slug.as_str()) {
                    Some(row) => {
                        // found, so the owner must differ from the caller
                        match Auth::authorize(
                            token,
                            self.secret.as_slice(),
                            row.author.as_str(),
                            now,
                        ) {
                            Ok(()) => Err(
                                BackendError::UnexpectedError(
                                    " could not update article despite user was authorized to do so.".to_owned(),
                                ),
                            ),
                            Err(e) => Err(e),
                        }
                    },
                    None => Err(BackendError::NoArticleFound),
                }
            },
        }
    }

    /// The deferred-authorization delete protocol: one scoped attempt, then
    /// on zero affected rows the same diagnosis as for updates. Deleting an
    /// article cascades to its favorite relations and comments.
    #[verifier::rlimit(100)]
    #[verifier::spinoff_prover]
    pub fn delete_article(&mut self, token: &str, slug: &str, now: i64) -> (r: Result<
        (),
        BackendError,
    >)
        requires
            old(self).store.inv(),
        ensures
            final(self).store.inv(),
            final(self).secret == old(self).secret,
            final(self).config == old(self).config,
            final(self).store.users@ == old(self).store.users@,
            final(self).store.follows@ == old(self).store.follows@,
            final(self).store.next_article_id == old(self).store.next_article_id,
            final(self).store.next_comment_id == old(self).store.next_comment_id,
            r is Ok || (r matches Err(e) && (e is AuthenticationFailure || e is Forbidden
                || e is NoArticleFound || e is UnexpectedError)),
            r matches Err(e) ==> final(self).store.articles@ == old(self).store.articles@
                && final(self).store.favorites@ == old(self).store.favorites@ && final(self).store.comments@ == old(self).store.comments@,
            Auth::spec_verify(token@, old(self).secret@, now as int) is None ==> (r matches Err(e)
                && e is AuthenticationFailure),
            Auth::spec_verify(token@, old(self).secret@, now as int) matches Some(c) ==> {
                &&& !has_slug(old(self).store.articles@, slug@) ==> (r matches Err(e)
                    && e is NoArticleFound)
                &&& forall|i: int|
                    #![trigger old(self).store.articles@[i]]
                    (0 <= i < old(self).store.articles@.len() && old(self).store.articles@[i].slug@
                        == slug@) ==> {
                        let row = old(self).store.articles@[i];
                        &&& (row.author@ != c.0 ==> (r matches Err(e) && e is Forbidden))
                        &&& (row.author@ == c.0 ==> (r is Ok && {
                            &&& final(self).store.articles@ == old(self).store.articles@.remove(i)
                            &&& final(self).store.favorites@ == old(self).store.favorites@.filter(
                                |fv: crate::store::Favorite| fv.article_id != row.id,
                            )
                            &&& final(self).store.comments@ == old(self).store.comments@.filter(
                                |cm: crate::store::CommentRow| cm.article_id != row.id,
                            )
                        }))
                    }
            },
    {
        let delete_req = DeleteArticleRequest { slug: slug.to_owned() };
        let claims = match Auth::authenticate(token, self.secret.as_slice(), now) {
            Ok(c) => c,
            Err(e) => {
                return Err(e);
            },
        };
        let auth_req = DeleteArticleRequestAuthenticated::from_request_with_claims(
            delete_req,
            claims,
        );
        let delete_by = UpdateArticleFilter {
            slug: auth_req.article_request.slug.clone(),
            author: auth_req.author.clone(),
        };
        let rows = self.store.delete_article(&delete_by);
        if rows == 0 {
            // ambiguous path: re-fetch the resource by the selector alone
            match self.store.get_article_row(slug) {
                Some(row) => {
                    match Auth::authorize(token, self.secret.as_slice(), row.author.as_str(), now) {
                        Ok(()) => Err(
                            BackendError::UnexpectedError(
                                "could not delete article despite user was authorized to do so.".to_owned(),
                            ),
                        ),
                        Err(e) => Err(e),
                    }
                },
                None => Err(BackendError::NoArticleFound),
            }
        } else {
            Ok(())
        }
    }

    /// Makes the verified caller favorite the article with the given slug.
    /// Idempotent: repeating the operation is a no-op reporting the current
    /// state, never a conflict.
    pub fn favorite_article(&mut self, token: &str, slug: &str, now: i64) -> (r: Result<
        ArticleResponse,
        BackendError,
    >)
        requires
            old(self).store.inv(),
        ensures
            final(self).store.inv(),
            final(self).secret == old(self).secret,
            final(self).config == old(self).config,
            final(self).store.users@ == old(self).store.users@,
            final(self).store.follows@ == old(self).store.follows@,
            final(self).store.articles@ == old(self).store.articles@,
            final(self).store.comments@ == old(self).store.comments@,
            final(self).store.next_article_id == old(self).store.next_article_id,
            final(self).store.next_comment_id == old(self).store.next_comment_id,
            r matches Err(e) ==> (e is AuthenticationFailure || e is NoArticleFound) && final(self).store.favorites@ == old(self).store.favorites@,
            Auth::spec_verify(token@, old(self).secret@, now as int) is None ==> (r matches Err(e)
                && e is AuthenticationFailure),
            Auth::spec_verify(token@, old(self).secret@, now as int) matches Some(c) ==> {
                &&& (r is Ok) == has_slug(old(self).store.articles@, slug@)
                &&& forall|i: int|
                    #![trigger old(self).store.articles@[i]]
                    (0 <= i < old(self).store.articles@.len() && old(self).store.articles@[i].slug@
                        == slug@) ==> {
                        let id = old(self).store.articles@[i].id;
                        &&& fav_pair_in(final(self).store.favorites@, id, c.0)
                        &&& (fav_pair_in(old(self).store.favorites@, id, c.0)
                            ==> final(self).store.favorites@ == old(self).store.favorites@)
                        &&& (!fav_pair_in(old(self).store.favorites@, id, c.0) ==> {
                            &&& final(self).store.favorites@.len() == old(self).store.favorites@.len() + 1
                            &&& final(self).store.favorites@.subrange(
                                0,
                                old(self).store.favorites@.len() as int,
                            ) == old(self).store.favorites@
                            &&& final(self).store.favorites@.last().article_id == id
                            &&& final(self).store.favorites@.last().username@ == c.0
                        })
                    }
                &&& r matches Ok(resp) ==> exists|i: int|
                    0 <= i < final(self).store.articles@.len() && (#[trigger] final(self).store.articles@[i]).slug@ == slug@ && response_matches(
                        resp,
                        final(self).store.articles@[i],
                        final(self).store.favorites@,
                        final(self).store.users@,
                    )
            },
    {
        let claims = match Auth::authenticate(token, self.secret.as_slice(), now) {
            Ok(c) => c,
            Err(e) => {
                return Err(e);
            },
        };
        if !self.store.favorite_article(slug, claims.username.as_str()) {
            return Err(BackendError::NoArticleFound);
        }
        match self.store.get_article_response(slug, Some(claims.username.as_str())) {
            Some(resp) => Ok(resp),
            None => Err(BackendError::NoArticleFound),
        }
    }

    /// Makes the verified caller no longer favorite the article with the
    /// given slug. Idempotent: repeating the operation is a no-op reporting
    /// the current state.
    pub fn unfavorite_article(&mut self, token: &str, slug: &str, now: i64) -> (r: Result<
        ArticleResponse,
        BackendError,
    >)
        requires
            old(self).store.inv(),
        ensures
            final(self).store.inv(),
            final(self).secret == old(self).secret,
            final(self).config == old(self).config,
            final(self).store.users@ == old(self).store.users@,
            final(self).store.follows@ == old(self).store.follows@,
            final(self).store.articles@ == old(self).store.articles@,
            final(self).store.comments@ == old(self).store.comments@,
            final(self).store.next_article_id == old(self).store.next_article_id,
            final(self).store.next_comment_id == old(self).store.next_comment_id,
            r matches Err(e) ==> (e is AuthenticationFailure || e is NoArticleFound) && final(self).store.favorites@ == old(self).store.favorites@,
            Auth::spec_verify(token@, old(self).secret@, now as int) is None ==> (r matches Err(e)
                && e is AuthenticationFailure),
            Auth::spec_verify(token@, old(self).secret@, now as int) matches Some(c) ==> {
                &&& (r is Ok) == has_slug(old(self).store.articles@, slug@)
                &&& forall|i: int|
                    #![trigger old(self).store.articles@[i]]
                    (0 <= i < old(self).store.articles@.len() && old(self).store.articles@[i].slug@
                        == slug@) ==> {
                        let id = old(self).store.articles@[i].id;
                        &&& !fav_pair_in(final(self).store.favorites@, id, c.0)
                        &&& (!fav_pair_in(old(self).store.favorites@, id, c.0)
                            ==> final(self).store.favorites@ == old(self).store.favorites@)
                    }
                &&& r matches Ok(resp) ==> exists|i: int|
                    0 <= i < final(self).store.articles@.len() && (#[trigger] final(self).store.articles@[i]).slug@ == slug@ && response_matches(
                        resp,
                        final(self).store.articles@[i],
                        final(self).store.favorites@,
                        final(self).store.users@,
                    )
            },
    {
        let claims = match Auth::authenticate(token, self.secret.as_slice(), now) {
            Ok(c) => c,
            Err(e) => {
                return Err(e);
            },
        };
        if !self.store.unfavorite_article(slug, claims.username.as_str()) {
            return Err(BackendError::NoArticleFound);
        }
        match self.store.get_article_response(slug, Some(claims.username.as_str())) {
            Some(resp) => Ok(resp),
            None => Err(BackendError::NoArticleFound),
        }
    }

    /// The verified caller's feed: articles authored by anyone they follow,
    /// newest update first, under the given pagination window.
    pub fn feed_articles(&self, token: &str, limit_offset: LimitOffsetFilter, now: i64) -> (r:
        Result<MultipleArticleResponse, BackendError>)
        requires
            self.store.inv(),
        ensures
            Auth::spec_verify(token@, self.secret@, now as int) is None ==> (r matches Err(e)
                && e is AuthenticationFailure),
            Auth::spec_verify(token@, self.secret@, now as int) matches Some(c) ==> (
            r matches Ok(m) && {
                &&& m.articles_count == m.articles@.len()
                &&& (limit_offset.limit matches Some(l) ==> m.articles@.len() <= (if l < 0 {
                    0int
                } else {
                    l as int
                }))
                &&& exists|sel: Seq<usize>|
                    feed_selection(sel, c.0, self.store.articles@, self.store.follows@)
                        && #[trigger] paged_projection(
                        m.articles@,
                        sel,
                        limit_offset,
                        self.store.articles@,
                        self.store.favorites@,
                        self.store.users@,
                    )
                &&& forall|k1: int, k2: int|
                    #![trigger m.articles@[k1], m.articles@[k2]]
                    0 <= k1 < k2 < m.articles@.len() ==> m.articles@[k1].article.slug@
                        != m.articles@[k2].article.slug@
                &&& forall|k: int|
                    #![trigger m.articles@[k]]
                    0 <= k < m.articles@.len() ==> represents_feed_article(
                        m.articles@[k],
                        c.0,
                        self.store.articles@,
                        self.store.favorites@,
                        self.store.users@,
                        self.store.follows@,
                    )
                &&& (limit_offset.limit is None && limit_offset.offset is None) ==> forall|i: int|
                    #![trigger self.store.articles@[i]]
                    0 <= i < self.store.articles@.len() && feed_matches(
                        c.0,
                        self.store.articles@[i],
                        self.store.follows@,
                    ) ==> some_response_matches(
                        m.articles@,
                        self.store.articles@[i],
                        self.store.favorites@,
                        self.store.users@,
                    )
                &&& forall|k1: int, k2: int|
                    #![trigger m.articles@[k1], m.articles@[k2]]
                    0 <= k1 < k2 < m.articles@.len() ==> m.articles@[k1].article.updated_at
                        >= m.articles@[k2].article.updated_at
            }),
    {
        let claims = match Auth::authenticate(token, self.secret.as_slice(), now) {
            Ok(c) => c,
            Err(e) => {
                return Err(e);
            },
        };
        let articles = self.store.query_feed(
            claims.username.as_str(),
            &limit_offset,
            Some(claims.username.as_str()),
        );
        let ghost ga = articles@;
        let m = MultipleArticleResponse::from_articles(articles);
        proof {
            assert(m.articles@ == ga);
            let sel = choose|sel: Seq<usize>|
                feed_selection(sel, claims.username@, self.store.articles@, self.store.follows@)
                    && #[trigger] paged_projection(
                    ga,
                    sel,
                    limit_offset,
                    self.store.articles@,
                    self.store.favorites@,
                    self.store.users@,
                );
            assert(paged_projection(
                m.articles@,
                sel,
                limit_offset,
                self.store.articles@,
                self.store.favorites@,
                self.store.users@,
            ));
        }
        Ok(m)
    }

    /// Adds a comment by the verified caller to the article with the given
    /// slug.
    pub fn add_comment(&mut self, token: &str, add_comment_req: AddCommentRequest, now: i64) -> (r:
        Result<CommentResponse, BackendError>)
        requires
            old(self).store.inv(),
        ensures
            final(self).store.inv(),
            final(self).secret == old(self).secret,
            final(self).config == old(self).config,
            final(self).store.users@ == old(self).store.users@,
            final(self).store.follows@ == old(self).store.follows@,
            final(self).store.articles@ == old(self).store.articles@,
            final(self).store.favorites@ == old(self).store.favorites@,
            final(self).store.next_article_id == old(self).store.next_article_id,
            r is Ok ==> final(self).store.next_comment_id == old(self).store.next_comment_id + 1,
            r matches Err(e2) ==> final(self).store.next_comment_id == old(
                self,
            ).store.next_comment_id,
            r matches Err(e) ==> (e is AuthenticationFailure || e is NoCommentAdded) && final(self).store.comments@ == old(self).store.comments@,
            Auth::spec_verify(token@, old(self).secret@, now as int) is None ==> (r matches Err(e)
                && e is AuthenticationFailure),
            Auth::spec_verify(token@, old(self).secret@, now as int) matches Some(c) ==> {
                &&& (r is Ok) == (has_slug(old(self).store.articles@, add_comment_req.article_slug@)
                    && old(self).store.next_comment_id < i32::MAX)
                &&& r matches Ok(resp) ==> {
                    &&& final(self).store.comments@.len() == old(self).store.comments@.len() + 1
                    &&& final(self).store.comments@.subrange(
                        0,
                        old(self).store.comments@.len() as int,
                    ) == old(self).store.comments@
                    &&& final(self).store.comments@.last().id == old(self).store.next_comment_id
                    &&& final(self).store.comments@.last().author@ == c.0
                    &&& final(self).store.comments@.last().body == add_comment_req.body
                    &&& final(self).store.comments@.last().created_at == now
                    &&& final(self).store.comments@.last().updated_at == now
                    &&& exists|i: int|
                        0 <= i < old(self).store.articles@.len() && (#[trigger] old(self).store.articles@[i]).slug@ == add_comment_req.article_slug@ && final(self).store.comments@.last().article_id == old(self).store.articles@[i].id
                    &&& comment_response_matches(
                        resp,
                        final(self).store.comments@.last(),
                        final(self).store.users@,
                    )
                }
            },
    {
        let claims = match Auth::authenticate(token, self.secret.as_slice(), now) {
            Ok(c) => c,
            Err(e) => {
                return Err(e);
            },
        };
        let auth_req = AddCommentRequestAuthenticated::from_request_with_claims(
            add_comment_req,
            claims,
        );
        match self.store.add_comment(
            auth_req.article_request.article_slug.as_str(),
            auth_req.author.as_str(),
            auth_req.article_request.body,
            now,
        ) {
            Some(_) => {
                let i = self.store.comments.len() - 1;
                Ok(self.store.make_comment_response(i, None))
            },
            None => Err(BackendError::NoCommentAdded),
        }
    }

    /// The deferred-authorization comment-delete protocol: one scoped
    /// attempt restricted to id, caller and parent article together, then,
    /// on zero affected rows, a diagnosis re-fetch by id alone that
    /// distinguishes a missing comment from one the caller does not own.
    #[verifier::rlimit(100)]
    #[verifier::spinoff_prover]
    pub fn delete_comment(&mut self, token: &str, delete_req: DeleteCommentRequest, now: i64) -> (r:
        Result<(), BackendError>)
        requires
            old(self).store.inv(),
        ensures
            final(self).store.inv(),
            final(self).secret == old(self).secret,
            final(self).config == old(self).config,
            final(self).store.users@ == old(self).store.users@,
            final(self).store.follows@ == old(self).store.follows@,
            final(self).store.articles@ == old(self).store.articles@,
            final(self).store.favorites@ == old(self).store.favorites@,
            final(self).store.next_article_id == old(self).store.next_article_id,
            final(self).store.next_comment_id == old(self).store.next_comment_id,
            r is Ok || (r matches Err(e) && (e is AuthenticationFailure || e is Forbidden
                || e is NoCommentFound || e is UnexpectedError)),
            r matches Err(BackendError::NoCommentFound(missing)) ==> missing == delete_req.id,
            r matches Err(e) ==> final(self).store.comments@ == old(self).store.comments@,
            Auth::spec_verify(token@, old(self).secret@, now as int) is None ==> (r matches Err(e)
                && e is AuthenticationFailure),
            Auth::spec_verify(token@, old(self).secret@, now as int) matches Some(c) ==> {
                &&& (forall|i: int|
                    0 <= i < old(self).store.comments@.len() ==> (#[trigger] old(self).store.comments@[i]).id != delete_req.id) ==> (r matches Err(e)
                    && e is NoCommentFound)
                &&& forall|i: int|
                    #![trigger old(self).store.comments@[i]]
                    (0 <= i < old(self).store.comments@.len() && old(self).store.comments@[i].id
                        == delete_req.id) ==> {
                        let cm = old(self).store.comments@[i];
                        let slug_ok = exists|j: int|
                            0 <= j < old(self).store.articles@.len() && (#[trigger] old(self).store.articles@[j]).id == cm.article_id && old(self).store.articles@[j].slug@ == delete_req.article_slug@;
                        &&& (cm.author@ != c.0 ==> (r matches Err(e) && e is Forbidden))
                        &&& ((cm.author@ == c.0 && slug_ok) ==> (r is Ok && final(self).store.comments@ == old(self).store.comments@.filter(
                            |x: crate::store::CommentRow| x.id != delete_req.id,
                        )))
                        &&& ((cm.author@ == c.0 && !slug_ok) ==> (r matches Err(e)
                            && e is UnexpectedError))
                    }
            },
    {
        let id = delete_req.id;
        let claims = match Auth::authenticate(token, self.secret.as_slice(), now) {
            Ok(c) => c,
            Err(e) => {
                return Err(e);
            },
        };
        let auth_req = DeleteCommentRequestAuthenticated::from_request_with_claims(
            delete_req,
            claims,
        );
        let filter = CommentFilterByValues {
            id: Some(id),
            author: Some(auth_req.author.clone()),
            article_slug: Some(auth_req.article_request.article_slug.clone()),
        };
        let ghost pre = self.store.comments@;
        let rows = self.store.delete_comments(&filter);
        if rows == 0 {
            // diagnosis: re-fetch the comment by id alone
            let check = CommentFilterByValues::default().id(id);
            let found = self.store.query_comments(
                &check,
                &OrderByFilter::Unordered,
                &LimitOffsetFilter::default().limit(1),
                None,
            );
            if found.len() > 0 {
                let author = found[0].comment.author.clone();
                proof {
                    assert(represents_matching_comment(
                        found@[0],
                        check,
                        self.store.comments@,
                        self.store.articles@,
                        self.store.users@,
                    ));
                }
                match Auth::authorize(token, self.secret.as_slice(), author.as_str(), now) {
                    Ok(()) => Err(
                        BackendError::UnexpectedError(
                            "could not delete comment despite user has been authorized to, probably due to a bug".to_owned(),
                        ),
                    ),
                    Err(e) => Err(e),
                }
            } else {
                Err(BackendError::NoCommentFound(id))
            }
        } else {
            proof {
                let p1 = |x: crate::store::CommentRow|
                    !crate::comments::comment_matches(filter, x, old(self).store.articles@);
                let p2 = |x: crate::store::CommentRow| x.id != id;
                assert forall|i: int|
                    0 <= i < pre.len() implies p1(#[trigger] pre[i]) == p2(pre[i]) by {
                    if pre[i].id == id {
                        let m = choose|m: int|
                            0 <= m < pre.len() && crate::comments::comment_matches(
                                filter,
                                pre[m],
                                old(self).store.articles@,
                            );
                        assert(pre[m].id == id);
                    }
                }
                crate::comments::lemma_filter_congruent(pre, p1, p2);
            }
            Ok(())
        }
    }

    /// The comments of the article with the given slug, newest first. A
    /// missing article simply has no comments; reads never fail on
    /// ownership or absence.
    pub fn get_comments(&self, slug: &str) -> (r: Result<MultipleCommentResponse, BackendError>)
        requires
            self.store.inv(),
        ensures
            r is Ok,
            r matches Ok(m) ==> {
                &&& exists|sel: Seq<usize>|
                    article_comment_selection(
                        sel,
                        slug@,
                        self.store.comments@,
                        self.store.articles@,
                    ) && #[trigger] comment_paged_projection(
                        m.comments@,
                        sel,
                        (LimitOffsetFilter { limit: None, offset: None }),
                        self.store.comments@,
                        self.store.users@,
                    )
                &&& forall|k: int|
                    #![trigger m.comments@[k]]
                    0 <= k < m.comments@.len() ==> represents_article_comment(
                        m.comments@[k],
                        slug@,
                        self.store.comments@,
                        self.store.articles@,
                        self.store.users@,
                    )
                &&& forall|i: int|
                    #![trigger self.store.comments@[i]]
                    (0 <= i < self.store.comments@.len() && exists|j: int|
                        0 <= j < self.store.articles@.len() && (#[trigger] self.store.articles@[j]).id
                            == self.store.comments@[i].article_id
                            && self.store.articles@[j].slug@ == slug@)
                        ==> some_comment_response_matches(
                        m.comments@,
                        self.store.comments@[i],
                        self.store.users@,
                    )
                &&& forall|k1: int, k2: int|
                    #![trigger m.comments@[k1], m.comments@[k2]]
                    0 <= k1 < k2 < m.comments@.len() ==> m.comments@[k1].comment.id
                        >= m.comments@[k2].comment.id
                &&& forall|k1: int, k2: int|
                    #![trigger m.comments@[k1], m.comments@[k2]]
                    0 <= k1 < k2 < m.comments@.len() ==> m.comments@[k1].comment.id
                        != m.comments@[k2].comment.id
            },
    {
        let filter = CommentFilterByValues::default().article_slug(slug.to_owned());
        let ghost gf = filter;
        let lo = LimitOffsetFilter::default();
        let order = OrderByFilter::Descending(crate::filters::OrderColumn::Id);
        let comments = self.store.query_comments(&filter, &order, &lo, None);
        let ghost gc = comments@;
        let m = MultipleCommentResponse::from_comments(comments);
        proof {
            assert(m.comments@ == gc);
            let sel = choose|sel: Seq<usize>|
                comment_selection(sel, gf, order, self.store.comments@, self.store.articles@)
                    && #[trigger] comment_paged_projection(
                    gc,
                    sel,
                    lo,
                    self.store.comments@,
                    self.store.users@,
                );
            assert forall|k: int|
                0 <= k < sel.len() implies (#[trigger] sel[k]) < self.store.comments@.len() && (
                exists|j: int|
                    0 <= j < self.store.articles@.len() && (#[trigger] self.store.articles@[j]).id
                        == self.store.comments@[sel[k] as int].article_id
                        && self.store.articles@[j].slug@ == slug@) by {
                assert(comment_matches(
                    gf,
                    self.store.comments@[sel[k] as int],
                    self.store.articles@,
                ));
            }
            assert forall|i: int|
                (0 <= i < self.store.comments@.len() && exists|j: int|
                    0 <= j < self.store.articles@.len() && (#[trigger] self.store.articles@[j]).id
                        == (#[trigger] self.store.comments@[i]).article_id
                        && self.store.articles@[j].slug@ == slug@) implies exists|k: int|
                0 <= k < sel.len() && sel[k] as int == i by {
                assert(comment_matches(gf, self.store.comments@[i], self.store.articles@));
            }
            assert(article_comment_selection(
                sel,
                slug@,
                self.store.comments@,
                self.store.articles@,
            ));
            assert(lo == (LimitOffsetFilter { limit: None, offset: None }));
            assert(comment_paged_projection(
                m.comments@,
                sel,
                (LimitOffsetFilter { limit: None, offset: None }),
                self.store.comments@,
                self.store.users@,
            ));
            assert forall|k1: int, k2: int|
                #![trigger m.comments@[k1], m.comments@[k2]]
                0 <= k1 < k2 < m.comments@.len() implies m.comments@[k1].comment.id
                >= m.comments@[k2].comment.id && m.comments@[k1].comment.id
                != m.comments@[k2].comment.id by {
                assert(m.comments@[k1] == gc[k1]);
                assert(m.comments@[k2] == gc[k2]);
            }
            assert forall|i: int|
                #![trigger self.store.comments@[i]]
                (0 <= i < self.store.comments@.len() && exists|j: int|
                    0 <= j < self.store.articles@.len() && (#[trigger] self.store.articles@[j]).id
                        == self.store.comments@[i].article_id && self.store.articles@[j].slug@
                        == slug@) implies some_comment_response_matches(
                m.comments@,
                self.store.comments@[i],
                self.store.users@,
            ) by {
                assert(comment_matches(gf, self.store.comments@[i], self.store.articles@));
                assert(some_comment_response_matches(gc, self.store.comments@[i], self.store.users@));
                let k = choose|k: int|
                    0 <= k < gc.len() && comment_response_matches(
                        #[trigger] gc[k],
                        self.store.comments@[i],
                        self.store.users@,
                    );
                assert(m.comments@[k] == gc[k]);
            }
            assert forall|k: int|
                0 <= k < m.comments@.len() implies represents_article_comment(
                #[trigger] m.comments@[k],
                slug@,
                self.store.comments@,
                self.store.articles@,
                self.store.users@,
            ) by {
                assert(represents_matching_comment(
                    m.comments@[k],
                    gf,
                    self.store.comments@,
                    self.store.articles@,
                    self.store.users@,
                ));
                let i = choose|i: int|
                    0 <= i < self.store.comments@.len() && comment_matches(
                        gf,
                        #[trigger] self.store.comments@[i],
                        self.store.articles@,
                    ) && comment_response_matches(
                        m.comments@[k],
                        self.store.comments@[i],
                        self.store.users@,
                    );
                assert(0 <= i < self.store.comments@.len());
            }
        }
        Ok(m)
    }

    /// The distinct tags across all articles, sorted case-insensitively.
    pub fn get_tags(&self) -> (r: Result<TagList, BackendError>)
        ensures
            r is Ok,
            r matches Ok(t) ==> {
                &&& forall|k: int|
                    #![trigger t.tags@[k]]
                    0 <= k < t.tags@.len() ==> crate::tags::tag_of_some_article(
                        t.tags@[k]@,
                        self.store.articles@,
                    )
                &&& forall|i: int, j: int|
                    #![trigger self.store.articles@[i].tag_list@[j]]
                    (0 <= i < self.store.articles@.len() && 0 <= j
                        < self.store.articles@[i].tag_list@.len()) ==> crate::tags::tag_in_views(
                        t.tags@,
                        self.store.articles@[i].tag_list@[j]@,
                    )
                &&& forall|k1: int, k2: int|
                    #![trigger t.tags@[k1], t.tags@[k2]]
                    0 <= k1 < k2 < t.tags@.len() ==> t.tags@[k1]@ != t.tags@[k2]@
                &&& forall|k1: int, k2: int|
                    #![trigger t.tags@[k1], t.tags@[k2]]
                    0 <= k1 < k2 < t.tags@.len() ==> crate::tags::lex_le(
                        t.tags@[k1]@,
                        t.tags@[k2]@,
                    )
            },
    {
        Ok(self.store.get_tags())
    }
}

} // verus!
