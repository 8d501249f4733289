//! Request payloads, and the authenticated-request binder: every mutating
//! operation needs the same two inputs bound together, a raw request payload
//! and the verified caller identity, so the binder pairs them generically
//! and the resource-access service consumes only the bound form.

use vstd::prelude::*;
use crate::auth::{Auth, Claims};
use crate::email::email_ok;
use crate::errors::BackendError;
use crate::models::UpdateArticle;

verus! {

/// A registration payload.
#[derive(Debug, Clone)]
pub struct UserReg {
    pub username: String,
    pub email: String,
    pub password: String,
}

impl UserReg {
    /// Checks the payload: the email must have a valid address shape.
    pub fn validate(&self) -> (r: Result<(), BackendError>)
        ensures
            (r is Ok) == email_ok(self.email@),
            r matches Err(e) ==> e is ValidationError,
    {
        if crate::email::validate_email(self.email.as_str()) {
            Ok(())
        } else {
            Err(BackendError::ValidationError("email is invalid".to_owned()))
        }
    }
}

/// A self-update payload: every field optional.
#[derive(Debug, Clone)]
pub struct UserUpdateRequest {
    pub username: Option<String>,
    pub email: Option<String>,
    pub password: Option<String>,
    pub bio: Option<String>,
    pub image: Option<String>,
}

impl Default for UserUpdateRequest {
    /// An update request that changes nothing.
    fn default() -> (r: Self)
        ensures
            r.username is None,
            r.email is None,
            r.password is None,
            r.bio is None,
            r.image is None,
    {
        Self { username: None, email: None, password: None, bio: None, image: None }
    }
}

/// A login payload.
#[derive(Debug, Clone)]
pub struct LoginRequest {
    pub email: String,
    pub password: String,
}

/// An article-creation payload. The slug of the created article is derived
/// from the title; the `slug` field carries the derived value once set.
#[derive(Debug, Clone)]
pub struct CreateArticleRequest {
    pub slug: String,
    pub title: String,
    pub description: Option<String>,
    pub body: String,
    pub tag_list: Option<Vec<String>>,
}

/// An article-update payload: the changes plus the slug selecting the
/// article.
#[derive(Debug, Clone)]
pub struct UpdateArticleRequest {
    pub article: UpdateArticle,
    pub slug: String,
}

impl UpdateArticleRequest {
    /// Binds the update body to the slug taken from the request path.
    pub fn from_req_parts(article: UpdateArticle, slug: String) -> (r: Self)
        ensures
            r.article == article,
            r.slug == slug,
    {
        Self { article, slug }
    }
}

/// An article-deletion payload: the slug selecting the article.
#[derive(Debug, Clone)]
pub struct DeleteArticleRequest {
    pub slug: String,
}

/// A comment-creation payload: the comment body plus the parent article's
/// slug.
#[derive(Debug, Clone)]
pub struct AddCommentRequest {
    pub body: String,
    pub article_slug: String,
}

impl AddCommentRequest {
    /// Binds the comment body to the slug taken from the request path.
    pub fn from_req_parts(body: String, article_slug: String) -> (r: Self)
        ensures
            r.body == body,
            r.article_slug == article_slug,
    {
        Self { body, article_slug }
    }
}

/// A comment-deletion payload: the comment id plus the parent article's
/// slug.
#[derive(Debug, Clone)]
pub struct DeleteCommentRequest {
    pub id: i32,
    pub article_slug: String,
}

/// A request paired with its verified caller: the bound form the
/// resource-access service consumes, so no operation ever sees a raw payload
/// beside a separate claims value.
pub trait AuthenticatedRequest: Sized {
    /// The raw payload this bound form is made from.
    type FromRequest;

    /// The bound value that pairing `req` with `claims` produces.
    spec fn spec_from(req: Self::FromRequest, claims: Claims) -> Self;

    /// Pairs a raw payload with the verified caller's claims.
    fn from_request_with_claims(req: Self::FromRequest, claims: Claims) -> (r: Self)
        ensures
            r == Self::spec_from(req, claims),
    ;
}

/// Verifies `token` and pairs the raw payload with the resolved caller: the
/// generic authenticate-then-merge step of every mutating code path.
pub fn authenticate_request<A: AuthenticatedRequest>(
    req: A::FromRequest,
    token: &str,
    secret: &[u8],
    now: i64,
) -> (r: Result<A, BackendError>)
    ensures
        (r is Ok) == (Auth::spec_verify(token@, secret@, now as int) is Some),
        r matches Ok(a) ==> exists|c: Claims|
            Auth::spec_verify(token@, secret@, now as int) == Some(
                (c.username@, c.email@, c.exp as int),
            ) && a == A::spec_from(req, c),
        r matches Err(e) ==> e is AuthenticationFailure,
{
    match Auth::authenticate(token, secret, now) {
        Ok(claims) => {
            let ghost c = claims;
            let bound = A::from_request_with_claims(req, claims);
            proof {
                assert(Auth::spec_verify(token@, secret@, now as int) == Some(
                    (c.username@, c.email@, c.exp as int),
                ) && bound == A::spec_from(req, c));
            }
            Ok(bound)
        },
        Err(e) => Err(e),
    }
}

/// An article creation bound to its verified author.
pub struct CreateArticleRequestAuthenticated {
    pub article_request: CreateArticleRequest,
    pub author: String,
}

impl AuthenticatedRequest for CreateArticleRequestAuthenticated {
    type FromRequest = CreateArticleRequest;

    open spec fn spec_from(req: CreateArticleRequest, claims: Claims) -> Self {
        CreateArticleRequestAuthenticated { article_request: req, author: claims.username }
    }

    fn from_request_with_claims(req: CreateArticleRequest, claims: Claims) -> (r: Self)
        ensures
            r == Self::spec_from(req, claims),
    {
        Self { article_request: req, author: claims.username }
    }
}

/// An article update bound to its verified caller.
pub struct UpdateArticleRequestAuthenticated {
    pub article_request: UpdateArticleRequest,
    pub author: String,
}

impl AuthenticatedRequest for UpdateArticleRequestAuthenticated {
    type FromRequest = UpdateArticleRequest;

    open spec fn spec_from(req: UpdateArticleRequest, claims: Claims) -> Self {
        UpdateArticleRequestAuthenticated { article_request: req, author: claims.username }
    }

    fn from_request_with_claims(req: UpdateArticleRequest, claims: Claims) -> (r: Self)
        ensures
            r == Self::spec_from(req, claims),
    {
        Self { article_request: req, author: claims.username }
    }
}

/// An article deletion bound to its verified caller.
pub struct DeleteArticleRequestAuthenticated {
    pub article_request: DeleteArticleRequest,
    pub author: String,
}

impl AuthenticatedRequest for DeleteArticleRequestAuthenticated {
    type FromRequest = DeleteArticleRequest;

    open spec fn spec_from(req: DeleteArticleRequest, claims: Claims) -> Self {
        DeleteArticleRequestAuthenticated { article_request: req, author: claims.username }
    }

    fn from_request_with_claims(req: DeleteArticleRequest, claims: Claims) -> (r: Self)
        ensures
            r == Self::spec_from(req, claims),
    {
        Self { article_request: req, author: claims.username }
    }
}

/// A comment creation bound to its verified author.
pub struct AddCommentRequestAuthenticated {
    pub article_request: AddCommentRequest,
    pub author: String,
}

impl AuthenticatedRequest for AddCommentRequestAuthenticated {
    type FromRequest = AddCommentRequest;

    open spec fn spec_from(req: AddCommentRequest, claims: Claims) -> Self {
        AddCommentRequestAuthenticated { article_request: req, author: claims.username }
    }

    fn from_request_with_claims(req: AddCommentRequest, claims: Claims) -> (r: Self)
        ensures
            r == Self::spec_from(req, claims),
    {
        Self { article_request: req, author: claims.username }
    }
}

/// A comment deletion bound to its verified caller.
pub struct DeleteCommentRequestAuthenticated {
    pub article_request: DeleteCommentRequest,
    pub author: String,
}

impl AuthenticatedRequest for DeleteCommentRequestAuthenticated {
    type FromRequest = DeleteCommentRequest;

    open spec fn spec_from(req: DeleteCommentRequest, claims: Claims) -> Self {
        DeleteCommentRequestAuthenticated { article_request: req, author: claims.username }
    }

    fn from_request_with_claims(req: DeleteCommentRequest, claims: Claims) -> (r: Self)
        ensures
            r == Self::spec_from(req, claims),
    {
        Self { article_request: req, author: claims.username }
    }
}

} // verus!
