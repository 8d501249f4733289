//! The data model: users, profiles, articles, comments, and the response
//! shapes the core returns to endpoint handlers.

use vstd::prelude::*;
use crate::requests::CreateArticleRequestAuthenticated;

verus! {

/// A registered user as the store holds it. The password is kept only as a
/// salted digest.
#[derive(Debug)]
pub struct User {
    pub email: String,
    pub username: String,
    pub bio: String,
    pub image: Option<String>,
    pub hashed_password: String,
}

impl Clone for User {
    /// A clone is equal to the original.
    fn clone(&self) -> (r: Self)
        ensures
            r == *self,
    {
        User {
            email: self.email.clone(),
            username: self.username.clone(),
            bio: self.bio.clone(),
            image: match &self.image {
                Some(s) => Some(s.clone()),
                None => None,
            },
            hashed_password: self.hashed_password.clone(),
        }
    }
}

/// A user together with the token that authenticates them: what registration
/// and login return.
#[derive(Debug, Clone)]
pub struct LoggedInUser {
    pub email: String,
    pub token: String,
    pub username: String,
    pub bio: String,
    pub image: Option<String>,
}

impl LoggedInUser {
    /// Pairs a user with a freshly issued token, consuming both.
    pub fn from_user_and_token(user: User, token: String) -> (r: Self)
        ensures
            r.email == user.email,
            r.username == user.username,
            r.bio == user.bio,
            r.image == user.image,
            r.token == token,
    {
        Self {
            email: user.email,
            username: user.username,
            bio: user.bio,
            image: user.image,
            token,
        }
    }

    /// Wraps the user for the response envelope.
    pub fn wrap(self) -> (r: UserWrapped)
        ensures
            r.user == self,
    {
        UserWrapped { user: self }
    }
}

/// The response envelope of a logged-in user.
#[derive(Debug, Clone)]
pub struct UserWrapped {
    pub user: LoggedInUser,
}

/// The public projection of a user, with the derived `following` flag: true
/// exactly when a follow relation from the viewer to this user exists.
#[derive(Debug)]
pub struct Profile {
    pub username: String,
    pub bio: Option<String>,
    pub image: Option<String>,
    pub following: bool,
}

impl Clone for Profile {
    /// A clone is equal to the original.
    fn clone(&self) -> (r: Self)
        ensures
            r == *self,
    {
        Profile {
            username: self.username.clone(),
            bio: match &self.bio {
                Some(s) => Some(s.clone()),
                None => None,
            },
            image: match &self.image {
                Some(s) => Some(s.clone()),
                None => None,
            },
            following: self.following,
        }
    }
}

impl Profile {
    /// Wraps the profile for the response envelope.
    pub fn wrap(self) -> (r: ProfileWrapped)
        ensures
            r.profile == self,
    {
        ProfileWrapped { profile: self }
    }
}

/// The response envelope of a profile.
#[derive(Debug, Clone)]
pub struct ProfileWrapped {
    pub profile: Profile,
}

/// The optional fields of a user self-update; an unset field leaves the
/// stored value unchanged.
#[derive(Debug, Clone)]
pub struct UserUpdate {
    pub username: Option<String>,
    pub email: Option<String>,
    pub password: Option<String>,
    pub profile: ProfileUpdate,
}

impl Default for UserUpdate {
    /// An update that changes nothing.
    fn default() -> (r: Self)
        ensures
            r.username is None,
            r.email is None,
            r.password is None,
            r.profile.bio is None,
            r.profile.image is None,
    {
        Self {
            username: None,
            email: None,
            password: None,
            profile: ProfileUpdate { bio: None, image: None },
        }
    }
}

/// The optional profile fields of a user self-update.
#[derive(Debug, Clone)]
pub struct ProfileUpdate {
    pub bio: Option<String>,
    pub image: Option<String>,
}

impl Default for ProfileUpdate {
    /// An update that changes nothing.
    fn default() -> (r: Self)
        ensures
            r.bio is None,
            r.image is None,
    {
        Self { bio: None, image: None }
    }
}

/// An article as a query returns it: the stored fields plus the derived
/// favorited flag and favorites count.
#[derive(Debug, Clone)]
pub struct Article {
    pub slug: String,
    pub title: String,
    pub description: Option<String>,
    pub body: String,
    pub tag_list: Vec<String>,
    pub created_at: i64,
    pub updated_at: i64,
    pub favorited: bool,
    pub favorites_count: u64,
    pub author: String,
}

impl Article {
    /// The article an authenticated creation request describes, stamped with
    /// the creation instant; the derived fields start at zero.
    pub fn from_authenticated(req: CreateArticleRequestAuthenticated, now: i64) -> (r: Self)
        ensures
            r.slug == req.article_request.slug,
            r.title == req.article_request.title,
            r.description == req.article_request.description,
            r.body == req.article_request.body,
            req.article_request.tag_list matches Some(tags) ==> r.tag_list == tags,
            req.article_request.tag_list is None ==> r.tag_list@ == Seq::<String>::empty(),
            r.created_at == now,
            r.updated_at == now,
            r.favorited == false,
            r.favorites_count == 0,
            r.author == req.author,
    {
        let tag_list = match req.article_request.tag_list {
            Some(tags) => tags,
            None => Vec::new(),
        };
        Self {
            slug: req.article_request.slug,
            title: req.article_request.title,
            description: req.article_request.description,
            body: req.article_request.body,
            tag_list,
            created_at: now,
            updated_at: now,
            favorited: false,
            favorites_count: 0,
            author: req.author,
        }
    }
}

/// The optional fields of an article update; an unset field leaves the
/// stored value unchanged. Updating the title also regenerates the slug.
#[derive(Debug, Clone)]
pub struct UpdateArticle {
    pub title: Option<String>,
    pub description: Option<String>,
    pub body: Option<String>,
}

impl UpdateArticle {
    /// Returns a copy of the update with the title (and thereby the slug)
    /// set to change.
    pub fn title(self, title: &str) -> (r: Self)
        ensures
            r.title matches Some(t) && t@ == title@,
            r.description == self.description,
            r.body == self.body,
    {
        Self { title: Some(title.to_owned()), ..self }
    }

    /// Returns a copy of the update with the description set to change.
    pub fn description(self, description: &str) -> (r: Self)
        ensures
            r.description matches Some(d) && d@ == description@,
            r.title == self.title,
            r.body == self.body,
    {
        Self { description: Some(description.to_owned()), ..self }
    }

    /// Returns a copy of the update with the body set to change.
    pub fn body(self, body: &str) -> (r: Self)
        ensures
            r.body matches Some(b) && b@ == body@,
            r.title == self.title,
            r.description == self.description,
    {
        Self { body: Some(body.to_owned()), ..self }
    }

    /// The slug the update regenerates: the slug derived from the new title,
    /// or nothing when the title does not change.
    pub fn get_slug(&self) -> (r: Option<String>)
        ensures
            (r is Some) == (self.title is Some),
            self.title matches Some(t) ==> r matches Some(s) && s@ == crate::slug::slug_of(t@),
    {
        match &self.title {
            Some(title) => Some(crate::slug::slugify_title(title.as_str())),
            None => None,
        }
    }
}

impl Default for UpdateArticle {
    /// An update that changes nothing.
    fn default() -> (r: Self)
        ensures
            r.title is None,
            r.description is None,
            r.body is None,
    {
        Self { title: None, description: None, body: None }
    }
}

/// An article paired with its author's profile.
#[derive(Debug, Clone)]
pub struct ArticleResponse {
    pub author: Option<Profile>,
    pub article: Article,
}

impl ArticleResponse {
    /// Wraps the article response for the response envelope.
    pub fn wrap(self) -> (r: ArticleResponseWrapped)
        ensures
            r.article == self,
    {
        ArticleResponseWrapped { article: self }
    }
}

/// The response envelope of one article.
#[derive(Debug, Clone)]
pub struct ArticleResponseWrapped {
    pub article: ArticleResponse,
}

/// A list of articles together with its length.
#[derive(Debug, Clone)]
pub struct MultipleArticleResponse {
    pub articles: Vec<ArticleResponse>,
    pub articles_count: usize,
}

impl MultipleArticleResponse {
    /// Packages a list of articles; the count is the list's length.
    pub fn from_articles(articles: Vec<ArticleResponse>) -> (r: Self)
        ensures
            r.articles == articles,
            r.articles_count == articles@.len(),
    {
        let articles_count = articles.len();
        Self { articles, articles_count }
    }
}

/// A comment on an article.
#[derive(Debug, Clone)]
pub struct Comment {
    pub id: i32,
    pub created_at: i64,
    pub updated_at: i64,
    pub body: String,
    pub author: String,
}

/// A comment paired with its author's profile.
#[derive(Debug, Clone)]
pub struct CommentResponse {
    pub author: Option<Profile>,
    pub comment: Comment,
}

impl CommentResponse {
    /// Wraps the comment response for the response envelope.
    pub fn wrap(self) -> (r: CommentResponseWrapped)
        ensures
            r.comment == self,
    {
        CommentResponseWrapped { comment: self }
    }
}

/// The response envelope of one comment.
#[derive(Debug, Clone)]
pub struct CommentResponseWrapped {
    pub comment: CommentResponse,
}

/// A list of comments.
#[derive(Debug, Clone)]
pub struct MultipleCommentResponse {
    pub comments: Vec<CommentResponse>,
}

impl MultipleCommentResponse {
    /// Packages a list of comments.
    pub fn from_comments(comments: Vec<CommentResponse>) -> (r: Self)
        ensures
            r.comments == comments,
    {
        Self { comments }
    }
}

/// The distinct tags across all articles.
#[derive(Debug, Clone)]
pub struct TagList {
    pub tags: Vec<String>,
}

} // verus!
