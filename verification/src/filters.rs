//! Filter value objects.
//!
//! Each filter is a value type whose fields are optional constraints; it
//! renders to a conjunctive predicate fragment ([`Fragment`]). Every set
//! field contributes exactly one conjunct, an unset field contributes
//! nothing, and the fragment always terminates in a tautological conjunct,
//! so call sites may append further conjuncts with `AND` no matter how many
//! optional fields were set. Construction is by fluent builders that return
//! an updated value rather than mutating one in place.

use vstd::prelude::*;
use crate::sql::{Fragment, Param, eq_conjunct_text, like_conjunct_text, in_subquery_conjunct_text,
    tautology_text};

verus! {

/// The conjunct text contributed by an optional string-valued field:
/// an equality on `column` when set, nothing when unset.
pub open spec fn opt_eq_text(column: Seq<char>, field: Option<String>) -> Seq<char> {
    match field {
        Some(_) => eq_conjunct_text(column),
        None => Seq::<char>::empty(),
    }
}

/// The conjunct text contributed by an optional substring-valued field.
pub open spec fn opt_like_text(column: Seq<char>, field: Option<String>) -> Seq<char> {
    match field {
        Some(_) => like_conjunct_text(column),
        None => Seq::<char>::empty(),
    }
}

/// The conjunct text contributed by an optional integer-valued field.
pub open spec fn opt_eq_int_text(column: Seq<char>, field: Option<i32>) -> Seq<char> {
    match field {
        Some(_) => eq_conjunct_text(column),
        None => Seq::<char>::empty(),
    }
}

/// The parameter bound by an optional string-valued field.
pub open spec fn opt_str_param(field: Option<String>) -> Seq<Param> {
    match field {
        Some(v) => seq![Param::Str(v)],
        None => Seq::<Param>::empty(),
    }
}

/// The parameter bound by an optional integer-valued field.
pub open spec fn opt_int_param(field: Option<i32>) -> Seq<Param> {
    match field {
        Some(v) => seq![Param::Int(v)],
        None => Seq::<Param>::empty(),
    }
}

/// A value type that renders to a conjunctive predicate fragment.
pub trait Filter {
    /// The clause text this filter renders to.
    spec fn spec_text(&self) -> Seq<char>;

    /// The parameters this filter binds, in placeholder order.
    spec fn spec_params(&self) -> Seq<Param>;

    /// Renders the filter.
    fn to_fragment(&self) -> (r: Fragment)
        ensures
            r.text@ == self.spec_text(),
            r.params@ == self.spec_params(),
    ;
}

/// Selects users by exact match on any subset of username, email and stored
/// password column.
pub struct UserFilter {
    pub username: Option<String>,
    pub email: Option<String>,
    pub password: Option<String>,
}

impl UserFilter {
    /// Returns a copy of the filter with the username constraint set.
    pub fn username(self, username: String) -> (r: Self)
        ensures
            r.username == Some(username),
            r.email == self.email,
            r.password == self.password,
    {
        Self { username: Some(username), ..self }
    }

    /// Returns a copy of the filter with the email constraint set.
    pub fn email(self, email: String) -> (r: Self)
        ensures
            r.email == Some(email),
            r.username == self.username,
            r.password == self.password,
    {
        Self { email: Some(email), ..self }
    }

    /// Returns a copy of the filter with the password-column constraint set.
    pub fn password(self, password: String) -> (r: Self)
        ensures
            r.password == Some(password),
            r.username == self.username,
            r.email == self.email,
    {
        Self { password: Some(password), ..self }
    }
}

impl Default for UserFilter {
    /// A user filter with no constraints: it selects every user.
    fn default() -> (r: Self)
        ensures
            r.username is None,
            r.email is None,
            r.password is None,
    {
        Self { username: None, email: None, password: None }
    }
}

impl Filter for UserFilter {
    open spec fn spec_text(&self) -> Seq<char> {
        opt_eq_text("users.username"@, self.username) + opt_eq_text("users.email"@, self.email)
            + opt_eq_text("users.password"@, self.password) + tautology_text()
    }

    open spec fn spec_params(&self) -> Seq<Param> {
        opt_str_param(self.username) + opt_str_param(self.email) + opt_str_param(self.password)
    }

    fn to_fragment(&self) -> (r: Fragment)
        ensures
            r.text@ == self.spec_text(),
            r.params@ == self.spec_params(),
    {
        let mut f = Fragment::new();
        if let Some(v) = &self.username {
            f.push_eq("users.username", v.clone());
        }
        if let Some(v) = &self.email {
            f.push_eq("users.email", v.clone());
        }
        if let Some(v) = &self.password {
            f.push_eq("users.password", v.clone());
        }
        f.push_tautology();
        assert(f.text@ =~= self.spec_text());
        assert(f.params@ =~= self.spec_params());
        f
    }
}

/// Selects the user rows a self-update applies to, by username and/or email.
pub struct UpdateUserFilter {
    pub username: Option<String>,
    pub email: Option<String>,
}

impl UpdateUserFilter {
    /// Returns a copy of the filter with the username constraint set.
    pub fn username(self, username: String) -> (r: Self)
        ensures
            r.username == Some(username),
            r.email == self.email,
    {
        Self { username: Some(username), ..self }
    }

    /// Returns a copy of the filter with the email constraint set.
    pub fn email(self, email: String) -> (r: Self)
        ensures
            r.email == Some(email),
            r.username == self.username,
    {
        Self { email: Some(email), ..self }
    }
}

impl Default for UpdateUserFilter {
    /// An update filter with no constraints.
    fn default() -> (r: Self)
        ensures
            r.username is None,
            r.email is None,
    {
        Self { username: None, email: None }
    }
}

impl Filter for UpdateUserFilter {
    open spec fn spec_text(&self) -> Seq<char> {
        opt_eq_text("users.username"@, self.username) + opt_eq_text("users.email"@, self.email)
            + tautology_text()
    }

    open spec fn spec_params(&self) -> Seq<Param> {
        opt_str_param(self.username) + opt_str_param(self.email)
    }

    fn to_fragment(&self) -> (r: Fragment)
        ensures
            r.text@ == self.spec_text(),
            r.params@ == self.spec_params(),
    {
        let mut f = Fragment::new();
        if let Some(v) = &self.username {
            f.push_eq("users.username", v.clone());
        }
        if let Some(v) = &self.email {
            f.push_eq("users.email", v.clone());
        }
        f.push_tautology();
        assert(f.text@ =~= self.spec_text());
        assert(f.params@ =~= self.spec_params());
        f
    }
}

/// Selects articles by any subset of: author, slug, a substring of the tag
/// list, and favorited-by-user.
pub struct ArticleFilterByValues {
    pub author: Option<String>,
    pub tag: Option<String>,
    pub favorited: Option<String>,
    pub slug: Option<String>,
}

impl ArticleFilterByValues {
    /// Returns a copy of the filter with the author constraint set.
    pub fn author(self, author: String) -> (r: Self)
        ensures
            r.author == Some(author),
            r.tag == self.tag,
            r.favorited == self.favorited,
            r.slug == self.slug,
    {
        Self { author: Some(author), ..self }
    }

    /// Returns a copy of the filter with the slug constraint set.
    pub fn slug(self, slug: String) -> (r: Self)
        ensures
            r.slug == Some(slug),
            r.author == self.author,
            r.tag == self.tag,
            r.favorited == self.favorited,
    {
        Self { slug: Some(slug), ..self }
    }

    /// Returns a copy of the filter with the tag-substring constraint set.
    pub fn tag(self, tag: String) -> (r: Self)
        ensures
            r.tag == Some(tag),
            r.author == self.author,
            r.favorited == self.favorited,
            r.slug == self.slug,
    {
        Self { tag: Some(tag), ..self }
    }

    /// Returns a copy of the filter with the favorited-by constraint set.
    pub fn favorited(self, favorited: String) -> (r: Self)
        ensures
            r.favorited == Some(favorited),
            r.author == self.author,
            r.tag == self.tag,
            r.slug == self.slug,
    {
        Self { favorited: Some(favorited), ..self }
    }
}

impl Default for ArticleFilterByValues {
    /// An article filter with no constraints: it selects every article.
    fn default() -> (r: Self)
        ensures
            r.author is None,
            r.tag is None,
            r.favorited is None,
            r.slug is None,
    {
        Self { author: None, tag: None, favorited: None, slug: None }
    }
}

impl Filter for ArticleFilterByValues {
    open spec fn spec_text(&self) -> Seq<char> {
        opt_eq_text("author"@, self.author) + opt_eq_text("slug"@, self.slug) + opt_like_text(
            "tagList"@,
            self.tag,
        ) + opt_eq_text("favorite_articles.username"@, self.favorited) + tautology_text()
    }

    open spec fn spec_params(&self) -> Seq<Param> {
        opt_str_param(self.author) + opt_str_param(self.slug) + opt_str_param(self.tag)
            + opt_str_param(self.favorited)
    }

    fn to_fragment(&self) -> (r: Fragment)
        ensures
            r.text@ == self.spec_text(),
            r.params@ == self.spec_params(),
    {
        let mut f = Fragment::new();
        if let Some(v) = &self.author {
            f.push_eq("author", v.clone());
        }
        if let Some(v) = &self.slug {
            f.push_eq("slug", v.clone());
        }
        if let Some(v) = &self.tag {
            f.push_like("tagList", v.clone());
        }
        if let Some(v) = &self.favorited {
            f.push_eq("favorite_articles.username", v.clone());
        }
        f.push_tautology();
        assert(f.text@ =~= self.spec_text());
        assert(f.params@ =~= self.spec_params());
        f
    }
}

/// Selects the feed of a follower: articles authored by anyone the follower
/// follows.
pub struct ArticleFilterFeed {
    pub follower: String,
}

impl Filter for ArticleFilterFeed {
    open spec fn spec_text(&self) -> Seq<char> {
        in_subquery_conjunct_text(
            "author"@,
            "SELECT celeb_name FROM followers WHERE follower_name=?"@,
        ) + tautology_text()
    }

    open spec fn spec_params(&self) -> Seq<Param> {
        seq![Param::Str(self.follower)]
    }

    fn to_fragment(&self) -> (r: Fragment)
        ensures
            r.text@ == self.spec_text(),
            r.params@ == self.spec_params(),
    {
        let mut f = Fragment::new();
        f.push_in_subquery(
            "author",
            "SELECT celeb_name FROM followers WHERE follower_name=?",
            self.follower.clone(),
        );
        f.push_tautology();
        assert(f.text@ =~= self.spec_text());
        assert(f.params@ =~= self.spec_params());
        f
    }
}

/// The scoped-mutation filter: a resource selector (slug) conjoined with an
/// owner-equals-caller constraint, so that an update or delete restricted by
/// it can only ever touch the caller's own article.
pub struct UpdateArticleFilter {
    pub slug: String,
    pub author: String,
}

impl Filter for UpdateArticleFilter {
    open spec fn spec_text(&self) -> Seq<char> {
        eq_conjunct_text("slug"@) + eq_conjunct_text("author"@) + tautology_text()
    }

    open spec fn spec_params(&self) -> Seq<Param> {
        seq![Param::Str(self.slug), Param::Str(self.author)]
    }

    fn to_fragment(&self) -> (r: Fragment)
        ensures
            r.text@ == self.spec_text(),
            r.params@ == self.spec_params(),
    {
        let mut f = Fragment::new();
        f.push_eq("slug", self.slug.clone());
        f.push_eq("author", self.author.clone());
        f.push_tautology();
        assert(f.text@ =~= self.spec_text());
        assert(f.params@ =~= self.spec_params());
        f
    }
}

/// Selects comments by any subset of: comment id, author, and parent
/// article's slug.
pub struct CommentFilterByValues {
    pub id: Option<i32>,
    pub author: Option<String>,
    pub article_slug: Option<String>,
}

impl CommentFilterByValues {
    /// Returns a copy of the filter with the comment-id constraint set.
    pub fn id(self, id: i32) -> (r: Self)
        ensures
            r.id == Some(id),
            r.author == self.author,
            r.article_slug == self.article_slug,
    {
        Self { id: Some(id), ..self }
    }

    /// Returns a copy of the filter with the author constraint set.
    pub fn author(self, author: String) -> (r: Self)
        ensures
            r.author == Some(author),
            r.id == self.id,
            r.article_slug == self.article_slug,
    {
        Self { author: Some(author), ..self }
    }

    /// Returns a copy of the filter with the parent-article constraint set.
    pub fn article_slug(self, article_slug: String) -> (r: Self)
        ensures
            r.article_slug == Some(article_slug),
            r.id == self.id,
            r.author == self.author,
    {
        Self { article_slug: Some(article_slug), ..self }
    }
}

impl Default for CommentFilterByValues {
    /// A comment filter with no constraints: it selects every comment.
    fn default() -> (r: Self)
        ensures
            r.id is None,
            r.author is None,
            r.article_slug is None,
    {
        Self { id: None, author: None, article_slug: None }
    }
}

impl Filter for CommentFilterByValues {
    open spec fn spec_text(&self) -> Seq<char> {
        opt_eq_int_text("id"@, self.id) + opt_eq_text("author"@, self.author) + match self
            .article_slug {
            Some(_) => in_subquery_conjunct_text(
                "article_id"@,
                "SELECT id FROM articles WHERE slug=?"@,
            ),
            None => Seq::<char>::empty(),
        } + tautology_text()
    }

    open spec fn spec_params(&self) -> Seq<Param> {
        opt_int_param(self.id) + opt_str_param(self.author) + opt_str_param(self.article_slug)
    }

    fn to_fragment(&self) -> (r: Fragment)
        ensures
            r.text@ == self.spec_text(),
            r.params@ == self.spec_params(),
    {
        let mut f = Fragment::new();
        if let Some(v) = &self.id {
            f.push_eq_int("id", *v);
        }
        if let Some(v) = &self.author {
            f.push_eq("author", v.clone());
        }
        if let Some(v) = &self.article_slug {
            f.push_in_subquery("article_id", "SELECT id FROM articles WHERE slug=?", v.clone());
        }
        f.push_tautology();
        assert(f.text@ =~= self.spec_text());
        assert(f.params@ =~= self.spec_params());
        f
    }
}

/// The closed set of columns a query may be ordered by.
#[derive(Clone, Copy, PartialEq, Eq, Structural, Debug)]
pub enum OrderColumn {
    CreatedAt,
    UpdatedAt,
    Id,
}

/// The column name an [`OrderColumn`] renders to.
pub open spec fn order_column_text(c: OrderColumn) -> Seq<char> {
    match c {
        OrderColumn::CreatedAt => "createdAt"@,
        OrderColumn::UpdatedAt => "updatedAt"@,
        OrderColumn::Id => "id"@,
    }
}

/// Ordering: a closed choice of ascending by a column, descending by a
/// column, or no ordering at all.
#[derive(Clone, Copy, PartialEq, Eq, Structural, Debug)]
pub enum OrderByFilter {
    Ascending(OrderColumn),
    Descending(OrderColumn),
    Unordered,
}

/// The `ORDER BY` clause text an [`OrderByFilter`] renders to: a clause for
/// an ordered choice, nothing for the unordered one.
pub open spec fn order_by_text(o: OrderByFilter) -> Seq<char> {
    match o {
        OrderByFilter::Ascending(c) => " ORDER BY "@ + order_column_text(c) + " ASC"@,
        OrderByFilter::Descending(c) => " ORDER BY "@ + order_column_text(c) + " DESC"@,
        OrderByFilter::Unordered => Seq::<char>::empty(),
    }
}

impl OrderColumn {
    /// The column's fixed name.
    pub fn name(&self) -> (r: &'static str)
        ensures
            r@ == order_column_text(*self),
    {
        match self {
            OrderColumn::CreatedAt => "createdAt",
            OrderColumn::UpdatedAt => "updatedAt",
            OrderColumn::Id => "id",
        }
    }
}

impl OrderByFilter {
    /// Appends the rendered `ORDER BY` clause to a fragment.
    pub fn append_to(&self, f: &mut Fragment)
        ensures
            final(f).text@ == old(f).text@ + order_by_text(*self),
            final(f).params@ == old(f).params@,
    {
        match self {
            OrderByFilter::Ascending(c) => {
                f.push_text(" ORDER BY ");
                f.push_text(c.name());
                f.push_text(" ASC");
                assert(f.text@ =~= old(f).text@ + order_by_text(*self));
            },
            OrderByFilter::Descending(c) => {
                f.push_text(" ORDER BY ");
                f.push_text(c.name());
                f.push_text(" DESC");
                assert(f.text@ =~= old(f).text@ + order_by_text(*self));
            },
            OrderByFilter::Unordered => {
                assert(f.text@ =~= old(f).text@ + order_by_text(*self));
            },
        }
    }
}

impl Default for OrderByFilter {
    /// No ordering.
    fn default() -> (r: Self)
        ensures
            r == OrderByFilter::Unordered,
    {
        OrderByFilter::Unordered
    }
}

/// Pagination: an optional row limit and an optional offset, independently
/// settable; an absent value imposes no bound.
pub struct LimitOffsetFilter {
    pub limit: Option<i32>,
    pub offset: Option<i32>,
}

/// The `LIMIT`/`OFFSET` clause text a [`LimitOffsetFilter`] renders to.
pub open spec fn limit_offset_text(l: LimitOffsetFilter) -> Seq<char> {
    (match l.limit {
        Some(_) => " LIMIT ?"@,
        None => Seq::<char>::empty(),
    }) + (match l.offset {
        Some(_) => " OFFSET ?"@,
        None => Seq::<char>::empty(),
    })
}

/// The parameters a [`LimitOffsetFilter`] binds.
pub open spec fn limit_offset_params(l: LimitOffsetFilter) -> Seq<Param> {
    opt_int_param(l.limit) + opt_int_param(l.offset)
}

impl LimitOffsetFilter {
    /// Returns a copy of the filter with the limit set.
    pub fn limit(self, limit: i32) -> (r: Self)
        ensures
            r.limit == Some(limit),
            r.offset == self.offset,
    {
        Self { limit: Some(limit), ..self }
    }

    /// Returns a copy of the filter with the offset set.
    pub fn offset(self, offset: i32) -> (r: Self)
        ensures
            r.offset == Some(offset),
            r.limit == self.limit,
    {
        Self { offset: Some(offset), ..self }
    }

    /// Appends the rendered `LIMIT`/`OFFSET` clause to a fragment.
    pub fn append_to(&self, f: &mut Fragment)
        ensures
            final(f).text@ == old(f).text@ + limit_offset_text(*self),
            final(f).params@ == old(f).params@ + limit_offset_params(*self),
    {
        if let Some(v) = &self.limit {
            f.push_int_piece(" LIMIT ?", *v);
        }
        if let Some(v) = &self.offset {
            f.push_int_piece(" OFFSET ?", *v);
        }
        assert(f.text@ =~= old(f).text@ + limit_offset_text(*self));
        assert(f.params@ =~= old(f).params@ + limit_offset_params(*self));
    }
}

impl Default for LimitOffsetFilter {
    /// A pagination filter with no bounds at all.
    fn default() -> (r: Self)
        ensures
            r.limit is None,
            r.offset is None,
    {
        Self { limit: None, offset: None }
    }
}

/// The fixed projection every article query selects through: the article
/// columns plus the derived favorites count and favorited flag.
pub open spec fn article_select_prefix() -> Seq<char> {
    "SELECT *, (favoritesCount>0) as favorited FROM (SELECT articles.id as id, slug, title, body, description, tagList, createdAt, updatedAt, author, COUNT(favorite_articles.id) as favoritesCount FROM articles LEFT JOIN favorite_articles ON articles.id = favorite_articles.id WHERE"@
}

/// The closing of the article query built by [`get_article_clause`].
pub open spec fn article_select_suffix() -> Seq<char> {
    ") WHERE id IS NOT NULL"@
}

/// Builds the complete article query for any predicate filter, ordering and
/// pagination: one rendering routine serves every article-query shape, since
/// every filter renders to a conjunction it can splice after `WHERE`.
pub fn get_article_clause<F: Filter>(
    filter: &F,
    order_by: &OrderByFilter,
    limit_offset: &LimitOffsetFilter,
) -> (r: Fragment)
    ensures
        r.text@ == article_select_prefix() + filter.spec_text() + order_by_text(*order_by)
            + limit_offset_text(*limit_offset) + article_select_suffix(),
        r.params@ == filter.spec_params() + limit_offset_params(*limit_offset),
{
    let mut f = filter.to_fragment();
    order_by.append_to(&mut f);
    limit_offset.append_to(&mut f);
    let mut out = Fragment::new();
    out.push_text(
        "SELECT *, (favoritesCount>0) as favorited FROM (SELECT articles.id as id, slug, title, body, description, tagList, createdAt, updatedAt, author, COUNT(favorite_articles.id) as favoritesCount FROM articles LEFT JOIN favorite_articles ON articles.id = favorite_articles.id WHERE",
    );
    out.push_text(f.text.as_str());
    out.push_text(") WHERE id IS NOT NULL");
    let mut params = f.params;
    let out_text = out.text;
    let r = Fragment { text: out_text, params };
    assert(r.text@ =~= article_select_prefix() + filter.spec_text() + order_by_text(*order_by)
        + limit_offset_text(*limit_offset) + article_select_suffix());
    assert(r.params@ =~= filter.spec_params() + limit_offset_params(*limit_offset));
    r
}

/// The suffix of length `n` of a concatenation `a + b` is `b` itself when
/// `n` is the length of `b`.
proof fn lemma_concat_suffix(a: Seq<char>, b: Seq<char>)
    ensures
        (a + b).skip(a.len() as int) =~= b,
{
}

/// Law: a rendered user-filter predicate terminates in the tautological
/// conjunct, whichever subset of its optional fields is set.
pub proof fn lemma_user_filter_ends_in_tautology(f: UserFilter)
    ensures
        f.spec_text().len() >= tautology_text().len(),
        f.spec_text().skip(f.spec_text().len() - tautology_text().len()) == tautology_text(),
{
    let a = opt_eq_text("users.username"@, f.username) + opt_eq_text("users.email"@, f.email)
        + opt_eq_text("users.password"@, f.password);
    assert(f.spec_text() =~= a + tautology_text());
    lemma_concat_suffix(a, tautology_text());
}

/// Law: a rendered update-user-filter predicate terminates in the
/// tautological conjunct, whichever subset of its optional fields is set.
pub proof fn lemma_update_user_filter_ends_in_tautology(f: UpdateUserFilter)
    ensures
        f.spec_text().len() >= tautology_text().len(),
        f.spec_text().skip(f.spec_text().len() - tautology_text().len()) == tautology_text(),
{
    let a = opt_eq_text("users.username"@, f.username) + opt_eq_text("users.email"@, f.email);
    assert(f.spec_text() =~= a + tautology_text());
    lemma_concat_suffix(a, tautology_text());
}

/// Law: a rendered article-filter predicate terminates in the tautological
/// conjunct, whichever subset of its optional fields is set.
pub proof fn lemma_article_filter_ends_in_tautology(f: ArticleFilterByValues)
    ensures
        f.spec_text().len() >= tautology_text().len(),
        f.spec_text().skip(f.spec_text().len() - tautology_text().len()) == tautology_text(),
{
    let a = opt_eq_text("author"@, f.author) + opt_eq_text("slug"@, f.slug) + opt_like_text(
        "tagList"@,
        f.tag,
    ) + opt_eq_text("favorite_articles.username"@, f.favorited);
    assert(f.spec_text() =~= a + tautology_text());
    lemma_concat_suffix(a, tautology_text());
}

/// Law: a rendered feed-filter predicate terminates in the tautological
/// conjunct.
pub proof fn lemma_feed_filter_ends_in_tautology(f: ArticleFilterFeed)
    ensures
        f.spec_text().len() >= tautology_text().len(),
        f.spec_text().skip(f.spec_text().len() - tautology_text().len()) == tautology_text(),
{
    let a = in_subquery_conjunct_text(
        "author"@,
        "SELECT celeb_name FROM followers WHERE follower_name=?"@,
    );
    assert(f.spec_text() =~= a + tautology_text());
    lemma_concat_suffix(a, tautology_text());
}

/// Law: a rendered scoped-mutation predicate terminates in the tautological
/// conjunct.
pub proof fn lemma_update_article_filter_ends_in_tautology(f: UpdateArticleFilter)
    ensures
        f.spec_text().len() >= tautology_text().len(),
        f.spec_text().skip(f.spec_text().len() - tautology_text().len()) == tautology_text(),
{
    let a = eq_conjunct_text("slug"@) + eq_conjunct_text("author"@);
    assert(f.spec_text() =~= a + tautology_text());
    lemma_concat_suffix(a, tautology_text());
}

/// Law: a rendered comment-filter predicate terminates in the tautological
/// conjunct, whichever subset of its optional fields is set.
pub proof fn lemma_comment_filter_ends_in_tautology(f: CommentFilterByValues)
    ensures
        f.spec_text().len() >= tautology_text().len(),
        f.spec_text().skip(f.spec_text().len() - tautology_text().len()) == tautology_text(),
{
    let a = opt_eq_int_text("id"@, f.id) + opt_eq_text("author"@, f.author) + match f.article_slug {
        Some(_) => in_subquery_conjunct_text("article_id"@, "SELECT id FROM articles WHERE slug=?"@),
        None => Seq::<char>::empty(),
    };
    assert(f.spec_text() =~= a + tautology_text());
    lemma_concat_suffix(a, tautology_text());
}

} // verus!
