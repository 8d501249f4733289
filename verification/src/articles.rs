//! Article storage: creation, the scoped update and delete that the
//! deferred-authorization protocol builds on, and the favorite relation.

use vstd::prelude::*;
use crate::filters::{ArticleFilterByValues, UpdateArticleFilter};
use crate::models::UpdateArticle;
use crate::slug::slug_of;
use crate::store::{Store, ArticleRow, CommentRow, Favorite, same_article_row, clone_opt_string,
    clone_string_vec};
use crate::text::is_substring;

verus! {

/// Whether some article in `articles` has the given slug.
pub open spec fn has_slug(articles: Seq<ArticleRow>, slug: Seq<char>) -> bool {
    exists|i: int| 0 <= i < articles.len() && articles[i].slug@ == slug
}

/// The number of favorite relations an article has.
pub open spec fn fav_count(favorites: Seq<Favorite>, id: u32) -> nat
    decreases favorites.len(),
{
    if favorites.len() == 0 {
        0
    } else {
        fav_count(favorites.drop_last(), id) + if favorites.last().article_id == id {
            1nat
        } else {
            0nat
        }
    }
}

/// Whether `username` favorited the article with id `id`.
pub open spec fn fav_pair_in(favorites: Seq<Favorite>, id: u32, username: Seq<char>) -> bool {
    exists|i: int|
        0 <= i < favorites.len() && favorites[i].article_id == id && favorites[i].username@
            == username
}

/// Whether an article satisfies every constraint the filter sets; a filter
/// with no fields set matches every article.
pub open spec fn article_matches(
    f: ArticleFilterByValues,
    row: ArticleRow,
    favorites: Seq<Favorite>,
) -> bool {
    &&& (f.author matches Some(v) ==> row.author@ == v@)
    &&& (f.slug matches Some(v) ==> row.slug@ == v@)
    &&& (f.tag matches Some(v) ==> exists|t: int|
        0 <= t < row.tag_list@.len() && is_substring(row.tag_list@[t]@, v@))
    &&& (f.favorited matches Some(v) ==> fav_pair_in(favorites, row.id, v@))
    &&& true
}

/// Whether an article row matches a scoped-mutation filter: the slug
/// selector and the owner constraint together.
pub open spec fn scoped_matches(f: UpdateArticleFilter, row: ArticleRow) -> bool {
    row.slug@ == f.slug@ && row.author@ == f.author@
}

/// Whether `row2` is `row` with the update applied at instant `now`: a set
/// title replaces the title and regenerates the slug, set description and
/// body replace theirs, everything else is kept, and the update instant is
/// recorded.
pub open spec fn article_updated(
    row: ArticleRow,
    up: UpdateArticle,
    now: i64,
    row2: ArticleRow,
) -> bool {
    &&& row2.id == row.id
    &&& row2.created_at == row.created_at
    &&& row2.author == row.author
    &&& row2.tag_list@ == row.tag_list@
    &&& row2.updated_at == now
    &&& (up.title matches Some(t) ==> row2.title == t && row2.slug@ == slug_of(t@))
    &&& (up.title is None ==> row2.title == row.title && row2.slug == row.slug)
    &&& (up.description matches Some(d) ==> row2.description == Some(d))
    &&& (up.description is None ==> row2.description == row.description)
    &&& (up.body matches Some(b) ==> row2.body == b)
    &&& (up.body is None ==> row2.body == row.body)
}

/// The outcome of a scoped article update.
pub enum UpdateArticleOutcome {
    /// Exactly this article was updated.
    Updated(ArticleRow),
    /// No article matched the selector and owner constraint together;
    /// nothing changed.
    NoMatch,
    /// The regenerated slug is taken by another article; nothing changed.
    SlugTaken,
}

impl Store {
    /// The position of the article with the given slug, if any; under the
    /// invariant that position is unique.
    pub(crate) fn find_article_by_slug(&self, slug: &str) -> (r: Option<usize>)
        ensures
            r matches Some(i) ==> 0 <= i < self.articles@.len() && self.articles@[i as int].slug@
                == slug@,
            (r is Some) == has_slug(self.articles@, slug@),
    {
        let n = self.articles.len();
        let mut k: usize = 0;
        while k < n
            invariant
                0 <= k <= n,
                n == self.articles@.len(),
                forall|m: int| 0 <= m < k ==> (#[trigger] self.articles@[m]).slug@ != slug@,
            decreases n - k,
        {
            if crate::text::str_eq(self.articles[k].slug.as_str(), slug) {
                return Some(k);
            }
            k += 1;
        }
        None
    }

    /// The position of the article matching a scoped-mutation filter, if
    /// any; under the invariant that position is unique.
    fn find_scoped_article(&self, filter: &UpdateArticleFilter) -> (r: Option<usize>)
        ensures
            r matches Some(i) ==> 0 <= i < self.articles@.len() && scoped_matches(
                *filter,
                self.articles@[i as int],
            ),
            r is None ==> forall|m: int|
                0 <= m < self.articles@.len() ==> !scoped_matches(*filter, self.articles@[m]),
    {
        let n = self.articles.len();
        let mut k: usize = 0;
        while k < n
            invariant
                0 <= k <= n,
                n == self.articles@.len(),
                forall|m: int| 0 <= m < k ==> !scoped_matches(*filter, self.articles@[m]),
            decreases n - k,
        {
            if crate::text::str_eq(self.articles[k].slug.as_str(), filter.slug.as_str())
                && crate::text::str_eq(self.articles[k].author.as_str(), filter.author.as_str()) {
                return Some(k);
            }
            k += 1;
        }
        None
    }

    /// The article with the given slug, if any.
    pub fn get_article_row(&self, slug: &str) -> (r: Option<ArticleRow>)
        ensures
            (r is Some) == has_slug(self.articles@, slug@),
            r matches Some(row) ==> exists|i: int|
                0 <= i < self.articles@.len() && self.articles@[i].slug@ == slug@
                    && same_article_row(row, self.articles@[i]),
    {
        match self.find_article_by_slug(slug) {
            Some(i) => Some(self.articles[i].clone()),
            None => None,
        }
    }

    /// Creates an article: succeeds exactly when the slug is not yet taken
    /// and an id is available, and then appends the row stamped with `now`;
    /// otherwise nothing changes.
    pub fn create_article(
        &mut self,
        slug: String,
        title: String,
        description: Option<String>,
        body: String,
        tag_list: Vec<String>,
        author: String,
        now: i64,
    ) -> (r: Result<u32, ()>)
        requires
            old(self).inv(),
        ensures
            final(self).inv(),
            (r is Ok) == (!has_slug(old(self).articles@, slug@) && old(self).next_article_id
                < u32::MAX),
            r matches Ok(id) ==> {
                &&& id == old(self).next_article_id
                &&& final(self).articles@ == old(self).articles@.push(
                    ArticleRow {
                        id,
                        slug,
                        title,
                        description,
                        body,
                        tag_list,
                        created_at: now,
                        updated_at: now,
                        author,
                    },
                )
                &&& final(self).next_article_id == old(self).next_article_id + 1
            },
            r is Err ==> final(self).articles@ == old(self).articles@
                && final(self).next_article_id == old(self).next_article_id,
            final(self).users@ == old(self).users@,
            final(self).follows@ == old(self).follows@,
            final(self).favorites@ == old(self).favorites@,
            final(self).comments@ == old(self).comments@,
            final(self).next_comment_id == old(self).next_comment_id,
    {
        if self.next_article_id == u32::MAX {
            return Err(());
        }
        match self.find_article_by_slug(slug.as_str()) {
            Some(_) => Err(()),
            None => {
                let id = self.next_article_id;
                self.articles.push(
                    ArticleRow {
                        id,
                        slug,
                        title,
                        description,
                        body,
                        tag_list,
                        created_at: now,
                        updated_at: now,
                        author,
                    },
                );
                self.next_article_id = id + 1;
                Ok(id)
            },
        }
    }

    /// Decides whether any article other than the one at `excluded` has
    /// the given slug.
    fn slug_taken_by_other(&self, excluded: usize, slug: &String) -> (r: bool)
        ensures
            r == exists|j: int|
                0 <= j < self.articles@.len() && j != excluded && self.articles@[j].slug@
                    == slug@,
    {
        let n = self.articles.len();
        let mut k: usize = 0;
        while k < n
            invariant
                0 <= k <= n,
                n == self.articles@.len(),
                forall|m: int|
                    0 <= m < k && m != excluded ==> (#[trigger] self.articles@[m]).slug@
                        != slug@,
            decreases n - k,
        {
            if k != excluded && crate::text::str_eq(self.articles[k].slug.as_str(), slug.as_str())
                {
                return true;
            }
            k += 1;
        }
        false
    }

    /// The scoped update: applies the changes to the article matching both
    /// the slug selector and the owner constraint, stamping `now`. When no
    /// row matches both, nothing changes and the caller learns only that
    /// zero rows were affected; diagnosing why is the protocol's business.
    pub fn update_article(&mut self, update: &UpdateArticle, filter: &UpdateArticleFilter, now: i64) -> (r:
        UpdateArticleOutcome)
        requires
            old(self).inv(),
        ensures
            final(self).inv(),
            r is NoMatch ==> final(self).articles@ == old(self).articles@ && forall|m: int|
                0 <= m < old(self).articles@.len() ==> !scoped_matches(
                    *filter,
                    old(self).articles@[m],
                ),
            r is SlugTaken ==> final(self).articles@ == old(self).articles@
                && (update.title matches Some(t) && exists|i: int, j: int|
                #![trigger old(self).articles@[i], old(self).articles@[j]]
                {
                    &&& 0 <= i < old(self).articles@.len()
                    &&& 0 <= j < old(self).articles@.len()
                    &&& i != j
                    &&& scoped_matches(*filter, old(self).articles@[i])
                    &&& old(self).articles@[j].slug@ == slug_of(t@)
                }),
            !(r is NoMatch) ==> exists|i: int|
                0 <= i < old(self).articles@.len() && scoped_matches(
                    *filter,
                    old(self).articles@[i],
                ),
            r matches UpdateArticleOutcome::Updated(row) ==> exists|i: int|
                {
                    &&& 0 <= i < old(self).articles@.len()
                    &&& scoped_matches(*filter, old(self).articles@[i])
                    &&& article_updated(
                        old(self).articles@[i],
                        *update,
                        now,
                        final(self).articles@[i],
                    )
                    &&& same_article_row(row, final(self).articles@[i])
                    &&& final(self).articles@ == old(self).articles@.update(
                        i,
                        final(self).articles@[i],
                    )
                    &&& (update.title matches Some(t) ==> forall|j: int|
                        0 <= j < old(self).articles@.len() && j != i ==> (#[trigger] old(
                            self,
                        ).articles@[j]).slug@ != slug_of(t@))
                },
            final(self).users@ == old(self).users@,
            final(self).follows@ == old(self).follows@,
            final(self).favorites@ == old(self).favorites@,
            final(self).comments@ == old(self).comments@,
            final(self).next_article_id == old(self).next_article_id,
            final(self).next_comment_id == old(self).next_comment_id,
    {
        let i = match self.find_scoped_article(filter) {
            Some(i) => i,
            None => {
                return UpdateArticleOutcome::NoMatch;
            },
        };
        let current = &self.articles[i];
        let (new_title, new_slug) = match &update.title {
            Some(t) => (t.clone(), crate::slug::slugify_title(t.as_str())),
            None => (current.title.clone(), current.slug.clone()),
        };
        if update.title.is_some() {
            // the regenerated slug must not collide with another article
            if self.slug_taken_by_other(i, &new_slug) {
                return UpdateArticleOutcome::SlugTaken;
            }
        }
        let current = &self.articles[i];
        let updated = ArticleRow {
            id: current.id,
            slug: new_slug,
            title: new_title,
            description: match &update.description {
                Some(d) => Some(d.clone()),
                None => clone_opt_string(&current.description),
            },
            body: match &update.body {
                Some(b) => b.clone(),
                None => current.body.clone(),
            },
            tag_list: clone_string_vec(&current.tag_list),
            created_at: current.created_at,
            updated_at: now,
            author: current.author.clone(),
        };
        let result = updated.clone();
        self.articles.set(i, updated);
        UpdateArticleOutcome::Updated(result)
    }

    /// The favorite relations that do not reference the given article.
    fn favorites_without_article(&self, id: u32) -> (r: Vec<Favorite>)
        ensures
            r@ == self.favorites@.filter(|fv: Favorite| fv.article_id != id),
    {
        let ghost pred = |fv: Favorite| fv.article_id != id;
        let mut kept: Vec<Favorite> = Vec::new();
        let n = self.favorites.len();
        let mut k: usize = 0;
        while k < n
            invariant
                0 <= k <= n,
                n == self.favorites@.len(),
                pred == (|fv: Favorite| fv.article_id != id),
                kept@ == self.favorites@.subrange(0, k as int).filter(pred),
            decreases n - k,
        {
            let ghost prefix = self.favorites@.subrange(0, k as int);
            if self.favorites[k].article_id != id {
                kept.push(self.favorites[k].clone());
            }
            proof {
                reveal(Seq::filter);
                assert(self.favorites@.subrange(0, k + 1) =~= prefix.push(
                    self.favorites@[k as int],
                ));
                assert(prefix.push(self.favorites@[k as int]).drop_last() =~= prefix);
            }
            k += 1;
        }
        proof {
            assert(self.favorites@.subrange(0, n as int) =~= self.favorites@);
        }
        kept
    }

    /// The comments that do not reference the given article.
    fn comments_without_article(&self, id: u32) -> (r: Vec<CommentRow>)
        ensures
            r@ == self.comments@.filter(|c: CommentRow| c.article_id != id),
    {
        let ghost pred = |c: CommentRow| c.article_id != id;
        let mut kept: Vec<CommentRow> = Vec::new();
        let n = self.comments.len();
        let mut k: usize = 0;
        while k < n
            invariant
                0 <= k <= n,
                n == self.comments@.len(),
                pred == (|c: CommentRow| c.article_id != id),
                kept@ == self.comments@.subrange(0, k as int).filter(pred),
            decreases n - k,
        {
            let ghost prefix = self.comments@.subrange(0, k as int);
            if self.comments[k].article_id != id {
                kept.push(self.comments[k].clone());
            }
            proof {
                reveal(Seq::filter);
                assert(self.comments@.subrange(0, k + 1) =~= prefix.push(
                    self.comments@[k as int],
                ));
                assert(prefix.push(self.comments@[k as int]).drop_last() =~= prefix);
            }
            k += 1;
        }
        proof {
            assert(self.comments@.subrange(0, n as int) =~= self.comments@);
        }
        kept
    }

    /// The scoped delete: removes the article matching both the slug
    /// selector and the owner constraint, together with its favorite
    /// relations and comments, and reports how many articles were removed.
    /// When no row matches both, nothing changes and the count is zero.
    pub fn delete_article(&mut self, filter: &UpdateArticleFilter) -> (rows: usize)
        requires
            old(self).inv(),
        ensures
            final(self).inv(),
            rows <= 1,
            (rows == 0) == (forall|m: int|
                0 <= m < old(self).articles@.len() ==> !scoped_matches(
                    *filter,
                    old(self).articles@[m],
                )),
            rows == 0 ==> final(self).articles@ == old(self).articles@ && final(self).favorites@
                == old(self).favorites@ && final(self).comments@ == old(self).comments@,
            rows == 1 ==> exists|i: int|
                {
                    &&& 0 <= i < old(self).articles@.len()
                    &&& scoped_matches(*filter, old(self).articles@[i])
                    &&& final(self).articles@ == old(self).articles@.remove(i)
                    &&& final(self).favorites@ == old(self).favorites@.filter(
                        |fv: Favorite| fv.article_id != old(self).articles@[i].id,
                    )
                    &&& final(self).comments@ == old(self).comments@.filter(
                        |c: CommentRow| c.article_id != old(self).articles@[i].id,
                    )
                },
            final(self).users@ == old(self).users@,
            final(self).follows@ == old(self).follows@,
            final(self).next_article_id == old(self).next_article_id,
            final(self).next_comment_id == old(self).next_comment_id,
    {
        let i = match self.find_scoped_article(filter) {
            Some(i) => i,
            None => {
                return 0;
            },
        };
        let id = self.articles[i].id;
        let new_favorites = self.favorites_without_article(id);
        let new_comments = self.comments_without_article(id);
        proof {
            lemma_filter_favorites_distinct(
                self.favorites@,
                |fv: Favorite| fv.article_id != id,
            );
            lemma_filter_comments_sorted(self.comments@, |c: CommentRow| c.article_id != id);
        }
        self.favorites = new_favorites;
        self.comments = new_comments;
        proof {
            lemma_filter_subset(old(self).comments@, |c: CommentRow| c.article_id != id);
            assert forall|k: int|
                0 <= k < self.comments@.len() implies (#[trigger] self.comments@[k]).id
                < self.next_comment_id by {
                let c = self.comments@[k];
                assert(old(self).comments@.filter(|c: CommentRow| c.article_id != id).contains(
                    c,
                ));
                assert(old(self).comments@.contains(c));
                let m = choose|m: int|
                    0 <= m < old(self).comments@.len() && old(self).comments@[m] == c;
            }
        }
        self.articles.remove(i);
        proof {
            assert(forall|k: int|
                0 <= k < i ==> self.articles@[k] == old(self).articles@[k]);
            assert(forall|k: int|
                i <= k < self.articles@.len() ==> self.articles@[k] == old(self).articles@[
                    k + 1]);
        }
        1
    }

    /// Makes `username` favorite the article with the given slug: inserts
    /// the relation if it is absent, leaves the store unchanged if it is
    /// already present. Fails (with nothing changed) only when no such
    /// article exists. Repeating the operation is a no-op.
    pub fn favorite_article(&mut self, slug: &str, username: &str) -> (r: bool)
        requires
            old(self).inv(),
        ensures
            final(self).inv(),
            r == has_slug(old(self).articles@, slug@),
            !r ==> final(self).favorites@ == old(self).favorites@,
            r ==> exists|i: int|
                {
                    &&& 0 <= i < old(self).articles@.len()
                    &&& old(self).articles@[i].slug@ == slug@
                    &&& {
                        let id = old(self).articles@[i].id;
                        &&& fav_pair_in(old(self).favorites@, id, username@)
                            ==> final(self).favorites@ == old(self).favorites@
                        &&& !fav_pair_in(old(self).favorites@, id, username@) ==> {
                            &&& final(self).favorites@.len() == old(self).favorites@.len() + 1
                            &&& final(self).favorites@.subrange(
                                0,
                                old(self).favorites@.len() as int,
                            ) == old(self).favorites@
                            &&& final(self).favorites@.last().article_id == id
                            &&& final(self).favorites@.last().username@ == username@
                        }
                        &&& fav_pair_in(final(self).favorites@, id, username@)
                    }
                },
            final(self).users@ == old(self).users@,
            final(self).follows@ == old(self).follows@,
            final(self).articles@ == old(self).articles@,
            final(self).comments@ == old(self).comments@,
            final(self).next_article_id == old(self).next_article_id,
            final(self).next_comment_id == old(self).next_comment_id,
    {
        let i = match self.find_article_by_slug(slug) {
            Some(i) => i,
            None => {
                return false;
            },
        };
        let id = self.articles[i].id;
        if self.find_favorite_index(id, username).is_none() {
            self.favorites.push(Favorite { article_id: id, username: username.to_owned() });
            assert(self.favorites@.subrange(0, old(self).favorites@.len() as int) =~= old(
                self,
            ).favorites@);
        }
        true
    }

    /// The position of the favorite relation, if it is present.
    pub(crate) fn find_favorite_index(&self, id: u32, username: &str) -> (r: Option<usize>)
        ensures
            r matches Some(i) ==> 0 <= i < self.favorites@.len()
                && self.favorites@[i as int].article_id == id
                && self.favorites@[i as int].username@ == username@,
            (r is Some) == fav_pair_in(self.favorites@, id, username@),
    {
        let n = self.favorites.len();
        let mut k: usize = 0;
        while k < n
            invariant
                0 <= k <= n,
                n == self.favorites@.len(),
                forall|m: int|
                    0 <= m < k ==> !((#[trigger] self.favorites@[m]).article_id == id
                        && self.favorites@[m].username@ == username@),
            decreases n - k,
        {
            if self.favorites[k].article_id == id && crate::text::str_eq(
                self.favorites[k].username.as_str(),
                username,
            ) {
                return Some(k);
            }
            k += 1;
        }
        None
    }

    /// Makes `username` no longer favorite the article with the given slug:
    /// removes the relation if it is present, leaves the store unchanged if
    /// it is absent. Fails (with nothing changed) only when no such article
    /// exists. Repeating the operation is a no-op.
    pub fn unfavorite_article(&mut self, slug: &str, username: &str) -> (r: bool)
        requires
            old(self).inv(),
        ensures
            final(self).inv(),
            r == has_slug(old(self).articles@, slug@),
            !r ==> final(self).favorites@ == old(self).favorites@,
            r ==> exists|i: int|
                {
                    &&& 0 <= i < old(self).articles@.len()
                    &&& old(self).articles@[i].slug@ == slug@
                    &&& {
                        let id = old(self).articles@[i].id;
                        &&& !fav_pair_in(old(self).favorites@, id, username@)
                            ==> final(self).favorites@ == old(self).favorites@
                        &&& fav_pair_in(old(self).favorites@, id, username@) ==> exists|j: int|
                            {
                                &&& 0 <= j < old(self).favorites@.len()
                                &&& old(self).favorites@[j].article_id == id
                                &&& old(self).favorites@[j].username@ == username@
                                &&& final(self).favorites@ == old(self).favorites@.remove(j)
                            }
                        &&& !fav_pair_in(final(self).favorites@, id, username@)
                    }
                },
            final(self).users@ == old(self).users@,
            final(self).follows@ == old(self).follows@,
            final(self).articles@ == old(self).articles@,
            final(self).comments@ == old(self).comments@,
            final(self).next_article_id == old(self).next_article_id,
            final(self).next_comment_id == old(self).next_comment_id,
    {
        let i = match self.find_article_by_slug(slug) {
            Some(i) => i,
            None => {
                return false;
            },
        };
        let id = self.articles[i].id;
        if let Some(j) = self.find_favorite_index(id, username) {
            self.favorites.remove(j);
            proof {
                if fav_pair_in(self.favorites@, id, username@) {
                    let m = choose|m: int|
                        0 <= m < self.favorites@.len() && self.favorites@[m].article_id == id
                            && self.favorites@[m].username@ == username@;
                    if m < j {
                        assert(old(self).favorites@[m].article_id == id);
                        assert(old(self).favorites@[m].username@ == username@);
                    } else {
                        assert(old(self).favorites@[m + 1].article_id == id);
                        assert(old(self).favorites@[m + 1].username@ == username@);
                    }
                }
            }
        }
        true
    }
}

/// Every element of a filtered sequence is an element of the original.
pub(crate) proof fn lemma_filter_subset<A>(s: Seq<A>, pred: spec_fn(A) -> bool)
    ensures
        forall|x: A| #[trigger] s.filter(pred).contains(x) ==> s.contains(x),
    decreases s.len(),
{
    reveal(Seq::filter);
    if s.len() > 0 {
        let prefix = s.drop_last();
        lemma_filter_subset(prefix, pred);
        assert forall|x: A| s.filter(pred).contains(x) implies s.contains(x) by {
            if pred(s.last()) {
                assert(s.filter(pred) == prefix.filter(pred).push(s.last()));
                if x == s.last() {
                    assert(s[s.len() - 1] == x);
                } else {
                    assert(prefix.filter(pred).contains(x));
                    assert(prefix.contains(x));
                    let m = choose|m: int| 0 <= m < prefix.len() && prefix[m] == x;
                    assert(s[m] == x);
                }
            } else {
                assert(s.filter(pred) == prefix.filter(pred));
                assert(prefix.contains(x));
                let m = choose|m: int| 0 <= m < prefix.len() && prefix[m] == x;
                assert(s[m] == x);
            }
        }
    }
}

/// Filtering a pairwise-distinct favorite relation keeps it pairwise
/// distinct, since every kept element comes from the original.
proof fn lemma_filter_favorites_distinct(s: Seq<Favorite>, pred: spec_fn(Favorite) -> bool)
    requires
        forall|i: int, j: int|
            #![trigger s[i], s[j]]
            0 <= i < j < s.len() ==> !(s[i].article_id == s[j].article_id && s[i].username@
                == s[j].username@),
    ensures
        forall|i: int, j: int|
            #![trigger s.filter(pred)[i], s.filter(pred)[j]]
            0 <= i < j < s.filter(pred).len() ==> !(s.filter(pred)[i].article_id == s.filter(
                pred,
            )[j].article_id && s.filter(pred)[i].username@ == s.filter(pred)[j].username@),
    decreases s.len(),
{
    reveal(Seq::filter);
    if s.len() > 0 {
        let prefix = s.drop_last();
        assert(forall|i: int| 0 <= i < prefix.len() ==> prefix[i] == s[i]);
        lemma_filter_favorites_distinct(prefix, pred);
        lemma_filter_subset(prefix, pred);
        let f = s.filter(pred);
        let fp = prefix.filter(pred);
        if pred(s.last()) {
            assert(f == fp.push(s.last()));
            assert forall|i: int, j: int|
                0 <= i < j < f.len() implies !(f[i].article_id == f[j].article_id
                && f[i].username@ == f[j].username@) by {
                if j < fp.len() {
                    assert(f[i] == fp[i] && f[j] == fp[j]);
                } else {
                    assert(f[j] == s.last());
                    assert(f[i] == fp[i]);
                    assert(fp.contains(fp[i]));
                    assert(prefix.contains(fp[i]));
                    let m = choose|m: int| 0 <= m < prefix.len() && prefix[m] == fp[i];
                    assert(s[m] == fp[i]);
                    assert(s.last() == s[s.len() - 1]);
                }
            }
        } else {
            assert(f == fp);
        }
    }
}

/// Filtering a comment list sorted strictly by id keeps it sorted, since
/// every kept element comes from the original.
pub(crate) proof fn lemma_filter_comments_sorted(s: Seq<CommentRow>, pred: spec_fn(CommentRow) -> bool)
    requires
        forall|i: int, j: int|
            #![trigger s[i], s[j]]
            0 <= i < j < s.len() ==> s[i].id < s[j].id,
    ensures
        forall|i: int, j: int|
            #![trigger s.filter(pred)[i], s.filter(pred)[j]]
            0 <= i < j < s.filter(pred).len() ==> s.filter(pred)[i].id < s.filter(pred)[j].id,
    decreases s.len(),
{
    reveal(Seq::filter);
    if s.len() > 0 {
        let prefix = s.drop_last();
        assert(forall|i: int| 0 <= i < prefix.len() ==> prefix[i] == s[i]);
        lemma_filter_comments_sorted(prefix, pred);
        lemma_filter_subset(prefix, pred);
        let f = s.filter(pred);
        let fp = prefix.filter(pred);
        if pred(s.last()) {
            assert(f == fp.push(s.last()));
            assert forall|i: int, j: int| 0 <= i < j < f.len() implies f[i].id < f[j].id by {
                if j < fp.len() {
                    assert(f[i] == fp[i] && f[j] == fp[j]);
                } else {
                    assert(f[j] == s.last());
                    assert(f[i] == fp[i]);
                    assert(fp.contains(fp[i]));
                    assert(prefix.contains(fp[i]));
                    let m = choose|m: int| 0 <= m < prefix.len() && prefix[m] == fp[i];
                    assert(s[m] == fp[i]);
                    assert(s.last() == s[s.len() - 1]);
                }
            }
        } else {
            assert(f == fp);
        }
    }
}

} // verus!
