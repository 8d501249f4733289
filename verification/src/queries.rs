//! Article queries: a query is fully specified by a predicate filter, an
//! ordering and a pagination window, and returns article responses with the
//! derived favorite fields and the author's profile attached.

use vstd::prelude::*;
use vstd::multiset::Multiset;
use crate::articles::{article_matches, fav_count, has_slug};
use crate::filters::{ArticleFilterByValues, LimitOffsetFilter, OrderByFilter, OrderColumn};
use crate::models::{Article, ArticleResponse};
use crate::store::{ArticleRow, Favorite, Follow, Store, clone_opt_string, clone_string_vec,
    follow_pair_in, has_username};
use crate::models::User;

verus! {

/// Whether a returned article carries the data of a stored row, with the
/// favorite fields derived from the favorite relations.
pub open spec fn article_data_matches(a: Article, row: ArticleRow, favorites: Seq<Favorite>) -> bool {
    &&& a.slug == row.slug
    &&& a.title == row.title
    &&& a.description == row.description
    &&& a.body == row.body
    &&& a.tag_list@ == row.tag_list@
    &&& a.created_at == row.created_at
    &&& a.updated_at == row.updated_at
    &&& a.favorited == (fav_count(favorites, row.id) > 0)
    &&& a.favorites_count == fav_count(favorites, row.id)
    &&& a.author == row.author
}

/// Whether an article response is the projection of a stored row: the data
/// with derived fields, plus the author's profile exactly when the author
/// is a known user.
pub open spec fn response_matches(
    resp: ArticleResponse,
    row: ArticleRow,
    favorites: Seq<Favorite>,
    users: Seq<User>,
) -> bool {
    &&& article_data_matches(resp.article, row, favorites)
    &&& (resp.author is Some) == has_username(users, row.author@)
    &&& (resp.author matches Some(p) ==> p.username@ == row.author@)
}

/// Whether a response is the projection of some stored article the filter
/// matches.
pub open spec fn represents_matching_article(
    resp: ArticleResponse,
    f: ArticleFilterByValues,
    articles: Seq<ArticleRow>,
    favorites: Seq<Favorite>,
    users: Seq<User>,
) -> bool {
    exists|i: int|
        0 <= i < articles.len() && article_matches(f, #[trigger] articles[i], favorites)
            && response_matches(resp, articles[i], favorites, users)
}

/// Whether a response is the projection of some stored article in the
/// follower's feed.
pub open spec fn represents_feed_article(
    resp: ArticleResponse,
    follower: Seq<char>,
    articles: Seq<ArticleRow>,
    favorites: Seq<Favorite>,
    users: Seq<User>,
    follows: Seq<Follow>,
) -> bool {
    exists|i: int|
        0 <= i < articles.len() && feed_matches(follower, #[trigger] articles[i], follows)
            && response_matches(resp, articles[i], favorites, users)
}

/// Whether some response in the list is the projection of the given stored
/// article.
pub open spec fn some_response_matches(
    r: Seq<ArticleResponse>,
    row: ArticleRow,
    favorites: Seq<Favorite>,
    users: Seq<User>,
) -> bool {
    exists|k: int| 0 <= k < r.len() && response_matches(#[trigger] r[k], row, favorites, users)
}

/// The ordering key a column reads off a stored article.
pub open spec fn article_order_key(c: OrderColumn, row: ArticleRow) -> int {
    match c {
        OrderColumn::CreatedAt => row.created_at as int,
        OrderColumn::UpdatedAt => row.updated_at as int,
        OrderColumn::Id => row.id as int,
    }
}

/// The ordering key a column reads off a returned article; the id column is
/// not part of a returned article.
pub open spec fn article_resp_key(c: OrderColumn, a: Article) -> int {
    match c {
        OrderColumn::CreatedAt => a.created_at as int,
        OrderColumn::UpdatedAt => a.updated_at as int,
        OrderColumn::Id => 0,
    }
}

/// Whether an article's author is among those the follower follows: the
/// feed constraint.
pub open spec fn feed_matches(follower: Seq<char>, row: ArticleRow, follows: Seq<Follow>) -> bool {
    follow_pair_in(follows, follower, row.author@)
}

/// The page a pagination filter selects from a sequence: the window that
/// starts at the offset (clipped to the sequence) and spans at most the
/// limit.
pub open spec fn spec_paginate(s: Seq<usize>, lo: LimitOffsetFilter) -> Seq<usize> {
    let off = match lo.offset {
        Some(o) => if o < 0 {
            0int
        } else if o as int > s.len() {
            s.len() as int
        } else {
            o as int
        },
        None => 0int,
    };
    let end = match lo.limit {
        Some(l) => if l < 0 {
            off
        } else if off + l as int > s.len() {
            s.len() as int
        } else {
            off + l as int
        },
        None => s.len() as int,
    };
    s.subrange(off, end)
}

/// Whether `sel` enumerates exactly the positions of the articles the
/// filter matches, each once, ordered as the ordering filter asks (store
/// order when unordered). Together with [`paged_projection`] this pins the
/// returned window: a query is fully specified by predicate, ordering and
/// pagination.
pub open spec fn article_selection(
    sel: Seq<usize>,
    f: ArticleFilterByValues,
    order: OrderByFilter,
    articles: Seq<ArticleRow>,
    favorites: Seq<Favorite>,
) -> bool {
    &&& forall|k: int|
        0 <= k < sel.len() ==> (#[trigger] sel[k]) < articles.len() && article_matches(
            f,
            articles[sel[k] as int],
            favorites,
        )
    &&& forall|k1: int, k2: int|
        #![trigger sel[k1], sel[k2]]
        0 <= k1 < k2 < sel.len() ==> sel[k1] != sel[k2]
    &&& forall|i: int|
        0 <= i < articles.len() && article_matches(f, #[trigger] articles[i], favorites)
            ==> exists|k: int| 0 <= k < sel.len() && sel[k] as int == i
    &&& (match order {
        OrderByFilter::Unordered => forall|k1: int, k2: int|
            #![trigger sel[k1], sel[k2]]
            0 <= k1 < k2 < sel.len() ==> sel[k1] < sel[k2],
        OrderByFilter::Ascending(c) => forall|k1: int, k2: int|
            #![trigger sel[k1], sel[k2]]
            0 <= k1 < k2 < sel.len() ==> article_order_key(c, articles[sel[k1] as int])
                <= article_order_key(c, articles[sel[k2] as int]),
        OrderByFilter::Descending(c) => forall|k1: int, k2: int|
            #![trigger sel[k1], sel[k2]]
            0 <= k1 < k2 < sel.len() ==> article_order_key(c, articles[sel[k1] as int])
                >= article_order_key(c, articles[sel[k2] as int]),
    })
}

/// Whether `sel` enumerates exactly the positions of the follower's feed,
/// each once, newest update first.
pub open spec fn feed_selection(
    sel: Seq<usize>,
    follower: Seq<char>,
    articles: Seq<ArticleRow>,
    follows: Seq<Follow>,
) -> bool {
    &&& forall|k: int|
        0 <= k < sel.len() ==> (#[trigger] sel[k]) < articles.len() && feed_matches(
            follower,
            articles[sel[k] as int],
            follows,
        )
    &&& forall|k1: int, k2: int|
        #![trigger sel[k1], sel[k2]]
        0 <= k1 < k2 < sel.len() ==> sel[k1] != sel[k2]
    &&& forall|i: int|
        0 <= i < articles.len() && feed_matches(follower, #[trigger] articles[i], follows)
            ==> exists|k: int| 0 <= k < sel.len() && sel[k] as int == i
    &&& forall|k1: int, k2: int|
        #![trigger sel[k1], sel[k2]]
        0 <= k1 < k2 < sel.len() ==> article_order_key(
            OrderColumn::UpdatedAt,
            articles[sel[k1] as int],
        ) >= article_order_key(OrderColumn::UpdatedAt, articles[sel[k2] as int])
}

/// Whether the responses are exactly the projection of the page the
/// pagination filter selects from `sel`.
pub open spec fn paged_projection(
    r: Seq<ArticleResponse>,
    sel: Seq<usize>,
    lo: LimitOffsetFilter,
    articles: Seq<ArticleRow>,
    favorites: Seq<Favorite>,
    users: Seq<User>,
) -> bool {
    let page = spec_paginate(sel, lo);
    &&& r.len() == page.len()
    &&& forall|k: int|
        #![trigger r[k]]
        0 <= k < r.len() ==> page[k] < articles.len() && response_matches(
            r[k],
            articles[page[k] as int],
            favorites,
            users,
        )
}

/// Selects the page a pagination filter asks for.
pub(crate) fn paginate_indexes(idxs: &Vec<usize>, lo: &LimitOffsetFilter) -> (r: Vec<usize>)
    ensures
        r@ == spec_paginate(idxs@, *lo),
{
    let n = idxs.len();
    let start: usize = match &lo.offset {
        Some(o) => {
            if *o < 0 {
                0
            } else if (*o as usize) > n {
                n
            } else {
                *o as usize
            }
        },
        None => 0,
    };
    let end: usize = match &lo.limit {
        Some(l) => {
            if *l < 0 {
                start
            } else if (*l as usize) > n - start {
                n
            } else {
                start + (*l as usize)
            }
        },
        None => n,
    };
    let mut r: Vec<usize> = Vec::new();
    let mut k: usize = start;
    while k < end
        invariant
            start <= k <= end <= n,
            n == idxs@.len(),
            r@ == idxs@.subrange(start as int, k as int),
        decreases end - k,
    {
        r.push(idxs[k]);
        assert(r@ =~= idxs@.subrange(start as int, k + 1));
        k += 1;
    }
    assert(r@ =~= spec_paginate(idxs@, *lo));
    r
}

/// Two positions holding the same value put its count at two or more.
proof fn lemma_two_positions_count(s: Seq<usize>, k1: int, k2: int)
    requires
        0 <= k1 < k2 < s.len(),
        s[k1] == s[k2],
    ensures
        s.to_multiset().count(s[k1]) >= 2,
{
    s.to_multiset_ensures();
    let x = s[k1];
    let rest = s.remove(k1);
    rest.to_multiset_ensures();
    assert(rest.to_multiset() =~= s.to_multiset().remove(x));
    assert(rest[k2 - 1] == x);
    assert(rest.contains(x));
    assert(rest.to_multiset().count(x) > 0);
    assert(s.to_multiset().count(x) == rest.to_multiset().count(x) + 1) by {
        broadcast use vstd::multiset::group_multiset_axioms;

        assert(s.contains(x));
        assert(s.to_multiset().count(x) > 0);
    }
}

/// A permutation of a duplicate-free sequence is duplicate-free.
proof fn lemma_perm_distinct(a: Seq<usize>, b: Seq<usize>)
    requires
        a.to_multiset() == b.to_multiset(),
        forall|k1: int, k2: int|
            #![trigger a[k1], a[k2]]
            0 <= k1 < k2 < a.len() ==> a[k1] != a[k2],
    ensures
        forall|k1: int, k2: int|
            #![trigger b[k1], b[k2]]
            0 <= k1 < k2 < b.len() ==> b[k1] != b[k2],
{
    broadcast use vstd::multiset::group_multiset_axioms;

    assert forall|k1: int, k2: int|
        #![trigger b[k1], b[k2]]
        0 <= k1 < k2 < b.len() implies b[k1] != b[k2] by {
        if b[k1] == b[k2] {
            a.to_multiset_ensures();
            b.to_multiset_ensures();
            lemma_two_positions_count(b, k1, k2);
            assert(a.to_multiset().count(b[k1]) >= 2);
            assert(a.contains(b[k1]));
            let a1 = choose|a1: int| 0 <= a1 < a.len() && a[a1] == b[k1];
            let rest = a.remove(a1);
            rest.to_multiset_ensures();
            assert(rest.to_multiset() =~= a.to_multiset().remove(b[k1]));
            assert(rest.to_multiset().count(b[k1]) >= 1);
            assert(rest.contains(b[k1]));
            let a2 = choose|a2: int| 0 <= a2 < rest.len() && rest[a2] == b[k1];
            if a2 < a1 {
                assert(a[a2] == b[k1]);
            } else {
                assert(a[a2 + 1] == b[k1]);
            }
        }
    }
}

/// A sequence with the same multiset as another contains every value the
/// other contains.
proof fn lemma_perm_contains(a: Seq<usize>, b: Seq<usize>)
    requires
        a.to_multiset() == b.to_multiset(),
    ensures
        forall|v: usize| #[trigger] a.contains(v) ==> b.contains(v),
{
    assert forall|v: usize| a.contains(v) implies b.contains(v) by {
        a.to_multiset_ensures();
        b.to_multiset_ensures();
        assert(a.to_multiset().count(v) > 0);
    }
}

/// Soundness of a projected article page: every response projects a stored
/// article the filter matches.
proof fn lemma_article_page_sound(
    articles: Seq<ArticleRow>,
    favorites: Seq<Favorite>,
    users: Seq<User>,
    f: ArticleFilterByValues,
    page: Seq<usize>,
    r: Seq<ArticleResponse>,
)
    requires
        forall|t: int|
            0 <= t < page.len() ==> (#[trigger] page[t]) < articles.len() && article_matches(
                f,
                articles[page[t] as int],
                favorites,
            ),
        r.len() == page.len(),
        forall|t: int|
            0 <= t < r.len() ==> response_matches(
                #[trigger] r[t],
                articles[page[t] as int],
                favorites,
                users,
            ),
    ensures
        forall|k: int|
            #![trigger r[k]]
            0 <= k < r.len() ==> represents_matching_article(r[k], f, articles, favorites, users),
{
    assert forall|k: int|
        #![trigger r[k]]
        0 <= k < r.len() implies represents_matching_article(
        r[k],
        f,
        articles,
        favorites,
        users,
    ) by {
        let i = page[k] as int;
        assert(article_matches(f, articles[i], favorites));
        assert(response_matches(r[k], articles[i], favorites, users));
    }
}

/// Completeness of a projected article page that covers every matching
/// position: every matching stored article has a representative response.
proof fn lemma_article_page_complete(
    articles: Seq<ArticleRow>,
    favorites: Seq<Favorite>,
    users: Seq<User>,
    f: ArticleFilterByValues,
    page: Seq<usize>,
    r: Seq<ArticleResponse>,
)
    requires
        forall|t: int| 0 <= t < page.len() ==> (#[trigger] page[t]) < articles.len(),
        r.len() == page.len(),
        forall|t: int|
            0 <= t < r.len() ==> response_matches(
                #[trigger] r[t],
                articles[page[t] as int],
                favorites,
                users,
            ),
        forall|i: int|
            0 <= i < articles.len() && article_matches(f, #[trigger] articles[i], favorites)
                ==> exists|m: int| 0 <= m < page.len() && page[m] as int == i,
    ensures
        forall|i: int|
            #![trigger articles[i]]
            0 <= i < articles.len() && article_matches(f, articles[i], favorites)
                ==> some_response_matches(r, articles[i], favorites, users),
{
    assert forall|i: int|
        #![trigger articles[i]]
        0 <= i < articles.len() && article_matches(f, articles[i], favorites)
        implies some_response_matches(r, articles[i], favorites, users) by {
        let m = choose|m: int| 0 <= m < page.len() && page[m] as int == i;
        assert(response_matches(r[m], articles[i], favorites, users));
    }
}

/// A page of positions sorted by an article column projects into responses
/// sorted by that column, read off the response data.
proof fn lemma_article_page_sorted(
    articles: Seq<ArticleRow>,
    favorites: Seq<Favorite>,
    users: Seq<User>,
    c: OrderColumn,
    asc: bool,
    page: Seq<usize>,
    r: Seq<ArticleResponse>,
)
    requires
        c != OrderColumn::Id,
        forall|t: int| 0 <= t < page.len() ==> (#[trigger] page[t]) < articles.len(),
        forall|t1: int, t2: int|
            #![trigger page[t1], page[t2]]
            0 <= t1 < t2 < page.len() ==> (if asc {
                article_order_key(c, articles[page[t1] as int]) <= article_order_key(
                    c,
                    articles[page[t2] as int],
                )
            } else {
                article_order_key(c, articles[page[t1] as int]) >= article_order_key(
                    c,
                    articles[page[t2] as int],
                )
            }),
        r.len() == page.len(),
        forall|t: int|
            0 <= t < r.len() ==> response_matches(
                #[trigger] r[t],
                articles[page[t] as int],
                favorites,
                users,
            ),
    ensures
        forall|k1: int, k2: int|
            #![trigger r[k1], r[k2]]
            0 <= k1 < k2 < r.len() ==> (if asc {
                article_resp_key(c, r[k1].article) <= article_resp_key(c, r[k2].article)
            } else {
                article_resp_key(c, r[k1].article) >= article_resp_key(c, r[k2].article)
            }),
{
    assert forall|k1: int, k2: int|
        #![trigger r[k1], r[k2]]
        0 <= k1 < k2 < r.len() implies (if asc {
        article_resp_key(c, r[k1].article) <= article_resp_key(c, r[k2].article)
    } else {
        article_resp_key(c, r[k1].article) >= article_resp_key(c, r[k2].article)
    }) by {
        assert(response_matches(r[k1], articles[page[k1] as int], favorites, users));
        assert(response_matches(r[k2], articles[page[k2] as int], favorites, users));
    }
}

/// Soundness of a projected feed page: every response projects a stored
/// article the feed constraint matches.
proof fn lemma_feed_page_sound(
    articles: Seq<ArticleRow>,
    favorites: Seq<Favorite>,
    users: Seq<User>,
    follows: Seq<Follow>,
    follower: Seq<char>,
    page: Seq<usize>,
    r: Seq<ArticleResponse>,
)
    requires
        forall|t: int|
            0 <= t < page.len() ==> (#[trigger] page[t]) < articles.len() && feed_matches(
                follower,
                articles[page[t] as int],
                follows,
            ),
        r.len() == page.len(),
        forall|t: int|
            0 <= t < r.len() ==> response_matches(
                #[trigger] r[t],
                articles[page[t] as int],
                favorites,
                users,
            ),
    ensures
        forall|k: int|
            #![trigger r[k]]
            0 <= k < r.len() ==> represents_feed_article(
                r[k],
                follower,
                articles,
                favorites,
                users,
                follows,
            ),
{
    assert forall|k: int|
        #![trigger r[k]]
        0 <= k < r.len() implies represents_feed_article(
        r[k],
        follower,
        articles,
        favorites,
        users,
        follows,
    ) by {
        let i = page[k] as int;
        assert(feed_matches(follower, articles[i], follows));
        assert(response_matches(r[k], articles[i], favorites, users));
    }
}

/// Completeness of a projected feed page that covers every matching
/// position.
proof fn lemma_feed_page_complete(
    articles: Seq<ArticleRow>,
    favorites: Seq<Favorite>,
    users: Seq<User>,
    follows: Seq<Follow>,
    follower: Seq<char>,
    page: Seq<usize>,
    r: Seq<ArticleResponse>,
)
    requires
        forall|t: int| 0 <= t < page.len() ==> (#[trigger] page[t]) < articles.len(),
        r.len() == page.len(),
        forall|t: int|
            0 <= t < r.len() ==> response_matches(
                #[trigger] r[t],
                articles[page[t] as int],
                favorites,
                users,
            ),
        forall|i: int|
            0 <= i < articles.len() && feed_matches(follower, #[trigger] articles[i], follows)
                ==> exists|m: int| 0 <= m < page.len() && page[m] as int == i,
    ensures
        forall|i: int|
            #![trigger articles[i]]
            0 <= i < articles.len() && feed_matches(follower, articles[i], follows)
                ==> some_response_matches(r, articles[i], favorites, users),
{
    assert forall|i: int|
        #![trigger articles[i]]
        0 <= i < articles.len() && feed_matches(follower, articles[i], follows)
        implies some_response_matches(r, articles[i], favorites, users) by {
        let m = choose|m: int| 0 <= m < page.len() && page[m] as int == i;
        assert(response_matches(r[m], articles[i], favorites, users));
    }
}

impl Store {
    /// The number of favorite relations the article with id `id` has.
    pub fn count_favorites(&self, id: u32) -> (r: u64)
        ensures
            r == fav_count(self.favorites@, id),
    {
        let n = self.favorites.len();
        let mut count: u64 = 0;
        let mut k: usize = 0;
        while k < n
            invariant
                0 <= k <= n,
                n == self.favorites@.len(),
                count == fav_count(self.favorites@.subrange(0, k as int), id),
                count <= k,
            decreases n - k,
        {
            proof {
                assert(self.favorites@.subrange(0, k + 1).drop_last() =~= self.favorites@.subrange(
                    0,
                    k as int,
                ));
                assert(self.favorites@.subrange(0, k + 1).last() == self.favorites@[k as int]);
            }
            if self.favorites[k].article_id == id {
                count += 1;
            }
            k += 1;
        }
        proof {
            assert(self.favorites@.subrange(0, n as int) =~= self.favorites@);
        }
        count
    }

    /// Projects the article at position `i` into a response, deriving the
    /// favorite fields and attaching the author's profile as the viewer
    /// sees it.
    pub fn make_article_response(&self, i: usize, viewer: Option<&str>) -> (r: ArticleResponse)
        requires
            i < self.articles@.len(),
        ensures
            response_matches(r, self.articles@[i as int], self.favorites@, self.users@),
    {
        let row = &self.articles[i];
        let count = self.count_favorites(row.id);
        let author = self.get_profile(viewer, row.author.as_str());
        ArticleResponse {
            author,
            article: Article {
                slug: row.slug.clone(),
                title: row.title.clone(),
                description: clone_opt_string(&row.description),
                body: row.body.clone(),
                tag_list: clone_string_vec(&row.tag_list),
                created_at: row.created_at,
                updated_at: row.updated_at,
                favorited: count > 0,
                favorites_count: count,
                author: row.author.clone(),
            },
        }
    }

    /// Projects each listed article position into a response.
    fn project_article_indexes(&self, page: &Vec<usize>, viewer: Option<&str>) -> (r: Vec<
        ArticleResponse,
    >)
        requires
            forall|t: int| 0 <= t < page@.len() ==> (#[trigger] page@[t]) < self.articles@.len(),
        ensures
            r@.len() == page@.len(),
            forall|t: int|
                0 <= t < r@.len() ==> response_matches(
                    #[trigger] r@[t],
                    self.articles@[page@[t] as int],
                    self.favorites@,
                    self.users@,
                ),
    {
        let m = page.len();
        let mut r: Vec<ArticleResponse> = Vec::new();
        let mut k: usize = 0;
        while k < m
            invariant
                0 <= k <= m,
                m == page@.len(),
                forall|t: int| 0 <= t < m ==> (#[trigger] page@[t]) < self.articles@.len(),
                r@.len() == k,
                forall|t: int|
                    0 <= t < k ==> response_matches(
                        #[trigger] r@[t],
                        self.articles@[page@[t] as int],
                        self.favorites@,
                        self.users@,
                    ),
            decreases m - k,
        {
            let resp = self.make_article_response(page[k], viewer);
            r.push(resp);
            k += 1;
        }
        r
    }

    /// The response for the article with the given slug, if any.
    pub fn get_article_response(&self, slug: &str, viewer: Option<&str>) -> (r: Option<
        ArticleResponse,
    >)
        ensures
            (r is Some) == has_slug(self.articles@, slug@),
            r matches Some(resp) ==> exists|i: int|
                0 <= i < self.articles@.len() && self.articles@[i].slug@ == slug@
                    && response_matches(resp, self.articles@[i], self.favorites@, self.users@),
    {
        match self.find_article_by_slug(slug) {
            Some(i) => Some(self.make_article_response(i, viewer)),
            None => None,
        }
    }

    /// Decides whether some tag of the list has `needle` as a substring.
    fn tag_in_list(list: &Vec<String>, needle: &str) -> (r: bool)
        ensures
            r == exists|t: int|
                0 <= t < list@.len() && crate::text::is_substring(list@[t]@, needle@),
    {
        let n = list.len();
        let mut k: usize = 0;
        while k < n
            invariant
                0 <= k <= n,
                n == list@.len(),
                forall|m: int|
                    0 <= m < k ==> !crate::text::is_substring(
                        (#[trigger] list@[m])@,
                        needle@,
                    ),
            decreases n - k,
        {
            if crate::text::contains_sub(list[k].as_str(), needle) {
                return true;
            }
            k += 1;
        }
        false
    }

    /// Decides whether the article at position `i` satisfies every
    /// constraint the filter sets.
    fn article_matches_exec(&self, f: &ArticleFilterByValues, i: usize) -> (r: bool)
        requires
            i < self.articles@.len(),
        ensures
            r == article_matches(*f, self.articles@[i as int], self.favorites@),
    {
        let row = &self.articles[i];
        let author_ok = match &f.author {
            Some(v) => row.author == *v,
            None => true,
        };
        let slug_ok = match &f.slug {
            Some(v) => row.slug == *v,
            None => true,
        };
        let tag_ok = match &f.tag {
            Some(v) => Self::tag_in_list(&row.tag_list, v.as_str()),
            None => true,
        };
        let fav_ok = match &f.favorited {
            Some(v) => self.find_favorite_index(row.id, v.as_str()).is_some(),
            None => true,
        };
        author_ok && slug_ok && tag_ok && fav_ok
    }

    /// The positions of every article the filter matches, in store order.
    fn matching_article_indexes(&self, f: &ArticleFilterByValues) -> (r: Vec<usize>)
        ensures
            forall|k: int|
                0 <= k < r@.len() ==> (#[trigger] r@[k]) < self.articles@.len()
                    && article_matches(*f, self.articles@[r@[k] as int], self.favorites@),
            forall|k1: int, k2: int|
                #![trigger r@[k1], r@[k2]]
                0 <= k1 < k2 < r@.len() ==> r@[k1] < r@[k2],
            forall|i: int|
                0 <= i < self.articles@.len() && article_matches(
                    *f,
                    self.articles@[i],
                    self.favorites@,
                ) ==> exists|k: int| 0 <= k < r@.len() && r@[k] as int == i,
    {
        let n = self.articles.len();
        let mut r: Vec<usize> = Vec::new();
        let mut k: usize = 0;
        while k < n
            invariant
                0 <= k <= n,
                n == self.articles@.len(),
                forall|m: int|
                    0 <= m < r@.len() ==> (#[trigger] r@[m]) < k && article_matches(
                        *f,
                        self.articles@[r@[m] as int],
                        self.favorites@,
                    ),
                forall|m1: int, m2: int|
                    #![trigger r@[m1], r@[m2]]
                    0 <= m1 < m2 < r@.len() ==> r@[m1] < r@[m2],
                forall|i: int|
                    0 <= i < k && article_matches(*f, self.articles@[i], self.favorites@)
                        ==> exists|m: int| 0 <= m < r@.len() && r@[m] as int == i,
            decreases n - k,
        {
            let ghost old_r = r@;
            let matched = self.article_matches_exec(f, k);
            if matched {
                r.push(k);
            }
            proof {
                assert forall|i: int|
                    0 <= i < k + 1 && article_matches(
                        *f,
                        self.articles@[i],
                        self.favorites@,
                    ) implies exists|m: int| 0 <= m < r@.len() && r@[m] as int == i by {
                    if i == k {
                        assert(matched);
                        assert(r@[r@.len() - 1] as int == i);
                    } else {
                        let m0 = choose|m0: int|
                            0 <= m0 < old_r.len() && old_r[m0] as int == i;
                        assert(0 <= m0 < r@.len() && r@[m0] as int == i);
                    }
                }
            }
            k += 1;
        }
        r
    }

    /// The positions of every article in the follower's feed, in store
    /// order.
    fn matching_feed_indexes(&self, follower: &str) -> (r: Vec<usize>)
        ensures
            forall|k: int|
                0 <= k < r@.len() ==> (#[trigger] r@[k]) < self.articles@.len() && feed_matches(
                    follower@,
                    self.articles@[r@[k] as int],
                    self.follows@,
                ),
            forall|k1: int, k2: int|
                #![trigger r@[k1], r@[k2]]
                0 <= k1 < k2 < r@.len() ==> r@[k1] < r@[k2],
            forall|i: int|
                0 <= i < self.articles@.len() && feed_matches(
                    follower@,
                    self.articles@[i],
                    self.follows@,
                ) ==> exists|k: int| 0 <= k < r@.len() && r@[k] as int == i,
    {
        let n = self.articles.len();
        let mut r: Vec<usize> = Vec::new();
        let mut k: usize = 0;
        while k < n
            invariant
                0 <= k <= n,
                n == self.articles@.len(),
                forall|m: int|
                    0 <= m < r@.len() ==> (#[trigger] r@[m]) < k && feed_matches(
                        follower@,
                        self.articles@[r@[m] as int],
                        self.follows@,
                    ),
                forall|m1: int, m2: int|
                    #![trigger r@[m1], r@[m2]]
                    0 <= m1 < m2 < r@.len() ==> r@[m1] < r@[m2],
                forall|i: int|
                    0 <= i < k && feed_matches(follower@, self.articles@[i], self.follows@)
                        ==> exists|m: int| 0 <= m < r@.len() && r@[m] as int == i,
            decreases n - k,
        {
            let ghost old_r = r@;
            let matched = self.follows_contains(follower, self.articles[k].author.as_str());
            if matched {
                r.push(k);
            }
            proof {
                assert forall|i: int|
                    0 <= i < k + 1 && feed_matches(
                        follower@,
                        self.articles@[i],
                        self.follows@,
                    ) implies exists|m: int| 0 <= m < r@.len() && r@[m] as int == i by {
                    if i == k {
                        assert(matched);
                        assert(r@[r@.len() - 1] as int == i);
                    } else {
                        let m0 = choose|m0: int|
                            0 <= m0 < old_r.len() && old_r[m0] as int == i;
                        assert(0 <= m0 < r@.len() && r@[m0] as int == i);
                    }
                }
            }
            k += 1;
        }
        r
    }

    /// The ordering key of the article at position `i`, as the column reads
    /// it.
    fn article_key_exec(&self, col: OrderColumn, i: usize) -> (r: i64)
        requires
            i < self.articles@.len(),
        ensures
            r as int == article_order_key(col, self.articles@[i as int]),
    {
        match col {
            OrderColumn::CreatedAt => self.articles[i].created_at,
            OrderColumn::UpdatedAt => self.articles[i].updated_at,
            OrderColumn::Id => self.articles[i].id as i64,
        }
    }

    /// The position, within `rest`, of an article position whose key is
    /// least (ascending) or greatest (descending) among them.
    fn extremal_index(&self, rest: &Vec<usize>, col: OrderColumn, asc: bool) -> (p: usize)
        requires
            rest@.len() > 0,
            forall|k: int| 0 <= k < rest@.len() ==> (#[trigger] rest@[k]) < self.articles@.len(),
        ensures
            p < rest@.len(),
            forall|k: int|
                0 <= k < rest@.len() ==> (if asc {
                    article_order_key(col, self.articles@[rest@[p as int] as int])
                        <= article_order_key(col, self.articles@[(#[trigger] rest@[k]) as int])
                } else {
                    article_order_key(col, self.articles@[rest@[p as int] as int])
                        >= article_order_key(col, self.articles@[(#[trigger] rest@[k]) as int])
                }),
    {
        let n = rest.len();
        let mut p: usize = 0;
        let mut best = self.article_key_exec(col, rest[0]);
        let mut k: usize = 1;
        while k < n
            invariant
                1 <= k <= n,
                n == rest@.len(),
                p < k,
                forall|m: int| 0 <= m < n ==> (#[trigger] rest@[m]) < self.articles@.len(),
                best as int == article_order_key(col, self.articles@[rest@[p as int] as int]),
                forall|m: int|
                    0 <= m < k ==> (if asc {
                        best as int <= article_order_key(
                            col,
                            self.articles@[(#[trigger] rest@[m]) as int],
                        )
                    } else {
                        best as int >= article_order_key(
                            col,
                            self.articles@[(#[trigger] rest@[m]) as int],
                        )
                    }),
            decreases n - k,
        {
            let key = self.article_key_exec(col, rest[k]);
            if asc && key < best {
                best = key;
                p = k;
            } else if !asc && key > best {
                best = key;
                p = k;
            }
            k += 1;
        }
        p
    }

    /// Sorts article positions by the key the column reads, in the given
    /// direction: the result is a permutation of the input, sorted.
    fn sort_indexes(&self, idxs: Vec<usize>, col: OrderColumn, asc: bool) -> (r: Vec<usize>)
        requires
            forall|k: int| 0 <= k < idxs@.len() ==> (#[trigger] idxs@[k]) < self.articles@.len(),
        ensures
            r@.to_multiset() == idxs@.to_multiset(),
            r@.len() == idxs@.len(),
            forall|k: int| 0 <= k < r@.len() ==> (#[trigger] r@[k]) < self.articles@.len(),
            forall|k1: int, k2: int|
                #![trigger r@[k1], r@[k2]]
                0 <= k1 < k2 < r@.len() ==> (if asc {
                    article_order_key(col, self.articles@[r@[k1] as int]) <= article_order_key(
                        col,
                        self.articles@[r@[k2] as int],
                    )
                } else {
                    article_order_key(col, self.articles@[r@[k1] as int]) >= article_order_key(
                        col,
                        self.articles@[r@[k2] as int],
                    )
                }),
    {
        broadcast use vstd::seq_lib::group_to_multiset_ensures;

        let mut rest = idxs;
        let mut out: Vec<usize> = Vec::new();
        let ghost total = rest@.to_multiset();
        proof {
            assert(out@.to_multiset().add(rest@.to_multiset()) =~= total);
        }
        while rest.len() > 0
            invariant
                out@.to_multiset().add(rest@.to_multiset()) == total,
                out@.len() + rest@.len() == idxs@.len(),
                forall|k: int| 0 <= k < out@.len() ==> (#[trigger] out@[k])
                    < self.articles@.len(),
                forall|k: int| 0 <= k < rest@.len() ==> (#[trigger] rest@[k])
                    < self.articles@.len(),
                forall|k1: int, k2: int|
                    #![trigger out@[k1], out@[k2]]
                    0 <= k1 < k2 < out@.len() ==> (if asc {
                        article_order_key(col, self.articles@[out@[k1] as int])
                            <= article_order_key(col, self.articles@[out@[k2] as int])
                    } else {
                        article_order_key(col, self.articles@[out@[k1] as int])
                            >= article_order_key(col, self.articles@[out@[k2] as int])
                    }),
                forall|k1: int, k2: int|
                    #![trigger out@[k1], rest@[k2]]
                    0 <= k1 < out@.len() && 0 <= k2 < rest@.len() ==> (if asc {
                        article_order_key(col, self.articles@[out@[k1] as int])
                            <= article_order_key(col, self.articles@[rest@[k2] as int])
                    } else {
                        article_order_key(col, self.articles@[out@[k1] as int])
                            >= article_order_key(col, self.articles@[rest@[k2] as int])
                    }),
            decreases rest@.len(),
        {
            let p = self.extremal_index(&rest, col, asc);
            let ghost old_rest = rest@;
            let ghost old_out = out@;
            let x = rest.remove(p);
            proof {
                assert(x == old_rest[p as int]);
                assert(rest@ == old_rest.remove(p as int));
                assert(forall|k: int| 0 <= k < p ==> rest@[k] == old_rest[k]);
                assert(forall|k: int|
                    p <= k < rest@.len() ==> rest@[k] == old_rest[k + 1]);
            }
            out.push(x);
            proof {
                broadcast use vstd::multiset::group_multiset_axioms;

                old_rest.to_multiset_ensures();
                old_out.to_multiset_ensures();
                assert(old_rest.contains(x));
                assert(old_rest.to_multiset().count(x) > 0);
                assert(old_rest.remove(p as int).to_multiset() =~= old_rest.to_multiset().remove(
                    old_rest[p as int],
                ));
                assert(rest@.to_multiset() =~= old_rest.to_multiset().remove(x));
                assert(out@.to_multiset() =~= old_out.to_multiset().insert(x));
                assert forall|y: usize|
                    out@.to_multiset().add(rest@.to_multiset()).count(y) == #[trigger] total.count(
                    y,
                ) by {
                    assert(old_out.to_multiset().add(old_rest.to_multiset()).count(y)
                        == total.count(y));
                    assert(out@.to_multiset().count(y) == old_out.to_multiset().insert(x).count(
                        y,
                    ));
                    assert(rest@.to_multiset().count(y) == old_rest.to_multiset().remove(x).count(
                        y,
                    ));
                }
                assert(out@.to_multiset().add(rest@.to_multiset()) =~= total);
            }
        }
        proof {
            assert(rest@.to_multiset() =~= Multiset::<usize>::empty());
            assert(out@.to_multiset() =~= total);
        }
        out
    }

    /// Runs an article query: every response is the projection of a stored
    /// article the filter matches; without pagination every matching
    /// article is represented; the limit bounds the page; and an ordered
    /// query is sorted by its column.
    #[verifier::rlimit(100)]
    #[verifier::spinoff_prover]
    pub fn query_articles(
        &self,
        f: &ArticleFilterByValues,
        order: &OrderByFilter,
        lo: &LimitOffsetFilter,
        viewer: Option<&str>,
    ) -> (r: Vec<ArticleResponse>)
        requires
            self.inv(),
        ensures
            exists|sel: Seq<usize>|
                article_selection(sel, *f, *order, self.articles@, self.favorites@)
                    && #[trigger] paged_projection(
                    r@,
                    sel,
                    *lo,
                    self.articles@,
                    self.favorites@,
                    self.users@,
                ),
            forall|k1: int, k2: int|
                #![trigger r@[k1], r@[k2]]
                0 <= k1 < k2 < r@.len() ==> r@[k1].article.slug@ != r@[k2].article.slug@,
            forall|k: int|
                #![trigger r@[k]]
                0 <= k < r@.len() ==> represents_matching_article(
                    r@[k],
                    *f,
                    self.articles@,
                    self.favorites@,
                    self.users@,
                ),
            lo.limit is None && lo.offset is None ==> forall|i: int|
                #![trigger self.articles@[i]]
                0 <= i < self.articles@.len() && article_matches(
                    *f,
                    self.articles@[i],
                    self.favorites@,
                ) ==> some_response_matches(r@, self.articles@[i], self.favorites@, self.users@),
            lo.limit matches Some(l) ==> r@.len() <= (if l < 0 {
                0int
            } else {
                l as int
            }),
            (match *order {
                OrderByFilter::Descending(c) => c == OrderColumn::Id || forall|k1: int, k2: int|
                    #![trigger r@[k1], r@[k2]]
                    0 <= k1 < k2 < r@.len() ==> article_resp_key(c, r@[k1].article)
                        >= article_resp_key(c, r@[k2].article),
                _ => true,
            }),
            (match *order {
                OrderByFilter::Ascending(c) => c == OrderColumn::Id || forall|k1: int, k2: int|
                    #![trigger r@[k1], r@[k2]]
                    0 <= k1 < k2 < r@.len() ==> article_resp_key(c, r@[k1].article)
                        <= article_resp_key(c, r@[k2].article),
                _ => true,
            }),
    {
        let idxs = self.matching_article_indexes(f);
        let ghost gidxs = idxs@;
        let sorted = match order {
            OrderByFilter::Ascending(c) => self.sort_indexes(idxs, *c, true),
            OrderByFilter::Descending(c) => self.sort_indexes(idxs, *c, false),
            OrderByFilter::Unordered => idxs,
        };
        proof {
            assert(sorted@.to_multiset() == gidxs.to_multiset());
            assert forall|k: int| 0 <= k < sorted@.len() implies (#[trigger] sorted@[k])
                < self.articles@.len() && article_matches(
                *f,
                self.articles@[sorted@[k] as int],
                self.favorites@,
            ) by {
                sorted@.to_multiset_ensures();
                gidxs.to_multiset_ensures();
                let v = sorted@[k];
                assert(sorted@.contains(v));
                assert(sorted@.to_multiset().count(v) > 0);
                assert(gidxs.to_multiset().count(v) > 0);
                assert(gidxs.contains(v));
                let m0 = choose|m0: int| 0 <= m0 < gidxs.len() && gidxs[m0] == v;
                assert(gidxs[m0] < self.articles@.len());
            }
        }
        let page = paginate_indexes(&sorted, lo);
        proof {
            assert forall|t: int| 0 <= t < page@.len() implies (#[trigger] page@[t])
                < self.articles@.len() && article_matches(
                *f,
                self.articles@[page@[t] as int],
                self.favorites@,
            ) by {
                assert(page@ == spec_paginate(sorted@, *lo));
            }
        }
        let r = self.project_article_indexes(&page, viewer);
        proof {
            lemma_article_page_sound(self.articles@, self.favorites@, self.users@, *f, page@, r@);
        }
        proof {
            lemma_perm_distinct(gidxs, sorted@);
            assert forall|k1: int, k2: int|
                #![trigger r@[k1], r@[k2]]
                0 <= k1 < k2 < r@.len() implies r@[k1].article.slug@
                != r@[k2].article.slug@ by {
                assert(page@ == spec_paginate(sorted@, *lo));
                assert(page@[k1] != page@[k2]);
                assert(response_matches(
                    r@[k1],
                    self.articles@[page@[k1] as int],
                    self.favorites@,
                    self.users@,
                ));
                assert(response_matches(
                    r@[k2],
                    self.articles@[page@[k2] as int],
                    self.favorites@,
                    self.users@,
                ));
            }
        }
        proof {
            match *order {
                OrderByFilter::Descending(c) => if c != OrderColumn::Id {
                    assert forall|t1: int, t2: int|
                        #![trigger page@[t1], page@[t2]]
                        0 <= t1 < t2 < page@.len() implies article_order_key(
                        c,
                        self.articles@[page@[t1] as int],
                    ) >= article_order_key(c, self.articles@[page@[t2] as int]) by {
                        assert(page@ == spec_paginate(sorted@, *lo));
                    }
                    lemma_article_page_sorted(
                        self.articles@,
                        self.favorites@,
                        self.users@,
                        c,
                        false,
                        page@,
                        r@,
                    );
                },
                OrderByFilter::Ascending(c) => if c != OrderColumn::Id {
                    assert forall|t1: int, t2: int|
                        #![trigger page@[t1], page@[t2]]
                        0 <= t1 < t2 < page@.len() implies article_order_key(
                        c,
                        self.articles@[page@[t1] as int],
                    ) <= article_order_key(c, self.articles@[page@[t2] as int]) by {
                        assert(page@ == spec_paginate(sorted@, *lo));
                    }
                    lemma_article_page_sorted(
                        self.articles@,
                        self.favorites@,
                        self.users@,
                        c,
                        true,
                        page@,
                        r@,
                    );
                },
                OrderByFilter::Unordered => {},
            }
        }
        proof {
            lemma_perm_distinct(gidxs, sorted@);
            lemma_perm_contains(gidxs, sorted@);
            assert forall|i: int|
                0 <= i < self.articles@.len() && article_matches(
                    *f,
                    #[trigger] self.articles@[i],
                    self.favorites@,
                ) implies exists|k: int| 0 <= k < sorted@.len() && sorted@[k] as int == i by {
                let m0 = choose|m0: int| 0 <= m0 < gidxs.len() && gidxs[m0] as int == i;
                let v = gidxs[m0];
                assert(gidxs.contains(v));
                assert(sorted@.contains(v));
                let j = choose|j: int| 0 <= j < sorted@.len() && sorted@[j] == v;
            }
            assert(article_selection(sorted@, *f, *order, self.articles@, self.favorites@));
            assert(paged_projection(r@, sorted@, *lo, self.articles@, self.favorites@, self.users@));
        }
        proof {
            if lo.limit is None && lo.offset is None {
                assert(page@ =~= sorted@);
                lemma_perm_contains(gidxs, sorted@);
                assert forall|i: int|
                    0 <= i < self.articles@.len() && article_matches(
                        *f,
                        #[trigger] self.articles@[i],
                        self.favorites@,
                    ) implies exists|m: int| 0 <= m < page@.len() && page@[m] as int == i by {
                    let m0 = choose|m0: int| 0 <= m0 < gidxs.len() && gidxs[m0] as int == i;
                    let v = gidxs[m0];
                    assert(gidxs.contains(v));
                    assert(sorted@.contains(v));
                    let j = choose|j: int| 0 <= j < sorted@.len() && sorted@[j] == v;
                    assert(page@[j] == v);
                }
                lemma_article_page_complete(
                    self.articles@,
                    self.favorites@,
                    self.users@,
                    *f,
                    page@,
                    r@,
                );
            }
        }
        r
    }
    /// Runs the feed query: articles authored by anyone the follower
    /// follows, newest update first, under the given pagination window.
    #[verifier::rlimit(100)]
    #[verifier::spinoff_prover]
    pub fn query_feed(&self, follower: &str, lo: &LimitOffsetFilter, viewer: Option<&str>) -> (r:
        Vec<ArticleResponse>)
        requires
            self.inv(),
        ensures
            exists|sel: Seq<usize>|
                feed_selection(sel, follower@, self.articles@, self.follows@)
                    && #[trigger] paged_projection(
                    r@,
                    sel,
                    *lo,
                    self.articles@,
                    self.favorites@,
                    self.users@,
                ),
            forall|k1: int, k2: int|
                #![trigger r@[k1], r@[k2]]
                0 <= k1 < k2 < r@.len() ==> r@[k1].article.slug@ != r@[k2].article.slug@,
            forall|k: int|
                #![trigger r@[k]]
                0 <= k < r@.len() ==> represents_feed_article(
                    r@[k],
                    follower@,
                    self.articles@,
                    self.favorites@,
                    self.users@,
                    self.follows@,
                ),
            lo.limit is None && lo.offset is None ==> forall|i: int|
                #![trigger self.articles@[i]]
                0 <= i < self.articles@.len() && feed_matches(
                    follower@,
                    self.articles@[i],
                    self.follows@,
                ) ==> some_response_matches(r@, self.articles@[i], self.favorites@, self.users@),
            lo.limit matches Some(l) ==> r@.len() <= (if l < 0 {
                0int
            } else {
                l as int
            }),
            forall|k1: int, k2: int|
                #![trigger r@[k1], r@[k2]]
                0 <= k1 < k2 < r@.len() ==> r@[k1].article.updated_at
                    >= r@[k2].article.updated_at,
    {
        let idxs = self.matching_feed_indexes(follower);
        let ghost gidxs = idxs@;
        let sorted = self.sort_indexes(idxs, OrderColumn::UpdatedAt, false);
        proof {
            assert(sorted@.to_multiset() == gidxs.to_multiset());
            assert forall|k: int| 0 <= k < sorted@.len() implies (#[trigger] sorted@[k])
                < self.articles@.len() && feed_matches(
                follower@,
                self.articles@[sorted@[k] as int],
                self.follows@,
            ) by {
                sorted@.to_multiset_ensures();
                gidxs.to_multiset_ensures();
                let v = sorted@[k];
                assert(sorted@.contains(v));
                assert(sorted@.to_multiset().count(v) > 0);
                assert(gidxs.to_multiset().count(v) > 0);
                assert(gidxs.contains(v));
                let m0 = choose|m0: int| 0 <= m0 < gidxs.len() && gidxs[m0] == v;
                assert(gidxs[m0] < self.articles@.len());
            }
        }
        let page = paginate_indexes(&sorted, lo);
        proof {
            assert forall|t: int| 0 <= t < page@.len() implies (#[trigger] page@[t])
                < self.articles@.len() && feed_matches(
                follower@,
                self.articles@[page@[t] as int],
                self.follows@,
            ) by {
                assert(page@ == spec_paginate(sorted@, *lo));
            }
        }
        let r = self.project_article_indexes(&page, viewer);
        proof {
            lemma_perm_distinct(gidxs, sorted@);
            assert forall|k1: int, k2: int|
                #![trigger r@[k1], r@[k2]]
                0 <= k1 < k2 < r@.len() implies r@[k1].article.slug@
                != r@[k2].article.slug@ by {
                assert(page@ == spec_paginate(sorted@, *lo));
                assert(page@[k1] != page@[k2]);
                assert(response_matches(
                    r@[k1],
                    self.articles@[page@[k1] as int],
                    self.favorites@,
                    self.users@,
                ));
                assert(response_matches(
                    r@[k2],
                    self.articles@[page@[k2] as int],
                    self.favorites@,
                    self.users@,
                ));
            }
        }
        proof {
            lemma_feed_page_sound(
                self.articles@,
                self.favorites@,
                self.users@,
                self.follows@,
                follower@,
                page@,
                r@,
            );
        }
        proof {
            assert forall|t1: int, t2: int|
                #![trigger page@[t1], page@[t2]]
                0 <= t1 < t2 < page@.len() implies article_order_key(
                OrderColumn::UpdatedAt,
                self.articles@[page@[t1] as int],
            ) >= article_order_key(
                OrderColumn::UpdatedAt,
                self.articles@[page@[t2] as int],
            ) by {
                assert(page@ == spec_paginate(sorted@, *lo));
            }
            assert forall|k1: int, k2: int|
                #![trigger r@[k1], r@[k2]]
                0 <= k1 < k2 < r@.len() implies r@[k1].article.updated_at
                >= r@[k2].article.updated_at by {
                assert(response_matches(
                    r@[k1],
                    self.articles@[page@[k1] as int],
                    self.favorites@,
                    self.users@,
                ));
                assert(response_matches(
                    r@[k2],
                    self.articles@[page@[k2] as int],
                    self.favorites@,
                    self.users@,
                ));
            }
        }
        proof {
            lemma_perm_distinct(gidxs, sorted@);
            lemma_perm_contains(gidxs, sorted@);
            assert forall|i: int|
                0 <= i < self.articles@.len() && feed_matches(
                    follower@,
                    #[trigger] self.articles@[i],
                    self.follows@,
                ) implies exists|k: int| 0 <= k < sorted@.len() && sorted@[k] as int == i by {
                let m0 = choose|m0: int| 0 <= m0 < gidxs.len() && gidxs[m0] as int == i;
                let v = gidxs[m0];
                assert(gidxs.contains(v));
                assert(sorted@.contains(v));
                let j = choose|j: int| 0 <= j < sorted@.len() && sorted@[j] == v;
            }
            assert(feed_selection(sorted@, follower@, self.articles@, self.follows@));
            assert(paged_projection(r@, sorted@, *lo, self.articles@, self.favorites@, self.users@));
        }
        proof {
            if lo.limit is None && lo.offset is None {
                assert(page@ =~= sorted@);
                lemma_perm_contains(gidxs, sorted@);
                assert forall|i: int|
                    0 <= i < self.articles@.len() && feed_matches(
                        follower@,
                        #[trigger] self.articles@[i],
                        self.follows@,
                    ) implies exists|m: int| 0 <= m < page@.len() && page@[m] as int == i by {
                    let m0 = choose|m0: int| 0 <= m0 < gidxs.len() && gidxs[m0] as int == i;
                    let v = gidxs[m0];
                    assert(gidxs.contains(v));
                    assert(sorted@.contains(v));
                    let j = choose|j: int| 0 <= j < sorted@.len() && sorted@[j] == v;
                    assert(page@[j] == v);
                }
                lemma_feed_page_complete(
                    self.articles@,
                    self.favorites@,
                    self.users@,
                    self.follows@,
                    follower@,
                    page@,
                    r@,
                );
            }
        }
        r
    }
}

} // verus!
