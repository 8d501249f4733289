//! Comment storage and queries: creation against a parent article, the
//! filtered delete that the deferred-authorization protocol builds on, and
//! listing with ordering and pagination.

use vstd::prelude::*;
use crate::filters::{CommentFilterByValues, LimitOffsetFilter, OrderByFilter, OrderColumn};
use crate::models::{Comment, CommentResponse, User};
use crate::store::{ArticleRow, CommentRow, Store, has_username};
use crate::articles::{has_slug, lemma_filter_comments_sorted, lemma_filter_subset};
use crate::queries::spec_paginate;

verus! {

/// Whether a comment satisfies every constraint the filter sets; a filter
/// with no fields set matches every comment.
pub open spec fn comment_matches(
    f: CommentFilterByValues,
    c: CommentRow,
    articles: Seq<ArticleRow>,
) -> bool {
    &&& (f.id matches Some(v) ==> c.id == v)
    &&& (f.author matches Some(v) ==> c.author@ == v@)
    &&& (f.article_slug matches Some(v) ==> exists|i: int|
        0 <= i < articles.len() && articles[i].id == c.article_id && articles[i].slug@ == v@)
}

/// Whether a returned comment carries the data of a stored comment.
pub open spec fn comment_data_matches(cm: Comment, c: CommentRow) -> bool {
    &&& cm.id == c.id
    &&& cm.body == c.body
    &&& cm.created_at == c.created_at
    &&& cm.updated_at == c.updated_at
    &&& cm.author == c.author
}

/// Whether a comment response is the projection of a stored comment: the
/// data, plus the author's profile exactly when the author is a known user.
pub open spec fn comment_response_matches(
    resp: CommentResponse,
    c: CommentRow,
    users: Seq<User>,
) -> bool {
    &&& comment_data_matches(resp.comment, c)
    &&& (resp.author is Some) == has_username(users, c.author@)
    &&& (resp.author matches Some(p) ==> p.username@ == c.author@)
}

/// Whether a response is the projection of some stored comment the filter
/// matches.
pub open spec fn represents_matching_comment(
    resp: CommentResponse,
    f: CommentFilterByValues,
    comments: Seq<CommentRow>,
    articles: Seq<ArticleRow>,
    users: Seq<User>,
) -> bool {
    exists|i: int|
        0 <= i < comments.len() && comment_matches(f, #[trigger] comments[i], articles)
            && comment_response_matches(resp, comments[i], users)
}

/// Whether a response is the projection of some stored comment on the
/// article with the given slug.
pub open spec fn represents_article_comment(
    resp: CommentResponse,
    slug: Seq<char>,
    comments: Seq<CommentRow>,
    articles: Seq<ArticleRow>,
    users: Seq<User>,
) -> bool {
    exists|i: int|
        0 <= i < comments.len() && (exists|j: int|
            0 <= j < articles.len() && (#[trigger] articles[j]).id == (
            #[trigger] comments[i]).article_id && articles[j].slug@ == slug)
            && comment_response_matches(resp, comments[i], users)
}

/// Whether some response in the list is the projection of the given stored
/// comment.
pub open spec fn some_comment_response_matches(
    r: Seq<CommentResponse>,
    c: CommentRow,
    users: Seq<User>,
) -> bool {
    exists|k: int| 0 <= k < r.len() && comment_response_matches(#[trigger] r[k], c, users)
}

/// Whether `sel` enumerates exactly the positions of the comments the
/// filter matches, each once, in store order — reversed when the query asks
/// for descending ids, which the id-ordered store makes newest-first.
/// Together with [`comment_paged_projection`] this pins the returned
/// window.
pub open spec fn comment_selection(
    sel: Seq<usize>,
    f: CommentFilterByValues,
    order: OrderByFilter,
    comments: Seq<CommentRow>,
    articles: Seq<ArticleRow>,
) -> bool {
    &&& forall|k: int|
        0 <= k < sel.len() ==> (#[trigger] sel[k]) < comments.len() && comment_matches(
            f,
            comments[sel[k] as int],
            articles,
        )
    &&& forall|i: int|
        0 <= i < comments.len() && comment_matches(f, #[trigger] comments[i], articles)
            ==> exists|k: int| 0 <= k < sel.len() && sel[k] as int == i
    &&& (if order == OrderByFilter::Descending(OrderColumn::Id) {
        forall|k1: int, k2: int|
            #![trigger sel[k1], sel[k2]]
            0 <= k1 < k2 < sel.len() ==> sel[k1] > sel[k2]
    } else {
        forall|k1: int, k2: int|
            #![trigger sel[k1], sel[k2]]
            0 <= k1 < k2 < sel.len() ==> sel[k1] < sel[k2]
    })
}

/// Whether `sel` enumerates exactly the positions of the comments whose
/// parent article bears the given slug, each once, newest first.
pub open spec fn article_comment_selection(
    sel: Seq<usize>,
    slug: Seq<char>,
    comments: Seq<CommentRow>,
    articles: Seq<ArticleRow>,
) -> bool {
    &&& forall|k: int|
        0 <= k < sel.len() ==> (#[trigger] sel[k]) < comments.len() && (exists|j: int|
            0 <= j < articles.len() && (#[trigger] articles[j]).id
                == comments[sel[k] as int].article_id && articles[j].slug@ == slug)
    &&& forall|i: int|
        (0 <= i < comments.len() && exists|j: int|
            0 <= j < articles.len() && (#[trigger] articles[j]).id == (
            #[trigger] comments[i]).article_id && articles[j].slug@ == slug) ==> exists|k: int|
            0 <= k < sel.len() && sel[k] as int == i
    &&& forall|k1: int, k2: int|
        #![trigger sel[k1], sel[k2]]
        0 <= k1 < k2 < sel.len() ==> sel[k1] > sel[k2]
}

/// Whether the responses are exactly the projection of the page the
/// pagination filter selects from `sel`.
pub open spec fn comment_paged_projection(
    r: Seq<CommentResponse>,
    sel: Seq<usize>,
    lo: LimitOffsetFilter,
    comments: Seq<CommentRow>,
    users: Seq<User>,
) -> bool {
    let page = spec_paginate(sel, lo);
    &&& r.len() == page.len()
    &&& forall|k: int|
        #![trigger r[k]]
        0 <= k < r.len() ==> page[k] < comments.len() && comment_response_matches(
            r[k],
            comments[page[k] as int],
            users,
        )
}

impl Store {
    /// Decides whether the article with the given id carries the given
    /// slug.
    fn article_id_has_slug(&self, article_id: u32, slug: &str) -> (r: bool)
        ensures
            r == exists|i: int|
                0 <= i < self.articles@.len() && self.articles@[i].id == article_id
                    && self.articles@[i].slug@ == slug@,
    {
        let n = self.articles.len();
        let mut k: usize = 0;
        while k < n
            invariant
                0 <= k <= n,
                n == self.articles@.len(),
                forall|m: int|
                    0 <= m < k ==> !((#[trigger] self.articles@[m]).id == article_id
                        && self.articles@[m].slug@ == slug@),
            decreases n - k,
        {
            if self.articles[k].id == article_id && crate::text::str_eq(
                self.articles[k].slug.as_str(),
                slug,
            ) {
                return true;
            }
            k += 1;
        }
        false
    }

    /// Decides whether the comment at position `i` satisfies every
    /// constraint the filter sets.
    fn comment_matches_exec(&self, f: &CommentFilterByValues, i: usize) -> (r: bool)
        requires
            i < self.comments@.len(),
        ensures
            r == comment_matches(*f, self.comments@[i as int], self.articles@),
    {
        let c = &self.comments[i];
        let id_ok = match &f.id {
            Some(v) => c.id == *v,
            None => true,
        };
        let author_ok = match &f.author {
            Some(v) => c.author == *v,
            None => true,
        };
        let slug_ok = match &f.article_slug {
            Some(v) => self.article_id_has_slug(c.article_id, v.as_str()),
            None => true,
        };
        id_ok && author_ok && slug_ok
    }

    /// Adds a comment to the article with the given slug, stamped with
    /// `now` and given the next comment id. Fails (with nothing changed)
    /// exactly when no such article exists or the ids are exhausted.
    pub fn add_comment(&mut self, article_slug: &str, author: &str, body: String, now: i64) -> (r:
        Option<CommentRow>)
        requires
            old(self).inv(),
        ensures
            final(self).inv(),
            (r is Some) == (has_slug(old(self).articles@, article_slug@) && old(
                self,
            ).next_comment_id < i32::MAX),
            r is None ==> final(self).comments@ == old(self).comments@
                && final(self).next_comment_id == old(self).next_comment_id,
            r matches Some(c) ==> {
                &&& final(self).comments@.len() == old(self).comments@.len() + 1
                &&& final(self).comments@.subrange(0, old(self).comments@.len() as int) == old(
                    self,
                ).comments@
                &&& c == final(self).comments@.last()
                &&& c.id == old(self).next_comment_id
                &&& c.body == body
                &&& c.author@ == author@
                &&& c.created_at == now
                &&& c.updated_at == now
                &&& exists|i: int|
                    0 <= i < old(self).articles@.len() && old(self).articles@[i].slug@
                        == article_slug@ && c.article_id == old(self).articles@[i].id
                &&& final(self).next_comment_id == old(self).next_comment_id + 1
            },
            final(self).users@ == old(self).users@,
            final(self).follows@ == old(self).follows@,
            final(self).articles@ == old(self).articles@,
            final(self).favorites@ == old(self).favorites@,
            final(self).next_article_id == old(self).next_article_id,
    {
        if self.next_comment_id == i32::MAX {
            return None;
        }
        let i = match self.find_article_by_slug(article_slug) {
            Some(i) => i,
            None => {
                return None;
            },
        };
        let article_id = self.articles[i].id;
        let id = self.next_comment_id;
        let row = CommentRow {
            id,
            article_id,
            body,
            created_at: now,
            updated_at: now,
            author: author.to_owned(),
        };
        let result = row.clone();
        self.comments.push(row);
        self.next_comment_id = id + 1;
        proof {
            assert(self.comments@.subrange(0, old(self).comments@.len() as int) =~= old(
                self,
            ).comments@);
        }
        Some(result)
    }

    /// The comments that do not match the filter.
    fn comments_not_matching(&self, filter: &CommentFilterByValues) -> (r: Vec<CommentRow>)
        ensures
            r@ == self.comments@.filter(
                |c: CommentRow| !comment_matches(*filter, c, self.articles@),
            ),
    {
        let ghost pred = |c: CommentRow| !comment_matches(*filter, c, self.articles@);
        let mut kept: Vec<CommentRow> = Vec::new();
        let n = self.comments.len();
        let mut k: usize = 0;
        while k < n
            invariant
                0 <= k <= n,
                n == self.comments@.len(),
                pred == (|c: CommentRow| !comment_matches(*filter, c, self.articles@)),
                kept@ == self.comments@.subrange(0, k as int).filter(pred),
            decreases n - k,
        {
            let ghost prefix = self.comments@.subrange(0, k as int);
            if !self.comment_matches_exec(filter, k) {
                kept.push(self.comments[k].clone());
            }
            proof {
                reveal(Seq::filter);
                assert(self.comments@.subrange(0, k + 1) =~= prefix.push(
                    self.comments@[k as int],
                ));
                assert(prefix.push(self.comments@[k as int]).drop_last() =~= prefix);
            }
            k += 1;
        }
        proof {
            assert(self.comments@.subrange(0, n as int) =~= self.comments@);
        }
        kept
    }

    /// The filtered delete: removes every comment the filter matches and
    /// reports how many were removed. When none matches, nothing changes
    /// and the count is zero; diagnosing why is the protocol's business.
    pub fn delete_comments(&mut self, filter: &CommentFilterByValues) -> (rows: usize)
        requires
            old(self).inv(),
        ensures
            final(self).inv(),
            final(self).comments@ == old(self).comments@.filter(
                |c: CommentRow| !comment_matches(*filter, c, old(self).articles@),
            ),
            rows == old(self).comments@.len() - final(self).comments@.len(),
            (rows == 0) == (forall|m: int|
                0 <= m < old(self).comments@.len() ==> !comment_matches(
                    *filter,
                    old(self).comments@[m],
                    old(self).articles@,
                )),
            rows == 0 ==> final(self).comments@ == old(self).comments@,
            final(self).users@ == old(self).users@,
            final(self).follows@ == old(self).follows@,
            final(self).articles@ == old(self).articles@,
            final(self).favorites@ == old(self).favorites@,
            final(self).next_article_id == old(self).next_article_id,
            final(self).next_comment_id == old(self).next_comment_id,
    {
        let kept = self.comments_not_matching(filter);
        let before = self.comments.len();
        let after = kept.len();
        proof {
            let pred = |c: CommentRow| !comment_matches(*filter, c, self.articles@);
            lemma_filter_comments_sorted(self.comments@, pred);
            lemma_filter_subset(self.comments@, pred);
            self.comments@.lemma_filter_len(pred);
            assert forall|k: int|
                0 <= k < kept@.len() implies (#[trigger] kept@[k]).id
                < self.next_comment_id by {
                assert(self.comments@.filter(pred).contains(kept@[k]));
                assert(self.comments@.contains(kept@[k]));
                let m = choose|m: int|
                    0 <= m < self.comments@.len() && self.comments@[m] == kept@[k];
            }
            if after == before {
                // nothing was filtered out: every comment fails the filter
                assert forall|m: int|
                    0 <= m < self.comments@.len() implies !comment_matches(
                    *filter,
                    self.comments@[m],
                    self.articles@,
                ) by {
                    lemma_filter_all_or_drop(self.comments@, pred, m);
                }
            }
            if forall|m: int|
                0 <= m < self.comments@.len() ==> !comment_matches(
                    *filter,
                    #[trigger] self.comments@[m],
                    self.articles@,
                ) {
                assert(forall|m: int|
                    0 <= m < self.comments@.len() ==> pred(#[trigger] self.comments@[m]));
                lemma_filter_keeps_all(self.comments@, pred);
            }
        }
        self.comments = kept;
        before - after
    }

    /// Projects the comment at position `i` into a response, attaching the
    /// author's profile as the viewer sees it.
    pub fn make_comment_response(&self, i: usize, viewer: Option<&str>) -> (r: CommentResponse)
        requires
            i < self.comments@.len(),
        ensures
            comment_response_matches(r, self.comments@[i as int], self.users@),
    {
        let c = &self.comments[i];
        let author = self.get_profile(viewer, c.author.as_str());
        CommentResponse {
            author,
            comment: Comment {
                id: c.id,
                created_at: c.created_at,
                updated_at: c.updated_at,
                body: c.body.clone(),
                author: c.author.clone(),
            },
        }
    }

    /// The positions of every comment the filter matches, in store order.
    fn matching_comment_indexes(&self, f: &CommentFilterByValues) -> (r: Vec<usize>)
        ensures
            forall|k: int|
                0 <= k < r@.len() ==> (#[trigger] r@[k]) < self.comments@.len()
                    && comment_matches(*f, self.comments@[r@[k] as int], self.articles@),
            forall|k1: int, k2: int|
                #![trigger r@[k1], r@[k2]]
                0 <= k1 < k2 < r@.len() ==> r@[k1] < r@[k2],
            forall|i: int|
                0 <= i < self.comments@.len() && comment_matches(
                    *f,
                    self.comments@[i],
                    self.articles@,
                ) ==> exists|k: int| 0 <= k < r@.len() && r@[k] as int == i,
    {
        let n = self.comments.len();
        let mut r: Vec<usize> = Vec::new();
        let mut k: usize = 0;
        while k < n
            invariant
                0 <= k <= n,
                n == self.comments@.len(),
                forall|m: int|
                    0 <= m < r@.len() ==> (#[trigger] r@[m]) < k && comment_matches(
                        *f,
                        self.comments@[r@[m] as int],
                        self.articles@,
                    ),
                forall|m1: int, m2: int|
                    #![trigger r@[m1], r@[m2]]
                    0 <= m1 < m2 < r@.len() ==> r@[m1] < r@[m2],
                forall|i: int|
                    0 <= i < k && comment_matches(*f, self.comments@[i], self.articles@)
                        ==> exists|m: int| 0 <= m < r@.len() && r@[m] as int == i,
            decreases n - k,
        {
            let ghost old_r = r@;
            let matched = self.comment_matches_exec(f, k);
            if matched {
                r.push(k);
            }
            proof {
                assert forall|i: int|
                    0 <= i < k + 1 && comment_matches(
                        *f,
                        self.comments@[i],
                        self.articles@,
                    ) implies exists|m: int| 0 <= m < r@.len() && r@[m] as int == i by {
                    if i == k {
                        assert(matched);
                        assert(r@[r@.len() - 1] as int == i);
                    } else {
                        let m0 = choose|m0: int|
                            0 <= m0 < old_r.len() && old_r[m0] as int == i;
                        assert(0 <= m0 < r@.len() && r@[m0] as int == i);
                    }
                }
            }
            k += 1;
        }
        r
    }

    /// Runs a comment query: every response is the projection of a stored
    /// comment the filter matches; without pagination every matching
    /// comment is represented; the limit bounds the page; and a query
    /// ordered descending by id is sorted that way.
    #[verifier::rlimit(100)]
    #[verifier::spinoff_prover]
    pub fn query_comments(
        &self,
        f: &CommentFilterByValues,
        order: &OrderByFilter,
        lo: &LimitOffsetFilter,
        viewer: Option<&str>,
    ) -> (r: Vec<CommentResponse>)
        requires
            self.inv(),
        ensures
            exists|sel: Seq<usize>|
                comment_selection(sel, *f, *order, self.comments@, self.articles@)
                    && #[trigger] comment_paged_projection(
                    r@,
                    sel,
                    *lo,
                    self.comments@,
                    self.users@,
                ),
            forall|k: int|
                #![trigger r@[k]]
                0 <= k < r@.len() ==> represents_matching_comment(
                    r@[k],
                    *f,
                    self.comments@,
                    self.articles@,
                    self.users@,
                ),
            lo.limit is None && lo.offset is None ==> forall|i: int|
                #![trigger self.comments@[i]]
                0 <= i < self.comments@.len() && comment_matches(
                    *f,
                    self.comments@[i],
                    self.articles@,
                ) ==> some_comment_response_matches(r@, self.comments@[i], self.users@),
            lo.limit matches Some(l) ==> r@.len() <= (if l < 0 {
                0int
            } else {
                l as int
            }),
            *order == OrderByFilter::Descending(OrderColumn::Id) ==> forall|k1: int, k2: int|
                #![trigger r@[k1], r@[k2]]
                0 <= k1 < k2 < r@.len() ==> r@[k1].comment.id >= r@[k2].comment.id,
            forall|k1: int, k2: int|
                #![trigger r@[k1], r@[k2]]
                0 <= k1 < k2 < r@.len() ==> r@[k1].comment.id != r@[k2].comment.id,
            (lo.offset is None && (match lo.limit {
                Some(l) => l > 0,
                None => true,
            }) && r@.len() == 0) ==> forall|i: int|
                0 <= i < self.comments@.len() ==> !comment_matches(
                    *f,
                    #[trigger] self.comments@[i],
                    self.articles@,
                ),
    {
        let idxs = self.matching_comment_indexes(f);
        let ghost gidxs = idxs@;
        let ordered: Vec<usize> = match order {
            OrderByFilter::Descending(OrderColumn::Id) => {
                // comment ids grow with position, so descending by id is
                // the reverse of store order
                let n = idxs.len();
                let mut rev: Vec<usize> = Vec::new();
                let mut k: usize = 0;
                while k < n
                    invariant
                        0 <= k <= n,
                        n == idxs@.len(),
                        rev@.len() == k,
                        forall|m: int| 0 <= m < k ==> (#[trigger] rev@[m]) == idxs@[n - 1 - m],
                    decreases n - k,
                {
                    rev.push(idxs[n - 1 - k]);
                    k += 1;
                }
                rev
            },
            _ => idxs,
        };
        proof {
            assert forall|t: int| 0 <= t < ordered@.len() implies (#[trigger] ordered@[t])
                < self.comments@.len() && comment_matches(
                *f,
                self.comments@[ordered@[t] as int],
                self.articles@,
            ) by {
                if *order == OrderByFilter::Descending(OrderColumn::Id) {
                    assert(ordered@[t] == gidxs[gidxs.len() - 1 - t]);
                } else {
                    assert(ordered@ == gidxs);
                }
            }
            if *order == OrderByFilter::Descending(OrderColumn::Id) {
                assert forall|t1: int, t2: int|
                    0 <= t1 < t2 < ordered@.len() implies self.comments@[(
                    #[trigger] ordered@[t1]) as int].id >= self.comments@[(
                    #[trigger] ordered@[t2]) as int].id by {
                    let a = gidxs.len() - 1 - t1;
                    let b = gidxs.len() - 1 - t2;
                    assert(ordered@[t1] == gidxs[a]);
                    assert(ordered@[t2] == gidxs[b]);
                    assert(b < a);
                    assert(gidxs[b] < gidxs[a]);
                }
            }
            assert forall|t1: int, t2: int|
                #![trigger ordered@[t1], ordered@[t2]]
                0 <= t1 < t2 < ordered@.len() implies ordered@[t1] != ordered@[t2] by {
                if *order == OrderByFilter::Descending(OrderColumn::Id) {
                    let a = gidxs.len() - 1 - t1;
                    let b = gidxs.len() - 1 - t2;
                    assert(ordered@[t1] == gidxs[a]);
                    assert(ordered@[t2] == gidxs[b]);
                    assert(gidxs[b] < gidxs[a]);
                } else {
                    assert(ordered@ == gidxs);
                    assert(gidxs[t1] < gidxs[t2]);
                }
            }
        }
        let page = crate::queries::paginate_indexes(&ordered, lo);
        let m = page.len();
        let mut r: Vec<CommentResponse> = Vec::new();
        let mut k: usize = 0;
        while k < m
            invariant
                0 <= k <= m,
                m == page@.len(),
                forall|t: int| 0 <= t < m ==> (#[trigger] page@[t]) < self.comments@.len(),
                forall|t: int|
                    0 <= t < m ==> comment_matches(
                        *f,
                        self.comments@[(#[trigger] page@[t]) as int],
                        self.articles@,
                    ),
                *order == OrderByFilter::Descending(OrderColumn::Id) ==> forall|t1: int, t2: int|
                    #![trigger page@[t1], page@[t2]]
                    0 <= t1 < t2 < m ==> self.comments@[page@[t1] as int].id
                        >= self.comments@[page@[t2] as int].id,
                r@.len() == k,
                forall|t: int|
                    0 <= t < k ==> comment_response_matches(
                        #[trigger] r@[t],
                        self.comments@[page@[t] as int],
                        self.users@,
                    ),
                self.inv(),
            decreases m - k,
        {
            let resp = self.make_comment_response(page[k], viewer);
            r.push(resp);
            k += 1;
        }
        proof {
            assert forall|k2: int|
                #![trigger r@[k2]]
                0 <= k2 < r@.len() implies represents_matching_comment(
                r@[k2],
                *f,
                self.comments@,
                self.articles@,
                self.users@,
            ) by {
                let i = page@[k2] as int;
                assert(0 <= k2 < page@.len());
                assert(page@[k2] < self.comments@.len());
                assert(comment_matches(*f, self.comments@[i], self.articles@));
                assert(comment_response_matches(r@[k2], self.comments@[i], self.users@));
            }
            if lo.limit is None && lo.offset is None {
                assert(page@ =~= ordered@);
                assert forall|i: int|
                    #![trigger self.comments@[i]]
                    0 <= i < self.comments@.len() && comment_matches(
                        *f,
                        self.comments@[i],
                        self.articles@,
                    ) implies some_comment_response_matches(
                    r@,
                    self.comments@[i],
                    self.users@,
                ) by {
                    let m0 = choose|m0: int|
                        0 <= m0 < gidxs.len() && gidxs[m0] as int == i;
                    if *order == OrderByFilter::Descending(OrderColumn::Id) {
                        let j = gidxs.len() - 1 - m0;
                        assert(ordered@[j] as int == i);
                        assert(comment_response_matches(
                            r@[j],
                            self.comments@[page@[j] as int],
                            self.users@,
                        ));
                    } else {
                        assert(ordered@[m0] as int == i);
                        assert(comment_response_matches(
                            r@[m0],
                            self.comments@[page@[m0] as int],
                            self.users@,
                        ));
                    }
                }
            }
        }
        proof {
            assert forall|i: int|
                0 <= i < self.comments@.len() && comment_matches(
                    *f,
                    #[trigger] self.comments@[i],
                    self.articles@,
                ) implies exists|k: int| 0 <= k < ordered@.len() && ordered@[k] as int == i by {
                let m0 = choose|m0: int| 0 <= m0 < gidxs.len() && gidxs[m0] as int == i;
                if *order == OrderByFilter::Descending(OrderColumn::Id) {
                    let j = gidxs.len() - 1 - m0;
                    assert(ordered@[j] as int == i);
                } else {
                    assert(ordered@ == gidxs);
                    assert(ordered@[m0] as int == i);
                }
            }
            assert(comment_selection(ordered@, *f, *order, self.comments@, self.articles@));
            assert(comment_paged_projection(r@, ordered@, *lo, self.comments@, self.users@));
            assert forall|k1: int, k2: int|
                #![trigger r@[k1], r@[k2]]
                0 <= k1 < k2 < r@.len() implies r@[k1].comment.id != r@[k2].comment.id by {
                assert(page@ == spec_paginate(ordered@, *lo));
                assert(page@[k1] != page@[k2]);
                assert(comment_response_matches(
                    r@[k1],
                    self.comments@[page@[k1] as int],
                    self.users@,
                ));
                assert(comment_response_matches(
                    r@[k2],
                    self.comments@[page@[k2] as int],
                    self.users@,
                ));
            }
            if lo.offset is None && (match lo.limit {
                Some(l) => l > 0,
                None => true,
            }) && r@.len() == 0 {
                assert(page@ == spec_paginate(ordered@, *lo));
                assert(ordered@.len() == 0);
                assert forall|i: int|
                    0 <= i < self.comments@.len() implies !comment_matches(
                    *f,
                    #[trigger] self.comments@[i],
                    self.articles@,
                ) by {
                    if comment_matches(*f, self.comments@[i], self.articles@) {
                        let m0 = choose|m0: int|
                            0 <= m0 < gidxs.len() && gidxs[m0] as int == i;
                        assert(gidxs.len() > 0);
                        assert(ordered@.len() == gidxs.len());
                    }
                }
            }
        }
        r
    }
}

/// When filtering drops nothing (the lengths agree), every element
/// satisfies the predicate.
proof fn lemma_filter_all_or_drop<A>(s: Seq<A>, pred: spec_fn(A) -> bool, m: int)
    requires
        s.filter(pred).len() == s.len(),
        0 <= m < s.len(),
    ensures
        pred(s[m]),
    decreases s.len(),
{
    reveal(Seq::filter);
    s.drop_last().lemma_filter_len(pred);
    if s.len() > 0 {
        let prefix = s.drop_last();
        if !pred(s.last()) {
            assert(s.filter(pred) == prefix.filter(pred));
            assert(s.filter(pred).len() <= prefix.len());
        } else {
            assert(s.filter(pred) == prefix.filter(pred).push(s.last()));
            if m == s.len() - 1 {
                assert(pred(s[m]));
            } else {
                assert(prefix.filter(pred).len() == prefix.len());
                lemma_filter_all_or_drop(prefix, pred, m);
                assert(prefix[m] == s[m]);
            }
        }
    }
}

/// Filters with predicates that agree on every element of the sequence
/// produce the same result.
pub(crate) proof fn lemma_filter_congruent<A>(s: Seq<A>, p1: spec_fn(A) -> bool, p2: spec_fn(A) -> bool)
    requires
        forall|i: int| 0 <= i < s.len() ==> p1(#[trigger] s[i]) == p2(s[i]),
    ensures
        s.filter(p1) == s.filter(p2),
    decreases s.len(),
{
    reveal(Seq::filter);
    if s.len() > 0 {
        let prefix = s.drop_last();
        assert(forall|i: int| 0 <= i < prefix.len() ==> prefix[i] == s[i]);
        lemma_filter_congruent(prefix, p1, p2);
        assert(s.last() == s[s.len() - 1]);
        assert(p1(s.last()) == p2(s.last()));
    }
}

/// Filtering with a predicate every element satisfies keeps the whole
/// sequence.
proof fn lemma_filter_keeps_all<A>(s: Seq<A>, pred: spec_fn(A) -> bool)
    requires
        forall|i: int| 0 <= i < s.len() ==> pred(#[trigger] s[i]),
    ensures
        s.filter(pred) == s,
    decreases s.len(),
{
    reveal(Seq::filter);
    if s.len() > 0 {
        let prefix = s.drop_last();
        assert(forall|i: int| 0 <= i < prefix.len() ==> prefix[i] == s[i]);
        assert(forall|i: int| 0 <= i < prefix.len() ==> pred(#[trigger] prefix[i]));
        lemma_filter_keeps_all(prefix, pred);
        assert(s.last() == s[s.len() - 1]);
        assert(pred(s.last()));
        assert(s.filter(pred) =~= s);
    }
}

} // verus!
