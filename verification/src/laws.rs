//! Laws of the filter and relation model, stated and proved once, so a
//! reader sees them rather than deriving them from the contracts.

use vstd::prelude::*;
use crate::articles::{article_matches, fav_pair_in};
use crate::comments::comment_matches;
use crate::filters::{ArticleFilterByValues, CommentFilterByValues, UpdateUserFilter, UserFilter};
use crate::models::User;
use crate::store::{ArticleRow, CommentRow, Favorite, Follow, follow_pair_in, user_matches,
    update_user_matches};

verus! {

/// Law: a user filter with no fields set matches every user, so the
/// rendered predicate with zero conjuncts selects every row.
pub proof fn lemma_empty_user_filter_matches_all(f: UserFilter, u: User)
    requires
        f.username is None,
        f.email is None,
        f.password is None,
    ensures
        user_matches(f, u),
{
}

/// Law: an update filter with no fields set matches every user.
pub proof fn lemma_empty_update_user_filter_matches_all(f: UpdateUserFilter, u: User)
    requires
        f.username is None,
        f.email is None,
    ensures
        update_user_matches(f, u),
{
}

/// Law: an article filter with no fields set matches every article.
pub proof fn lemma_empty_article_filter_matches_all(
    f: ArticleFilterByValues,
    row: ArticleRow,
    favorites: Seq<Favorite>,
)
    requires
        f.author is None,
        f.tag is None,
        f.favorited is None,
        f.slug is None,
    ensures
        article_matches(f, row, favorites),
{
}

/// Law: a comment filter with no fields set matches every comment.
pub proof fn lemma_empty_comment_filter_matches_all(
    f: CommentFilterByValues,
    c: CommentRow,
    articles: Seq<ArticleRow>,
)
    requires
        f.id is None,
        f.author is None,
        f.article_slug is None,
    ensures
        comment_matches(f, c, articles),
{
}

/// The number of follow relations from `follower` to `celeb`.
pub open spec fn count_follow_pairs(
    follows: Seq<Follow>,
    follower: Seq<char>,
    celeb: Seq<char>,
) -> nat
    decreases follows.len(),
{
    if follows.len() == 0 {
        0
    } else {
        count_follow_pairs(follows.drop_last(), follower, celeb) + if follows.last().follower@
            == follower && follows.last().celeb@ == celeb {
            1nat
        } else {
            0nat
        }
    }
}

/// A relation that is absent is counted zero times.
proof fn lemma_count_follow_zero(follows: Seq<Follow>, follower: Seq<char>, celeb: Seq<char>)
    requires
        !follow_pair_in(follows, follower, celeb),
    ensures
        count_follow_pairs(follows, follower, celeb) == 0,
    decreases follows.len(),
{
    if follows.len() > 0 {
        let prefix = follows.drop_last();
        assert(forall|i: int| 0 <= i < prefix.len() ==> prefix[i] == follows[i]);
        assert(!follow_pair_in(prefix, follower, celeb));
        lemma_count_follow_zero(prefix, follower, celeb);
        assert(follows.last() == follows[follows.len() - 1]);
    }
}

/// Law: under the store invariant, a present follow relation exists as
/// exactly one row. With the idempotent insert this means following the
/// same celebrity twice leaves exactly one relation row.
pub proof fn lemma_follow_pair_unique(follows: Seq<Follow>, follower: Seq<char>, celeb: Seq<char>)
    requires
        forall|i: int, j: int|
            #![trigger follows[i], follows[j]]
            0 <= i < j < follows.len() ==> !(follows[i].follower@ == follows[j].follower@
                && follows[i].celeb@ == follows[j].celeb@),
        follow_pair_in(follows, follower, celeb),
    ensures
        count_follow_pairs(follows, follower, celeb) == 1,
    decreases follows.len(),
{
    let prefix = follows.drop_last();
    assert(forall|i: int| 0 <= i < prefix.len() ==> prefix[i] == follows[i]);
    assert(follows.last() == follows[follows.len() - 1]);
    if follows.last().follower@ == follower && follows.last().celeb@ == celeb {
        assert(!follow_pair_in(prefix, follower, celeb)) by {
            if follow_pair_in(prefix, follower, celeb) {
                let i = choose|i: int|
                    0 <= i < prefix.len() && prefix[i].follower@ == follower && prefix[i].celeb@
                        == celeb;
                assert(follows[i].follower@ == follows[follows.len() - 1].follower@);
            }
        }
        lemma_count_follow_zero(prefix, follower, celeb);
    } else {
        assert(follow_pair_in(prefix, follower, celeb)) by {
            let i = choose|i: int|
                0 <= i < follows.len() && follows[i].follower@ == follower && follows[i].celeb@
                    == celeb;
            assert(prefix[i] == follows[i]);
        }
        lemma_follow_pair_unique(prefix, follower, celeb);
    }
}

/// The number of favorite relations from `username` to the article with id
/// `id`.
pub open spec fn count_fav_pairs(favorites: Seq<Favorite>, id: u32, username: Seq<char>) -> nat
    decreases favorites.len(),
{
    if favorites.len() == 0 {
        0
    } else {
        count_fav_pairs(favorites.drop_last(), id, username) + if favorites.last().article_id == id
            && favorites.last().username@ == username {
            1nat
        } else {
            0nat
        }
    }
}

/// A relation that is absent is counted zero times.
proof fn lemma_count_fav_zero(favorites: Seq<Favorite>, id: u32, username: Seq<char>)
    requires
        !fav_pair_in(favorites, id, username),
    ensures
        count_fav_pairs(favorites, id, username) == 0,
    decreases favorites.len(),
{
    if favorites.len() > 0 {
        let prefix = favorites.drop_last();
        assert(forall|i: int| 0 <= i < prefix.len() ==> prefix[i] == favorites[i]);
        assert(!fav_pair_in(prefix, id, username));
        lemma_count_fav_zero(prefix, id, username);
        assert(favorites.last() == favorites[favorites.len() - 1]);
    }
}

/// Law: under the store invariant, a present favorite relation exists as
/// exactly one row. With the idempotent insert this means favoriting the
/// same article twice leaves exactly one relation row.
pub proof fn lemma_fav_pair_unique(favorites: Seq<Favorite>, id: u32, username: Seq<char>)
    requires
        forall|i: int, j: int|
            #![trigger favorites[i], favorites[j]]
            0 <= i < j < favorites.len() ==> !(favorites[i].article_id == favorites[j].article_id
                && favorites[i].username@ == favorites[j].username@),
        fav_pair_in(favorites, id, username),
    ensures
        count_fav_pairs(favorites, id, username) == 1,
    decreases favorites.len(),
{
    let prefix = favorites.drop_last();
    assert(forall|i: int| 0 <= i < prefix.len() ==> prefix[i] == favorites[i]);
    assert(favorites.last() == favorites[favorites.len() - 1]);
    if favorites.last().article_id == id && favorites.last().username@ == username {
        assert(!fav_pair_in(prefix, id, username)) by {
            if fav_pair_in(prefix, id, username) {
                let i = choose|i: int|
                    0 <= i < prefix.len() && prefix[i].article_id == id && prefix[i].username@
                        == username;
                assert(favorites[i].article_id == favorites[favorites.len() - 1].article_id);
            }
        }
        lemma_count_fav_zero(prefix, id, username);
    } else {
        assert(fav_pair_in(prefix, id, username)) by {
            let i = choose|i: int|
                0 <= i < favorites.len() && favorites[i].article_id == id && favorites[i].username@
                    == username;
            assert(prefix[i] == favorites[i]);
        }
        lemma_fav_pair_unique(prefix, id, username);
    }
}

} // verus!
