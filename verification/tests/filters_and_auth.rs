//! Tests of the predicate filters, the rendered fragments, and the claims
//! and token service.

use realworld_backend::auth::Auth;
use realworld_backend::errors::BackendError;
use realworld_backend::filters::{
    get_article_clause, ArticleFilterByValues, ArticleFilterFeed, CommentFilterByValues, Filter,
    LimitOffsetFilter, OrderByFilter, OrderColumn, UpdateArticleFilter, UpdateUserFilter,
    UserFilter,
};
use realworld_backend::models::{Article, UpdateArticle, User};
use realworld_backend::requests::{authenticate_request, CreateArticleRequest,
    CreateArticleRequestAuthenticated};
use realworld_backend::sql::Param;

fn user() -> User {
    User {
        email: "scott.smith@fakemail.com".to_string(),
        username: "scott_smith".to_string(),
        bio: String::new(),
        image: None,
        hashed_password: "unused".to_string(),
    }
}

#[test]
fn empty_user_filter_renders_tautology() {
    let f = UserFilter::default();
    let frag = f.to_fragment();
    assert_eq!(frag.text, " 1=1");
    assert!(frag.params.is_empty());
}

#[test]
fn user_filter_renders_conjunction_ending_in_tautology() {
    let f = UserFilter::default()
        .username("scott_smith".to_string())
        .email("scott.smith@fakemail.com".to_string());
    let frag = f.to_fragment();
    assert_eq!(frag.text, " users.username=? AND users.email=? AND 1=1");
    assert_eq!(frag.params.len(), 2);
    assert!(matches!(&frag.params[0], Param::Str(s) if s == "scott_smith"));
    assert!(matches!(&frag.params[1], Param::Str(s) if s == "scott.smith@fakemail.com"));
}

#[test]
fn update_user_filter_renders_tautology() {
    let f = UpdateUserFilter::default().username("james_joyce".to_string());
    let frag = f.to_fragment();
    assert_eq!(frag.text, " users.username=? AND 1=1");
    assert_eq!(frag.params.len(), 1);
}

#[test]
fn article_filter_renders_each_set_field_once() {
    let f = ArticleFilterByValues::default()
        .author("james_joyce".to_string())
        .tag("Dublin".to_string());
    let frag = f.to_fragment();
    assert_eq!(frag.text, " author=? AND tagList LIKE '%'||?||'%' AND 1=1");
    assert_eq!(frag.params.len(), 2);
}

#[test]
fn empty_article_filter_renders_tautology_only() {
    let frag = ArticleFilterByValues::default().to_fragment();
    assert_eq!(frag.text, " 1=1");
    assert!(frag.params.is_empty());
}

#[test]
fn feed_filter_renders_subquery_and_tautology() {
    let f = ArticleFilterFeed { follower: "scott_smith".to_string() };
    let frag = f.to_fragment();
    assert_eq!(
        frag.text,
        " author IN (SELECT celeb_name FROM followers WHERE follower_name=?) AND 1=1"
    );
    assert_eq!(frag.params.len(), 1);
}

#[test]
fn scoped_mutation_filter_renders_selector_and_owner() {
    let f = UpdateArticleFilter {
        slug: "ulysses".to_string(),
        author: "james_joyce".to_string(),
    };
    let frag = f.to_fragment();
    assert_eq!(frag.text, " slug=? AND author=? AND 1=1");
    assert_eq!(frag.params.len(), 2);
}

#[test]
fn comment_filter_renders_id_author_and_subquery() {
    let f = CommentFilterByValues::default()
        .id(4)
        .author("graham_greene".to_string())
        .article_slug("the-calm-american".to_string());
    let frag = f.to_fragment();
    assert_eq!(
        frag.text,
        " id=? AND author=? AND article_id IN (SELECT id FROM articles WHERE slug=?) AND 1=1"
    );
    assert_eq!(frag.params.len(), 3);
    assert!(matches!(&frag.params[0], Param::Int(4)));
}

#[test]
fn pagination_renders_placeholders() {
    let lo = LimitOffsetFilter::default().limit(10).offset(20);
    let mut frag = realworld_backend::sql::Fragment::new();
    lo.append_to(&mut frag);
    assert_eq!(frag.text, " LIMIT ? OFFSET ?");
    assert!(matches!(&frag.params[0], Param::Int(10)));
    assert!(matches!(&frag.params[1], Param::Int(20)));
}

#[test]
fn article_clause_composes_filter_order_and_pagination() {
    let f = ArticleFilterByValues::default().slug("ulysses".to_string());
    let order = OrderByFilter::Descending(OrderColumn::CreatedAt);
    let lo = LimitOffsetFilter::default().limit(1);
    let frag = get_article_clause(&f, &order, &lo);
    assert!(frag.text.starts_with("SELECT *, (favoritesCount>0) as favorited FROM"));
    assert!(frag.text.contains(" slug=? AND 1=1"));
    assert!(frag.text.contains(" ORDER BY createdAt DESC"));
    assert!(frag.text.contains(" LIMIT ?"));
    assert!(frag.text.ends_with(") WHERE id IS NOT NULL"));
    assert_eq!(frag.params.len(), 2);
}

#[test]
fn token_round_trip_before_expiry() {
    let secret = b"test-signing-secret".to_vec();
    let now = 1_000_000i64;
    let token = Auth::create_token(&user(), &secret, now).expect("token should be issued");
    let claims = Auth::authenticate(&token, &secret, now + 3599).expect("token should verify");
    assert_eq!(claims.username, "scott_smith");
    assert_eq!(claims.email, "scott.smith@fakemail.com");
    assert_eq!(claims.exp, now + 3600);
}

#[test]
fn token_fails_at_and_after_expiry() {
    let secret = b"test-signing-secret".to_vec();
    let now = 1_000_000i64;
    let token = Auth::create_token(&user(), &secret, now).unwrap();
    let at = Auth::authenticate(&token, &secret, now + 3600);
    assert!(matches!(at, Err(BackendError::AuthenticationFailure)));
    let after = Auth::authenticate(&token, &secret, now + 7200);
    assert!(matches!(after, Err(BackendError::AuthenticationFailure)));
}

#[test]
fn token_tamper_sensitivity_every_byte() {
    let secret = b"test-signing-secret".to_vec();
    let now = 1_000_000i64;
    let token = Auth::create_token(&user(), &secret, now).unwrap();
    let bytes = token.as_bytes();
    for i in 0..bytes.len() {
        let mut flipped = bytes.to_vec();
        // flip a bit while staying in ASCII so the token stays a string
        flipped[i] ^= 0x01;
        let tampered = String::from_utf8(flipped).unwrap();
        if tampered == token {
            continue;
        }
        let r = Auth::authenticate(&tampered, &secret, now);
        assert!(
            matches!(r, Err(BackendError::AuthenticationFailure)),
            "tampered byte {} was accepted",
            i
        );
    }
}

#[test]
fn token_fails_under_wrong_secret() {
    let secret = b"test-signing-secret".to_vec();
    let other = b"another-secret".to_vec();
    let now = 1_000_000i64;
    let token = Auth::create_token(&user(), &secret, now).unwrap();
    let r = Auth::authenticate(&token, &other, now);
    assert!(matches!(r, Err(BackendError::AuthenticationFailure)));
}

#[test]
fn authorize_distinguishes_forbidden_from_authentication() {
    let secret = b"test-signing-secret".to_vec();
    let now = 1_000_000i64;
    let token = Auth::create_token(&user(), &secret, now).unwrap();
    assert!(Auth::authorize(&token, &secret, "scott_smith", now).is_ok());
    let forbidden = Auth::authorize(&token, &secret, "james_joyce", now);
    assert!(matches!(forbidden, Err(BackendError::Forbidden)));
    let unauthenticated = Auth::authorize("garbage.token.here", &secret, "scott_smith", now);
    assert!(matches!(unauthenticated, Err(BackendError::AuthenticationFailure)));
}

#[test]
fn update_article_get_slug_regenerates_from_title() {
    let up = UpdateArticle::default().title("Finnegans Wake Revisited");
    assert_eq!(up.get_slug().as_deref(), Some("finnegans-wake-revisited"));
    let no_title = UpdateArticle::default().description("unchanged");
    assert!(no_title.get_slug().is_none());
}

#[test]
fn binder_pairs_request_with_verified_caller() {
    let secret = b"test-signing-secret".to_vec();
    let now = 1_000_000i64;
    let token = Auth::create_token(&user(), &secret, now).unwrap();
    let req = CreateArticleRequest {
        slug: "ulysses".to_string(),
        title: "Ulysses".to_string(),
        description: None,
        body: "Some body".to_string(),
        tag_list: None,
    };
    let bound: CreateArticleRequestAuthenticated =
        authenticate_request(req, &token, &secret, now).expect("binder should verify the token");
    assert_eq!(bound.author, "scott_smith");
    let article = Article::from_authenticated(bound, now);
    assert_eq!(article.author, "scott_smith");
    assert_eq!(article.slug, "ulysses");
    assert_eq!(article.created_at, now);
    assert!(article.tag_list.is_empty());

    let req2 = CreateArticleRequest {
        slug: String::new(),
        title: "X".to_string(),
        description: None,
        body: "b".to_string(),
        tag_list: None,
    };
    let r: Result<CreateArticleRequestAuthenticated, BackendError> =
        authenticate_request(req2, "bad.token", &secret, now);
    assert!(matches!(r, Err(BackendError::AuthenticationFailure)));
}

#[test]
fn token_round_trip_with_pre_epoch_instant() {
    // an issuance instant before the epoch gives a negative expiry value,
    // which must round-trip like any other
    let secret = b"test-signing-secret".to_vec();
    let now = -10_000i64;
    let token = Auth::create_token(&user(), &secret, now).expect("token should be issued");
    let claims = Auth::authenticate(&token, &secret, now).expect("token should verify");
    assert_eq!(claims.exp, now + 3600);
    let expired = Auth::authenticate(&token, &secret, now + 3600);
    assert!(matches!(expired, Err(BackendError::AuthenticationFailure)));
}
