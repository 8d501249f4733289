//! End-to-end scenarios against the resource-access service, mirroring the
//! business flows of the application: registration and login, profiles and
//! follows, articles with slug regeneration, favorites, the ownership
//! protocol, and the comment lifecycle.

use realworld_backend::config::Config;
use realworld_backend::errors::BackendError;
use realworld_backend::filters::{ArticleFilterByValues, LimitOffsetFilter, OrderByFilter,
    OrderColumn};
use realworld_backend::models::UpdateArticle;
use realworld_backend::requests::{AddCommentRequest, CreateArticleRequest, DeleteCommentRequest,
    LoginRequest, UpdateArticleRequest, UserReg, UserUpdateRequest};
use realworld_backend::server::Server;

const NOW: i64 = 1_700_000_000;

fn test_config() -> Config {
    Config {
        database_url_prefix: "sqlite://".to_string(),
        database_url_path: "db/".to_string(),
        database_file: "realworld.db".to_string(),
        secret: "test-signing-secret".to_string(),
        drop_database: true,
    }
}

fn server() -> Server {
    Server::with_config(test_config())
}

fn reg(username: &str, email: &str, password: &str) -> UserReg {
    UserReg {
        username: username.to_string(),
        email: email.to_string(),
        password: password.to_string(),
    }
}

fn register(server: &mut Server, username: &str) -> String {
    let email = format!("{}@fakemail.com", username);
    let user = server
        .register_user(reg(username, &email, "password"), NOW)
        .expect("registration should succeed");
    user.token
}

fn create_article(server: &mut Server, token: &str, title: &str, body: &str, tags: Vec<&str>) {
    let req = CreateArticleRequest {
        slug: String::new(),
        title: title.to_string(),
        description: None,
        body: body.to_string(),
        tag_list: Some(tags.into_iter().map(|t| t.to_string()).collect()),
    };
    server.create_article(token, req, NOW).expect("article creation should succeed");
}

#[test]
fn registration_and_login() {
    let mut server = server();
    let reg_scott = reg("scott_smith", "scott.smith@fakemail.com", "password");
    server.register_user(reg_scott, NOW).expect("registration should succeed");

    // login by email
    let by_email = server
        .login_user(
            LoginRequest {
                email: "scott.smith@fakemail.com".to_string(),
                password: "password".to_string(),
            },
            NOW,
        )
        .expect("login by email should succeed");
    assert_eq!(by_email.username, "scott_smith");

    // login by username returns the same identity
    let by_username = server
        .login_user(
            LoginRequest { email: "scott_smith".to_string(), password: "password".to_string() },
            NOW,
        )
        .expect("login by username should succeed");
    assert_eq!(by_username.username, by_email.username);
    assert_eq!(by_username.email, by_email.email);

    // wrong password fails with the generic incorrect-credentials error
    let wrong = server.login_user(
        LoginRequest {
            email: "scott.smith@fakemail.com".to_string(),
            password: "incorrect_password".to_string(),
        },
        NOW,
    );
    assert!(matches!(wrong, Err(BackendError::IncorrectUsernameOrPassword(_))));

    // logging in a non-existing user fails the same way
    let missing = server.login_user(
        LoginRequest {
            email: "james.joyce@fakemail.com".to_string(),
            password: "password".to_string(),
        },
        NOW,
    );
    assert!(matches!(missing, Err(BackendError::IncorrectUsernameOrPassword(_))));

    // re-registering the same username is a conflict
    let again = server.register_user(
        reg("scott_smith", "scott.smith@fakemail.com", "password"),
        NOW,
    );
    assert!(matches!(again, Err(BackendError::UsernameOrEmailExists)));

    // a malformed email is rejected before anything is stored
    let bad_email = server.register_user(reg("oscar_wilde", "not-an-email", "password"), NOW);
    assert!(matches!(bad_email, Err(BackendError::ValidationError(_))));
}

#[test]
fn current_user_by_token_and_update() {
    let mut server = server();
    let token = register(&mut server, "james_joyce");

    let current = server.user_by_token(&token, NOW).expect("token should resolve");
    assert_eq!(current.username, "james_joyce");

    let mut update = UserUpdateRequest::default();
    update.bio = Some("Im writing a novel".to_string());
    let updated = server.update_user(&token, update, NOW).expect("self-update should succeed");
    assert_eq!(updated.bio, "Im writing a novel");

    // profile of a non-existing user is not found
    let missing = server.profile(None, "graham_green");
    assert!(matches!(missing, Err(BackendError::NoUserFound(_))));
}

#[test]
fn follow_is_idempotent() {
    let mut server = server();
    let token = register(&mut server, "scott_smith");
    register(&mut server, "james_joyce");

    let p1 = server.follow(&token, "james_joyce", NOW).expect("follow should succeed");
    assert_eq!(p1.username, "james_joyce");
    assert!(p1.following);
    assert_eq!(server.store.follows.len(), 1);

    // following the same celebrity twice leaves exactly one relation row
    let p2 = server.follow(&token, "james_joyce", NOW).expect("repeat follow should succeed");
    assert!(p2.following);
    assert_eq!(server.store.follows.len(), 1);

    let p3 = server.unfollow(&token, "james_joyce", NOW).expect("unfollow should succeed");
    assert!(!p3.following);
    assert_eq!(server.store.follows.len(), 0);

    // unfollowing again is a no-op, not an error
    let p4 = server.unfollow(&token, "james_joyce", NOW).expect("repeat unfollow should succeed");
    assert!(!p4.following);
    assert_eq!(server.store.follows.len(), 0);
}

#[test]
fn slug_regeneration_on_title_update() {
    let mut server = server();
    let token = register(&mut server, "james_joyce");
    create_article(&mut server, &token, "Ulysses", "Story not really about traveling", vec![
        "Dublin", "Homer",
    ]);

    let fetched = server.get_article_by_slug("ulysses").expect("slug should resolve");
    assert_eq!(fetched.article.title, "Ulysses");
    assert_eq!(fetched.article.slug, "ulysses");

    let update = UpdateArticleRequest {
        article: UpdateArticle::default().title("Finnegans Wake Revisited"),
        slug: "ulysses".to_string(),
    };
    let updated = server.update_article(&token, update, NOW + 10).expect("update should succeed");
    assert_eq!(updated.article.slug, "finnegans-wake-revisited");
    assert_eq!(updated.article.title, "Finnegans Wake Revisited");

    // the old slug no longer resolves, the new one does
    assert!(matches!(
        server.get_article_by_slug("ulysses"),
        Err(BackendError::NoArticleFound)
    ));
    let resolved = server.get_article_by_slug("finnegans-wake-revisited");
    assert!(resolved.is_ok());
}

#[test]
fn ownership_protocol_outcomes() {
    let mut server = server();
    let token_a = register(&mut server, "james_joyce");
    let token_b = register(&mut server, "scott_smith");
    create_article(&mut server, &token_a, "Ulysses", "Some body", vec!["Dublin"]);

    // owner updates: success
    let update = UpdateArticleRequest {
        article: UpdateArticle::default().body("A longer body"),
        slug: "ulysses".to_string(),
    };
    assert!(server.update_article(&token_a, update, NOW + 1).is_ok());

    // a non-owner attempting update or delete is forbidden, and the article
    // stays unchanged
    let foreign_update = UpdateArticleRequest {
        article: UpdateArticle::default().title("The Mad Irishman"),
        slug: "ulysses".to_string(),
    };
    assert!(matches!(
        server.update_article(&token_b, foreign_update, NOW + 2),
        Err(BackendError::Forbidden)
    ));
    assert!(matches!(
        server.delete_article(&token_b, "ulysses", NOW + 3),
        Err(BackendError::Forbidden)
    ));
    let still_there = server.get_article_by_slug("ulysses").expect("article should survive");
    assert_eq!(still_there.article.body, "A longer body");

    // a non-existent key is not found, for update and for delete
    let missing_update = UpdateArticleRequest {
        article: UpdateArticle::default().title("The Quiet American"),
        slug: "the-good-american".to_string(),
    };
    assert!(matches!(
        server.update_article(&token_a, missing_update, NOW + 4),
        Err(BackendError::NoArticleFound)
    ));
    assert!(matches!(
        server.delete_article(&token_a, "dummy", NOW + 5),
        Err(BackendError::NoArticleFound)
    ));

    // a forged token is an authentication failure before anything else
    let forged = UpdateArticleRequest {
        article: UpdateArticle::default().body("x"),
        slug: "ulysses".to_string(),
    };
    assert!(matches!(
        server.update_article("garbage.token.here", forged, NOW + 6),
        Err(BackendError::AuthenticationFailure)
    ));

    // owner deletes: success, and the slug no longer resolves
    assert!(server.delete_article(&token_a, "ulysses", NOW + 7).is_ok());
    assert!(matches!(
        server.get_article_by_slug("ulysses"),
        Err(BackendError::NoArticleFound)
    ));
}

#[test]
fn favorites_are_idempotent_and_counted() {
    let mut server = server();
    let token_g = register(&mut server, "graham_greene");
    let token_s = register(&mut server, "scott_smith");
    let token_j = register(&mut server, "james_joyce");
    create_article(&mut server, &token_g, "The Quiet American", "Some body", vec![
        "Vietnam", "Spy",
    ]);

    let r1 = server
        .favorite_article(&token_s, "the-quiet-american", NOW)
        .expect("favorite should succeed");
    assert!(r1.article.favorited);
    assert_eq!(r1.article.favorites_count, 1);

    // favoriting the same article twice leaves exactly one relation row
    let r2 = server
        .favorite_article(&token_s, "the-quiet-american", NOW)
        .expect("repeat favorite should succeed");
    assert_eq!(r2.article.favorites_count, 1);

    let r3 = server
        .favorite_article(&token_j, "the-quiet-american", NOW)
        .expect("second favorite should succeed");
    assert_eq!(r3.article.favorites_count, 2);

    let r4 = server
        .unfavorite_article(&token_j, "the-quiet-american", NOW)
        .expect("unfavorite should succeed");
    assert_eq!(r4.article.favorites_count, 1);
    assert!(r4.article.favorited);

    assert!(matches!(
        server.favorite_article(&token_s, "dummy", NOW),
        Err(BackendError::NoArticleFound)
    ));
}

#[test]
fn listing_feed_and_tags() {
    let mut server = server();
    let token_j = register(&mut server, "james_joyce");
    let token_g = register(&mut server, "graham_greene");
    let token_s = register(&mut server, "scott_smith");
    create_article(&mut server, &token_j, "Ulysses", "Story not really about traveling", vec![
        "Dublin", "Homer",
    ]);
    create_article(&mut server, &token_j, "Finnegans Wake", "Some body", vec![
        "Dublin", "Stream",
    ]);
    create_article(&mut server, &token_g, "The Quiet American", "Some body", vec![
        "Vietnam", "Spy",
    ]);

    // by author
    let by_joyce = server
        .get_articles(
            ArticleFilterByValues::default().author("james_joyce".to_string()),
            OrderByFilter::Descending(OrderColumn::CreatedAt),
            LimitOffsetFilter::default(),
        )
        .expect("listing should succeed");
    assert_eq!(by_joyce.articles.len(), 2);
    assert!(by_joyce.articles.iter().any(|a| a.article.slug == "ulysses"));
    assert!(by_joyce.articles.iter().any(|a| a.article.slug == "finnegans-wake"));

    // an empty filter matches every article
    let all = server
        .get_articles(
            ArticleFilterByValues::default(),
            OrderByFilter::Unordered,
            LimitOffsetFilter::default(),
        )
        .expect("listing should succeed");
    assert_eq!(all.articles.len(), 3);
    assert_eq!(all.articles_count, 3);

    // pagination bounds the page
    let limited = server
        .get_articles(
            ArticleFilterByValues::default(),
            OrderByFilter::Unordered,
            LimitOffsetFilter::default().limit(2),
        )
        .expect("listing should succeed");
    assert_eq!(limited.articles.len(), 2);

    // by tag substring
    let dublin = server
        .get_articles(
            ArticleFilterByValues::default().tag("Dublin".to_string()),
            OrderByFilter::Unordered,
            LimitOffsetFilter::default(),
        )
        .expect("listing should succeed");
    assert_eq!(dublin.articles.len(), 2);

    // the feed holds only followed authors' articles
    server.follow(&token_s, "james_joyce", NOW).expect("follow should succeed");
    server.follow(&token_s, "graham_greene", NOW).expect("follow should succeed");
    let feed = server
        .feed_articles(&token_s, LimitOffsetFilter::default(), NOW)
        .expect("feed should succeed");
    assert_eq!(feed.articles.len(), 3);
    let feed_j = server
        .feed_articles(&token_j, LimitOffsetFilter::default(), NOW)
        .expect("feed should succeed");
    assert_eq!(feed_j.articles.len(), 0);

    // tags are distinct and sorted case-insensitively
    let tags = server.get_tags().expect("tags should succeed");
    assert_eq!(
        tags.tags,
        vec![
            "Dublin".to_string(),
            "Homer".to_string(),
            "Spy".to_string(),
            "Stream".to_string(),
            "Vietnam".to_string()
        ]
    );
}

#[test]
fn comment_lifecycle() {
    let mut server = server();
    let token_author = register(&mut server, "graham_greene");
    let token_other = register(&mut server, "scott_smith");
    create_article(&mut server, &token_author, "The Calm American", "Some body", vec!["Spy"]);

    let comment = server
        .add_comment(
            &token_author,
            AddCommentRequest {
                body: "I love all my writings".to_string(),
                article_slug: "the-calm-american".to_string(),
            },
            NOW,
        )
        .expect("comment should be added");
    assert_eq!(comment.comment.body, "I love all my writings");
    let id = comment.comment.id;

    let listed = server.get_comments("the-calm-american").expect("comments should list");
    assert_eq!(listed.comments.len(), 1);

    // a different user attempting to delete it is forbidden
    let foreign = server.delete_comment(
        &token_other,
        DeleteCommentRequest { id, article_slug: "the-calm-american".to_string() },
        NOW,
    );
    assert!(matches!(foreign, Err(BackendError::Forbidden)));

    // the author deletes it, and it no longer appears in the list
    server
        .delete_comment(
            &token_author,
            DeleteCommentRequest { id, article_slug: "the-calm-american".to_string() },
            NOW,
        )
        .expect("author should delete own comment");
    let listed = server.get_comments("the-calm-american").expect("comments should list");
    assert_eq!(listed.comments.len(), 0);

    // deleting the same id again is not found
    let again = server.delete_comment(
        &token_author,
        DeleteCommentRequest { id, article_slug: "the-calm-american".to_string() },
        NOW,
    );
    assert!(matches!(again, Err(BackendError::NoCommentFound(_))));

    // commenting on a missing article adds nothing
    let missing = server.add_comment(
        &token_author,
        AddCommentRequest { body: "Hmmm...".to_string(), article_slug: "dummy".to_string() },
        NOW,
    );
    assert!(matches!(missing, Err(BackendError::NoCommentAdded)));
}

#[test]
fn comments_list_newest_first() {
    let mut server = server();
    let token = register(&mut server, "scott_smith");
    create_article(&mut server, &token, "The Calm American", "Some body", vec![]);

    for body in ["Author, write more !", "Hmmm...", "Should call it The Quiet American"] {
        server
            .add_comment(
                &token,
                AddCommentRequest {
                    body: body.to_string(),
                    article_slug: "the-calm-american".to_string(),
                },
                NOW,
            )
            .expect("comment should be added");
    }
    let listed = server.get_comments("the-calm-american").expect("comments should list");
    assert_eq!(listed.comments.len(), 3);
    let ids: Vec<i32> = listed.comments.iter().map(|c| c.comment.id).collect();
    assert_eq!(ids, vec![3, 2, 1]);
    assert_eq!(listed.comments[0].comment.body, "Should call it The Quiet American");
}

#[test]
fn duplicate_slug_creation_is_rejected() {
    let mut server = server();
    let token = register(&mut server, "james_joyce");
    create_article(&mut server, &token, "Ulysses", "Some body", vec![]);
    let dup = CreateArticleRequest {
        slug: String::new(),
        title: "Ulysses".to_string(),
        description: None,
        body: "Another body".to_string(),
        tag_list: None,
    };
    let r = server.create_article(&token, dup, NOW);
    assert!(matches!(r, Err(BackendError::UnexpectedError(_))));
}
