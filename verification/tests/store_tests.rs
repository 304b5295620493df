use blog_api::errors::{AppError, StorageErrorKind};
use blog_api::store::{
    create_post, create_user, full_text_search_posts, get_posts_with_users, list_posts,
    search_posts, select, Store,
};

#[test]
fn test_create_user_and_post() {
    let mut store = Store::new();

    let user = create_user(
        &mut store,
        String::from("test_user"),
        String::from("test@example.com"),
    )
    .unwrap();
    assert_eq!(user.username, "test_user");

    create_post(
        &mut store,
        user.id,
        String::from("Test Post"),
        String::from("This is a test."),
        true,
    )
    .unwrap();

    let results = get_posts_with_users(&store).unwrap();
    assert_eq!(results.len(), 1);
    let (post, queried_user) = &results[0];
    assert_eq!(post.title, "Test Post");
    assert_eq!(queried_user.username, "test_user");
}

#[test]
fn create_user_assigns_id_and_timestamp() {
    let mut store = Store::new();
    let a = create_user(&mut store, String::from("a"), String::from("a@x.com")).unwrap();
    assert_eq!(a.id, 1);
    assert_eq!(a.created_at, 0);
    let b = create_user(&mut store, String::from("b"), String::from("b@x.com")).unwrap();
    assert_eq!(b.id, 2);
    assert_eq!(b.created_at, 1);
}

#[test]
fn duplicate_username_fails_and_adds_no_row() {
    let mut store = Store::new();
    create_user(&mut store, String::from("alice"), String::from("a@x.com")).unwrap();
    let err = create_user(&mut store, String::from("alice"), String::from("b@x.com"));
    assert_eq!(
        err,
        Err(AppError::Database(StorageErrorKind::UniqueViolation))
    );
    // No row was added: the next user still gets id 2.
    let b = create_user(&mut store, String::from("bob"), String::from("b@x.com")).unwrap();
    assert_eq!(b.id, 2);
}

#[test]
fn post_with_unknown_user_fails_and_adds_no_row() {
    let mut store = Store::new();
    let err = create_post(
        &mut store,
        5,
        String::from("t"),
        String::from("b"),
        false,
    );
    assert_eq!(
        err,
        Err(AppError::Database(StorageErrorKind::ForeignKeyViolation))
    );
    let rows = get_posts_with_users(&store).unwrap();
    assert_eq!(rows.len(), 0);
}

fn store_with_posts(titles: &[&str]) -> Store {
    let mut store = Store::new();
    let user = create_user(&mut store, String::from("u"), String::from("u@x.com")).unwrap();
    for t in titles {
        create_post(
            &mut store,
            user.id,
            String::from(*t),
            String::from("body"),
            true,
        )
        .unwrap();
    }
    store
}

#[test]
fn list_posts_pages_in_order() {
    let store = store_with_posts(&["one", "two", "three"]);
    let page1 = list_posts(&store, 1, 2).unwrap();
    assert_eq!(page1.len(), 2);
    assert_eq!(page1[0].0.title, "one");
    assert_eq!(page1[1].0.title, "two");
    let page2 = list_posts(&store, 2, 2).unwrap();
    assert_eq!(page2.len(), 1);
    assert_eq!(page2[0].0.title, "three");
    // The first row of page p equals row (p-1)*n of the full listing.
    let all = list_posts(&store, 1, 3).unwrap();
    assert_eq!(page2[0].0.id, all[2].0.id);
}

#[test]
fn empty_store_lists_and_searches_empty() {
    let store = Store::new();
    assert_eq!(list_posts(&store, 1, 10).unwrap().len(), 0);
    assert_eq!(search_posts(&store, "a", 1, 10).unwrap().len(), 0);
    assert_eq!(full_text_search_posts(&store, "a", 1, 10).unwrap().len(), 0);
    assert_eq!(get_posts_with_users(&store).unwrap().len(), 0);
}

#[test]
fn list_posts_beyond_end_is_empty_not_an_error() {
    let store = store_with_posts(&["one"]);
    let far = list_posts(&store, 7, 10).unwrap();
    assert_eq!(far.len(), 0);
}

#[test]
fn list_posts_rejects_negative_window() {
    let store = store_with_posts(&["one"]);
    assert_eq!(
        list_posts(&store, 0, 10),
        Err(AppError::Database(StorageErrorKind::Other))
    );
    assert_eq!(
        list_posts(&store, 1, -1),
        Err(AppError::Database(StorageErrorKind::Other))
    );
}

#[test]
fn list_posts_joins_each_post_to_its_owner() {
    let mut store = Store::new();
    let a = create_user(&mut store, String::from("a"), String::from("a@x.com")).unwrap();
    let b = create_user(&mut store, String::from("b"), String::from("b@x.com")).unwrap();
    create_post(&mut store, b.id, String::from("by b"), String::from("x"), true).unwrap();
    create_post(&mut store, a.id, String::from("by a"), String::from("y"), true).unwrap();
    let rows = list_posts(&store, 1, 10).unwrap();
    assert_eq!(rows.len(), 2);
    assert_eq!(rows[0].1.username, "b");
    assert_eq!(rows[1].1.username, "a");
}

#[test]
fn substring_search_is_case_insensitive_on_title_and_body() {
    let mut store = Store::new();
    let u = create_user(&mut store, String::from("u"), String::from("u@x.com")).unwrap();
    create_post(
        &mut store,
        u.id,
        String::from("Hello World"),
        String::from("first post"),
        true,
    )
    .unwrap();
    create_post(
        &mut store,
        u.id,
        String::from("Other"),
        String::from("the WORLD is wide"),
        true,
    )
    .unwrap();
    create_post(
        &mut store,
        u.id,
        String::from("Unrelated"),
        String::from("nothing here"),
        true,
    )
    .unwrap();

    let hits = search_posts(&store, "world", 1, 10).unwrap();
    assert_eq!(hits.len(), 2);
    assert_eq!(hits[0].0.id, 1);
    assert_eq!(hits[1].0.id, 2);

    let none = search_posts(&store, "zzz", 1, 10).unwrap();
    assert_eq!(none.len(), 0);

    // An empty term is an empty pattern between wildcards: it matches all.
    let all = search_posts(&store, "", 1, 10).unwrap();
    assert_eq!(all.len(), 3);
}

#[test]
fn full_text_search_requires_every_token() {
    let mut store = Store::new();
    let u = create_user(&mut store, String::from("u"), String::from("u@x.com")).unwrap();
    create_post(
        &mut store,
        u.id,
        String::from("foo baz"),
        String::from("bar qux"),
        true,
    )
    .unwrap();
    create_post(
        &mut store,
        u.id,
        String::from("foo only"),
        String::from("no second token"),
        true,
    )
    .unwrap();

    let both = full_text_search_posts(&store, "foo bar", 1, 10).unwrap();
    assert_eq!(both.len(), 1);
    assert_eq!(both[0].0.id, 1);

    let folded = full_text_search_posts(&store, "FOO BAR", 1, 10).unwrap();
    assert_eq!(folded.len(), 1);

    let missing = full_text_search_posts(&store, "foo zzz", 1, 10).unwrap();
    assert_eq!(missing.len(), 0);

    // A term without words matches nothing: empty result, not an error.
    let empty = full_text_search_posts(&store, "", 1, 10).unwrap();
    assert_eq!(empty.len(), 0);
    let spaces = full_text_search_posts(&store, "   ", 1, 10).unwrap();
    assert_eq!(spaces.len(), 0);

    // Title and body words stay distinct across the join of the two texts.
    let seam = full_text_search_posts(&store, "bazbar", 1, 10).unwrap();
    assert_eq!(seam.len(), 0);
}

#[test]
fn select_projects_id_title_and_username() {
    let mut store = Store::new();
    let u = create_user(&mut store, String::from("writer"), String::from("w@x.com")).unwrap();
    create_post(&mut store, u.id, String::from("T1"), String::from("B1"), true).unwrap();
    create_post(&mut store, u.id, String::from("T2"), String::from("B2"), false).unwrap();
    let rows = select(&store, 1, 1).unwrap();
    assert_eq!(rows.len(), 1);
    assert_eq!(rows[0].post_id, 1);
    assert_eq!(rows[0].title, "T1");
    assert_eq!(rows[0].username, "writer");
    assert_eq!(
        select(&store, 0, 1),
        Err(AppError::Database(StorageErrorKind::Other))
    );
}

#[test]
fn end_to_end_scenario() {
    let mut store = Store::new();
    let user = create_user(&mut store, String::from("alice"), String::from("a@x.com")).unwrap();
    assert_eq!(user.id, 1);
    create_post(
        &mut store,
        1,
        String::from("Hello World"),
        String::from("first post"),
        true,
    )
    .unwrap();

    let listed = list_posts(&store, 1, 10).unwrap();
    assert_eq!(listed.len(), 1);
    assert_eq!(listed[0].0.id, 1);
    assert_eq!(listed[0].1.id, 1);

    let found = search_posts(&store, "world", 1, 10).unwrap();
    assert_eq!(found.len(), 1);
    assert_eq!(found[0].0.id, 1);
    assert_eq!(found[0].1.id, 1);

    let none = search_posts(&store, "zzz", 1, 10).unwrap();
    assert_eq!(none.len(), 0);
}
