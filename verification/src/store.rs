//! The relational store and the repository operations over it: create a
//! user, create a post, and three reads over the post/user join — a plain
//! paginated listing, a case-insensitive substring search, and a
//! conjunctive full-text search.
//!
//! The store assigns identity and timestamps itself: row ids are serial
//! (the i-th inserted row of a table has id i+1) and each inserted row is
//! stamped with the store's insertion counter. The store enforces the two
//! schema constraints: usernames are unique, and every post's `user_id`
//! resolves to an existing user.

use crate::errors::{AppError, StorageErrorKind};
use crate::models::{Post, PostGetUser, PostGetUserV, PostV, User, UserV};
use crate::pagination::{page_args_ok, spec_paginate, wide_offset};
use crate::text::{chars_of, contains_chars, contains_ci, ft_match_chars, ft_match_seq, lower_chars, lower_seq};
use vstd::prelude::*;

verus! {

/// The store: the users and posts tables, and the insertion counter.
pub struct Store {
    users: Vec<User>,
    posts: Vec<Post>,
    clock: i64,
}

/// The mathematical value of the store.
pub ghost struct StoreV {
    pub users: Seq<UserV>,
    pub posts: Seq<PostV>,
    pub clock: int,
}

impl View for Store {
    type V = StoreV;

    closed spec fn view(&self) -> StoreV {
        StoreV {
            users: self.users@.map_values(|u: User| u@),
            posts: self.posts@.map_values(|p: Post| p@),
            clock: self.clock as int,
        }
    }
}

/// Some user row carries this username.
pub open spec fn has_username(s: StoreV, name: Seq<char>) -> bool {
    exists|i: int| 0 <= i < s.users.len() && (#[trigger] s.users[i]).username == name
}

/// Some user row carries this id.
pub open spec fn has_user_id(s: StoreV, uid: int) -> bool {
    exists|i: int| 0 <= i < s.users.len() && (#[trigger] s.users[i]).id == uid
}

impl Store {
    /// The store's invariant: serial ids, referential integrity of posts,
    /// unique usernames, and the insertion counter equal to the row count.
    pub open spec fn wf(&self) -> bool {
        let s = self@;
        &&& s.users.len() <= i32::MAX as int
        &&& s.posts.len() <= i32::MAX as int
        &&& (forall|i: int| 0 <= i < s.users.len() ==> (#[trigger] s.users[i]).id == i + 1)
        &&& (forall|i: int| 0 <= i < s.posts.len() ==> (#[trigger] s.posts[i]).id == i + 1)
        &&& (forall|i: int|
            0 <= i < s.posts.len() ==> 1 <= (#[trigger] s.posts[i]).user_id <= s.users.len())
        &&& (forall|i: int, j: int|
            0 <= i < s.users.len() && 0 <= j < s.users.len() && i != j ==> (
            #[trigger] s.users[i]).username != (#[trigger] s.users[j]).username)
        &&& s.clock == s.users.len() + s.posts.len()
    }

    /// An empty store.
    pub fn new() -> (r: Store)
        ensures
            r.wf(),
            r@.users.len() == 0,
            r@.posts.len() == 0,
            r@.clock == 0,
    {
        let r = Store { users: Vec::new(), posts: Vec::new(), clock: 0 };
        proof {
            assert(r@.users =~= Seq::<UserV>::empty());
            assert(r@.posts =~= Seq::<PostV>::empty());
        }
        r
    }
}

/// Inserts a user row. Succeeds exactly when the username is not yet
/// taken, returning the stored row with its assigned id and timestamp;
/// a taken username is the unique-violation fault and adds no row.
pub fn create_user(store: &mut Store, username: String, email: String) -> (r: Result<
    User,
    AppError,
>)
    requires
        old(store).wf(),
        old(store)@.users.len() < i32::MAX as int,
    ensures
        final(store).wf(),
        r is Ok <==> !has_username(old(store)@, username@),
        r matches Ok(u) ==> {
            &&& u@ == (UserV {
                id: old(store)@.users.len() as int + 1,
                username: username@,
                email: email@,
                created_at: old(store)@.clock,
            })
            &&& final(store)@.users == old(store)@.users.push(u@)
            &&& final(store)@.posts == old(store)@.posts
            &&& final(store)@.clock == old(store)@.clock + 1
        },
        r matches Err(e) ==> {
            &&& e == AppError::Database(StorageErrorKind::UniqueViolation)
            &&& *final(store) == *old(store)
        },
{
    let n = store.users.len();
    let mut i: usize = 0;
    while i < n
        invariant
            old(store).wf(),
            *store == *old(store),
            n == store.users@.len(),
            i <= n,
            forall|k: int| 0 <= k < i ==> (#[trigger] store@.users[k]).username != username@,
        decreases n - i,
    {
        if store.users[i].username == username {
            proof {
                assert(store@.users[i as int].username == username@);
            }
            return Err(AppError::Database(StorageErrorKind::UniqueViolation));
        }
        i += 1;
    }
    let id = (n as i32) + 1;
    let created_at = store.clock;
    let user = User { id, username, email, created_at };
    let row = user.duplicate();
    let ghost prev = store@;
    store.users.push(row);
    store.clock = store.clock + 1;
    proof {
        assert(store@.users =~= prev.users.push(user@));
        assert(store@.posts =~= prev.posts);
    }
    Ok(user)
}

/// Inserts a post row referencing `user_id`. Succeeds exactly when that
/// user exists; otherwise the foreign-key fault, and no row is added.
pub fn create_post(
    store: &mut Store,
    user_id: i32,
    title: String,
    body: String,
    published: bool,
) -> (r: Result<(), AppError>)
    requires
        old(store).wf(),
        old(store)@.posts.len() < i32::MAX as int,
    ensures
        final(store).wf(),
        r is Ok <==> has_user_id(old(store)@, user_id as int),
        r is Ok ==> {
            &&& final(store)@.posts == old(store)@.posts.push(
                PostV {
                    id: old(store)@.posts.len() as int + 1,
                    user_id: user_id as int,
                    title: title@,
                    body: body@,
                    published: published,
                    created_at: old(store)@.clock,
                },
            )
            &&& final(store)@.users == old(store)@.users
            &&& final(store)@.clock == old(store)@.clock + 1
        },
        r matches Err(e) ==> {
            &&& e == AppError::Database(StorageErrorKind::ForeignKeyViolation)
            &&& *final(store) == *old(store)
        },
{
    let exists_user = user_id >= 1 && (user_id as usize) <= store.users.len();
    proof {
        if exists_user {
            assert(store@.users[user_id - 1].id == user_id as int);
        } else {
            if has_user_id(store@, user_id as int) {
                let i = choose|i: int|
                    0 <= i < store@.users.len() && (#[trigger] store@.users[i]).id
                        == user_id as int;
                assert(store@.users[i].id == i + 1);
                assert(false);
            }
        }
    }
    if !exists_user {
        return Err(AppError::Database(StorageErrorKind::ForeignKeyViolation));
    }
    let id = (store.posts.len() as i32) + 1;
    let created_at = store.clock;
    let post = Post { id, user_id, title, body, published, created_at };
    let ghost prev = store@;
    let ghost pv = post@;
    store.posts.push(post);
    store.clock = store.clock + 1;
    proof {
        assert(store@.posts =~= prev.posts.push(pv));
        assert(store@.users =~= prev.users);
    }
    Ok(())
}

/// The mathematical value of a sequence of joined rows.
pub open spec fn rows_view(rows: Seq<(Post, User)>) -> Seq<(PostV, UserV)> {
    rows.map_values(|r: (Post, User)| (r.0@, r.1@))
}

/// Every post joined with its owning user, in the store's natural order:
/// posts in insertion order, each beside the user its `user_id` names.
pub open spec fn spec_joined(s: StoreV) -> Seq<(PostV, UserV)> {
    Seq::new(s.posts.len(), |i: int| (s.posts[i], s.users[s.posts[i].user_id - 1]))
}

/// All joined rows as fresh values.
fn join_rows(store: &Store) -> (r: Vec<(Post, User)>)
    requires
        store.wf(),
    ensures
        rows_view(r@) == spec_joined(store@),
{
    let n = store.posts.len();
    let mut out: Vec<(Post, User)> = Vec::new();
    let mut i: usize = 0;
    while i < n
        invariant
            store.wf(),
            n == store.posts@.len(),
            i <= n,
            out@.len() == i,
            forall|k: int|
                0 <= k < i ==> ((#[trigger] out@[k]).0@, out@[k].1@) == spec_joined(store@)[k],
        decreases n - i,
    {
        proof {
            assert(1 <= store@.posts[i as int].user_id <= store@.users.len());
        }
        let uid = store.posts[i].user_id;
        let p = store.posts[i].duplicate();
        let u = store.users[(uid - 1) as usize].duplicate();
        out.push((p, u));
        i += 1;
    }
    proof {
        assert(rows_view(out@) =~= spec_joined(store@));
    }
    out
}

/// Joins every post to its owning user and returns all rows unpaginated.
pub fn get_posts_with_users(store: &Store) -> (r: Result<Vec<(Post, User)>, AppError>)
    requires
        store.wf(),
    ensures
        r matches Ok(v) && rows_view(v@) == spec_joined(store@),
{
    Ok(join_rows(store))
}

/// The requested page of `rows`, as fresh values; a negative row count or
/// offset is rejected by the store as a storage fault.
fn page_slice(rows: &Vec<(Post, User)>, page: i64, per_page: i64) -> (r: Result<
    Vec<(Post, User)>,
    AppError,
>)
    requires
        rows@.len() <= i32::MAX as int,
    ensures
        r is Ok <==> page_args_ok(page as int, per_page as int),
        r matches Ok(v) ==> rows_view(v@) == spec_paginate(
            rows_view(rows@),
            page as int,
            per_page as int,
        ),
        r matches Err(e) ==> e == AppError::Database(StorageErrorKind::Other),
{
    let off = wide_offset(page, per_page);
    if per_page < 0 || off < 0 {
        return Err(AppError::Database(StorageErrorKind::Other));
    }
    let n = rows.len();
    let start: usize;
    let end: usize;
    if off >= n as i128 {
        start = n;
        end = n;
    } else {
        start = off as usize;
        let remaining = n - start;
        let take: usize = if per_page >= remaining as i64 {
            remaining
        } else {
            per_page as usize
        };
        end = start + take;
    }
    let ghost gstart = start as int;
    let ghost gend = end as int;
    proof {
        let s = rows_view(rows@);
        let o = crate::pagination::spec_offset(page as int, per_page as int);
        assert(s.len() == rows@.len());
        assert(gstart == if o > s.len() {
            s.len() as int
        } else {
            o
        });
        assert(gend == if o + per_page > s.len() {
            s.len() as int
        } else {
            o + per_page
        });
    }
    let mut out: Vec<(Post, User)> = Vec::new();
    let mut i: usize = start;
    while i < end
        invariant
            start <= i <= end,
            end <= rows@.len(),
            out@.len() == i - start,
            forall|k: int|
                0 <= k < out@.len() ==> ((#[trigger] out@[k]).0@, out@[k].1@) == (
                rows@[start + k].0@,
                rows@[start + k].1@,
            ),
        decreases end - i,
    {
        let p = rows[i].0.duplicate();
        let u = rows[i].1.duplicate();
        out.push((p, u));
        i += 1;
    }
    proof {
        assert(rows_view(out@) =~= spec_paginate(
            rows_view(rows@),
            page as int,
            per_page as int,
        ));
    }
    Ok(out)
}

/// The requested page of the full post/user join: at most `per_page` rows
/// starting at offset `(page-1)*per_page`, in the store's natural order.
pub fn list_posts(store: &Store, page: i64, per_page: i64) -> (r: Result<
    Vec<(Post, User)>,
    AppError,
>)
    requires
        store.wf(),
    ensures
        r is Ok <==> page_args_ok(page as int, per_page as int),
        r matches Ok(v) ==> rows_view(v@) == spec_paginate(
            spec_joined(store@),
            page as int,
            per_page as int,
        ),
        r matches Err(e) ==> e == AppError::Database(StorageErrorKind::Other),
{
    let all = join_rows(store);
    proof {
        assert(rows_view(all@).len() == spec_joined(store@).len());
    }
    page_slice(&all, page, per_page)
}

/// The substring-search match condition: the post's title or body contains
/// the term as a case-insensitive substring.
pub open spec fn substr_match(p: PostV, term: Seq<char>) -> bool {
    contains_ci(p.title, term) || contains_ci(p.body, term)
}

/// The substring-search match condition on a joined row.
pub open spec fn substr_pred(term: Seq<char>) -> spec_fn((PostV, UserV)) -> bool {
    |r: (PostV, UserV)| substr_match(r.0, term)
}

/// The joined rows the substring search selects, before pagination.
pub open spec fn spec_substring_results(s: StoreV, term: Seq<char>) -> Seq<(PostV, UserV)> {
    spec_joined(s).filter(substr_pred(term))
}

/// The post's search vector, against which full-text queries match: the
/// case-folded title and body, separated by a space so that their words
/// stay distinct.
pub open spec fn search_vector(p: PostV) -> Seq<char> {
    lower_seq(p.title) + seq![' '] + lower_seq(p.body)
}

/// The full-text match condition: the case-folded term has at least one
/// word, and every one of its words is a word of the post's search vector.
pub open spec fn ft_match_post(p: PostV, term: Seq<char>) -> bool {
    ft_match_seq(search_vector(p), lower_seq(term))
}

/// The full-text match condition on a joined row.
pub open spec fn ft_pred(term: Seq<char>) -> spec_fn((PostV, UserV)) -> bool {
    |r: (PostV, UserV)| ft_match_post(r.0, term)
}

/// The joined rows the full-text search selects, before pagination.
pub open spec fn spec_full_text_results(s: StoreV, term: Seq<char>) -> Seq<(PostV, UserV)> {
    spec_joined(s).filter(ft_pred(term))
}

/// The requested page of the joined rows whose post's title or body
/// contains `term` as a case-insensitive substring.
pub fn search_posts(store: &Store, term: &str, page: i64, per_page: i64) -> (r: Result<
    Vec<(Post, User)>,
    AppError,
>)
    requires
        store.wf(),
    ensures
        r is Ok <==> page_args_ok(page as int, per_page as int),
        r matches Ok(v) ==> rows_view(v@) == spec_paginate(
            spec_substring_results(store@, term@),
            page as int,
            per_page as int,
        ),
        r matches Err(e) ==> e == AppError::Database(StorageErrorKind::Other),
{
    let term_chars = chars_of(term);
    let tl = lower_chars(&term_chars);
    let n = store.posts.len();
    let mut matched: Vec<(Post, User)> = Vec::new();
    let mut i: usize = 0;
    while i < n
        invariant
            store.wf(),
            n == store.posts@.len(),
            i <= n,
            tl@ == lower_seq(term@),
            rows_view(matched@) == spec_joined(store@).subrange(0, i as int).filter(
                substr_pred(term@),
            ),
        decreases n - i,
    {
        proof {
            assert(1 <= store@.posts[i as int].user_id <= store@.users.len());
        }
        let title_chars = chars_of(store.posts[i].title.as_str());
        let title_l = lower_chars(&title_chars);
        let body_chars = chars_of(store.posts[i].body.as_str());
        let body_l = lower_chars(&body_chars);
        let is_match = contains_chars(&title_l, &tl) || contains_chars(&body_l, &tl);
        let ghost pre = spec_joined(store@).subrange(0, i as int);
        let ghost row = spec_joined(store@)[i as int];
        proof {
            assert(row.0 == store@.posts[i as int]);
            assert(is_match == substr_pred(term@)(row));
            pre.lemma_filter_push(row, substr_pred(term@));
            assert(spec_joined(store@).subrange(0, i + 1) =~= pre.push(row));
        }
        if is_match {
            let uid = store.posts[i].user_id;
            let p = store.posts[i].duplicate();
            let u = store.users[(uid - 1) as usize].duplicate();
            matched.push((p, u));
            proof {
                assert(rows_view(matched@) =~= pre.filter(substr_pred(term@)).push(row));
            }
        }
        i += 1;
    }
    proof {
        assert(spec_joined(store@).subrange(0, n as int) =~= spec_joined(store@));
        spec_joined(store@).lemma_filter_len(substr_pred(term@));
        assert(matched@.len() == rows_view(matched@).len());
    }
    page_slice(&matched, page, per_page)
}

/// The requested page of the joined rows whose post's search vector
/// matches every word of the case-folded term; a term without words
/// matches nothing.
pub fn full_text_search_posts(store: &Store, term: &str, page: i64, per_page: i64) -> (r: Result<
    Vec<(Post, User)>,
    AppError,
>)
    requires
        store.wf(),
    ensures
        r is Ok <==> page_args_ok(page as int, per_page as int),
        r matches Ok(v) ==> rows_view(v@) == spec_paginate(
            spec_full_text_results(store@, term@),
            page as int,
            per_page as int,
        ),
        r matches Err(e) ==> e == AppError::Database(StorageErrorKind::Other),
{
    let term_chars = chars_of(term);
    let tl = lower_chars(&term_chars);
    let n = store.posts.len();
    let mut matched: Vec<(Post, User)> = Vec::new();
    let mut i: usize = 0;
    while i < n
        invariant
            store.wf(),
            n == store.posts@.len(),
            i <= n,
            tl@ == lower_seq(term@),
            rows_view(matched@) == spec_joined(store@).subrange(0, i as int).filter(
                ft_pred(term@),
            ),
        decreases n - i,
    {
        proof {
            assert(1 <= store@.posts[i as int].user_id <= store@.users.len());
        }
        let title_chars = chars_of(store.posts[i].title.as_str());
        let mut text = lower_chars(&title_chars);
        text.push(' ');
        let body_chars = chars_of(store.posts[i].body.as_str());
        let mut body_l = lower_chars(&body_chars);
        text.append(&mut body_l);
        proof {
            assert(text@ =~= search_vector(store@.posts[i as int]));
        }
        let is_match = ft_match_chars(&text, &tl);
        let ghost pre = spec_joined(store@).subrange(0, i as int);
        let ghost row = spec_joined(store@)[i as int];
        proof {
            assert(row.0 == store@.posts[i as int]);
            assert(is_match == ft_pred(term@)(row));
            pre.lemma_filter_push(row, ft_pred(term@));
            assert(spec_joined(store@).subrange(0, i + 1) =~= pre.push(row));
        }
        if is_match {
            let uid = store.posts[i].user_id;
            let p = store.posts[i].duplicate();
            let u = store.users[(uid - 1) as usize].duplicate();
            matched.push((p, u));
            proof {
                assert(rows_view(matched@) =~= pre.filter(ft_pred(term@)).push(row));
            }
        }
        i += 1;
    }
    proof {
        assert(spec_joined(store@).subrange(0, n as int) =~= spec_joined(store@));
        spec_joined(store@).lemma_filter_len(ft_pred(term@));
        assert(matched@.len() == rows_view(matched@).len());
    }
    page_slice(&matched, page, per_page)
}

/// The projection one joined row is listed as.
pub open spec fn select_row(r: (PostV, UserV)) -> PostGetUserV {
    PostGetUserV { post_id: r.0.id, title: r.0.title, username: r.1.username }
}

/// The rows `select` returns: the requested page of the join, projected
/// to (post id, title, username).
pub open spec fn spec_select(s: StoreV, page: int, per_page: int) -> Seq<PostGetUserV> {
    spec_paginate(spec_joined(s), page, per_page).map_values(|r: (PostV, UserV)| select_row(r))
}

/// The requested page of the join, projected to (post id, title, username).
pub fn select(store: &Store, page: i64, per_page: i64) -> (r: Result<Vec<PostGetUser>, AppError>)
    requires
        store.wf(),
    ensures
        r is Ok <==> page_args_ok(page as int, per_page as int),
        r matches Ok(v) ==> v@.map_values(|x: PostGetUser| x@) == spec_select(
            store@,
            page as int,
            per_page as int,
        ),
        r matches Err(e) ==> e == AppError::Database(StorageErrorKind::Other),
{
    let rows = match list_posts(store, page, per_page) {
        Ok(v) => v,
        Err(e) => {
            return Err(e);
        },
    };
    let n = rows.len();
    let mut out: Vec<PostGetUser> = Vec::new();
    let mut i: usize = 0;
    while i < n
        invariant
            n == rows@.len(),
            i <= n,
            out@.len() == i,
            forall|k: int|
                0 <= k < i ==> (#[trigger] out@[k])@ == select_row((rows@[k].0@, rows@[k].1@)),
        decreases n - i,
    {
        let row = PostGetUser {
            post_id: rows[i].0.id,
            title: rows[i].0.title.clone(),
            username: rows[i].1.username.clone(),
        };
        out.push(row);
        i += 1;
    }
    proof {
        assert(out@.map_values(|x: PostGetUser| x@) =~= spec_select(
            store@,
            page as int,
            per_page as int,
        ));
    }
    Ok(out)
}

/// For any page and row count of at least one, the listing accepts the
/// request and returns at most `per_page` rows, and — whenever the join
/// reaches that far — the page's first row is row `(page-1)*per_page` of
/// the full join.
pub proof fn lemma_list_posts_window(s: StoreV, page: int, per_page: int)
    requires
        page >= 1,
        per_page >= 1,
    ensures
        page_args_ok(page, per_page),
        spec_paginate(spec_joined(s), page, per_page).len() <= per_page,
        spec_joined(s).len() >= crate::pagination::spec_offset(page, per_page) + 1 ==> spec_paginate(
            spec_joined(s),
            page,
            per_page,
        )[0] == spec_joined(s)[crate::pagination::spec_offset(page, per_page)],
{
    let j = spec_joined(s);
    crate::pagination::lemma_pagination_window(j, page, per_page);
    assert(spec_paginate(j, 1, j.len() as int) =~= j);
}

/// Substring search selects exactly the joined rows whose post's title or
/// body contains the term case-insensitively, and no others.
pub proof fn lemma_substring_search_exact(s: StoreV, term: Seq<char>, row: (PostV, UserV))
    ensures
        spec_substring_results(s, term).contains(row) <==> (spec_joined(s).contains(row)
            && substr_match(row.0, term)),
{
    let j = spec_joined(s);
    let pred = substr_pred(term);
    if j.filter(pred).contains(row) {
        j.lemma_filter_contains_rev(pred, row);
        let i = choose|i: int| 0 <= i < j.filter(pred).len() && j.filter(pred)[i] == row;
        j.lemma_filter_pred(pred, i);
    }
    if j.contains(row) && pred(row) {
        let i = choose|i: int| 0 <= i < j.len() && j[i] == row;
        j.lemma_filter_contains(pred, i);
    }
}

/// Full-text search selects exactly the joined rows whose post's search
/// vector matches every word of the term, and no others.
pub proof fn lemma_full_text_search_exact(s: StoreV, term: Seq<char>, row: (PostV, UserV))
    ensures
        spec_full_text_results(s, term).contains(row) <==> (spec_joined(s).contains(row)
            && ft_match_post(row.0, term)),
{
    let j = spec_joined(s);
    let pred = ft_pred(term);
    if j.filter(pred).contains(row) {
        j.lemma_filter_contains_rev(pred, row);
        let i = choose|i: int| 0 <= i < j.filter(pred).len() && j.filter(pred)[i] == row;
        j.lemma_filter_pred(pred, i);
    }
    if j.contains(row) && pred(row) {
        let i = choose|i: int| 0 <= i < j.len() && j[i] == row;
        j.lemma_filter_contains(pred, i);
    }
}

} // verus!
