//! The entity model: stored user and post rows, the transient creation
//! requests, and the joined projection returned by listings.
//!
//! Timestamps are held as plain integers: the store assigns each inserted
//! row the value of its insertion counter, so timestamps are monotone in
//! insertion order and never supplied by the caller.

use vstd::prelude::*;

verus! {

/// A stored user row.
#[derive(Debug, PartialEq, Eq)]
pub struct User {
    pub id: i32,
    pub username: String,
    pub email: String,
    pub created_at: i64,
}

/// The mathematical value of a user row.
pub ghost struct UserV {
    pub id: int,
    pub username: Seq<char>,
    pub email: Seq<char>,
    pub created_at: int,
}

impl View for User {
    type V = UserV;

    open spec fn view(&self) -> UserV {
        UserV {
            id: self.id as int,
            username: self.username@,
            email: self.email@,
            created_at: self.created_at as int,
        }
    }
}

impl User {
    /// A fresh row holding the same value.
    pub fn duplicate(&self) -> (r: User)
        ensures
            r@ == self@,
    {
        User {
            id: self.id,
            username: self.username.clone(),
            email: self.email.clone(),
            created_at: self.created_at,
        }
    }
}

/// A request to create a user: the caller supplies no id and no timestamp.
pub struct NewUser {
    pub username: String,
    pub email: String,
}

/// A stored post row.
#[derive(Debug, PartialEq, Eq)]
pub struct Post {
    pub id: i32,
    pub user_id: i32,
    pub title: String,
    pub body: String,
    pub published: bool,
    pub created_at: i64,
}

/// The mathematical value of a post row.
pub ghost struct PostV {
    pub id: int,
    pub user_id: int,
    pub title: Seq<char>,
    pub body: Seq<char>,
    pub published: bool,
    pub created_at: int,
}

impl View for Post {
    type V = PostV;

    open spec fn view(&self) -> PostV {
        PostV {
            id: self.id as int,
            user_id: self.user_id as int,
            title: self.title@,
            body: self.body@,
            published: self.published,
            created_at: self.created_at as int,
        }
    }
}

impl Post {
    /// A fresh row holding the same value.
    pub fn duplicate(&self) -> (r: Post)
        ensures
            r@ == self@,
    {
        Post {
            id: self.id,
            user_id: self.user_id,
            title: self.title.clone(),
            body: self.body.clone(),
            published: self.published,
            created_at: self.created_at,
        }
    }
}

/// A request to create a post; `user_id` must name an existing user.
pub struct NewPost {
    pub user_id: i32,
    pub title: String,
    pub body: String,
    pub published: bool,
}

/// The joined projection of a post with its owning user's name.
#[derive(Debug, PartialEq, Eq)]
pub struct PostGetUser {
    pub post_id: i32,
    pub title: String,
    pub username: String,
}

/// The mathematical value of a joined projection row.
pub ghost struct PostGetUserV {
    pub post_id: int,
    pub title: Seq<char>,
    pub username: Seq<char>,
}

impl View for PostGetUser {
    type V = PostGetUserV;

    open spec fn view(&self) -> PostGetUserV {
        PostGetUserV {
            post_id: self.post_id as int,
            title: self.title@,
            username: self.username@,
        }
    }
}

} // verus!
