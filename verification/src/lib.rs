//! A small blog repository: users and posts held in a relational store,
//! with creation, a paginated user/post join, and two search modes
//! (case-insensitive substring and conjunctive full-text).

pub mod errors;
pub mod models;
pub mod pagination;
pub mod store;
pub mod text;
