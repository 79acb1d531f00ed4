//! The logic of a small web site with sessions, social login and posts.
//!
//! At its heart is the session identity: a token that the client holds,
//! sealed under a server key and bound to the client's address
//! (`cipher`, `codec`, `address`, `sessions`), and the store of values that
//! belongs to it (`store`). The cache service that keeps the stores
//! between requests
//! is not called from here: `sessions` says what to read and what to
//! write, `cache` says what a write does, and the caller talks to the
//! service. `layer` decides what becomes of the session cookie after a
//! request, `auth` holds the rules of a login with an OAuth provider, and
//! `error` says which failures reach a caller.
//!
//! Around it stands what the site keeps in the cache (`users`, `posts`),
//! how a post is shown (`markup`, `render`), and the server's settings
//! (`config`). `encoding`, `random`, `bytes`, `text` and `decimal` are the
//! tools of the rest.

pub mod address;
pub mod auth;
pub mod bytes;
pub mod cache;
pub mod cipher;
pub mod codec;
pub mod config;
pub mod decimal;
pub mod encoding;
pub mod error;
pub mod layer;
pub mod markup;
pub mod posts;
pub mod random;
pub mod render;
pub mod sessions;
pub mod store;
pub mod text;
pub mod users;
