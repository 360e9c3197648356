//! Staging, expiry and confirmation of key publication requests for a
//! Web Key Directory, and the mapping from an email address to the place
//! of its key in the directory.
//!
//! A request to publish or withdraw a key is staged under a random token
//! ([`submission`]) as a small text record ([`management`]). Its owner
//! confirms it by following a mailed link; the confirmation is a state
//! machine ([`confirmation`]) that the caller drives: each step takes what
//! the caller observed (the entry read, the certificate checked, a file
//! written or removed) and names the next file operation. Stale requests are
//! swept from the pending store, and a lock table ([`locks`]) keeps a sweep
//! and a confirmation off the same token. Keys are published at the path
//! that [`utils`] derives from the address.

pub mod certs;
pub mod confirmation;
pub mod errors;
pub mod locks;
pub mod management;
pub mod record;
pub mod settings;
pub mod submission;
pub mod templates;
pub mod utils;
