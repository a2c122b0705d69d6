//! Content-source adapter for the nhentai gallery API.
//!
//! The crate builds remote search queries from user filter selections,
//! normalizes raw gallery records into a canonical manga data model
//! (stable popularity ordering, localization, blocklist filtering),
//! assembles the home-screen layout, and resolves deep links.
//! Network transport and JSON decoding live outside the library: its
//! functions are pure, and their contracts rest only on the trusted
//! wrappers around std's Unicode string operations in [`casing`].

pub mod casing;
pub mod chapters;
pub mod deeplink;
pub mod dict;
pub mod filters;
pub mod home;
pub mod models;
pub mod normalize;
pub mod query;
pub mod search;
pub mod settings;
pub mod sort;
pub mod text;
pub mod uri;
