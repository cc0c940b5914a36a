//! A disk-backed, time-to-live cache for release and tag metadata fetched
//! from a remote release API, together with the paginated fetcher and the
//! query layer that fills it.

pub mod cache;
pub mod fetch;
pub mod gitlab;
pub mod link;
