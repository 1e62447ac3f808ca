//! The association-and-ranking engine of a social bookmarking service.
//!
//! Users submit *ruts* (curated content collections), attach freeform tags to
//! them, star ruts and tags, and browse ranked, paginated listings. This crate
//! holds the rules that keep tag links, popularity counters and vote scores
//! consistent, and the dispatcher that resolves a listing request to an
//! ordered page of records.

pub mod clock;
pub mod db;
pub mod errors;
pub mod ident;
pub mod model;
pub mod rank;
pub mod text;
