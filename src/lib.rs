//! Locations data-access layer: typed City and Region entities decoded from search-engine
//! documents, the queries sent to the search engine, a read-through Region cache and the
//! composition of localized City responses.

pub mod text;
pub mod model;
pub mod entity;
pub mod query;
pub mod cache;
pub mod repository;
pub mod compose;
pub mod endpoints;
pub mod laws;
