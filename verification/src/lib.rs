use vstd::prelude::*;

pub mod digest;
pub mod episode;
pub mod hex;
pub mod json;
pub mod legacy_document;
pub mod library_scan;
pub mod movie_matching;
pub mod movie_store;
pub mod movies_library;
pub mod presentation;
pub mod presentation_cache;
pub mod presentation_context;
pub mod presentation_resolve;
pub mod presentation_steps;
pub mod provider;
pub mod query;
pub mod text;
pub mod tmdb_cover;
pub mod tmdb_cover_cache;
pub mod tmdb_documents;
pub mod tv_library;
pub mod tv_matching;
pub mod tv_scan;
pub mod tv_store;
pub mod tv_trash;

verus! {

} // verus!
