//! Verified core of a movie-library enrichment pipeline: a scanner that
//! filters candidate video files and extracts lookup titles, an enricher
//! that classifies remote lookup replies under a bounded-concurrency
//! admission policy, and a sink that commits records into a store keyed
//! uniquely by file path.

pub mod enrich;
pub mod limit;
pub mod pipeline;
pub mod scan;
pub mod sink;
pub mod text;
