//! Library ingestion and normalization engine for a self-hosted music catalog.
//!
//! The engine turns a walked directory tree of audio files into a consistent,
//! deduplicated relational catalog of artists, albums, genres, tracks and
//! embedded artwork. The catalog itself is an in-memory arena of id-indexed
//! rows with unique natural keys; the surrounding process supplies the walked
//! entries and the tag data read from each file.
//!
//! The pipeline per file: [`classify`] sorts entries by extension, the
//! change-detection gate ([`catalog::Track::check`]) skips unchanged files,
//! [`draft::TrackDraft::from_tag`] validates the tag fields, and
//! [`catalog::Track::new`] resolves the album, artists and genres and
//! upserts the row. [`scan`] drives the pipeline over a whole walk,
//! isolating per-file failures; the laws proved beside these functions state
//! that a re-scan is a no-op, that artwork is stored once per content, that
//! a path names at most one track, and that association pairs are never
//! duplicated.

pub mod api;
pub mod catalog;
pub mod classify;
pub mod cli;
pub mod draft;
pub mod error;
pub mod hash;
pub mod queries;
pub mod response;
pub mod scan;
pub mod subsonic;
pub mod text;
pub mod types;

pub use hash::fnv1a;
