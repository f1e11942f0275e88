//! Installation management for a game modification framework: comment-preserving
//! configuration files, safe unpacking of archives with a single rotating backup,
//! and the bookkeeping of a cancellable, progress-reporting transfer.
//!
//! Text is modelled as `Seq<char>`, a document as its sequence of lines.

pub mod adboards;
pub mod archive;
pub mod clock;
pub mod codec;
pub mod configs;
pub mod decimal;
pub mod download;
pub mod fm26;
pub mod logs;
pub mod models;
pub mod round_trip;
pub mod text;
