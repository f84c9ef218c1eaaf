//! Import pipeline for a personal health-data export: content identities,
//! timestamp canonicalization, and the parsers that turn the export's
//! documents into rows for a relational sink.

pub mod ecg;
pub mod export;
pub mod files;
pub mod gpx;
pub mod identity;
pub mod routes;
pub mod rows;
pub mod text;
pub mod timestamp;
pub mod tools;
pub mod xml;
