//! A hardware-component catalog kept as per-category flat files, with a
//! derived relational database for external EDA tooling.
//!
//! The catalog files are the system of record: parts are appended, never
//! rewritten. The database is a cache, fully rebuilt from the in-memory
//! part set. A human adds a part by editing a commented template; the
//! library detects meaningful changes, validates the entry, assigns the
//! next unique identifier and plans the append and the rebuild. All file
//! and process work stays with the caller, which hands contents in and
//! carries planned writes out.

pub mod cli;
pub mod config;
pub mod csv_store;
pub mod display;
pub mod editor;
pub mod error;
pub mod form;
pub mod history;
pub mod kicad_db;
pub mod part;
pub mod product;
pub mod text;
pub mod util;
