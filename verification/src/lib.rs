//! Core engine of a dual-pane file browser that presents real directories and
//! the contents of zip archives as one navigable hierarchy.
//!
//! The library is pure: every listing, selection, scrolling and preview
//! decision is made on plain values (byte-string paths and names), so the
//! whole engine is verified.  The unverified shell around it performs the
//! actual reads (directory walks, archive scans, byte prefixes) and feeds the
//! results in as values.

pub mod archive;
pub mod bytes;
pub mod engine;
pub mod entry;
pub mod listing;
pub mod memory;
pub mod panel;
pub mod paths;
pub mod preview;
pub mod stream;
pub mod theme;
pub mod window;
