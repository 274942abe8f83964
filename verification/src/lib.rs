//! Support library of a Windows driver for XFS volumes.
//!
//! The driver mounts an XFS image read-only and stages every change in
//! memory. [`overlay`] holds the staged changes, [`path`] the canonical keys
//! under which they are staged, [`probe`] the test for an XFS superblock,
//! [`options`] the choices behind the command line's mount flags, and
//! [`report`] the text that the command line prints. The `*_laws` modules
//! prove what holds across the operations.

pub mod clock;
pub mod collate;
pub mod entry;
pub mod listing_laws;
pub mod options;
pub mod overlay;
pub mod overlay_laws;
pub mod path;
pub mod path_laws;
pub mod probe;
pub mod report;
pub mod report_laws;
pub mod store;
pub mod text;
pub mod volume_laws;
