//! Backup and restore of an application's data directory, and what the
//! application's book store answers.
//!
//! The library decides and computes; it leaves the file system, the
//! database and the windows to its caller.
//!
//! - [`path`]: entry names as `/`-separated paths, and the sanitizer that
//!   confines them to a destination root.
//! - [`walk`]: the decisions of a walk over the directory tree to pack;
//!   [`traversal`] shows what a whole walk finds.
//! - [`entry`]: archive entries and the errors of packing and extracting.
//! - [`pack`]: packing entries into the bytes of an archive.
//! - [`extract`]: reading an archive and planning its extraction; [`tree`]
//!   shows what performing the plan does to the destination.
//! - [`container`]: the archive format itself, left to the `zip` crate.
//! - [`response`], [`store`], [`clock`]: the book store's records, answers
//!   and time stamps.
//! - [`image`], [`shell`]: images as text, and the desktop around the
//!   application.

pub mod clock;
pub mod container;
pub mod entry;
pub mod extract;
pub mod image;
pub mod pack;
pub mod path;
pub mod response;
pub mod shell;
pub mod store;
pub mod traversal;
pub mod tree;
pub mod walk;
