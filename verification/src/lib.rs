//! A batch file-renaming library.
//!
//! A `Pipeline` of transformations computes a new file name from an old one:
//! literal or regex substring replacement, literal removal, and prefix/suffix
//! insertion, each applied to the base name (the file name minus its
//! extension).  A rename executor model decides the outcome of committing a
//! batch of renames against a filesystem, isolating per-file failures.

pub mod action;
pub mod executor;
pub mod paths;
pub mod pipeline;
pub mod text;
