//! Read-only extraction of the import and export tables of PE32+ images.
//!
//! An image is a borrowed buffer of bytes. Every offset and length in it is
//! untrusted: nothing is read but through the bounds-checked readers of
//! `bytes`, and no function of this library panics, whatever the bytes are.
//!
//! Each function has a specification over `Seq<u8>` that says what it
//! returns on every image, errors included:
//!
//! - `header` finds the PE signature and the optional header,
//! - `section` reads the section table and translates addresses with it,
//! - `strings` reads null-terminated names,
//! - `imports` and `exports` walk the two tables,
//! - `truncation` proves what a buffer that ends too early can lead to,
//! - `cli` says what each command of the command-line tool reports.

pub mod bytes;
pub mod cli;
pub mod error;
pub mod exports;
pub mod header;
pub mod image;
pub mod imports;
pub mod section;
pub mod strings;
pub mod truncation;
pub mod walk;

pub use crate::cli::{Cli, Subcommands};
pub use crate::error::PeError;
pub use crate::exports::export_functions;
pub use crate::header::is_pe;
pub use crate::imports::import_functions;
