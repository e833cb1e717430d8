//! Resolution engine for share pages of a file-hosting service.
//!
//! Given the raw HTML of a share page, the library locates the embedded
//! script that computes the numeric download key, recognizes which of the
//! known historical obfuscation schemes the page follows, extracts the file
//! id, the key expression and the percent-encoded filename, evaluates the
//! key and assembles the canonical download links.
pub mod decimal;
pub mod error;
pub mod eval;
pub mod file;
pub mod grammar;
pub mod info;
pub mod outside;
pub mod pdecode;
pub mod schemes;
pub mod subst;
pub mod text;
pub mod vars;

pub use crate::error::Error;
pub use crate::file::resolve;
pub use crate::file::File;
pub use crate::info::Information;
