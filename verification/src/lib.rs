//! Turns a vault, a directory of markdown files, into a site of HTML pages.
//!
//! The library works on what was read: it makes the table of contents of a vault from its
//! file tree or from its summary, numbers the chapters, works out what every page is laid
//! out from, and lists the steps that write the site out. Reading the vault and carrying
//! the steps out is left to the caller.

pub mod config;
pub mod error;
pub mod paths;
pub mod renderer;
pub mod summary;
pub mod text;
pub mod util;
pub mod vault;

pub use vault::content::{Chapter, Content, Item, Section};
