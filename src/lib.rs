//! Persistence format and page-tree engine of a notebook made of nested pages.
//!
//! The tree is kept arena-style: one store owns every page, keyed by id, and
//! all parent/child links are ids into that store.

pub mod error;
pub mod header;
pub mod codec;
mod clock;
pub mod page;
pub mod page_map;
pub mod notebook;
pub mod display;
pub mod session;
pub mod metadata;
