//! Synchronization core for publishing a tree of local markdown documents
//! into a hierarchical remote content workspace.
//!
//! The library covers the pieces that must be correct under renames,
//! re-runs and partial failures: the provenance-marker codec, the
//! two-phase cross-document link resolver, the remote tree snapshot
//! builder, the reconciler that computes a sync plan, and the per-page
//! property differ.

pub mod chars;
pub mod checksum;
pub mod confluence_page;
pub mod link_generator;
pub mod local_link;
pub mod markdown_page;
pub mod marker;
pub mod page_emojis;
pub mod page_properties;
pub mod reconciler;
pub mod responses;
