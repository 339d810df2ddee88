//! Inlines the images of an HTML document as base64 `data:` URIs.
//!
//! The library decides what each `<img>` reference points at, turns loaded
//! image bytes into a data URI, and rewrites the document text. Reading files
//! and fetching URLs is left to the caller.
pub mod bytes;
pub mod reference;
pub mod encode;
pub mod rewrite;
