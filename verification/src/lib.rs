//! Verified core of a clipboard inspector.
//!
//! On a paste event the surrounding application enumerates every item on the
//! system clipboard and, for each content type an item offers, fetches the
//! raw payload bytes. This crate holds the verified part of that pipeline:
//! decoding each payload to displayable text (UTF-8, with a sentinel for
//! binary data), building the ordered record collection that the result
//! table shows, and isolating per-payload failures so that one inaccessible
//! representation never hides the rest of the clipboard's contents.
//!
//! The platform clipboard calls themselves (asynchronous, browser-provided)
//! live outside the verified library; they hand plain values in and take
//! plain values back.

pub mod error;
pub mod laws;
pub mod scan;
pub mod text;
