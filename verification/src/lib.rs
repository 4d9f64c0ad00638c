//! Service specification model and documentation rendering.
//!
//! A service spec declares the configuration surface of one notification
//! service: its URL scheme, global options, and a collection of typed
//! properties, each of which is either bound to fixed positions of the
//! canonical URL (`URLPart`) or passed as a query parameter.  This crate
//! models such specs, resolves the display slug and separator of every URL
//! role, renders the canonical URL template, and renders per-field
//! documentation blocks.

pub mod fields;
pub mod laws;
pub mod markdown;
pub mod model;
pub mod text;
pub mod url;
