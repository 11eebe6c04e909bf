//! Client-side helpers for a cursor-paginated web API that hands out a
//! continuation token with every page.
//!
//! The crate performs no input or output.  It composes the query of each page
//! request, decides what a lazily pulled stream of pages does next, and leaves
//! sending the request to the caller.

pub mod client;
pub mod cont;
pub mod edit_tokens;
pub mod error;
pub mod header;
pub mod params;
pub mod queue;
pub mod token;
pub mod trace;
pub mod ua;

pub use client::{Client, ClientBuilder, ClientRef};
pub use cont::{get_all, ContinueStream, MaybeContinue, State, Step};
pub use error::MwError;
pub use params::Params;
pub use ua::{ua, UA};
