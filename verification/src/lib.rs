//! A client core for a streaming platform's live-stream listings: it
//! decodes the paginated listing responses, filters entries by search
//! terms, exclusion list and language, and renders the matches as an
//! aligned fixed-column text table. The decoding, filtering, pagination
//! and rendering rules live here; credentials, HTTP and printing are the
//! calling program's.

pub mod config;
pub mod duration;
pub mod entry;
pub mod error;
pub mod filter;
pub mod json;
pub mod numfmt;
pub mod pagination;
pub mod table;
pub mod text;
