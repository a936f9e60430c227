//! Tag-synchronisation engine for eBilanz documents.
//!
//! The library parses an XML document into an element tree annotated with
//! taxonomy information, strips and re-injects fact values under
//! taxonomy-specific attribute rules, extracts flat tag/value pairs in a
//! single streaming pass, and serialises the tree back to events.

pub mod csvio;
pub mod document;
pub mod events;
pub mod extract;
pub mod laws;
pub mod mutate;
pub mod ods;
pub mod parse;
pub mod response;
pub mod serialize;
pub mod stream;
pub mod table;
pub mod tags;
pub mod text;
pub mod xbrl;
pub mod xmlio;
