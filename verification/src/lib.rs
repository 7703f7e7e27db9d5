//! A small static site builder: it parses content documents (front matter
//! plus markdown body), registers page templates under names derived from
//! their file names, and renders each document through the `post` template
//! into an output file named after the document's title.
pub mod document;
pub mod errors;
pub mod front_matter;
pub mod naming;
pub mod pipeline;
pub mod registry;
pub mod render;
pub mod text;

pub use errors::BuildError;
