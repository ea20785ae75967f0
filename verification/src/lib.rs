//! Finds items by identifier in the region files of a saved world.
//!
//! A region file is a container of up to 1024 chunks, each a compressed
//! document: a tree of tagged values. From the leaves up:
//!
//! - [`text`] and [`float`]: decimal numbers, and the truncation of floats
//!   given by their bits;
//! - [`tree`]: the model of a document, and the `nbt` crate's operations on
//!   documents;
//! - [`error`]: the failures, each with the file or chunk it came from;
//! - [`chunk`]: the header of a chunk, its decompression and parsing;
//! - [`filename`] and [`region`]: the coordinates in the name of a region
//!   file, its location table, and the chunks it holds;
//! - [`entity`]: the item entities of a document;
//! - [`structured_result`]: the items that match an identifier, and the
//!   shapes in which a result is shown;
//! - [`search`]: the search of a sequence of regions;
//! - [`world`]: the directories and files of a world's dimensions.

pub mod chunk;
pub mod entity;
pub mod error;
pub mod filename;
pub mod float;
pub mod region;
pub mod search;
pub mod structured_result;
pub mod text;
pub mod tree;
pub mod world;
