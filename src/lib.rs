//! Decoder for a game engine's serialized-assets container: a fixed header,
//! a version string, a platform tag, a table of asset classes and an index of
//! asset records pointing into the data region.
pub mod class;
pub mod cursor;
pub mod error;
pub mod file;
pub mod header;
pub mod index;
pub mod tables;
