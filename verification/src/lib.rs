//! Parsing of the leading blocks of an OTDR trace file in the Bellcore / Telcordia
//! SOR layout: the map block, the general, supplier and fixed parameter blocks and
//! the key events block.
//!
//! `spec` describes the layout as spec functions from bytes to a parse outcome,
//! `parser` holds the executable parsers, each proved to compute its spec function,
//! and `laws` holds the properties that all the parsers share.

pub mod types;
pub mod spec;
mod outside;
pub mod parser;
pub mod laws;
pub mod layout;

pub use types::{
    BlockInfo, ErrorKind, FixedParametersBlock, GeneralParametersBlock, KeyEvent, KeyEvents,
    LastKeyEvent, MapBlock, ParseError, SORFile, SupplierParametersBlock,
};
