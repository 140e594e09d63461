//! Sparse regridding weight files: extraction of sparse per-region weights
//! from dense grids, the lookup table over them, and the binary cache format.

pub mod bytes;
pub mod codec;
pub mod error;
pub mod ingest;
pub mod laws;
pub mod lookup;
pub mod metadata;
pub mod sparse;
pub mod weight_file;

pub use codec::{decode, encode, NwtFrame, HEADER_LEN};
pub use error::NwtError;
pub use ingest::{attr_string, harvest_attributes, is_fill_name, AttrValue};
pub use lookup::{build_lookup_table, counts_agree};
pub use metadata::JsonData;
pub use sparse::{extract_region, f32_eq, GridPoint, PolyidEntry};
pub use weight_file::{cache_path, is_nwt, DenseSource, NextWeightFile};
