//! Docker image icons: parsing of image references, and the rules by which
//! an icon is looked up for one (which sources are tried, in which order,
//! at which URL, and how each answer is read).
use vstd::prelude::*;

pub mod error;
pub mod parser;
pub mod reference_laws;
pub mod round_trip;
pub mod service;
pub mod text;
pub mod types;

pub use error::{Error, Result};
pub use parser::ImageReference;
pub use types::{Icon, IconSource};

verus! {
}
