//! Video contact sheet generation: timestamp sampling, frame selection and
//! contact sheet layout, with their contracts.

pub mod constants;
pub mod error;
pub mod text;
pub mod models;
pub mod timestamps;
pub mod selection;
pub mod scoring;
pub mod layout;
pub mod colour;
pub mod media;
pub mod capture;
pub mod params;
pub mod metadata;

use vstd::prelude::*;

pub use error::VcsrError;
pub use models::Grid;

verus! {

/// Parses a grid shape written `MxN` (columns `x` rows).
pub fn grid_from_str(s: &str) -> (r: Result<Grid, VcsrError>)
    ensures
        r == models::grid_spec(s@),
{
    Grid::parse(s)
}

} // verus!
