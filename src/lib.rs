//! Raster map tiles in the XYZ scheme: Web Mercator projection in fixed point,
//! segment and rectangle crossing tests, tile rendering and request routing.
use vstd::prelude::*;

pub mod geom;
pub mod proj;
pub mod canvas;
pub mod tile;
pub mod route;
pub mod cache;

verus! {

} // verus!
