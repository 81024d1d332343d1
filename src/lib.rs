//! Rasterises pixel hits onto a grid of Braille dot-matrix cells.
use vstd::prelude::*;

pub mod braille;
pub mod drawing;

verus! {

} // verus!
