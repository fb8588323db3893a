//! Verified core of PowerUSD: the stage assembler's data model, its
//! undo/redo history, USDA text generation, mesh index planning and the
//! small classification rules shared by the viewer and the asset library.

pub mod kinds;
pub mod text;
pub mod func;
pub mod ids;
pub mod paths;
pub mod asset;
pub mod stager;
pub mod render;
pub mod mesh;
pub mod formats;
pub mod writer;
pub mod library;
pub mod materialx;
pub mod shading;
pub mod import;
pub mod shell;
pub mod thumbs;

use vstd::prelude::*;

verus! {

} // verus!
