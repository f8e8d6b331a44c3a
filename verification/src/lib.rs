//! Region maps for a terrain-style editor: decoding 16-bit region images,
//! cutting sub-regions out of them, painting region indices with a brush,
//! and the bookkeeping that decides when region textures are loaded.

pub mod regionmap;
pub mod regions;
pub mod edit;
pub mod brush;
pub mod region_png;
