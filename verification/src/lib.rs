//! A voxel-space landscape renderer core.
//!
//! Two co-registered rasters — an 8-bit grayscale height map and an 8-bit RGB
//! color map — describe a terrain. A viewer stands at a 2D position with a
//! heading and an eye height; for every screen column a ray is walked outward
//! in growing distance steps, terrain is sampled with toroidal wrap-around,
//! sampled heights are projected to screen rows by perspective division, and a
//! per-column horizon buffer culls samples hidden behind closer, taller
//! terrain. The result of a frame is a list of vertical colored segments that
//! a host can hand to whatever drawing surface it owns.

pub mod camera;
pub mod frame;
pub mod horizon;
pub mod projector;
pub mod terrain;
