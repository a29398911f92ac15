//! Voxel terrain core: chunk bounds, voxel grids, greedy block meshing,
//! surface-cell connectivity, line-cast edits, chunk streaming and the UI
//! element registry, each with its contract.

pub mod bounds;
pub mod voxels;
pub mod greedy;
pub mod mesh;
pub mod block_chunk;
pub mod surface;
pub mod marching;
pub mod streaming;
pub mod store;
pub mod ui;
