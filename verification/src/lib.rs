//! Verified core of a brickmap voxel engine: the voxel bit layout of a brick,
//! the chunk table that answers cell requests, the de-duplication of the GPU
//! feedback buffer, the GPU object pool, and the packing of buffers sent to
//! and read from the GPU.

pub mod bricks;
pub mod gpu_types;
pub mod chunk_table;
pub mod world;
pub mod chunk_laws;
pub mod feedback;
pub mod pool;
pub mod image;
pub mod render_setup;
