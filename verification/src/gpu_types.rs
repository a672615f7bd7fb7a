use vstd::prelude::*;
use crate::bricks::Brickmap;

verus! {

/// Width of the world in brick cells along x.
pub const WORLD_SIZE_X: u32 = 256;
/// Width of the world in brick cells along y.
pub const WORLD_SIZE_Y: u32 = 256;
/// Width of the world in brick cells along z.
pub const WORLD_SIZE_Z: u32 = 256;

/// Number of cells the shader can report per frame in the feedback buffer.
pub const FEEDBACK_BUFFER_SIZE: usize = 256;

/// Number of slots of the GPU brick pool.
pub const OBJECT_POOL_MAX_SIZE: usize = 100000;

/// A vector of three `u32`, as the shader lays it out.
#[derive(Clone, Copy, Debug, PartialEq, Eq)]
pub struct NeoUVec3 {
    pub x: u32,
    pub y: u32,
    pub z: u32,
}

impl Default for NeoUVec3 {
    /// The zero vector.
    fn default() -> (r: Self)
        ensures
            r.x == 0 && r.y == 0 && r.z == 0,
    {
        NeoUVec3 { x: 0, y: 0, z: 0 }
    }
}

/// A vector of four `u32`, as the shader lays it out.
#[derive(Clone, Copy, Debug, PartialEq, Eq)]
pub struct NeoUVec4 {
    pub x: u32,
    pub y: u32,
    pub z: u32,
    pub w: u32,
}

impl Default for NeoUVec4 {
    /// The zero vector.
    fn default() -> (r: Self)
        ensures
            r.x == 0 && r.y == 0 && r.z == 0 && r.w == 0,
    {
        NeoUVec4 { x: 0, y: 0, z: 0, w: 0 }
    }
}

/// The constants the render shader is started with.
#[derive(Clone, Copy, Debug)]
pub struct InitData {
    pub imagen_height: u32,
    pub imagen_width: u32,
    pub feedback_buffer_size: u32,
    pub world_size_x: u32,
    pub world_size_y: u32,
    pub world_size_z: u32,
}

/// A brick placement: brick cell `bm_idx` of the world lives in slot
/// `bm_buffer_idx` of the GPU brick pool.
#[derive(Clone, Copy, Debug)]
pub struct BMAlloc {
    pub bm_idx: u32,
    pub bm_buffer_idx: u32,
}

/// One instruction for the allocator shader: place `allocar`, free the cell
/// `deallocar` (nothing is freed when it equals `allocar.bm_idx`), and, when
/// `com == 1`, upload `datos` into the slot; `com == 0` marks an empty cell.
#[derive(Clone, Copy, Debug)]
pub struct Comando {
    pub allocar: BMAlloc,
    pub deallocar: u32,
    pub datos: Brickmap,
    pub com: u32,
}

impl Comando {
    /// The instruction that does nothing: every field zero.
    pub open spec fn is_blank(self) -> bool {
        &&& self.allocar.bm_idx == 0
        &&& self.allocar.bm_buffer_idx == 0
        &&& self.deallocar == 0
        &&& self.datos.datos@ == Seq::new(16, |i: int| 0u32)
        &&& self.com == 0
    }
}

impl Default for Comando {
    /// The blank instruction.
    fn default() -> (r: Self)
        ensures
            r.is_blank(),
    {
        Comando {
            allocar: BMAlloc { bm_idx: 0, bm_buffer_idx: 0 },
            deallocar: 0,
            datos: Brickmap::default(),
            com: 0,
        }
    }
}

impl InitData {
    /// The start constants for a render target of `size` pixels: one shader
    /// tile per 64 pixels in each direction, the feedback buffer's length,
    /// and the world's size in brick cells.
    pub fn for_render_target(size: (u32, u32)) -> (r: InitData)
        ensures
            r.imagen_height == size.0 / 64,
            r.imagen_width == size.1 / 64,
            r.feedback_buffer_size == FEEDBACK_BUFFER_SIZE,
            r.world_size_x == WORLD_SIZE_X,
            r.world_size_y == WORLD_SIZE_Y,
            r.world_size_z == WORLD_SIZE_Z,
    {
        InitData {
            imagen_height: size.0 / 64,
            imagen_width: size.1 / 64,
            feedback_buffer_size: 256,
            world_size_x: WORLD_SIZE_X,
            world_size_y: WORLD_SIZE_Y,
            world_size_z: WORLD_SIZE_Z,
        }
    }
}

} // verus!
