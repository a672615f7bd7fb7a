use vstd::prelude::*;
use crate::bricks::Brickmap;
use crate::gpu_types::{
    Comando, NeoUVec3, FEEDBACK_BUFFER_SIZE, OBJECT_POOL_MAX_SIZE, WORLD_SIZE_X, WORLD_SIZE_Y,
    WORLD_SIZE_Z,
};
use crate::pool::COMMANDS_POOL_SIZE;

verus! {

/// What every cell of the brick grid holds before the allocator shader has
/// placed anything: colour `0x355f95` for the level of detail, no flags.
pub const DEF_BRICKGRID_CELL: u32 = 0x355f9502;

/// Number of cells of the brick grid: one per brick cell of the world.
pub const BRICKGRID_CELLS: usize = 16777216;

/// The buffers the shaders start from.
pub struct RenderBuffers {
    /// The rendered image, one word per pixel.
    pub imagen: Vec<u32>,
    /// The brick grid, one word per brick cell of the world.
    pub brickgrid: Vec<u32>,
    /// The GPU brick pool.
    pub brickmap_data: Vec<Brickmap>,
    /// The cells the shader reports as needed.
    pub feedback: Vec<NeoUVec3>,
    /// The allocator shader's instructions.
    pub commands_pool: Vec<Comando>,
}

/// `n` copies of `v`.
fn filled_words(v: u32, n: usize) -> (r: Vec<u32>)
    ensures
        r@.len() == n,
        forall|i: int| 0 <= i < n ==> #[trigger] r@[i] == v,
{
    let mut r: Vec<u32> = Vec::new();
    let mut i: usize = 0;
    while i < n
        invariant
            i <= n,
            r@.len() == i,
            forall|j: int| 0 <= j < i ==> #[trigger] r@[j] == v,
        decreases n - i,
    {
        r.push(v);
        i = i + 1;
    }
    r
}

/// The buffers the shaders start from, for a render target of `size`
/// pixels: a blank image, a brick grid of default cells, an empty brick
/// pool, a zeroed feedback buffer and blank instructions.
pub fn initial_render_buffers(size: (u32, u32)) -> (r: RenderBuffers)
    requires
        size.0 * size.1 <= usize::MAX,
    ensures
        r.imagen@.len() == size.0 * size.1,
        forall|i: int| 0 <= i < r.imagen@.len() ==> #[trigger] r.imagen@[i] == 0,
        r.brickgrid@.len() == WORLD_SIZE_X * WORLD_SIZE_Y * WORLD_SIZE_Z,
        forall|i: int| 0 <= i < r.brickgrid@.len() ==> #[trigger] r.brickgrid@[i] == DEF_BRICKGRID_CELL,
        r.brickmap_data@.len() == OBJECT_POOL_MAX_SIZE,
        forall|i: int| 0 <= i < r.brickmap_data@.len() ==> (#[trigger] r.brickmap_data@[i]).datos@
            == Seq::new(16, |j: int| 0u32),
        r.feedback@.len() == FEEDBACK_BUFFER_SIZE,
        forall|i: int| 0 <= i < r.feedback@.len() ==> #[trigger] r.feedback@[i] == (NeoUVec3 { x: 0, y: 0, z: 0 }),
        r.commands_pool@.len() == COMMANDS_POOL_SIZE,
        forall|i: int| 0 <= i < r.commands_pool@.len() ==> (#[trigger] r.commands_pool@[i]).is_blank(),
{
    let pixels = (size.0 as usize) * (size.1 as usize);
    let imagen = filled_words(0, pixels);
    let brickgrid = filled_words(DEF_BRICKGRID_CELL, BRICKGRID_CELLS);
    let mut brickmap_data: Vec<Brickmap> = Vec::new();
    let mut i: usize = 0;
    while i < OBJECT_POOL_MAX_SIZE
        invariant
            i <= OBJECT_POOL_MAX_SIZE,
            brickmap_data@.len() == i,
            forall|j: int| 0 <= j < i ==> (#[trigger] brickmap_data@[j]).datos@ == Seq::new(16, |k: int| 0u32),
        decreases OBJECT_POOL_MAX_SIZE - i,
    {
        brickmap_data.push(Brickmap::default());
        i = i + 1;
    }
    let mut feedback: Vec<NeoUVec3> = Vec::new();
    let mut i: usize = 0;
    while i < FEEDBACK_BUFFER_SIZE
        invariant
            i <= FEEDBACK_BUFFER_SIZE,
            feedback@.len() == i,
            forall|j: int| 0 <= j < i ==> #[trigger] feedback@[j] == (NeoUVec3 { x: 0, y: 0, z: 0 }),
        decreases FEEDBACK_BUFFER_SIZE - i,
    {
        feedback.push(NeoUVec3::default());
        i = i + 1;
    }
    let mut commands_pool: Vec<Comando> = Vec::new();
    let mut i: usize = 0;
    while i < COMMANDS_POOL_SIZE
        invariant
            i <= COMMANDS_POOL_SIZE,
            commands_pool@.len() == i,
            forall|j: int| 0 <= j < i ==> (#[trigger] commands_pool@[j]).is_blank(),
        decreases COMMANDS_POOL_SIZE - i,
    {
        commands_pool.push(Comando::default());
        i = i + 1;
    }
    RenderBuffers { imagen, brickgrid, brickmap_data, feedback, commands_pool }
}

} // verus!
