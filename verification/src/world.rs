use vstd::prelude::*;
use crate::bricks::BrickMap;
use crate::chunk_table::{ChunkCoord, ChunkMap, ChunkKeySet};
use crate::gpu_types::NeoUVec3;

verus! {

/// Number of bricks in a chunk (16 x 16 x 16).
pub const CHUNK_BRICKS: usize = 4096;

/// Where a chunk's data stands.
#[derive(Clone, Copy, Debug, PartialEq, Eq, Structural)]
pub enum ChunkState {
    /// The chunk's bricks are in memory.
    Loaded,
    /// The chunk's bricks are being generated or read.
    Loading,
    /// The chunk is being written out.
    Unloading,
}

/// A chunk of the world: its bricks once they are in memory, its state,
/// and a version counter.
pub struct Chunk {
    pub brickmap_array: Option<Vec<BrickMap>>,
    pub state: ChunkState,
    pub version: u64,
}

impl Chunk {
    /// The chunk that was just requested: no bricks yet, state `Loading`,
    /// version 0.
    pub open spec fn loading_spec() -> Chunk {
        Chunk { brickmap_array: None, state: ChunkState::Loading, version: 0 }
    }

    /// A new chunk whose bricks are still to come.
    pub fn loading() -> (r: Chunk)
        ensures
            r == Chunk::loading_spec(),
    {
        Chunk { brickmap_array: None, state: ChunkState::Loading, version: 0 }
    }
}

/// The voxel world: its chunks by chunk coordinates.
pub struct VoxelWorld {
    pub chunk_hash: ChunkMap,
}

/// The chunks whose generation has been started and has not yet come back.
pub struct ChunkGenerationTasks {
    pub chunkgen_tasks: ChunkKeySet,
}

} // verus!

verus! {

/// The brick cells the renderer asks for, by cell coordinates.
pub struct CellsRequest(pub Vec<NeoUVec3>);

/// Bricks sent back to the renderer, each with the index of its cell;
/// `None` stands for an empty cell.
pub struct CellsResponse(pub Vec<(Option<BrickMap>, u32)>);

/// The chunk that holds brick cell `c`.
pub open spec fn chunk_of(c: NeoUVec3) -> ChunkCoord {
    ((c.x / 16) as u32, (c.y / 16) as u32, (c.z / 16) as u32)
}

/// Where brick cell `c` sits among the bricks of its chunk.
pub open spec fn local_brick_index(c: NeoUVec3) -> int {
    ((c.x % 16) * 16 + c.y % 16) * 16 + c.z % 16
}

/// The index under which brick cell `c` is reported to the renderer:
/// `(x * 16 + y) * 16 + z`, wrapping modulo 2^32.
pub open spec fn cell_id(c: NeoUVec3) -> u32 {
    ((c.x * 256 + c.y * 16 + c.z) % 0x1_0000_0000) as u32
}

/// The chunk that holds brick cell `cell`.
pub fn chunk_coord_of(cell: &NeoUVec3) -> (r: ChunkCoord)
    ensures
        r == chunk_of(*cell),
        16 * r.0 <= cell.x < 16 * r.0 + 16,
        16 * r.1 <= cell.y < 16 * r.1 + 16,
        16 * r.2 <= cell.z < 16 * r.2 + 16,
{
    proof {
        law_cell_in_its_chunk(*cell);
    }
    (cell.x / 16, cell.y / 16, cell.z / 16)
}

/// Where brick cell `cell` sits among the bricks of its chunk.
pub fn brick_index_in_chunk(cell: &NeoUVec3) -> (r: usize)
    ensures
        r == local_brick_index(*cell),
        r == (cell.x % 16) * 256 + (cell.y % 16) * 16 + cell.z % 16,
        r / 256 == cell.x % 16,
        (r / 16) % 16 == cell.y % 16,
        r % 16 == cell.z % 16,
        r < CHUNK_BRICKS,
{
    proof {
        law_brick_offset_in_chunk(*cell);
    }
    let x = (cell.x % 16) as usize;
    let y = (cell.y % 16) as usize;
    let z = (cell.z % 16) as usize;
    (x * 16 + y) * 16 + z
}

/// The index under which brick cell `cell` is reported to the renderer.
pub fn cell_index(cell: &NeoUVec3) -> (r: u32)
    ensures
        r == cell_id(*cell),
        r as int == (cell.x * 256 + cell.y * 16 + cell.z) % 0x1_0000_0000,
        cell.x * 256 + cell.y * 16 + cell.z <= u32::MAX ==> r == cell.x * 256 + cell.y * 16 + cell.z,
{
    proof {
        law_cell_index_value(*cell);
    }
    let v: u64 = (cell.x as u64) * 256 + (cell.y as u64) * 16 + (cell.z as u64);
    assert(v as u32 == (v % 0x1_0000_0000) as u32) by (bit_vector);
    v as u32
}

/// A cell lies in the chunk it is mapped to: each chunk coordinate is the
/// cell coordinate divided by the chunk's width of 16 bricks.
pub proof fn law_cell_in_its_chunk(c: NeoUVec3)
    ensures
        16 * chunk_of(c).0 <= c.x < 16 * chunk_of(c).0 + 16,
        16 * chunk_of(c).1 <= c.y < 16 * chunk_of(c).1 + 16,
        16 * chunk_of(c).2 <= c.z < 16 * chunk_of(c).2 + 16,
{
}

/// A cell's place among its chunk's bricks is its offset within the chunk,
/// `(x % 16, y % 16, z % 16)`, laid out as the bricks of a generated chunk
/// are: brick `b` is at offset `(b / 256, (b / 16) % 16, b % 16)`.
pub proof fn law_brick_offset_in_chunk(c: NeoUVec3)
    ensures
        local_brick_index(c) == (c.x % 16) * 256 + (c.y % 16) * 16 + c.z % 16,
        0 <= local_brick_index(c) < CHUNK_BRICKS,
        local_brick_index(c) / 256 == c.x % 16,
        (local_brick_index(c) / 16) % 16 == c.y % 16,
        local_brick_index(c) % 16 == c.z % 16,
{
    let b = (c.x % 16) * 256 + (c.y % 16) * 16 + c.z % 16;
    crate::image::lemma_grid_position((c.x % 16) as int, (c.y % 16) as int, (c.z % 16) as int, 16, 16);
    assert(((c.x % 16) * 16 + c.y % 16) * 16 + c.z % 16 == b);
}

/// A cell is reported under `x * 256 + y * 16 + z`, taken modulo 2^32; for
/// cells where that fits in a `u32` it is exactly that number.
pub proof fn law_cell_index_value(c: NeoUVec3)
    ensures
        cell_id(c) as int == (c.x * 256 + c.y * 16 + c.z) % 0x1_0000_0000,
        c.x * 256 + c.y * 16 + c.z <= u32::MAX ==> cell_id(c) == c.x * 256 + c.y * 16 + c.z,
{
}

/// The table is consistent with the generation in flight: every chunk whose
/// generation is pending is in the world and `Loading`, and every `Loaded`
/// chunk holds all of its bricks.
pub open spec fn table_wf(world: Map<ChunkCoord, Chunk>, pending: Set<ChunkCoord>) -> bool {
    &&& forall|k: ChunkCoord| #[trigger] pending.contains(k) ==> world.dom().contains(k)
        && world[k].state == ChunkState::Loading
    &&& forall|k: ChunkCoord| #[trigger] world.dom().contains(k) && world[k].state
        == ChunkState::Loaded ==> world[k].brickmap_array is Some
        && world[k].brickmap_array.unwrap()@.len() == CHUNK_BRICKS
}

/// What answering cell requests has done so far: the chunk table, the
/// chunks with a generation in flight, the bricks answered, the chunks whose
/// generation must start, and the cells found in a chunk that is `Loading`
/// or `Unloading`.
pub struct ChunkgenTrace {
    pub world: Map<ChunkCoord, Chunk>,
    pub pending: Set<ChunkCoord>,
    pub response: Seq<(Option<BrickMap>, u32)>,
    pub spawn: Seq<ChunkCoord>,
    pub notices: Seq<(ChunkCoord, ChunkState)>,
}

/// The trace before any cell is answered.
pub open spec fn chunkgen_start(world: Map<ChunkCoord, Chunk>, pending: Set<ChunkCoord>) -> ChunkgenTrace {
    ChunkgenTrace {
        world,
        pending,
        response: Seq::empty(),
        spawn: Seq::empty(),
        notices: Seq::empty(),
    }
}

/// Answering one requested cell. If its chunk is `Loaded`, its brick is
/// answered with the cell's index; if the chunk is `Loading` or
/// `Unloading`, the cell is noted; if the chunk is absent and no generation
/// is in flight for it, it enters the table as `Loading` and its generation
/// is started.
pub open spec fn chunkgen_step(t: ChunkgenTrace, cell: NeoUVec3) -> ChunkgenTrace {
    let k = chunk_of(cell);
    if t.world.dom().contains(k) {
        let ch = t.world[k];
        if ch.state == ChunkState::Loaded {
            ChunkgenTrace {
                world: t.world,
                pending: t.pending,
                response: t.response.push(
                    (Some(ch.brickmap_array.unwrap()@[local_brick_index(cell)]), cell_id(cell)),
                ),
                spawn: t.spawn,
                notices: t.notices,
            }
        } else {
            ChunkgenTrace {
                world: t.world,
                pending: t.pending,
                response: t.response,
                spawn: t.spawn,
                notices: t.notices.push((k, ch.state)),
            }
        }
    } else if t.pending.contains(k) {
        t
    } else {
        ChunkgenTrace {
            world: t.world.insert(k, Chunk::loading_spec()),
            pending: t.pending.insert(k),
            response: t.response,
            spawn: t.spawn.push(k),
            notices: t.notices,
        }
    }
}

/// Answering the cells of one request, in order.
pub open spec fn chunkgen_cells(t: ChunkgenTrace, cells: Seq<NeoUVec3>) -> ChunkgenTrace
    decreases cells.len(),
{
    if cells.len() == 0 {
        t
    } else {
        chunkgen_step(chunkgen_cells(t, cells.drop_last()), cells.last())
    }
}

/// Answering a frame's requests, in order.
pub open spec fn chunkgen_requests(t: ChunkgenTrace, reqs: Seq<CellsRequest>) -> ChunkgenTrace
    decreases reqs.len(),
{
    if reqs.len() == 0 {
        t
    } else {
        chunkgen_cells(chunkgen_requests(t, reqs.drop_last()), reqs.last().0@)
    }
}

/// One step keeps the table consistent.
pub proof fn lemma_step_keeps_wf(t: ChunkgenTrace, cell: NeoUVec3)
    requires
        table_wf(t.world, t.pending),
    ensures
        table_wf(chunkgen_step(t, cell).world, chunkgen_step(t, cell).pending),
{
    let t2 = chunkgen_step(t, cell);
    let k = chunk_of(cell);
    if !t.world.dom().contains(k) && !t.pending.contains(k) {
        assert forall|j: ChunkCoord| #[trigger] t2.pending.contains(j) implies t2.world.dom().contains(j)
            && t2.world[j].state == ChunkState::Loading by {
            if j != k {
                assert(t.pending.contains(j));
            }
        }
        assert forall|j: ChunkCoord| #[trigger] t2.world.dom().contains(j) && t2.world[j].state
            == ChunkState::Loaded implies t2.world[j].brickmap_array is Some
            && t2.world[j].brickmap_array.unwrap()@.len() == CHUNK_BRICKS by {
            if j != k {
                assert(t.world.dom().contains(j));
            }
        }
    }
}

/// The outcome of answering a frame's cell requests.
pub struct ChunkgenOutcome {
    /// The bricks to send back, if any were answered.
    pub response: Option<CellsResponse>,
    /// The chunks whose generation must be started, in the order first asked.
    pub spawn: Vec<ChunkCoord>,
    /// Requested cells whose chunk is `Loading` or `Unloading`.
    pub notices: Vec<(ChunkCoord, ChunkState)>,
}

/// Answers the cell requests of one frame against the chunk table. Cells of
/// `Loaded` chunks get their brick; cells of absent chunks with no
/// generation in flight put their chunk in the table as `Loading` and into
/// the generation set, and the chunk is listed to be generated.
pub fn feedback_chunkgen_system(
    world: &mut VoxelWorld,
    tasks: &mut ChunkGenerationTasks,
    requests: &Vec<CellsRequest>,
) -> (r: ChunkgenOutcome)
    requires
        table_wf(old(world).chunk_hash@, old(tasks).chunkgen_tasks@),
    ensures
        ({
            let t = chunkgen_requests(
                chunkgen_start(old(world).chunk_hash@, old(tasks).chunkgen_tasks@),
                requests@,
            );
            &&& final(world).chunk_hash@ == t.world
            &&& final(tasks).chunkgen_tasks@ == t.pending
            &&& r.spawn@ == t.spawn
            &&& r.notices@ == t.notices
            &&& match r.response {
                None => t.response.len() == 0,
                Some(resp) => resp.0@ == t.response && t.response.len() > 0,
            }
        }),
        table_wf(final(world).chunk_hash@, final(tasks).chunkgen_tasks@),
{
    let ghost t0 = chunkgen_start(world.chunk_hash@, tasks.chunkgen_tasks@);
    let mut response: Vec<(Option<BrickMap>, u32)> = Vec::new();
    let mut spawn: Vec<ChunkCoord> = Vec::new();
    let mut notices: Vec<(ChunkCoord, ChunkState)> = Vec::new();
    let mut i: usize = 0;
    while i < requests.len()
        invariant
            i <= requests.len(),
            table_wf(world.chunk_hash@, tasks.chunkgen_tasks@),
            ({
                let t = chunkgen_requests(t0, requests@.take(i as int));
                &&& world.chunk_hash@ == t.world
                &&& tasks.chunkgen_tasks@ == t.pending
                &&& response@ == t.response
                &&& spawn@ == t.spawn
                &&& notices@ == t.notices
            }),
        decreases requests.len() - i,
    {
        let cells = &requests[i].0;
        let ghost tr = chunkgen_requests(t0, requests@.take(i as int));
        let mut j: usize = 0;
        while j < cells.len()
            invariant
                j <= cells.len(),
                table_wf(world.chunk_hash@, tasks.chunkgen_tasks@),
                ({
                    let t = chunkgen_cells(tr, cells@.take(j as int));
                    &&& world.chunk_hash@ == t.world
                    &&& tasks.chunkgen_tasks@ == t.pending
                    &&& response@ == t.response
                    &&& spawn@ == t.spawn
                    &&& notices@ == t.notices
                }),
            decreases cells.len() - j,
        {
            let cell = &cells[j];
            let ghost tc = chunkgen_cells(tr, cells@.take(j as int));
            proof {
                lemma_step_keeps_wf(tc, *cell);
                assert(cells@.take(j + 1).drop_last() =~= cells@.take(j as int));
            }
            let k = chunk_coord_of(cell);
            if world.chunk_hash.contains_key(&k) {
                match world.chunk_hash.get(&k) {
                    Some(chunk) => {
                        match chunk.state {
                            ChunkState::Loaded => {
                                match &chunk.brickmap_array {
                                    Some(bricks) => {
                                        let idx = brick_index_in_chunk(cell);
                                        let brick = bricks[idx];
                                        response.push((Some(brick), cell_index(cell)));
                                    },
                                    None => {
                                        assert(false);
                                    },
                                }
                            },
                            ChunkState::Loading => {
                                notices.push((k, ChunkState::Loading));
                            },
                            ChunkState::Unloading => {
                                notices.push((k, ChunkState::Unloading));
                            },
                        }
                    },
                    None => {
                        assert(false);
                    },
                }
            } else if tasks.chunkgen_tasks.contains(&k) {
            } else {
                tasks.chunkgen_tasks.insert(k);
                world.chunk_hash.insert(k, Chunk::loading());
                spawn.push(k);
            }
            j = j + 1;
        }
        proof {
            assert(cells@.take(cells.len() as int) =~= cells@);
            assert(requests@.take(i + 1).drop_last() =~= requests@.take(i as int));
        }
        i = i + 1;
    }
    proof {
        assert(requests@.take(requests.len() as int) =~= requests@);
    }
    let resp = if response.len() == 0 {
        None
    } else {
        Some(CellsResponse(response))
    };
    ChunkgenOutcome { response: resp, spawn, notices }
}

} // verus!

verus! {

impl VoxelWorld {
    /// A world with no chunks.
    pub fn new() -> (r: VoxelWorld)
        ensures
            r.chunk_hash@ == Map::<ChunkCoord, Chunk>::empty(),
    {
        VoxelWorld { chunk_hash: ChunkMap::new() }
    }

    /// The state of chunk `k`, if the world holds it.
    pub fn chunk_state(&self, k: ChunkCoord) -> (r: Option<ChunkState>)
        ensures
            r == (if self.chunk_hash@.dom().contains(k) {
                Some(self.chunk_hash@[k].state)
            } else {
                None::<ChunkState>
            }),
    {
        match self.chunk_hash.get(&k) {
            Some(c) => Some(c.state),
            None => None,
        }
    }
}

impl ChunkGenerationTasks {
    /// No generation in flight.
    pub fn new() -> (r: ChunkGenerationTasks)
        ensures
            r.chunkgen_tasks@ == Set::<ChunkCoord>::empty(),
    {
        ChunkGenerationTasks { chunkgen_tasks: ChunkKeySet::new() }
    }

    /// Whether the generation of chunk `k` is in flight.
    pub fn is_generating(&self, k: ChunkCoord) -> (r: bool)
        ensures
            r == self.chunkgen_tasks@.contains(k),
    {
        self.chunkgen_tasks.contains(&k)
    }
}

/// An empty world with no generation in flight is consistent.
pub proof fn lemma_empty_table_wf()
    ensures
        table_wf(Map::<ChunkCoord, Chunk>::empty(), Set::<ChunkCoord>::empty()),
{
}

/// The chunk that a finished generation leaves in the table.
pub open spec fn generated_chunk(bricks: Vec<BrickMap>, version: u64) -> Chunk {
    Chunk { brickmap_array: Some(bricks), state: ChunkState::Loaded, version }
}

/// Stores the bricks of a chunk whose generation has finished: the chunk
/// becomes `Loaded` with those bricks (its version is kept), and its
/// generation leaves the set of those in flight.
pub fn store_generated_chunk(
    world: &mut VoxelWorld,
    tasks: &mut ChunkGenerationTasks,
    chunk_coord: ChunkCoord,
    chunk_data: Vec<BrickMap>,
)
    requires
        table_wf(old(world).chunk_hash@, old(tasks).chunkgen_tasks@),
        old(tasks).chunkgen_tasks@.contains(chunk_coord),
        chunk_data@.len() == CHUNK_BRICKS,
    ensures
        final(world).chunk_hash@ == old(world).chunk_hash@.insert(
            chunk_coord,
            generated_chunk(chunk_data, old(world).chunk_hash@[chunk_coord].version),
        ),
        final(tasks).chunkgen_tasks@ == old(tasks).chunkgen_tasks@.remove(chunk_coord),
        table_wf(final(world).chunk_hash@, final(tasks).chunkgen_tasks@),
{
    let ghost data = chunk_data;
    let version = match world.chunk_hash.get(&chunk_coord) {
        Some(c) => c.version,
        None => {
            assert(false);
            0
        },
    };
    world.chunk_hash.insert(
        chunk_coord,
        Chunk { brickmap_array: Some(chunk_data), state: ChunkState::Loaded, version },
    );
    tasks.chunkgen_tasks.remove(&chunk_coord);
    proof {
        lemma_store_keeps_wf(old(world).chunk_hash@, old(tasks).chunkgen_tasks@, chunk_coord, data);
    }
}

/// Storing a generated chunk keeps the table consistent.
pub proof fn lemma_store_keeps_wf(
    w: Map<ChunkCoord, Chunk>,
    p: Set<ChunkCoord>,
    k: ChunkCoord,
    bricks: Vec<BrickMap>,
)
    requires
        table_wf(w, p),
        p.contains(k),
        bricks@.len() == CHUNK_BRICKS,
    ensures
        table_wf(w.insert(k, generated_chunk(bricks, w[k].version)), p.remove(k)),
{
    let w2 = w.insert(k, generated_chunk(bricks, w[k].version));
    let p2 = p.remove(k);
    assert forall|j: ChunkCoord| #[trigger] p2.contains(j) implies w2.dom().contains(j)
        && w2[j].state == ChunkState::Loading by {
        assert(p.contains(j));
    }
    assert forall|j: ChunkCoord| #[trigger] w2.dom().contains(j) && w2[j].state
        == ChunkState::Loaded implies w2[j].brickmap_array is Some
        && w2[j].brickmap_array.unwrap()@.len() == CHUNK_BRICKS by {
        if j != k {
            assert(w.dom().contains(j));
        }
    }
}

/// Generates the bricks of a chunk: 4096 bricks in which every voxel is
/// solid. Brick `b` of the chunk is the cell at offset
/// `(b / 256, (b / 16) % 16, b % 16)` within it.
pub fn generate_chunk() -> (r: Vec<BrickMap>)
    ensures
        r@.len() == CHUNK_BRICKS,
        forall|i: int| 0 <= i < CHUNK_BRICKS ==> (#[trigger] r@[i]).is_full(),
{
    let mut dat_box: Vec<BrickMap> = Vec::new();
    let mut bm_idx: usize = 0;
    while bm_idx < CHUNK_BRICKS
        invariant
            bm_idx <= CHUNK_BRICKS,
            dat_box@.len() == bm_idx,
            forall|i: int| 0 <= i < bm_idx ==> (#[trigger] dat_box@[i]).is_full(),
        decreases CHUNK_BRICKS - bm_idx,
    {
        let mut bm = BrickMap::default();
        let mut v_idx: usize = 0;
        while v_idx < 512
            invariant
                v_idx <= 512,
                bm@ == Seq::new(512, |i: int| i < v_idx),
            decreases 512 - v_idx,
        {
            bm.set(v_idx, true);
            assert(bm@ =~= Seq::new(512, |i: int| i < v_idx + 1));
            v_idx = v_idx + 1;
        }
        assert forall|i: int| 0 <= i < 512 implies #[trigger] bm.voxel(i) by {
            assert(bm@[i]);
        }
        dat_box.push(bm);
        bm_idx = bm_idx + 1;
    }
    dat_box
}

} // verus!
