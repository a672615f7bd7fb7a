use vstd::prelude::*;
use crate::bricks::BrickMap;
use crate::chunk_table::ChunkCoord;
use crate::gpu_types::NeoUVec3;
use crate::world::{
    CellsRequest, Chunk, ChunkState, ChunkgenTrace, CHUNK_BRICKS, chunk_of, chunkgen_cells,
    chunkgen_requests, chunkgen_start, chunkgen_step, cell_id, generated_chunk, lemma_step_keeps_wf,
    lemma_store_keeps_wf, local_brick_index, table_wf,
};

verus! {

/// What holds of a trace that started from the table `w` with the
/// generations `p` in flight: the table is consistent; chunks that `w` held
/// are still there, unchanged; every chunk added is `Loading`, has its
/// generation in flight and is listed in `spawn`; `spawn` lists each chunk
/// once, only chunks that `w` did not hold, all of them now in the table;
/// and no generation in flight before has been dropped.
pub open spec fn chunkgen_inv(w: Map<ChunkCoord, Chunk>, p: Set<ChunkCoord>, t: ChunkgenTrace) -> bool {
    &&& table_wf(t.world, t.pending)
    &&& forall|k: ChunkCoord| #[trigger] w.dom().contains(k) ==> t.world.dom().contains(k)
        && t.world[k] == w[k]
    &&& forall|k: ChunkCoord| #[trigger] t.world.dom().contains(k) && !w.dom().contains(k)
        ==> t.spawn.contains(k) && t.world[k] == Chunk::loading_spec() && t.pending.contains(k)
    &&& t.spawn.no_duplicates()
    &&& forall|i: int| 0 <= i < t.spawn.len() ==> !w.dom().contains(#[trigger] t.spawn[i])
        && t.world.dom().contains(t.spawn[i])
    &&& forall|k: ChunkCoord| #[trigger] p.contains(k) ==> t.pending.contains(k)
}

/// One step keeps `chunkgen_inv`, keeps every chunk of the table, and leaves
/// the chunk of the answered cell in the table.
pub proof fn lemma_step_keeps_inv(
    w: Map<ChunkCoord, Chunk>,
    p: Set<ChunkCoord>,
    t: ChunkgenTrace,
    cell: NeoUVec3,
)
    requires
        chunkgen_inv(w, p, t),
    ensures
        chunkgen_inv(w, p, chunkgen_step(t, cell)),
        chunkgen_step(t, cell).world.dom().contains(chunk_of(cell)),
        forall|k: ChunkCoord| #[trigger] t.world.dom().contains(k) ==> chunkgen_step(
            t,
            cell,
        ).world.dom().contains(k),
{
    lemma_step_keeps_wf(t, cell);
    let t2 = chunkgen_step(t, cell);
    let k = chunk_of(cell);
    if !t.world.dom().contains(k) && !t.pending.contains(k) {
        assert forall|j: ChunkCoord| #[trigger] w.dom().contains(j) implies t2.world.dom().contains(j)
            && t2.world[j] == w[j] by {
            assert(t.world.dom().contains(j));
        }
        assert forall|j: ChunkCoord| #[trigger] t2.world.dom().contains(j) && !w.dom().contains(j)
            implies t2.spawn.contains(j) && t2.world[j] == Chunk::loading_spec()
            && t2.pending.contains(j) by {
            if j == k {
                assert(t2.spawn[t2.spawn.len() - 1] == k);
            } else {
                assert(t.world.dom().contains(j));
                let n = choose|n: int| 0 <= n < t.spawn.len() && t.spawn[n] == j;
                assert(t2.spawn[n] == j);
            }
        }
        assert forall|a: int, b: int| 0 <= a < t2.spawn.len() && 0 <= b < t2.spawn.len() && a != b
            implies t2.spawn[a] != t2.spawn[b] by {
            if a < t.spawn.len() && b < t.spawn.len() {
                assert(t.spawn[a] != t.spawn[b]);
            } else if a < t.spawn.len() {
                assert(t.world.dom().contains(t.spawn[a]));
            } else if b < t.spawn.len() {
                assert(t.world.dom().contains(t.spawn[b]));
            }
        }
        assert forall|i: int| 0 <= i < t2.spawn.len() implies !w.dom().contains(
            #[trigger] t2.spawn[i],
        ) && t2.world.dom().contains(t2.spawn[i]) by {
            if i < t.spawn.len() {
                assert(t2.spawn[i] == t.spawn[i]);
            } else {
                assert(t2.spawn[i] == k);
                if w.dom().contains(k) {
                    assert(t.world.dom().contains(k));
                }
            }
        }
    }
}

/// Answering a sequence of cells keeps `chunkgen_inv`, keeps every chunk of
/// the table, and leaves the chunk of every answered cell in the table.
pub proof fn lemma_cells_keep_inv(
    w: Map<ChunkCoord, Chunk>,
    p: Set<ChunkCoord>,
    t: ChunkgenTrace,
    cells: Seq<NeoUVec3>,
)
    requires
        chunkgen_inv(w, p, t),
    ensures
        chunkgen_inv(w, p, chunkgen_cells(t, cells)),
        forall|i: int| 0 <= i < cells.len() ==> chunkgen_cells(t, cells).world.dom().contains(
            chunk_of(#[trigger] cells[i]),
        ),
        forall|k: ChunkCoord| #[trigger] t.world.dom().contains(k) ==> chunkgen_cells(
            t,
            cells,
        ).world.dom().contains(k),
    decreases cells.len(),
{
    if cells.len() > 0 {
        let prefix = cells.drop_last();
        lemma_cells_keep_inv(w, p, t, prefix);
        let tp = chunkgen_cells(t, prefix);
        lemma_step_keeps_inv(w, p, tp, cells.last());
        assert forall|i: int| 0 <= i < cells.len() implies chunkgen_cells(
            t,
            cells,
        ).world.dom().contains(chunk_of(#[trigger] cells[i])) by {
            if i < cells.len() - 1 {
                assert(prefix[i] == cells[i]);
                assert(tp.world.dom().contains(chunk_of(prefix[i])));
            }
        }
    }
}

/// Answering a frame's requests keeps `chunkgen_inv` and keeps every chunk
/// of the table.
pub proof fn lemma_requests_keep_inv(
    w: Map<ChunkCoord, Chunk>,
    p: Set<ChunkCoord>,
    t: ChunkgenTrace,
    reqs: Seq<CellsRequest>,
)
    requires
        chunkgen_inv(w, p, t),
    ensures
        chunkgen_inv(w, p, chunkgen_requests(t, reqs)),
        forall|k: ChunkCoord| #[trigger] t.world.dom().contains(k) ==> chunkgen_requests(
            t,
            reqs,
        ).world.dom().contains(k),
        forall|r: int, i: int|
            0 <= r < reqs.len() && 0 <= i < reqs[r].0@.len() ==> chunkgen_requests(
                t,
                reqs,
            ).world.dom().contains(chunk_of(#[trigger] reqs[r].0@[i])),
    decreases reqs.len(),
{
    if reqs.len() > 0 {
        let prefix = reqs.drop_last();
        lemma_requests_keep_inv(w, p, t, prefix);
        let tp = chunkgen_requests(t, prefix);
        lemma_cells_keep_inv(w, p, tp, reqs.last().0@);
        assert forall|r: int, i: int|
            0 <= r < reqs.len() && 0 <= i < reqs[r].0@.len() implies chunkgen_requests(
            t,
            reqs,
        ).world.dom().contains(chunk_of(#[trigger] reqs[r].0@[i])) by {
            if r < reqs.len() - 1 {
                assert(prefix[r] == reqs[r]);
                assert(tp.world.dom().contains(chunk_of(prefix[r].0@[i])));
            }
        }
    }
}

/// Answering a frame's cell requests, from a consistent table:
/// the table stays consistent; every chunk it held is kept unchanged; every
/// chunk added is `Loading` with its generation in flight; the chunks to
/// generate are listed once each, only chunks that were absent; and the
/// chunk of every requested cell is in the table afterwards.
pub proof fn law_chunkgen_requests(
    w: Map<ChunkCoord, Chunk>,
    p: Set<ChunkCoord>,
    reqs: Seq<CellsRequest>,
)
    requires
        table_wf(w, p),
    ensures
        ({
            let t = chunkgen_requests(chunkgen_start(w, p), reqs);
            &&& table_wf(t.world, t.pending)
            &&& forall|k: ChunkCoord| #[trigger] w.dom().contains(k) ==> t.world.dom().contains(k)
                && t.world[k] == w[k]
            &&& forall|k: ChunkCoord| #[trigger] t.world.dom().contains(k) && !w.dom().contains(k)
                ==> t.spawn.contains(k) && t.world[k] == Chunk::loading_spec()
                && t.pending.contains(k)
            &&& t.spawn.no_duplicates()
            &&& forall|i: int| 0 <= i < t.spawn.len() ==> !w.dom().contains(#[trigger] t.spawn[i])
                && t.world.dom().contains(t.spawn[i])
            &&& forall|r: int, i: int|
                0 <= r < reqs.len() && 0 <= i < reqs[r].0@.len() ==> t.world.dom().contains(
                    chunk_of(#[trigger] reqs[r].0@[i]),
                )
        }),
{
    let t0 = chunkgen_start(w, p);
    assert(chunkgen_inv(w, p, t0));
    lemma_requests_keep_inv(w, p, t0, reqs);
}

/// Read after store: once the bricks of a chunk whose generation was in
/// flight are stored, a request for any cell of that chunk is answered with
/// the stored brick at that cell's place in the chunk, under the cell's
/// index, and nothing else is answered, noted or generated.
pub proof fn law_stored_chunk_answers(
    w: Map<ChunkCoord, Chunk>,
    p: Set<ChunkCoord>,
    k: ChunkCoord,
    bricks: Vec<BrickMap>,
    cell: NeoUVec3,
)
    requires
        table_wf(w, p),
        p.contains(k),
        bricks@.len() == CHUNK_BRICKS,
        16 * k.0 <= cell.x < 16 * k.0 + 16,
        16 * k.1 <= cell.y < 16 * k.1 + 16,
        16 * k.2 <= cell.z < 16 * k.2 + 16,
    ensures
        ({
            let w2 = w.insert(k, generated_chunk(bricks, w[k].version));
            let t = chunkgen_cells(chunkgen_start(w2, p.remove(k)), seq![cell]);
            let b = (cell.x % 16) * 256 + (cell.y % 16) * 16 + cell.z % 16;
            let id = (cell.x * 256 + cell.y * 16 + cell.z) % 0x1_0000_0000;
            &&& t.response.len() == 1
            &&& t.response[0].0 == Some(bricks@[b])
            &&& t.response[0].1 as int == id
            &&& t.world == w2
            &&& t.spawn.len() == 0
            &&& t.notices.len() == 0
        }),
{
    lemma_store_keeps_wf(w, p, k, bricks);
    crate::world::law_cell_in_its_chunk(cell);
    crate::world::law_brick_offset_in_chunk(cell);
    crate::world::law_cell_index_value(cell);
    assert(chunk_of(cell) == k);
    let w2 = w.insert(k, generated_chunk(bricks, w[k].version));
    let t0 = chunkgen_start(w2, p.remove(k));
    let one = seq![cell];
    assert(one.drop_last() =~= Seq::<NeoUVec3>::empty());
    assert(chunkgen_cells(t0, one.drop_last()) == t0);
    let t1 = chunkgen_step(t0, cell);
    assert(chunkgen_cells(t0, one) == t1);
    assert(w2.dom().contains(k) && w2[k].state == ChunkState::Loaded);
    assert(t1.response =~= seq![(Some(bricks@[local_brick_index(cell)]), cell_id(cell))]);
}

/// A request for a cell whose chunk is absent and has no generation in
/// flight adds the chunk as `Loading`, starts its generation, and answers
/// nothing; asking for the same cell again at once starts nothing more.
pub proof fn law_missing_chunk_generated_once(
    w: Map<ChunkCoord, Chunk>,
    p: Set<ChunkCoord>,
    cell: NeoUVec3,
)
    requires
        table_wf(w, p),
        !w.dom().contains(chunk_of(cell)),
    ensures
        ({
            let t = chunkgen_cells(chunkgen_start(w, p), seq![cell, cell]);
            &&& t.spawn == seq![chunk_of(cell)]
            &&& t.world == w.insert(chunk_of(cell), Chunk::loading_spec())
            &&& t.pending == p.insert(chunk_of(cell))
            &&& t.response.len() == 0
            &&& t.notices == seq![(chunk_of(cell), ChunkState::Loading)]
        }),
{
    let k = chunk_of(cell);
    assert(!p.contains(k));
    let t0 = chunkgen_start(w, p);
    let one = seq![cell];
    let two = seq![cell, cell];
    assert(one.drop_last() =~= Seq::<NeoUVec3>::empty());
    assert(two.drop_last() =~= one);
    assert(chunkgen_cells(t0, one.drop_last()) == t0);
    let t1 = chunkgen_step(t0, cell);
    assert(chunkgen_cells(t0, one) == t1);
    let t2 = chunkgen_step(t1, cell);
    assert(chunkgen_cells(t0, two) == t2);
    assert(t1.world.dom().contains(k));
    assert(t1.world[k].state == ChunkState::Loading);
    assert(t2.spawn =~= seq![k]);
    assert(t2.notices =~= seq![(k, ChunkState::Loading)]);
}

} // verus!
