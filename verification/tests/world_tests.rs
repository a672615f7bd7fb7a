use voxel::gpu_types::NeoUVec3;
use voxel::world::{
    brick_index_in_chunk, cell_index, chunk_coord_of, feedback_chunkgen_system, generate_chunk,
    store_generated_chunk, CellsRequest, ChunkGenerationTasks, ChunkState, VoxelWorld,
    CHUNK_BRICKS,
};

fn cell(x: u32, y: u32, z: u32) -> NeoUVec3 {
    NeoUVec3 { x, y, z }
}

#[test]
fn cell_coordinates() {
    let c = cell(17, 33, 5);
    assert_eq!(chunk_coord_of(&c), (1, 2, 0));
    assert_eq!(brick_index_in_chunk(&c), (1 * 16 + 1) * 16 + 5);
    assert_eq!(cell_index(&c), 17 * 256 + 33 * 16 + 5);
    assert_eq!(brick_index_in_chunk(&cell(15, 15, 15)), 4095);
}

#[test]
fn cell_index_wraps() {
    let c = cell(u32::MAX, 1, 2);
    let expected = ((u32::MAX as u64) * 256 + 16 + 2) % (1u64 << 32);
    assert_eq!(cell_index(&c) as u64, expected);
}

#[test]
fn generated_chunk_is_full() {
    let bricks = generate_chunk();
    assert_eq!(bricks.len(), CHUNK_BRICKS);
    for b in &bricks {
        assert_eq!(b.datos, [0xFFFF_FFFFu32; 16]);
    }
}

#[test]
fn missing_chunk_starts_generation_once() {
    let mut world = VoxelWorld::new();
    let mut tasks = ChunkGenerationTasks::new();
    let reqs = vec![CellsRequest(vec![cell(20, 3, 40), cell(21, 4, 41)])];
    let out = feedback_chunkgen_system(&mut world, &mut tasks, &reqs);
    assert!(out.response.is_none());
    assert_eq!(out.spawn, vec![(1, 0, 2)]);
    assert_eq!(out.notices, vec![((1, 0, 2), ChunkState::Loading)]);
    assert_eq!(world.chunk_state((1, 0, 2)), Some(ChunkState::Loading));
    assert!(tasks.is_generating((1, 0, 2)));
    assert_eq!(world.chunk_state((0, 0, 0)), None);
    assert!(!tasks.is_generating((0, 0, 0)));

    let again = feedback_chunkgen_system(&mut world, &mut tasks, &reqs);
    assert!(again.response.is_none());
    assert!(again.spawn.is_empty());
    assert_eq!(again.notices.len(), 2);
}

#[test]
fn stored_chunk_answers_requests() {
    let mut world = VoxelWorld::new();
    let mut tasks = ChunkGenerationTasks::new();
    let c = cell(18, 2, 35);
    let reqs = vec![CellsRequest(vec![c])];
    let first = feedback_chunkgen_system(&mut world, &mut tasks, &reqs);
    assert_eq!(first.spawn, vec![(1, 0, 2)]);

    let bricks = generate_chunk();
    store_generated_chunk(&mut world, &mut tasks, (1, 0, 2), bricks);
    assert_eq!(world.chunk_state((1, 0, 2)), Some(ChunkState::Loaded));
    assert!(!tasks.is_generating((1, 0, 2)));

    let two = vec![CellsRequest(vec![c]), CellsRequest(vec![cell(0, 0, 0), c])];
    let out = feedback_chunkgen_system(&mut world, &mut tasks, &two);
    let resp = out.response.expect("bricks of a loaded chunk are answered");
    assert_eq!(resp.0.len(), 2);
    for (brick, id) in &resp.0 {
        assert_eq!(*id, 18 * 256 + 2 * 16 + 35);
        assert_eq!(brick.expect("a stored brick").datos, [0xFFFF_FFFFu32; 16]);
    }
    assert_eq!(out.spawn, vec![(0, 0, 0)]);
    assert!(out.notices.is_empty());
}
