use voxel::bricks::BrickMap;
use voxel::gpu_types::{BMAlloc, Comando, OBJECT_POOL_MAX_SIZE};
use voxel::pool::{cell_receiver_allocator, resource_to_buffer, CommandBuffer, ObjectPool};
use voxel::world::CellsResponse;

fn brick(i: usize) -> BrickMap {
    let mut b = BrickMap::default();
    b.set(i, true);
    b
}

#[test]
fn empty_cell_gets_empty_command() {
    let mut pool = ObjectPool::new();
    let mut cb = CommandBuffer::new();
    cell_receiver_allocator(&vec![CellsResponse(vec![(None, 42)])], &mut cb, &mut pool);
    assert_eq!(cb.comandos.len(), 1);
    let c = cb.comandos[0];
    assert_eq!((c.allocar.bm_idx, c.allocar.bm_buffer_idx, c.deallocar, c.com), (42, 0, 42, 0));
    assert_eq!(c.datos.datos, [0u32; 16]);
    assert!(pool.data.is_empty());
    assert_eq!(pool.indice, 0);
}

#[test]
fn bricks_are_appended_while_pool_not_full() {
    let mut pool = ObjectPool::new();
    let mut cb = CommandBuffer::new();
    let resps = vec![
        CellsResponse(vec![(Some(brick(0)), 10), (None, 11)]),
        CellsResponse(vec![(Some(brick(1)), 12)]),
    ];
    cell_receiver_allocator(&resps, &mut cb, &mut pool);
    assert_eq!(pool.indice, 2);
    assert_eq!(pool.data.len(), 2);
    assert_eq!((pool.data[0].bm_idx, pool.data[0].bm_buffer_idx), (10, 0));
    assert_eq!((pool.data[1].bm_idx, pool.data[1].bm_buffer_idx), (12, 1));
    assert_eq!(cb.comandos.len(), 3);
    let c0 = cb.comandos[0];
    assert_eq!((c0.allocar.bm_idx, c0.allocar.bm_buffer_idx, c0.deallocar, c0.com), (10, 0, 10, 1));
    assert_eq!(c0.datos.datos, brick(0).datos);
    assert_eq!(cb.comandos[1].com, 0);
    let c2 = cb.comandos[2];
    assert_eq!((c2.allocar.bm_idx, c2.allocar.bm_buffer_idx, c2.deallocar, c2.com), (12, 1, 12, 1));

    cell_receiver_allocator(&vec![], &mut cb, &mut pool);
    assert!(cb.comandos.is_empty());
    assert_eq!(pool.data.len(), 2);
}

fn full_pool(indice: u32) -> ObjectPool {
    let mut data = Vec::new();
    for i in 0..(OBJECT_POOL_MAX_SIZE - 1) as u32 {
        data.push(BMAlloc { bm_idx: 1000 + i, bm_buffer_idx: i });
    }
    ObjectPool { data, indice }
}

#[test]
fn full_pool_replaces_slot_under_cursor() {
    let mut pool = full_pool(5);
    let mut cb = CommandBuffer::new();
    cell_receiver_allocator(&vec![CellsResponse(vec![(Some(brick(3)), 77)])], &mut cb, &mut pool);
    assert_eq!(pool.data.len(), OBJECT_POOL_MAX_SIZE - 1);
    assert_eq!((pool.data[5].bm_idx, pool.data[5].bm_buffer_idx), (77, 5));
    assert_eq!(pool.data[6].bm_idx, 1006);
    assert_eq!(pool.indice, 6);
    let c = cb.comandos[0];
    assert_eq!((c.allocar.bm_idx, c.allocar.bm_buffer_idx, c.deallocar, c.com), (77, 5, 1005, 1));
}

#[test]
fn cursor_wraps_round_the_pool() {
    let last = (OBJECT_POOL_MAX_SIZE - 1) as u32;
    let mut pool = full_pool(last);
    let mut cb = CommandBuffer::new();
    cell_receiver_allocator(&vec![CellsResponse(vec![(Some(brick(4)), 88), (Some(brick(5)), 89)])], &mut cb, &mut pool);
    let c = cb.comandos[0];
    assert_eq!((c.allocar.bm_idx, c.allocar.bm_buffer_idx, c.deallocar), (88, last, 88));
    let d = cb.comandos[1];
    assert_eq!((d.allocar.bm_idx, d.allocar.bm_buffer_idx, d.deallocar), (89, 0, 1000));
    assert_eq!(pool.indice, 1);
    assert_eq!(pool.data.len(), OBJECT_POOL_MAX_SIZE - 1);
    assert_eq!(pool.data[0].bm_idx, 89);
}

fn cmd(i: u32) -> Comando {
    let mut c = Comando::default();
    c.deallocar = i;
    c.com = 1;
    c
}

#[test]
fn commands_are_uploaded_last_first() {
    let cb = CommandBuffer { comandos: vec![cmd(1), cmd(2), cmd(3)] };
    let up = resource_to_buffer(&cb);
    assert_eq!(up.commands_pool.len(), 512);
    assert_eq!(up.commands_pool[0].deallocar, 3);
    assert_eq!(up.commands_pool[1].deallocar, 2);
    assert_eq!(up.commands_pool[2].deallocar, 1);
    assert_eq!(up.commands_pool[3].com, 0);
    assert_eq!(up.commands_pool[511].deallocar, 0);
    assert_eq!(up.command_buffer_size, 3);
    assert!(!up.too_many);
}

#[test]
fn too_many_commands_are_flagged() {
    let cb = CommandBuffer { comandos: (0..255).map(cmd).collect() };
    let up = resource_to_buffer(&cb);
    assert!(up.too_many);
    assert_eq!(up.command_buffer_size, 255);
    assert_eq!(up.commands_pool[0].deallocar, 254);
    assert_eq!(up.commands_pool[254].deallocar, 0);
    assert_eq!(up.commands_pool[254].com, 1);
    assert_eq!(up.commands_pool[255].com, 0);
    let few = CommandBuffer { comandos: (0..254).map(cmd).collect() };
    assert!(!resource_to_buffer(&few).too_many);
}
