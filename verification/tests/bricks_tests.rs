use voxel::bricks::{BrickMap, Brickmap, BRICK_VOXELS};
use voxel::gpu_types::{Comando, InitData, NeoUVec3, NeoUVec4};

#[test]
fn brick_default_is_empty() {
    let b = BrickMap::default();
    assert_eq!(b.datos, [0u32; 16]);
    for i in 0..BRICK_VOXELS {
        assert!(!b.get(i));
    }
}

#[test]
fn brick_set_uses_msb0_order() {
    let mut b = BrickMap::default();
    b.set(0, true);
    assert_eq!(b.datos[0], 0x8000_0000);
    b.set(31, true);
    assert_eq!(b.datos[0], 0x8000_0001);
    b.set(32, true);
    assert_eq!(b.datos[1], 0x8000_0000);
    b.set(511, true);
    assert_eq!(b.datos[15], 0x0000_0001);
    assert!(b.get(0) && b.get(31) && b.get(32) && b.get(511));
    assert!(!b.get(1) && !b.get(30) && !b.get(33) && !b.get(510));
}

#[test]
fn brick_read_after_write() {
    let mut b = BrickMap::default();
    b.set(100, true);
    assert!(b.get(100));
    b.set(101, true);
    b.set(100, false);
    assert!(!b.get(100));
    assert!(b.get(101));
    assert_eq!(b.datos[3], 1u32 << (31 - 5));
}

#[test]
fn brick_to_gpu_keeps_words() {
    let mut b = BrickMap::default();
    b.set(7, true);
    b.set(300, true);
    let g = Brickmap::cpu_to_gpu(b);
    assert_eq!(g.datos, b.datos);
    assert_eq!(Brickmap::default().datos, [0u32; 16]);
}

#[test]
fn gpu_type_defaults() {
    let v = NeoUVec3::default();
    assert_eq!((v.x, v.y, v.z), (0, 0, 0));
    let w = NeoUVec4::default();
    assert_eq!((w.x, w.y, w.z, w.w), (0, 0, 0, 0));
    let c = Comando::default();
    assert_eq!(c.allocar.bm_idx, 0);
    assert_eq!(c.allocar.bm_buffer_idx, 0);
    assert_eq!(c.deallocar, 0);
    assert_eq!(c.datos.datos, [0u32; 16]);
    assert_eq!(c.com, 0);
}

#[test]
fn init_data_for_render_target() {
    let d = InitData::for_render_target((512, 512));
    assert_eq!(d.imagen_height, 8);
    assert_eq!(d.imagen_width, 8);
    assert_eq!(d.feedback_buffer_size, 256);
    assert_eq!((d.world_size_x, d.world_size_y, d.world_size_z), (256, 256, 256));
    let e = InitData::for_render_target((640, 130));
    assert_eq!(e.imagen_height, 10);
    assert_eq!(e.imagen_width, 2);
}
