use voxel::image::{test_brickgrid, vec32_to_imagedata};
use voxel::render_setup::{initial_render_buffers, BRICKGRID_CELLS, DEF_BRICKGRID_CELL};

#[test]
fn pixel_words_become_big_endian_bytes() {
    let bytes = vec32_to_imagedata(&vec![0x1122_3344, 0xAABB_CCDD]);
    assert_eq!(bytes, vec![0x11, 0x22, 0x33, 0x44, 0xAA, 0xBB, 0xCC, 0xDD]);
    assert!(vec32_to_imagedata(&vec![]).is_empty());
}

#[test]
fn pixel_bytes_give_words_back() {
    let words = vec![0u32, 1, 0xFFFF_FFFF, 0x8000_0001, 0x00FF_FF00];
    let bytes = vec32_to_imagedata(&words);
    assert_eq!(bytes.len(), 4 * words.len());
    for (i, w) in words.iter().enumerate() {
        let b = &bytes[4 * i..4 * i + 4];
        let back = (b[0] as u32) << 24 | (b[1] as u32) << 16 | (b[2] as u32) << 8 | b[3] as u32;
        assert_eq!(back, *w);
    }
}

#[test]
fn test_grid_pattern() {
    let (w0, w1, w2) = (52u32, 121u32, 122u32);
    let grid = test_brickgrid((w0, w1, w2));
    assert_eq!(grid.len(), (w0 * w1 * w2) as usize);
    let at = |z: u32, y: u32, x: u32| grid[((z * w1 + y) * w2 + x) as usize];
    assert_eq!(at(50, 11, 11), 0xff0000ff);
    assert_eq!(at(50, 119, 119), 0xff0000ff);
    assert_eq!(at(50, 10, 11), 0);
    assert_eq!(at(50, 120, 11), 0);
    assert_eq!(at(50, 11, 120), 0);
    assert_eq!(at(49, 50, 50), 0);
    assert_eq!(at(51, 50, 50), 0);
    assert_eq!(grid.iter().filter(|v| **v == 0xff0000ff).count(), 109 * 109);
    assert!(test_brickgrid((3, 0, 5)).is_empty());
}

#[test]
fn render_buffers_start_blank() {
    let b = initial_render_buffers((512, 512));
    assert_eq!(b.imagen.len(), 512 * 512);
    assert!(b.imagen.iter().all(|p| *p == 0));
    assert_eq!(b.brickgrid.len(), BRICKGRID_CELLS);
    assert_eq!(b.brickgrid[0], DEF_BRICKGRID_CELL);
    assert_eq!(b.brickgrid[BRICKGRID_CELLS - 1], 0x355f9502);
    assert_eq!(b.brickmap_data.len(), 100000);
    assert_eq!(b.brickmap_data[99999].datos, [0u32; 16]);
    assert_eq!(b.feedback.len(), 256);
    assert_eq!((b.feedback[255].x, b.feedback[255].y, b.feedback[255].z), (0, 0, 0));
    assert_eq!(b.commands_pool.len(), 512);
    assert_eq!(b.commands_pool[511].com, 0);
}
