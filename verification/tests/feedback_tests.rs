use voxel::feedback::feedback_sender_system;
use voxel::gpu_types::{NeoUVec3, FEEDBACK_BUFFER_SIZE};

fn v(x: u32, y: u32, z: u32) -> NeoUVec3 {
    NeoUVec3 { x, y, z }
}

fn triples(p: &[NeoUVec3]) -> Vec<(u32, u32, u32)> {
    p.iter().map(|c| (c.x, c.y, c.z)).collect()
}

#[test]
fn no_feedback_no_request() {
    let buf = vec![v(1, 2, 3); FEEDBACK_BUFFER_SIZE];
    let mut idx = 0u32;
    assert!(feedback_sender_system(&buf, &mut idx).is_none());
    assert_eq!(idx, 0);
}

#[test]
fn feedback_is_deduplicated_in_order() {
    let mut buf = vec![NeoUVec3::default(); FEEDBACK_BUFFER_SIZE];
    buf[0] = v(1, 1, 1);
    buf[1] = v(2, 2, 2);
    buf[2] = v(1, 1, 1);
    buf[3] = v(3, 3, 3);
    buf[4] = v(2, 2, 2);
    buf[5] = v(9, 9, 9);
    let mut idx = 5u32;
    let req = feedback_sender_system(&buf, &mut idx).expect("cells were reported");
    assert_eq!(triples(&req.0), vec![(1, 1, 1), (2, 2, 2), (3, 3, 3)]);
    assert_eq!(idx, 0);
}

#[test]
fn feedback_cursor_is_capped() {
    let mut buf = Vec::new();
    for i in 0..FEEDBACK_BUFFER_SIZE as u32 {
        buf.push(v(i % 10, 0, 0));
    }
    let mut idx = 1000u32;
    let req = feedback_sender_system(&buf, &mut idx).expect("cells were reported");
    assert_eq!(req.0.len(), 10);
    assert_eq!(req.0[9].x, 9);
    assert_eq!(idx, 0);
}
