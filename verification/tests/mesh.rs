use interact::mesh::{pack_snorm_bytes, plane_indices, quad_face_indices, sphere_indices, star_indices, torus_indices};

#[test]
fn sphere_indices_small() {
    // lat = 1, lon = 2: vertex rows of width 3.
    assert_eq!(sphere_indices(1, 2), vec![0, 1, 3, 3, 1, 4, 1, 2, 4, 4, 2, 5]);
}

#[test]
fn sphere_indices_of_the_scene_spheres() {
    let idx = sphere_indices(24, 48);
    assert_eq!(idx.len(), 24 * 48 * 6);
    assert!(idx.iter().all(|&i| i < 25 * 49));
    assert_eq!(*idx.iter().max().unwrap(), 25 * 49 - 1);
    let idx = sphere_indices(8, 16);
    assert_eq!(idx.len(), 8 * 16 * 6);
    assert!(idx.iter().all(|&i| i < 9 * 17));
}

#[test]
fn plane_indices_of_the_ground() {
    let idx = plane_indices(2);
    assert_eq!(idx.len(), 24);
    assert_eq!(&idx[..6], &[0, 3, 1, 3, 4, 1]);
    assert_eq!(&idx[18..], &[4, 7, 5, 7, 8, 5]);
    assert!(idx.iter().all(|&i| i < 9));
}

#[test]
fn empty_grids_have_no_indices() {
    assert!(sphere_indices(0, 5).is_empty());
    assert!(sphere_indices(5, 0).is_empty());
    assert!(plane_indices(0).is_empty());
    assert!(torus_indices(0, 4).is_empty());
    assert!(torus_indices(4, 0).is_empty());
    assert!(star_indices(0).is_empty());
    assert!(quad_face_indices(0).is_empty());
}

#[test]
fn torus_indices_wrap_around() {
    let idx = torus_indices(2, 2);
    assert_eq!(
        idx,
        vec![0, 1, 2, 2, 1, 3, 1, 0, 3, 3, 0, 2, 2, 3, 0, 0, 3, 1, 3, 2, 1, 1, 2, 0]
    );
    let idx = torus_indices(48, 24);
    assert_eq!(idx.len(), 48 * 24 * 6);
    assert!(idx.iter().all(|&i| i < 48 * 24));
}

#[test]
fn cube_and_room_faces() {
    let cube = quad_face_indices(6);
    assert_eq!(cube.len(), 36);
    assert_eq!(&cube[..6], &[0, 1, 2, 0, 2, 3]);
    assert_eq!(&cube[30..], &[20, 21, 22, 20, 22, 23]);
    let room = quad_face_indices(5);
    assert_eq!(room.len(), 30);
    assert!(room.iter().all(|&i| i < 20));
}

#[test]
fn star_indices_five_points() {
    let idx = star_indices(5);
    let n = 10u32;
    assert_eq!(idx.len(), 12 * 10);
    // top fan
    assert_eq!(&idx[..3], &[0, 1, 2]);
    assert_eq!(&idx[27..30], &[0, 10, 1]);
    // bottom fan, reversed winding, base 11
    assert_eq!(&idx[30..33], &[11, 13, 12]);
    assert_eq!(&idx[57..60], &[11, 12, 21]);
    // first side wall quad starts after 22 cap vertices
    assert_eq!(&idx[60..66], &[22, 23, 24, 22, 24, 25]);
    assert_eq!(&idx[114..], &[58, 59, 60, 58, 60, 61]);
    assert!(idx.iter().all(|&i| i < 2 + 6 * n));
}

#[test]
fn pack_snorm_bytes_little_endian() {
    assert_eq!(pack_snorm_bytes(0x01, 0x02, 0x03), 0x7f03_0201);
    // normal (0, 1, 0): x = 0, y = 127, z = 0
    assert_eq!(pack_snorm_bytes(0, 127, 0), 0x7f00_7f00);
    // -1 quantises to -127 = 0x81
    assert_eq!(pack_snorm_bytes((-127i8) as u8, 0, 0), 0x7f00_0081);
    let w = pack_snorm_bytes(200, 17, 255);
    assert_eq!(w.to_le_bytes(), [200, 17, 255, 127]);
}
