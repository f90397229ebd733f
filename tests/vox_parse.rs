use raytracer::vox::{is_vox, parse_voxels};

fn le(v: u32) -> [u8; 4] {
    v.to_le_bytes()
}

fn vox_file(size: (u32, u32, u32), voxels: &[[u8; 4]]) -> Vec<u8> {
    let mut b = Vec::new();
    b.extend_from_slice(b"VOX ");
    b.extend_from_slice(&le(150));
    b.extend_from_slice(b"MAIN");
    b.extend_from_slice(&le(0));
    b.extend_from_slice(&le(0));
    b.extend_from_slice(b"SIZE");
    b.extend_from_slice(&le(12));
    b.extend_from_slice(&le(0));
    b.extend_from_slice(&le(size.0));
    b.extend_from_slice(&le(size.1));
    b.extend_from_slice(&le(size.2));
    b.extend_from_slice(b"XYZI");
    b.extend_from_slice(&le(4 + 4 * voxels.len() as u32));
    b.extend_from_slice(&le(0));
    b.extend_from_slice(&le(voxels.len() as u32));
    for v in voxels {
        b.extend_from_slice(v);
    }
    b
}

#[test]
fn reads_grid_and_marks_listed_cells() {
    let bytes = vox_file((2, 3, 4), &[[1, 2, 3, 7], [0, 0, 0, 1]]);
    assert!(is_vox(&bytes));
    let v = parse_voxels(&bytes);
    assert_eq!((v.width, v.height, v.depth), (2, 3, 4));
    assert_eq!(v.data.len(), 24);
    assert!(v.get(1, 2, 3));
    assert!(v.get(0, 0, 0));
    assert!(!v.get(1, 0, 0));
    assert!(!v.get(0, 2, 3));
    assert_eq!(v.data.iter().filter(|c| **c).count(), 2);
    assert!(v.data[3 * 2 * 3 + 2 * 2 + 1]);
}

#[test]
fn set_marks_one_cell() {
    let bytes = vox_file((2, 2, 2), &[]);
    let mut v = parse_voxels(&bytes);
    assert_eq!(v.data.iter().filter(|c| **c).count(), 0);
    v.set(1, 1, 0);
    assert!(v.get(1, 1, 0));
    assert_eq!(v.data.iter().filter(|c| **c).count(), 1);
}

#[test]
fn rejects_voxel_outside_grid() {
    let bytes = vox_file((2, 2, 2), &[[2, 0, 0, 1]]);
    assert!(!is_vox(&bytes));
}

#[test]
fn rejects_bad_magic_and_version() {
    let mut bytes = vox_file((1, 1, 1), &[[0, 0, 0, 1]]);
    bytes[0] = b'W';
    assert!(!is_vox(&bytes));
    let mut bytes = vox_file((1, 1, 1), &[[0, 0, 0, 1]]);
    bytes[4] = 151;
    assert!(!is_vox(&bytes));
    let mut bytes = vox_file((1, 1, 1), &[[0, 0, 0, 1]]);
    bytes[44] = b'Q';
    assert!(!is_vox(&bytes));
}

#[test]
fn rejects_truncated_file() {
    let bytes = vox_file((1, 1, 1), &[[0, 0, 0, 1]]);
    assert!(!is_vox(&bytes[..bytes.len() - 1]));
    assert!(!is_vox(&bytes[..30]));
    assert!(!is_vox(&[]));
}

#[test]
fn empty_grid() {
    let bytes = vox_file((0, 5, 5), &[]);
    let v = parse_voxels(&bytes);
    assert_eq!(v.data.len(), 0);
}
