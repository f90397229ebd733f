use raytracer::tga::{encode_tga, tga_header, u16_to_bytes};

#[test]
fn u16_bytes_low_first() {
    assert_eq!(u16_to_bytes(0x1234), [0x34, 0x12]);
    assert_eq!(u16_to_bytes(0), [0, 0]);
    assert_eq!(u16_to_bytes(65535), [255, 255]);
}

#[test]
fn header_layout() {
    assert_eq!(
        tga_header(640, 480),
        vec![0, 0, 2, 0, 0, 0, 0, 0, 0, 0, 0, 0, 128, 2, 224, 1, 24, 0]
    );
}

#[test]
fn image_is_header_then_pixels() {
    let pixels = [1u8, 2, 3, 4, 5, 6];
    let file = encode_tga(2, 1, &pixels);
    assert_eq!(file.len(), 24);
    assert_eq!(&file[..18], &tga_header(2, 1)[..]);
    assert_eq!(&file[18..], &pixels[..]);
}
