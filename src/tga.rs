use vstd::prelude::*;

verus! {

/// The 18-byte header of an uncompressed 24-bit true-colour Targa image:
/// no image id, no colour map, image type 2, origin (0, 0), the size as
/// little-endian 16-bit numbers, 24 bits per pixel, descriptor 0.
pub open spec fn tga_header_spec(width: u16, height: u16) -> Seq<u8> {
    seq![
        0u8,
        0u8,
        2u8,
        0u8,
        0u8,
        0u8,
        0u8,
        0u8,
        0u8,
        0u8,
        0u8,
        0u8,
        (width % 256) as u8,
        (width / 256) as u8,
        (height % 256) as u8,
        (height / 256) as u8,
        24u8,
        0u8,
    ]
}

/// A 16-bit number as two bytes, low byte first.
pub fn u16_to_bytes(v: u16) -> (r: [u8; 2])
    ensures
        r@ == seq![(v % 256) as u8, (v / 256) as u8],
{
    let r = [(v % 256) as u8, (v / 256) as u8];
    assert(r@ =~= seq![(v % 256) as u8, (v / 256) as u8]);
    r
}

fn push_u16(out: &mut Vec<u8>, v: u16)
    ensures
        final(out)@ == old(out)@ + seq![(v % 256) as u8, (v / 256) as u8],
{
    let b = u16_to_bytes(v);
    out.push(b[0]);
    out.push(b[1]);
    assert(final(out)@ =~= old(out)@ + seq![(v % 256) as u8, (v / 256) as u8]);
}

/// The header of an image of the given size.
pub fn tga_header(width: u16, height: u16) -> (r: Vec<u8>)
    ensures
        r@ == tga_header_spec(width, height),
{
    let mut out: Vec<u8> = Vec::new();
    // no image id, no colour map, raw true-colour image
    out.push(0);
    out.push(0);
    out.push(2);
    // colour map origin, length and entry size
    push_u16(&mut out, 0);
    push_u16(&mut out, 0);
    out.push(0);
    // image origin
    push_u16(&mut out, 0);
    push_u16(&mut out, 0);
    push_u16(&mut out, width);
    push_u16(&mut out, height);
    // bits per pixel, image descriptor
    out.push(24);
    out.push(0);
    assert(out@ =~= tga_header_spec(width, height));
    out
}

/// A whole image file: the header, then the pixel bytes (blue, green, red
/// for each pixel, row by row) as given.
pub fn encode_tga(width: u16, height: u16, pixels: &[u8]) -> (r: Vec<u8>)
    ensures
        r@ == tga_header_spec(width, height) + pixels@,
{
    let mut out = tga_header(width, height);
    let mut i: usize = 0;
    while i < pixels.len()
        invariant
            i <= pixels@.len(),
            out@ == tga_header_spec(width, height) + pixels@.subrange(0, i as int),
        decreases pixels.len() - i,
    {
        out.push(pixels[i]);
        assert(out@ =~= tga_header_spec(width, height) + pixels@.subrange(0, i + 1));
        i = i + 1;
    }
    assert(pixels@.subrange(0, i as int) =~= pixels@);
    out
}

} // verus!
