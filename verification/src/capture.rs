//! Frame buffers: packing padded pixel rows into tight RGBA rows.
use vstd::prelude::*;

verus! {

/// A captured game frame, PNG-encoded.
#[derive(Debug, Clone)]
pub struct CapturedImage {
    pub width: u32,
    pub height: u32,
    pub png_bytes: Vec<u8>,
}

/// The tight pixels of a padded buffer: row `y` is bytes
/// `y * pitch .. y * pitch + width * 4` of the raw buffer.
pub open spec fn tight_rows(raw: Seq<u8>, row_bytes: nat, height: nat, pitch: nat) -> Seq<u8>
    decreases height,
{
    if height == 0 {
        Seq::empty()
    } else {
        let y = (height - 1) as nat;
        tight_rows(raw, row_bytes, y, pitch) + raw.subrange((y * pitch) as int, (y * pitch + row_bytes) as int)
    }
}

/// Copies the `width * 4` pixel bytes of each of `height` rows out of a
/// buffer whose rows are `row_pitch` bytes apart.
pub fn pack_rows(raw: &[u8], width: usize, height: usize, row_pitch: usize) -> (pixels: Vec<u8>)
    requires
        width * 4 <= row_pitch,
        row_pitch * height <= raw@.len(),
    ensures
        pixels@ == tight_rows(raw@, (width * 4) as nat, height as nat, row_pitch as nat),
        pixels@.len() == width * 4 * height,
{
    let n = raw.len();
    let row_bytes = width * 4;
    let mut pixels: Vec<u8> = Vec::new();
    let mut y: usize = 0;
    while y < height
        invariant
            y <= height,
            row_bytes == width * 4,
            row_bytes <= row_pitch,
            row_pitch * height <= raw@.len(),
            raw@.len() == n,
            pixels@ == tight_rows(raw@, row_bytes as nat, y as nat, row_pitch as nat),
            pixels@.len() == row_bytes * y,
        decreases height - y,
    {
        assert(y * row_pitch + row_pitch <= row_pitch * height) by (nonlinear_arith)
            requires
                y < height,
        ;
        let start = y * row_pitch;
        let end = start + row_bytes;
        let ghost before = pixels@;
        let mut i = start;
        while i < end
            invariant
                start <= i <= end,
                end <= raw@.len(),
                pixels@ == before + raw@.subrange(start as int, i as int),
            decreases end - i,
        {
            pixels.push(raw[i]);
            assert(before + raw@.subrange(start as int, i + 1) =~= (before + raw@.subrange(start as int, i as int)).push(
                raw@[i as int],
            ));
            i += 1;
        }
        assert(row_bytes * (y + 1) == row_bytes * y + row_bytes) by (nonlinear_arith);
        y += 1;
    }
    pixels
}

} // verus!
