//! Conversion of palette-indexed images to RGBA.

use vstd::prelude::*;

verus! {

/// The RGBA pixel for palette index `i`: index 0xFF is transparent black, any other takes its
/// color from the palette and is opaque.
pub open spec fn rgba_of(palette: Seq<u8>, i: u8) -> Seq<u8> {
    if i == 0xFF {
        seq![0u8, 0u8, 0u8, 0u8]
    } else {
        seq![palette[3 * i], palette[3 * i + 1], palette[3 * i + 2], 0xFFu8]
    }
}

/// The RGBA pixels for a sequence of palette indices.
pub open spec fn rgba_pixels(palette: Seq<u8>, indices: Seq<u8>) -> Seq<u8>
    decreases indices.len(),
{
    if indices.len() == 0 {
        Seq::empty()
    } else {
        rgba_pixels(palette, indices.drop_last()) + rgba_of(palette, indices.last())
    }
}

/// Converts palette indices to RGBA pixels, four bytes each, with the given palette of 256
/// colors of three bytes.
pub fn indexed_to_rgba(palette: &[u8; 768], indices: &[u8]) -> (r: Vec<u8>)
    ensures
        r@ == rgba_pixels(palette@, indices@),
{
    let mut rgba: Vec<u8> = Vec::new();
    let mut i: usize = 0;
    while i < indices.len()
        invariant
            i <= indices.len(),
            rgba@ == rgba_pixels(palette@, indices@.take(i as int)),
        decreases indices.len() - i,
    {
        let x = indices[i];
        let ghost before = rgba@;
        if x != 0xFF {
            let base = 3 * (x as usize);
            rgba.push(palette[base]);
            rgba.push(palette[base + 1]);
            rgba.push(palette[base + 2]);
            rgba.push(0xFF);
        } else {
            rgba.push(0);
            rgba.push(0);
            rgba.push(0);
            rgba.push(0);
        }
        proof {
            let t = indices@.take(i + 1);
            assert(t.drop_last() =~= indices@.take(i as int));
            assert(t.last() == x);
            assert(rgba@ =~= before + rgba_of(palette@, x));
        }
        i = i + 1;
    }
    assert(indices@.take(indices.len() as int) =~= indices@);
    rgba
}

} // verus!
