//! Laying a palette's RGB triples out as the pixels of a square tile image.
//!
//! A palette of 16 colors becomes a 64x64 image, a palette of 64 colors a
//! 128x128 image; every other length is rejected.  The image is a grid of
//! uniform 16x16 tiles, filled left-to-right, top-to-bottom in palette
//! order, and the finished image is vertically flipped: that orientation is
//! the wire contract with the 3D editors that consume the textures.  This
//! module computes the raw 8-bit RGB pixel bytes; encoding them as a PNG
//! and writing the file are left to the surrounding application.

use vstd::prelude::*;

verus! {

/// A successfully written image, described by a human-readable line.
#[derive(Debug)]
pub enum SaveImageSuccess {
    SaveOk(String),
}

/// Failure to produce an image.
#[derive(Debug)]
pub enum SaveImageError {
    SaveError,
    InvalidInputLength(usize),
}

/// A sequence of RGB triples, one per palette slot.
pub type Colors = Vec<[u8; 3]>;

/// Whether `n` colors can be laid out as a square tile grid.
pub open spec fn accepted_palette_len(n: nat) -> bool {
    n == 16 || n == 64
}

/// The pixel edge length of the image for a palette of `n` colors.
pub open spec fn image_size(n: nat) -> nat
    recommends
        accepted_palette_len(n),
{
    if n == 16 {
        64
    } else {
        128
    }
}

/// The palette slot whose tile covers column `x` of row `y`, for an image
/// of edge length `size`, before the vertical flip.
pub open spec fn tile_index(x: nat, y: nat, size: nat) -> nat {
    (y / 16) * (size / 16) + x / 16
}

/// The byte at offset `k` of the pixel at column `x` of row `y` of the
/// finished (vertically flipped) image.
pub open spec fn flipped_pixel_byte(colors: Seq<[u8; 3]>, size: nat, x: nat, y: nat, k: nat) -> u8
    recommends
        x < size,
        y < size,
        k < 3,
        size == image_size(colors.len()),
        accepted_palette_len(colors.len()),
{
    colors[tile_index(x, (size - 1 - y) as nat, size) as int]@[k as int]
}

/// Whether `pixels` is exactly the finished image for `colors`: row-major
/// 8-bit RGB bytes of the flipped square tile grid.
pub open spec fn is_palette_image(pixels: Seq<u8>, colors: Seq<[u8; 3]>) -> bool {
    let size = image_size(colors.len());
    &&& accepted_palette_len(colors.len())
    &&& pixels.len() == 3 * size * size
    &&& forall|x: int, y: int, k: int|
        0 <= x < size && 0 <= y < size && 0 <= k < 3 ==> pixels[3 * (y * size + x) + k]
            == #[trigger] flipped_pixel_byte(colors, size, x as nat, y as nat, k as nat)
}

/// The finished image is a function of the palette alone: any two pixel
/// buffers laid out for the same colors are byte-identical, so rendering
/// the same palette twice yields the same bytes.
pub proof fn lemma_palette_image_deterministic(colors: Seq<[u8; 3]>, p1: Seq<u8>, p2: Seq<u8>)
    requires
        is_palette_image(p1, colors),
        is_palette_image(p2, colors),
    ensures
        p1 == p2,
{
    let size = image_size(colors.len()) as int;
    assert forall|i: int| 0 <= i < p1.len() implies p1[i] == p2[i] by {
        let row_bytes = 3 * size;
        let y = i / row_bytes;
        let r = i % row_bytes;
        let x = r / 3;
        let k = r % 3;
        vstd::arithmetic::div_mod::lemma_fundamental_div_mod(i, row_bytes);
        vstd::arithmetic::div_mod::lemma_mod_bound(i, row_bytes);
        vstd::arithmetic::div_mod::lemma_fundamental_div_mod(r, 3);
        vstd::arithmetic::div_mod::lemma_mod_bound(r, 3);
        assert(0 <= y < size) by (nonlinear_arith)
            requires
                i == row_bytes * y + r,
                0 <= r < row_bytes,
                0 <= i < row_bytes * size,
                row_bytes > 0,
        ;
        assert(0 <= x < size) by (nonlinear_arith)
            requires
                r == 3 * x + k,
                0 <= k < 3,
                0 <= r < 3 * size,
        ;
        assert(i == 3 * (y * size + x) + k) by (nonlinear_arith)
            requires
                i == (3 * size) * y + r,
                r == 3 * x + k,
        ;
        assert(p1[i] == flipped_pixel_byte(colors, size as nat, x as nat, y as nat, k as nat));
        assert(p2[i] == flipped_pixel_byte(colors, size as nat, x as nat, y as nat, k as nat));
    }
    assert(p1 =~= p2);
}

/// Lays the palette colors out as the raw pixel bytes of the finished
/// image: a square grid of uniform 16x16 tiles in palette order, flipped
/// vertically, as row-major 8-bit RGB.  Only palettes of 16 colors (a
/// 64x64 image) or 64 colors (a 128x128 image) are accepted.
#[verifier::loop_isolation(false)]
pub fn render_palette_pixels(colors: &Colors) -> (r: Result<Vec<u8>, SaveImageError>)
    ensures
        r is Ok <==> accepted_palette_len(colors@.len()),
        r matches Err(e) ==> e == SaveImageError::InvalidInputLength(colors@.len() as usize),
        r matches Ok(pixels) ==> is_palette_image(pixels@, colors@),
{
    let len = colors.len();
    if len != 16 && len != 64 {
        return Err(SaveImageError::InvalidInputLength(len));
    }
    let size: usize = if len == 16 {
        64
    } else {
        128
    };
    let mut pixels: Vec<u8> = Vec::new();
    let mut y: usize = 0;
    while y < size
        invariant
            y <= size,
            pixels@.len() == 3 * y * size,
            forall|xx: int, yy: int, k: int|
                0 <= xx < size && 0 <= yy < y && 0 <= k < 3 ==> pixels@[3 * (yy * size + xx) + k]
                    == #[trigger] flipped_pixel_byte(
                    colors@,
                    size as nat,
                    xx as nat,
                    yy as nat,
                    k as nat,
                ),
        decreases size - y,
    {
        let mut x: usize = 0;
        while x < size
            invariant
                x <= size,
                y < size,
                pixels@.len() == 3 * (y * size + x),
                forall|xx: int, yy: int, k: int|
                    0 <= xx < size && 0 <= yy < y && 0 <= k < 3 ==> pixels@[3 * (yy * size + xx)
                        + k] == #[trigger] flipped_pixel_byte(
                        colors@,
                        size as nat,
                        xx as nat,
                        yy as nat,
                        k as nat,
                    ),
                forall|xx: int, k: int|
                    0 <= xx < x && 0 <= k < 3 ==> pixels@[3 * (y * size + xx) + k]
                        == #[trigger] flipped_pixel_byte(
                        colors@,
                        size as nat,
                        xx as nat,
                        y as nat,
                        k as nat,
                    ),
            decreases size - x,
        {
            let ty = size - 1 - y;
            let tile_row = ty / 16;
            let tile_col = x / 16;
            let tiles_per_row = size / 16;
            proof {
                if colors@.len() == 16 {
                    assert(tile_row <= 3) by (nonlinear_arith)
                        requires
                            tile_row == ty / 16,
                            ty <= 63,
                    ;
                    assert(tile_col <= 3) by (nonlinear_arith)
                        requires
                            tile_col == x / 16,
                            x <= 63,
                    ;
                    assert(tile_row * tiles_per_row <= 12) by (nonlinear_arith)
                        requires
                            tile_row <= 3,
                            tiles_per_row == 4,
                    ;
                } else {
                    assert(tile_row <= 7) by (nonlinear_arith)
                        requires
                            tile_row == ty / 16,
                            ty <= 127,
                    ;
                    assert(tile_col <= 7) by (nonlinear_arith)
                        requires
                            tile_col == x / 16,
                            x <= 127,
                    ;
                    assert(tile_row * tiles_per_row <= 56) by (nonlinear_arith)
                        requires
                            tile_row <= 7,
                            tiles_per_row == 8,
                    ;
                }
            }
            let tile = tile_row * tiles_per_row + tile_col;
            assert(tile < colors@.len());
            let color = &colors[tile];
            pixels.push(color[0]);
            pixels.push(color[1]);
            pixels.push(color[2]);
            proof {
                assert(tile as nat == tile_index(x as nat, ty as nat, size as nat));
            }
            x = x + 1;
        }
        y = y + 1;
    }
    Ok(pixels)
}

} // verus!
