//! The static test pattern: a white cross and ring on black, inscribed in
//! the round panel.
use vstd::prelude::*;

use crate::render::{band_width, rgb565_spec, swap16_spec};

verus! {

/// The RGB565 bit layout of a colour given as 32-bit channels: bits 3..8 of
/// red at 11..16, bits 2..8 of green at 5..11, blue shifted right by 3.
pub open spec fn pack_bits(r: i32, g: i32, b: i32) -> u16 {
    (((r & 0xF8) << 8i32) | ((g & 0xFC) << 3i32) | (b >> 3i32)) as u16
}

/// Packs a colour into byte-swapped RGB565 (the panel's order) without
/// limiting the channels.
pub fn rgb565(r: i32, g: i32, b: i32) -> (c: u16)
    ensures
        c == swap16_spec(pack_bits(r, g, b)),
        0 <= r <= 255 && 0 <= g <= 255 && 0 <= b <= 255 ==> c == swap16_spec(
            rgb565_spec(r as int, g as int, b as int) as u16,
        ),
{
    let packed: u16 = (((r & 0xF8) << 8i32) | ((g & 0xFC) << 3i32) | (b >> 3i32)) as u16;
    let c: u16 = (packed << 8u16) | (packed >> 8u16);
    assert(c == swap16_spec(packed)) by (bit_vector)
        requires
            c == (packed << 8u16) | (packed >> 8u16),
    ;
    if 0 <= r && r <= 255 && 0 <= g && g <= 255 && 0 <= b && b <= 255 {
        assert(pack_bits(r, g, b) == ((r / 8) * 2048 + (g / 4) * 32 + b / 8) as u16) by (bit_vector)
            requires
                0 <= r <= 255,
                0 <= g <= 255,
                0 <= b <= 255,
        ;
    }
    c
}

/// Whether the pixel at column `x`, row `y` of the panel is white in the
/// pattern. The pixels `0..=465` are centred on `232.5`, so `ex = 2x - 465`
/// and `ey = 2y - 465` are the offsets from the panel centre in half pixels
/// and `e2` is four times the squared distance. The pattern lies in the
/// inscribed circle of radius 232.5; in it, the ring
/// `|distance - 230.5| <= 1.6` and the cross of the two middle columns and
/// rows up to distance 232.1. Distances are compared in tenths of a pixel,
/// squared (`25 * e2` is 100 times the squared distance).
pub open spec fn pattern_on(x: int, y: int) -> bool {
    let ex = 2 * x - 465;
    let ey = 2 * y - 465;
    let e2 = ex * ex + ey * ey;
    let inside = e2 <= 465 * 465;
    let on_cross = (-1 <= ex <= 1 || -1 <= ey <= 1) && 25 * e2 <= 2321 * 2321;
    let on_ring = 2289 * 2289 <= 25 * e2 <= 2321 * 2321;
    inside && (on_cross || on_ring)
}

/// The band of the pattern: `rows` rows starting at panel row `y0`, white
/// where `pattern_on` holds and black elsewhere, including the rest of the
/// buffer past the band's rows; rows past the end of the buffer are left
/// out.
pub open spec fn pattern_band(len: nat, y0: int, rows: int) -> Seq<u16> {
    Seq::new(
        len,
        |k: int|
            if k < rows * band_width() && pattern_on(k % band_width(), y0 + k / band_width()) {
                0xFFFFu16
            } else {
                0u16
            },
    )
}

/// Draws `rows` rows of the pattern, starting at panel row `y0`, into
/// `band`, after clearing the whole buffer. Pixels past the end of the
/// buffer are not drawn.
pub fn draw_band(band: &mut [u16], y0: i32, rows: i32)
    ensures
        final(band)@ == pattern_band(old(band)@.len(), y0 as int, rows as int),
{
    let white = rgb565(255, 255, 255);
    assert(swap16_spec(pack_bits(255, 255, 255)) == 0xFFFFu16) by (bit_vector);
    let total: usize = band.len();
    let mut k: usize = 0;
    while k < total
        invariant
            total == band@.len(),
            k <= total,
            forall|kk: int| 0 <= kk < k ==> #[trigger] band@[kk] == 0u16,
        decreases total - k,
    {
        band[k] = 0;
        k = k + 1;
    }
    let ghost len = band@.len();
    let total_u: u64 = total as u64;
    let mut row: i32 = 0;
    while row < rows
        invariant
            len == band@.len(),
            total == len,
            total_u == total,
            white == 0xFFFFu16,
            0 <= row,
            rows <= 0 || row <= rows,
            rows <= 0 ==> row == 0,
            forall|kk: int|
                0 <= kk < len ==> #[trigger] band@[kk] == if kk < row * band_width() && pattern_on(
                    kk % band_width(),
                    y0 + kk / band_width(),
                ) {
                    0xFFFFu16
                } else {
                    0u16
                },
        decreases rows - row,
    {
        let y: i64 = y0 as i64 + row as i64;
        let ey: i64 = 2 * y - 465;
        let dst_off: u64 = row as u64 * 466;
        if ey < -1000 || ey > 1000 {
            // The whole row lies outside the circle.
            assert forall|xx: int| 0 <= xx < 466 implies !pattern_on(xx, y as int) by {
                assert((2 * xx - 465) * (2 * xx - 465) >= 0) by (nonlinear_arith);
                assert(ey * ey > 465 * 465) by (nonlinear_arith)
                    requires
                        ey < -1000 || ey > 1000,
                ;
            }
            row = row + 1;
            continue;
        }
        assert(0 <= ey * ey <= 1000000) by (nonlinear_arith)
            requires
                -1000 <= ey <= 1000,
        ;
        let ey2: i64 = ey * ey;
        let mut x: i32 = 0;
        while x < 466
            invariant
                len == band@.len(),
                total == len,
                total_u == total,
                white == 0xFFFFu16,
                0 <= row < rows,
                y == y0 + row,
                ey == 2 * y - 465,
                ey2 == ey * ey,
                0 <= ey2 <= 1000000,
                dst_off == row * 466,
                0 <= x <= 466,
                forall|kk: int|
                    0 <= kk < len ==> #[trigger] band@[kk] == if (kk < row * band_width() || (row
                        * band_width() <= kk < row * band_width() + x)) && pattern_on(
                        kk % band_width(),
                        y0 + kk / band_width(),
                    ) {
                        0xFFFFu16
                    } else {
                        0u16
                    },
            decreases 466 - x,
        {
            let ex: i64 = 2 * (x as i64) - 465;
            assert(0 <= ex * ex <= 465 * 465) by (nonlinear_arith)
                requires
                    -465 <= ex <= 465,
            ;
            let e2: i64 = ex * ex + ey2;
            let on_cross = (-1 <= ex && ex <= 1 || -1 <= ey && ey <= 1) && 25 * e2 <= 2321 * 2321;
            let on_ring = 2289 * 2289 <= 25 * e2 && 25 * e2 <= 2321 * 2321;
            let inside = e2 <= 465 * 465;
            let idx: u64 = dst_off + x as u64;
            assert(idx / 466 == row && idx % 466 == x);
            assert((inside && (on_cross || on_ring)) == pattern_on(x as int, y as int));
            if inside && (on_cross || on_ring) && idx < total_u {
                band[idx as usize] = white;
            }
            x = x + 1;
        }
        row = row + 1;
    }
    assert(rows <= 0 || row == rows);
    assert forall|kk: int| 0 <= kk < len implies #[trigger] band@[kk] == pattern_band(
        len,
        y0 as int,
        rows as int,
    )[kk] by {
        if rows <= 0 {
            assert(kk >= rows * band_width()) by (nonlinear_arith)
                requires
                    rows <= 0,
                    kk >= 0,
            ;
            assert(kk >= row * band_width());
        }
    }
    assert(band@ =~= pattern_band(len, y0 as int, rows as int));
}

/// The arms of the cross reach the ring: every pixel of the two middle
/// columns (232, 233) or the two middle rows whose centre lies within
/// 232.1 px (ring centre 230.5 plus half-width 1.6) of the panel centre
/// (232.5, 232.5) is white. With `ex = 2x - 465` and `ey = 2y - 465` the
/// squared distance is `(ex*ex + ey*ey) / 4`.
pub proof fn lemma_cross_reaches_ring(len: nat, y0: int, rows: int, row: int, x: int)
    requires
        0 <= row < rows,
        0 <= x < 466,
        row * 466 + x < len,
    ensures
        ({
            let y = y0 + row;
            let ex = 2 * x - 465;
            let ey = 2 * y - 465;
            (x == 232 || x == 233 || y == 232 || y == 233) && 100 * (ex * ex + ey * ey) <= 4 * 2321
                * 2321 ==> pattern_band(len, y0, rows)[row * 466 + x] == 0xFFFFu16
        }),
{
    let k = row * 466 + x;
    assert(k / 466 == row && k % 466 == x);
    assert(k < rows * 466) by (nonlinear_arith)
        requires
            0 <= row < rows,
            0 <= x < 466,
            k == row * 466 + x,
    ;
}

/// Away from the two middle columns and rows, a pixel is white exactly when
/// its distance `d` from the panel centre satisfies `|d - 230.5| <= 1.6`,
/// i.e. `457.8 <= 2d <= 464.2`, where `(2d)^2 = ex*ex + ey*ey`.
pub proof fn lemma_ring_exact(len: nat, y0: int, rows: int, row: int, x: int)
    requires
        0 <= row < rows,
        0 <= x < 466,
        row * 466 + x < len,
        x != 232 && x != 233,
        y0 + row != 232 && y0 + row != 233,
    ensures
        ({
            let ex = 2 * x - 465;
            let ey = 2 * (y0 + row) - 465;
            let e2 = ex * ex + ey * ey;
            (pattern_band(len, y0, rows)[row * 466 + x] == 0xFFFFu16) <==> (4578 * 4578 <= 100 * e2
                <= 4642 * 4642)
        }),
        pattern_band(len, y0, rows)[row * 466 + x] == 0xFFFFu16 || pattern_band(len, y0, rows)[row
            * 466 + x] == 0u16,
{
    let k = row * 466 + x;
    assert(k / 466 == row && k % 466 == x);
    assert(k < rows * 466) by (nonlinear_arith)
        requires
            0 <= row < rows,
            0 <= x < 466,
            k == row * 466 + x,
    ;
    let ex = 2 * x - 465;
    let ey = 2 * (y0 + row) - 465;
    assert(!(-1 <= ex <= 1) && !(-1 <= ey <= 1));
}

/// The pattern is symmetric about the panel centre: mirrored left to
/// right, top to bottom, and across the diagonal it is the same.
pub proof fn lemma_pattern_symmetric(x: int, y: int)
    ensures
        pattern_on(x, y) == pattern_on(465 - x, y),
        pattern_on(x, y) == pattern_on(x, 465 - y),
        pattern_on(x, y) == pattern_on(y, x),
{
    assert((2 * (465 - x) - 465) * (2 * (465 - x) - 465) == (2 * x - 465) * (2 * x - 465))
        by (nonlinear_arith);
    assert((2 * (465 - y) - 465) * (2 * (465 - y) - 465) == (2 * y - 465) * (2 * y - 465))
        by (nonlinear_arith);
}

/// Every white pixel of the pattern has its centre inside the inscribed
/// circle of radius 232.5 about the panel centre `(232.5, 232.5)`.
pub proof fn lemma_pattern_inside_circle(x: int, y: int)
    requires
        pattern_on(x, y),
    ensures
        (2 * x - 465) * (2 * x - 465) + (2 * y - 465) * (2 * y - 465) <= 465 * 465,
{
}

} // verus!
