//! Particle renderer: colour packing, disc spans, disc rasterisation into a
//! display band and the scheduling of bands within a frame.
use vstd::prelude::*;

use crate::config::{
    BAND_COUNT, BAND_ROWS, DEPTH_LEVELS, DISC_MAX_R, HIGHLIGHT_ENABLE, LCD_H_RES, LCD_V_RES,
    PARTICLE_MAX, SPEED_LEVELS,
};

verus! {

/// A colour channel limited to `0..=255`.
pub open spec fn clamp_channel(v: int) -> int {
    if v < 0 {
        0
    } else if v > 255 {
        255
    } else {
        v
    }
}

/// RGB565 value of an 8-bit-per-channel colour: the top five bits of red,
/// the top six of green and the top five of blue, each channel first
/// limited to `0..=255`.
pub open spec fn rgb565_spec(r: int, g: int, b: int) -> int {
    (clamp_channel(r) / 8) * 2048 + (clamp_channel(g) / 4) * 32 + clamp_channel(b) / 8
}

/// A 16-bit value with its two bytes exchanged.
pub open spec fn swap16_spec(v: u16) -> u16 {
    ((v % 256) * 256 + v / 256) as u16
}

/// Exchanges the two bytes of a pixel (the panel takes big-endian RGB565).
pub fn swap16(v: u16) -> (w: u16)
    ensures
        w == swap16_spec(v),
{
    let w = (v << 8u16) | (v >> 8u16);
    assert(((v << 8u16) | (v >> 8u16)) == ((v % 256) * 256 + v / 256) as u16) by (bit_vector);
    w
}

fn clamp_to_byte(v: i32) -> (c: i32)
    ensures
        c == clamp_channel(v as int),
{
    if v < 0 {
        0
    } else if v > 255 {
        255
    } else {
        v
    }
}

/// Packs a colour into RGB565, limiting each channel to `0..=255` first.
pub fn rgb565(r: i32, g: i32, b: i32) -> (c: u16)
    ensures
        c as int == rgb565_spec(r as int, g as int, b as int),
{
    let r = clamp_to_byte(r);
    let g = clamp_to_byte(g);
    let b = clamp_to_byte(b);
    let packed = ((r & 0xF8) << 8i32) | ((g & 0xFC) << 3i32) | (b >> 3i32);
    assert(packed == (r / 8) * 2048 + (g / 4) * 32 + b / 8) by (bit_vector)
        requires
            0 <= r <= 255,
            0 <= g <= 255,
            0 <= b <= 255,
            packed == ((r & 0xF8) << 8i32) | ((g & 0xFC) << 3i32) | (b >> 3i32),
    ;
    packed as u16
}

/// Width of one band row in pixels: `LCD_H_RES`, written as a literal so
/// that products with it are linear.
pub open spec fn band_width() -> int {
    466
}

/// A band row is as wide as the panel.
pub proof fn lemma_band_width()
    ensures
        band_width() == LCD_H_RES as int,
{
}

/// `k` is `sqrt(n)` rounded to the nearest integer, halves rounded up:
/// `k - 1/2 <= sqrt(n) < k + 1/2`.
pub open spec fn is_rounded_sqrt(n: int, k: int) -> bool {
    &&& k >= 0
    &&& (k == 0 || (2 * k - 1) * (2 * k - 1) <= 4 * n)
    &&& 4 * n < (2 * k + 1) * (2 * k + 1)
}

/// The span table has one row per radius `0..=DISC_MAX_R`, each with
/// `2 * DISC_MAX_R + 1` entries.
pub open spec fn spans_shape(spans: Seq<Vec<u8>>) -> bool {
    &&& spans.len() == DISC_MAX_R + 1
    &&& forall|r: int| 0 <= r < spans.len() ==> #[trigger] spans[r]@.len() == 2 * DISC_MAX_R + 1
}

/// Entry `j` of the span row for radius `r` holds `w`: for `j <= 2 * r`
/// the half-width of the disc of radius `r` at vertical offset `j - r`, the
/// rounded `sqrt(r*r - (j - r)^2)`; past `2 * r` zero.
pub open spec fn span_entry_ok(r: int, j: int, w: int) -> bool {
    if j <= 2 * r {
        is_rounded_sqrt(r * r - (j - r) * (j - r), w)
    } else {
        w == 0
    }
}

/// The span table of `build_disc_spans`, every entry as `span_entry_ok`
/// describes it.
pub open spec fn spans_correct(spans: Seq<Vec<u8>>) -> bool {
    &&& spans_shape(spans)
    &&& forall|r: int, j: int|
        0 <= r <= DISC_MAX_R && 0 <= j < 2 * DISC_MAX_R + 1 ==> span_entry_ok(
            r,
            j,
            #[trigger] spans[r]@[j] as int,
        )
}

/// A disc radius limited to `1..=DISC_MAX_R`.
pub open spec fn clamp_radius(r: int) -> int {
    if r < 1 {
        1
    } else if r > DISC_MAX_R {
        DISC_MAX_R as int
    } else {
        r
    }
}

/// Pixel `x` of row `row` of a band starting at panel row `band_y0` lies in
/// the disc centred at `(cx, cy)` with radius `r` (limited to
/// `1..=DISC_MAX_R`), as the span table describes the disc.
pub open spec fn disc_covers(
    spans: Seq<Vec<u8>>,
    band_y0: int,
    cx: int,
    cy: int,
    r: int,
    row: int,
    x: int,
) -> bool {
    let rr = clamp_radius(r);
    let dy = band_y0 + row - cy;
    let hw = spans[rr]@[dy + rr] as int;
    -rr <= dy <= rr && cx - hw <= x <= cx + hw
}

/// A band image of `rows` rows after painting a disc in `color`: every
/// pixel of the band inside the disc takes the colour, every other value
/// stays.
pub open spec fn paint_disc(
    img: Seq<u16>,
    band_y0: int,
    rows: int,
    cx: int,
    cy: int,
    r: int,
    color: u16,
    spans: Seq<Vec<u8>>,
) -> Seq<u16> {
    Seq::new(
        img.len(),
        |k: int|
            if 0 <= k < rows * band_width() && disc_covers(
                spans,
                band_y0,
                cx,
                cy,
                r,
                k / band_width(),
                k % band_width(),
            ) {
                color
            } else {
                img[k]
            },
    )
}

fn rounded_sqrt(n: u32) -> (k: u32)
    requires
        n <= 10000,
    ensures
        is_rounded_sqrt(n as int, k as int),
{
    let mut k: u32 = 0;
    loop
        invariant
            n <= 10000,
            k <= 100,
            k == 0 || (2 * k - 1) * (2 * k - 1) <= 4 * n,
        decreases 100 - k,
    {
        assert((2 * k + 1) * (2 * k + 1) <= 201 * 201) by (nonlinear_arith)
            requires
                k <= 100,
        ;
        let odd: u32 = 2 * k + 1;
        if odd * odd > 4 * n {
            return k;
        }
        assert(k + 1 <= 100) by (nonlinear_arith)
            requires
                (2 * k + 1) * (2 * k + 1) <= 4 * n,
                n <= 10000,
        ;
        k = k + 1;
    }
}

/// Builds the span table: for each radius `0..=DISC_MAX_R` and each vertical
/// offset `-r..=r`, the rounded half-width of the disc on that row.
pub fn disc_spans() -> (spans: Vec<Vec<u8>>)
    ensures
        spans_correct(spans@),
{
    let mut spans: Vec<Vec<u8>> = Vec::new();
    let mut r: usize = 0;
    while r <= DISC_MAX_R
        invariant
            r <= DISC_MAX_R + 1,
            spans.len() == r,
            forall|rr: int| 0 <= rr < r ==> #[trigger] spans@[rr]@.len() == 2 * DISC_MAX_R + 1,
            forall|rr: int, j: int|
                0 <= rr < r && 0 <= j < 2 * DISC_MAX_R + 1 ==> span_entry_ok(
                    rr,
                    j,
                    #[trigger] spans@[rr]@[j] as int,
                ),
        decreases DISC_MAX_R + 1 - r,
    {
        let mut row: Vec<u8> = Vec::new();
        let mut j: usize = 0;
        while j < 2 * DISC_MAX_R + 1
            invariant
                r <= DISC_MAX_R,
                j <= 2 * DISC_MAX_R + 1,
                row.len() == j,
                forall|jj: int| 0 <= jj < j ==> span_entry_ok(r as int, jj, #[trigger] row@[jj] as int),
            decreases 2 * DISC_MAX_R + 1 - j,
        {
            if j <= 2 * r {
                let dy: i64 = j as i64 - r as i64;
                let ri: i64 = r as i64;
                assert(0 <= ri * ri - dy * dy <= 100 && ri * ri <= 100 && dy * dy <= 100) by (nonlinear_arith)
                    requires
                        0 <= ri <= 10,
                        -ri <= dy <= ri,
                ;
                let n: i64 = ri * ri - dy * dy;
                let w = rounded_sqrt(n as u32);
                assert(w <= 10) by (nonlinear_arith)
                    requires
                        is_rounded_sqrt(n as int, w as int),
                        n <= 100,
                ;
                row.push(w as u8);
            } else {
                row.push(0u8);
            }
            j = j + 1;
        }
        spans.push(row);
        r = r + 1;
    }
    spans
}

/// Like `disc_covers`, restricted to the pixels a row-by-row, left-to-right
/// scan has reached before offset `dy` and column `x`.
pub open spec fn disc_covers_before(
    spans: Seq<Vec<u8>>,
    band_y0: int,
    cx: int,
    cy: int,
    r: int,
    k: int,
    dy: int,
    x: int,
) -> bool {
    let row = k / band_width();
    let col = k % band_width();
    let dy_k = band_y0 + row - cy;
    &&& disc_covers(spans, band_y0, cx, cy, r, row, col)
    &&& (dy_k < dy || (dy_k == dy && col < x))
}

/// Draws a filled disc into a band buffer of `rows` rows of `LCD_H_RES`
/// pixels whose first row is panel row `band_y0`. The radius is limited
/// to `1..=DISC_MAX_R`; rows and columns outside the band, and pixels past
/// the end of the buffer, are clipped.
pub fn draw_disc(
    buf: &mut [u16],
    band_y0: i32,
    rows: i32,
    cx: i32,
    cy: i32,
    r: i32,
    color: u16,
    spans: &Vec<Vec<u8>>,
)
    requires
        spans_shape(spans@),
    ensures
        final(buf)@ == paint_disc(
            old(buf)@,
            band_y0 as int,
            rows as int,
            cx as int,
            cy as int,
            r as int,
            color,
            spans@,
        ),
{
    let ghost old_img = buf@;
    let ghost sp = spans@;
    let width: i64 = LCD_H_RES as i64;
    let mut rr: i64 = r as i64;
    if rr < 1 {
        rr = 1;
    }
    if rr > DISC_MAX_R as i64 {
        rr = DISC_MAX_R as i64;
    }
    assert(rr == clamp_radius(r as int));
    let span: &Vec<u8> = &spans[rr as usize];
    let by0: i64 = band_y0 as i64;
    let nrows: i64 = rows as i64;
    let cxx: i64 = cx as i64;
    let cyy: i64 = cy as i64;
    let mut dy0: i64 = -rr;
    let mut dy1: i64 = rr;
    if cyy + dy0 < by0 {
        dy0 = by0 - cyy;
    }
    if cyy + dy1 >= by0 + nrows {
        dy1 = by0 + nrows - 1 - cyy;
    }
    let total_u: u64 = buf.len() as u64;
    let mut dy: i64 = dy0;
    while dy <= dy1
        invariant
            1 <= rr <= 10,
            rr == clamp_radius(r as int),
            spans_shape(sp),
            sp == spans@,
            *span == sp[rr as int],
            span@.len() == 21,
            by0 == band_y0,
            nrows == rows,
            cxx == cx,
            cyy == cy,
            width == band_width(),
            -rr <= dy0,
            dy1 <= rr,
            by0 <= cyy + dy0,
            cyy + dy1 < by0 + nrows,
            dy0 == (if cyy - rr < by0 { by0 - cyy } else { -rr as int }),
            dy1 == (if cyy + rr >= by0 + nrows { by0 + nrows - 1 - cyy } else { rr as int }),
            dy0 <= dy,
            dy <= dy1 + 1 || dy == dy0,
            total_u == old_img.len(),
            buf@.len() == old_img.len(),
            forall|k: int|
                0 <= k < buf@.len() ==> #[trigger] buf@[k] == if 0 <= k < rows * band_width()
                    && disc_covers_before(sp, by0 as int, cxx as int, cyy as int, r as int, k, dy as int, 0) {
                    color
                } else {
                    old_img[k]
                },
        decreases dy1 + 1 - dy,
    {
        let hw: i64 = span[(dy + rr) as usize] as i64;
        let mut x0: i64 = cxx - hw;
        let mut x1: i64 = cxx + hw;
        if x0 < 0 {
            x0 = 0;
        }
        if x1 >= width {
            x1 = width - 1;
        }
        let ghost row_g: int = cyy + dy - by0;
        assert(0 <= row_g < nrows);
        if x0 <= x1 {
            assert(0 <= row_g * 466 < 0x1_0000_0000_0000);
            let row: u64 = ((cyy + dy - by0) * width) as u64;
            assert(row == row_g * 466);
            let mut x: i64 = x0;
            while x <= x1
                invariant
                    1 <= rr <= 10,
                    rr == clamp_radius(r as int),
                    spans_shape(sp),
                    *span == sp[rr as int],
                    span@.len() == 21,
                    -rr <= dy <= rr,
                    hw == span@[dy + rr] as int,
                    by0 == band_y0,
                    cxx == cx,
                    cyy == cy,
                    width == band_width(),
                    0 <= row_g < nrows,
                    nrows == rows,
                    row == row_g * 466,
                    x0 == (if cxx - hw < 0 { 0 } else { cxx - hw as int }),
                    x1 == (if cxx + hw >= 466 { 465 } else { cxx + hw as int }),
                    x0 <= x <= x1 + 1,
                    0 <= x0,
                    x1 <= 465,
                    row_g == cyy + dy - by0,
                    total_u == old_img.len(),
                    buf@.len() == old_img.len(),
                    forall|k: int|
                        0 <= k < buf@.len() ==> #[trigger] buf@[k] == if 0 <= k < rows * band_width()
                            && disc_covers_before(sp, by0 as int, cxx as int, cyy as int, r as int, k, dy as int, x as int) {
                            color
                        } else {
                            old_img[k]
                        },
                decreases x1 + 1 - x,
            {
                let idx: u64 = row + x as u64;
                assert(idx / 466 == row_g && idx % 466 == x);
                if idx < total_u {
                    buf[idx as usize] = color;
                }
                x = x + 1;
            }
        }
        dy = dy + 1;
    }
    assert(buf@ =~= paint_disc(old_img, band_y0 as int, rows as int, cx as int, cy as int, r as int, color, sp));
}


/// A particle after projection to the panel: centre in panel pixels, disc
/// radius before limiting, and the speed and depth steps that choose its
/// colour, each before limiting.
#[derive(Clone, Copy, Debug, PartialEq, Eq)]
pub struct Projected {
    pub x: i32,
    pub y: i32,
    pub radius: i32,
    pub speed_level: i32,
    pub depth_level: i32,
}

/// `v` limited to `lo..=hi`.
pub open spec fn clamp_int(v: int, lo: int, hi: int) -> int {
    if v < lo {
        lo
    } else if v > hi {
        hi
    } else {
        v
    }
}

/// Colour table index of a projected particle: depth step times the number
/// of speed steps plus speed step, each limited to its range.
pub open spec fn lut_index(p: Projected) -> int {
    clamp_int(p.depth_level as int, 0, DEPTH_LEVELS - 1) * SPEED_LEVELS + clamp_int(
        p.speed_level as int,
        0,
        SPEED_LEVELS - 1,
    )
}

/// First panel row of band `b`.
pub open spec fn band_start(b: int) -> int {
    b * BAND_ROWS
}

/// Number of panel rows in band `b`: `BAND_ROWS`, except for the last band,
/// which holds the rows that remain.
pub open spec fn band_rows(b: int) -> int {
    if LCD_V_RES - band_start(b) < BAND_ROWS {
        LCD_V_RES - band_start(b)
    } else {
        BAND_ROWS as int
    }
}

/// The rows `y - r ..= y + r` of a particle's disc (radius limited to
/// `1..=DISC_MAX_R`) meet the rows of band `b`.
pub open spec fn band_hit(p: Projected, b: int) -> bool {
    let rr = clamp_radius(p.radius as int);
    &&& p.y - rr < band_start(b) + band_rows(b)
    &&& band_start(b) <= p.y + rr
}

proof fn lemma_band_range(top: int, bot: int, b: int)
    requires
        top <= bot,
        0 <= b < BAND_COUNT,
    ensures
        (!(bot < 0 || top >= 466) && (if top < 0 {
            0
        } else {
            top / 22
        }) <= b <= (if bot >= 466 {
            21
        } else {
            bot / 22
        })) == (top < band_start(b) + band_rows(b) && band_start(b) <= bot),
{
}


/// One band of a frame to draw and send: which band, its first panel row,
/// its number of rows, and which of the two transfer buffers it goes
/// through.
#[derive(Clone, Copy, Debug, PartialEq, Eq)]
pub struct BandJob {
    pub band: usize,
    pub y0: i32,
    pub rows: i32,
    pub buffer: usize,
}

/// A band image of `rows` rows with every pixel black.
pub open spec fn blank_band(rows: int) -> Seq<u16> {
    Seq::new((rows * band_width()) as nat, |k: int| 0u16)
}

/// The band image after painting particle `i` on top of `img`: its disc in
/// the plain colour, then, for radii of at least 3, a highlight disc of
/// half the radius shifted up and left by a third of the radius.
pub open spec fn paint_particle(v: RenderView, img: Seq<u16>, y0: int, rows: int, i: int) -> Seq<
    u16,
> {
    let r = v.sr[i] as int;
    let cx = v.sx[i] as int;
    let cy = v.sy[i] as int;
    let base = paint_disc(img, y0, rows, cx, cy, r, v.sc[i], v.spans);
    if HIGHLIGHT_ENABLE && r >= 3 {
        paint_disc(base, y0, rows, cx - r / 3, cy - r / 3, r / 2, v.sh[i], v.spans)
    } else {
        base
    }
}

/// The band image with particles `i..count` painted on black, the last one
/// first, so that lower-numbered particles end up on top.
pub open spec fn painted_from(v: RenderView, y0: int, rows: int, i: int) -> Seq<u16>
    decreases v.count - i,
{
    if i >= v.count || i < 0 {
        blank_band(rows)
    } else {
        paint_particle(v, painted_from(v, y0, rows, i + 1), y0, rows, i)
    }
}

/// The picture of band `b` in a frame: all particles painted if the band
/// holds any, else black.
pub open spec fn band_image(v: RenderView, b: int) -> Seq<u16> {
    if v.band_used[b] {
        painted_from(v, band_start(b), band_rows(b), 0)
    } else {
        blank_band(band_rows(b))
    }
}

/// A disc that lies wholly above or below the band leaves the band as it
/// was.
proof fn lemma_paint_disc_outside(
    img: Seq<u16>,
    y0: int,
    rows: int,
    cx: int,
    cy: int,
    r: int,
    color: u16,
    spans: Seq<Vec<u8>>,
)
    requires
        1 <= r <= DISC_MAX_R,
        cy + r < y0 || cy - r >= y0 + rows,
    ensures
        paint_disc(img, y0, rows, cx, cy, r, color, spans) == img,
{
    assert(paint_disc(img, y0, rows, cx, cy, r, color, spans) =~= img);
}

/// Some job of the list is for band `b`.
pub open spec fn has_job(jobs: Seq<BandJob>, b: int) -> bool {
    exists|k: int| 0 <= k < jobs.len() && #[trigger] jobs[k].band == b
}

/// First panel row and number of rows of band `b`.
pub fn band_geometry(b: usize) -> (g: (i32, i32))
    requires
        b < BAND_COUNT,
    ensures
        g.0 == band_start(b as int),
        g.1 == band_rows(b as int),
{
    let y0: i32 = (b * BAND_ROWS) as i32;
    let mut rows: i32 = BAND_ROWS as i32;
    if y0 + rows > LCD_V_RES as i32 {
        rows = LCD_V_RES as i32 - y0;
    }
    (y0, rows)
}

/// Band `b` is drawn and sent in a frame: it holds particles now, or held
/// some in the last frame and must be cleared.
pub open spec fn band_drawn(v: RenderView, b: int) -> bool {
    v.band_used[b] || v.band_used_prev[b]
}

/// `new` is what `Render::init` makes of `old`: colour tables packed from
/// `base` and `lifted`, a correct span table, every band marked as drawn in
/// the last frame, everything else kept.
pub open spec fn init_result(
    old: RenderView,
    new: RenderView,
    base: Seq<(i32, i32, i32)>,
    lifted: Seq<(i32, i32, i32)>,
) -> bool {
    &&& new.wf()
    &&& new.color_lut == Seq::new(LUT_LEN as nat, |i: int| lut_entry(base[i]))
    &&& new.highlight_lut == Seq::new(LUT_LEN as nat, |i: int| lut_entry(lifted[i]))
    &&& spans_correct(new.spans)
    &&& new.band_used_prev == Seq::new(BAND_COUNT as nat, |i: int| true)
    &&& new == (RenderView {
        color_lut: new.color_lut,
        highlight_lut: new.highlight_lut,
        spans: new.spans,
        band_used_prev: new.band_used_prev,
        ..old
    })
}

/// Number of entries of each colour table: one per depth level and speed
/// level.
pub const LUT_LEN: usize = 1024;

/// The colour table entry for a colour given as 8-bit channels: RGB565 with
/// the bytes exchanged, as the panel takes it.
pub open spec fn lut_entry(rgb: (i32, i32, i32)) -> u16 {
    swap16_spec(rgb565_spec(rgb.0 as int, rgb.1 as int, rgb.2 as int) as u16)
}

/// What the renderer knows of the particles and the panel bands.
pub struct RenderView {
    pub color_lut: Seq<u16>,
    pub highlight_lut: Seq<u16>,
    pub spans: Seq<Vec<u8>>,
    pub band_used: Seq<bool>,
    pub band_used_prev: Seq<bool>,
    pub count: nat,
    pub sx: Seq<i16>,
    pub sy: Seq<i16>,
    pub sr: Seq<u8>,
    pub sc: Seq<u16>,
    pub sh: Seq<u16>,
}

impl RenderView {
    /// Table sizes, the span table's shape, and the radius of every
    /// projected particle within `1..=DISC_MAX_R`.
    pub open spec fn wf(self) -> bool {
        &&& self.color_lut.len() == LUT_LEN
        &&& self.highlight_lut.len() == LUT_LEN
        &&& spans_shape(self.spans)
        &&& self.band_used.len() == BAND_COUNT
        &&& self.band_used_prev.len() == BAND_COUNT
        &&& self.count <= PARTICLE_MAX
        &&& self.sx.len() == PARTICLE_MAX
        &&& self.sy.len() == PARTICLE_MAX
        &&& self.sr.len() == PARTICLE_MAX
        &&& self.sc.len() == PARTICLE_MAX
        &&& self.sh.len() == PARTICLE_MAX
        &&& forall|i: int| 0 <= i < self.count ==> 1 <= #[trigger] self.sr[i] <= DISC_MAX_R
    }
}

/// Renderer state: colour tables, disc spans, which bands hold particles
/// in this frame and the last one, and the projected particles.
pub struct Render {
    color_lut: Vec<u16>,
    highlight_lut: Vec<u16>,
    disc_span: Vec<Vec<u8>>,
    band_used: Vec<bool>,
    band_used_prev: Vec<bool>,
    count: usize,
    sx: Vec<i16>,
    sy: Vec<i16>,
    sr: Vec<u8>,
    sc: Vec<u16>,
    sh: Vec<u16>,
}

impl View for Render {
    type V = RenderView;

    closed spec fn view(&self) -> RenderView {
        RenderView {
            color_lut: self.color_lut@,
            highlight_lut: self.highlight_lut@,
            spans: self.disc_span@,
            band_used: self.band_used@,
            band_used_prev: self.band_used_prev@,
            count: self.count as nat,
            sx: self.sx@,
            sy: self.sy@,
            sr: self.sr@,
            sc: self.sc@,
            sh: self.sh@,
        }
    }
}

fn filled<T: Copy>(value: T, n: usize) -> (v: Vec<T>)
    ensures
        v@ == Seq::new(n as nat, |i: int| value),
{
    let mut v: Vec<T> = Vec::new();
    let mut i: usize = 0;
    while i < n
        invariant
            i <= n,
            v@ == Seq::new(i as nat, |j: int| value),
        decreases n - i,
    {
        v.push(value);
        i = i + 1;
        assert(v@ =~= Seq::new(i as nat, |j: int| value));
    }
    v
}

impl Render {
    /// A renderer with zeroed tables, no band in use and no particles.
    pub fn empty() -> (rd: Render)
        ensures
            rd@.wf(),
            rd@.color_lut == Seq::new(LUT_LEN as nat, |i: int| 0u16),
            rd@.highlight_lut == Seq::new(LUT_LEN as nat, |i: int| 0u16),
            forall|r: int, j: int|
                0 <= r <= DISC_MAX_R && 0 <= j < 2 * DISC_MAX_R + 1 ==> #[trigger] rd@.spans[r]@[j]
                    == 0,
            rd@.band_used == Seq::new(BAND_COUNT as nat, |i: int| false),
            rd@.band_used_prev == Seq::new(BAND_COUNT as nat, |i: int| false),
            rd@.count == 0,
            rd@.sx == Seq::new(PARTICLE_MAX as nat, |i: int| 0i16),
            rd@.sy == Seq::new(PARTICLE_MAX as nat, |i: int| 0i16),
            rd@.sr == Seq::new(PARTICLE_MAX as nat, |i: int| 0u8),
            rd@.sc == Seq::new(PARTICLE_MAX as nat, |i: int| 0u16),
            rd@.sh == Seq::new(PARTICLE_MAX as nat, |i: int| 0u16),
    {
        let mut spans: Vec<Vec<u8>> = Vec::new();
        let mut r: usize = 0;
        while r <= DISC_MAX_R
            invariant
                r <= DISC_MAX_R + 1,
                spans.len() == r,
                forall|rr: int| 0 <= rr < r ==> #[trigger] spans@[rr]@ == Seq::new(21, |j: int| 0u8),
            decreases DISC_MAX_R + 1 - r,
        {
            spans.push(filled(0u8, 2 * DISC_MAX_R + 1));
            r = r + 1;
        }
        Render {
            color_lut: filled(0u16, LUT_LEN),
            highlight_lut: filled(0u16, LUT_LEN),
            disc_span: spans,
            band_used: filled(false, BAND_COUNT),
            band_used_prev: filled(false, BAND_COUNT),
            count: 0,
            sx: filled(0i16, PARTICLE_MAX),
            sy: filled(0i16, PARTICLE_MAX),
            sr: filled(0u8, PARTICLE_MAX),
            sc: filled(0u16, PARTICLE_MAX),
            sh: filled(0u16, PARTICLE_MAX),
        }
    }

    /// Fills both colour tables: entry `i` of the plain table packs `base[i]`
    /// and entry `i` of the highlight table packs `lifted[i]`, each channel
    /// limited to `0..=255`, as RGB565 with the bytes exchanged.
    pub fn build_color_lut(&mut self, base: &[(i32, i32, i32)], lifted: &[(i32, i32, i32)])
        requires
            old(self)@.wf(),
            base@.len() == LUT_LEN,
            lifted@.len() == LUT_LEN,
        ensures
            final(self)@.wf(),
            final(self)@.color_lut == Seq::new(LUT_LEN as nat, |i: int| lut_entry(base@[i])),
            final(self)@.highlight_lut == Seq::new(LUT_LEN as nat, |i: int| lut_entry(lifted@[i])),
            final(self)@ == (RenderView {
                color_lut: final(self)@.color_lut,
                highlight_lut: final(self)@.highlight_lut,
                ..old(self)@
            }),
    {
        let mut i: usize = 0;
        while i < LUT_LEN
            invariant
                i <= LUT_LEN,
                base@.len() == LUT_LEN,
                lifted@.len() == LUT_LEN,
                self.color_lut@.len() == LUT_LEN,
                self.highlight_lut@.len() == LUT_LEN,
                forall|j: int| 0 <= j < i ==> #[trigger] self.color_lut@[j] == lut_entry(base@[j]),
                forall|j: int| 0 <= j < i ==> #[trigger] self.highlight_lut@[j] == lut_entry(lifted@[j]),
                self@ == (RenderView {
                    color_lut: self.color_lut@,
                    highlight_lut: self.highlight_lut@,
                    ..old(self)@
                }),
            decreases LUT_LEN - i,
        {
            let (r, g, b) = base[i];
            let c = swap16(rgb565(r, g, b));
            self.color_lut.set(i, c);
            let (hr, hg, hb) = lifted[i];
            let h = swap16(rgb565(hr, hg, hb));
            self.highlight_lut.set(i, h);
            i = i + 1;
        }
        assert(self.color_lut@ =~= Seq::new(LUT_LEN as nat, |i: int| lut_entry(base@[i])));
        assert(self.highlight_lut@ =~= Seq::new(LUT_LEN as nat, |i: int| lut_entry(lifted@[i])));
    }

    /// Fills the disc span table (see `disc_spans`).
    pub fn build_disc_spans(&mut self)
        requires
            old(self)@.wf(),
        ensures
            final(self)@.wf(),
            spans_correct(final(self)@.spans),
            final(self)@ == (RenderView { spans: final(self)@.spans, ..old(self)@ }),
    {
        self.disc_span = disc_spans();
    }

    /// Prepares the renderer: fills the colour tables from the given
    /// channel values and the span table, and marks every band as drawn in
    /// the last frame so that the first frame clears the whole panel.
    pub fn init(&mut self, base: &[(i32, i32, i32)], lifted: &[(i32, i32, i32)])
        requires
            old(self)@.wf(),
            base@.len() == LUT_LEN,
            lifted@.len() == LUT_LEN,
        ensures
            init_result(old(self)@, final(self)@, base@, lifted@),
    {
        self.build_color_lut(base, lifted);
        self.build_disc_spans();
        self.band_used_prev = filled(true, BAND_COUNT);
    }

    /// Stores the projected particles: position (as 16-bit values), radius
    /// limited to `1..=DISC_MAX_R`, and the plain and highlight colours of
    /// the table entry chosen by `lut_index`; and marks exactly the bands
    /// whose rows some particle's disc meets.
    pub fn project_all(&mut self, particles: &[Projected])
        requires
            old(self)@.wf(),
            particles@.len() <= PARTICLE_MAX,
        ensures
            final(self)@.wf(),
            final(self)@.count == particles@.len(),
            forall|i: int|
                #![trigger particles@[i]]
                0 <= i < particles@.len() ==> {
                    &&& final(self)@.sx[i] == particles@[i].x as i16
                    &&& final(self)@.sy[i] == particles@[i].y as i16
                    &&& final(self)@.sr[i] == clamp_radius(particles@[i].radius as int)
                    &&& final(self)@.sc[i] == old(self)@.color_lut[lut_index(particles@[i])]
                    &&& final(self)@.sh[i] == old(self)@.highlight_lut[lut_index(particles@[i])]
                },
            forall|i: int|
                #![trigger particles@[i]]
                0 <= i < particles@.len() ==> {
                    let p = particles@[i];
                    let sl = if p.speed_level < 0 {
                        0
                    } else if p.speed_level > 63 {
                        63
                    } else {
                        p.speed_level as int
                    };
                    let dl = if p.depth_level < 0 {
                        0
                    } else if p.depth_level > 15 {
                        15
                    } else {
                        p.depth_level as int
                    };
                    let rr = if p.radius < 1 {
                        1
                    } else if p.radius > 10 {
                        10
                    } else {
                        p.radius as int
                    };
                    &&& final(self)@.sc[i] == old(self)@.color_lut[dl * 64 + sl]
                    &&& final(self)@.sh[i] == old(self)@.highlight_lut[dl * 64 + sl]
                    &&& final(self)@.sr[i] == rr
                },
            forall|i: int|
                particles@.len() <= i < PARTICLE_MAX ==> {
                    &&& #[trigger] final(self)@.sx[i] == old(self)@.sx[i]
                    &&& final(self)@.sy[i] == old(self)@.sy[i]
                    &&& final(self)@.sr[i] == old(self)@.sr[i]
                    &&& final(self)@.sc[i] == old(self)@.sc[i]
                    &&& final(self)@.sh[i] == old(self)@.sh[i]
                },
            forall|b: int|
                0 <= b < BAND_COUNT ==> (#[trigger] final(self)@.band_used[b] <==> exists|i: int|
                    0 <= i < particles@.len() && #[trigger] band_hit(particles@[i], b)),
            final(self)@.color_lut == old(self)@.color_lut,
            final(self)@.highlight_lut == old(self)@.highlight_lut,
            final(self)@.spans == old(self)@.spans,
            final(self)@.band_used_prev == old(self)@.band_used_prev,
    {
        let ghost old_v = self@;
        let n: usize = particles.len();
        let mut used: Vec<bool> = filled(false, BAND_COUNT);
        let mut i: usize = 0;
        while i < n
            invariant
                n == particles@.len(),
                n <= PARTICLE_MAX,
                i <= n,
                old_v.wf(),
                self@.count == old_v.count,
                self@.color_lut == old_v.color_lut,
                self@.highlight_lut == old_v.highlight_lut,
                self@.spans == old_v.spans,
                self@.band_used_prev == old_v.band_used_prev,
                used@.len() == BAND_COUNT,
                self@.band_used == old_v.band_used,
                self@.sx.len() == PARTICLE_MAX,
                self@.sy.len() == PARTICLE_MAX,
                self@.sr.len() == PARTICLE_MAX,
                self@.sc.len() == PARTICLE_MAX,
                self@.sh.len() == PARTICLE_MAX,
                forall|j: int|
                    #![trigger particles@[j]]
                    0 <= j < i ==> {
                        &&& self@.sx[j] == particles@[j].x as i16
                        &&& self@.sy[j] == particles@[j].y as i16
                        &&& self@.sr[j] == clamp_radius(particles@[j].radius as int)
                        &&& self@.sc[j] == old_v.color_lut[lut_index(particles@[j])]
                        &&& self@.sh[j] == old_v.highlight_lut[lut_index(particles@[j])]
                    },
                forall|j: int| i <= j < PARTICLE_MAX ==> #[trigger] self@.sx[j] == old_v.sx[j],
                forall|j: int| i <= j < PARTICLE_MAX ==> #[trigger] self@.sy[j] == old_v.sy[j],
                forall|j: int| i <= j < PARTICLE_MAX ==> #[trigger] self@.sr[j] == old_v.sr[j],
                forall|j: int| i <= j < PARTICLE_MAX ==> #[trigger] self@.sc[j] == old_v.sc[j],
                forall|j: int| i <= j < PARTICLE_MAX ==> #[trigger] self@.sh[j] == old_v.sh[j],
                forall|b: int|
                    0 <= b < BAND_COUNT ==> (#[trigger] used@[b] <==> exists|j: int|
                        0 <= j < i && #[trigger] band_hit(particles@[j], b)),
            decreases n - i,
        {
            let p = particles[i];
            self.sx.set(i, p.x as i16);
            self.sy.set(i, p.y as i16);
            let mut r: i32 = p.radius;
            if r < 1 {
                r = 1;
            }
            if r > DISC_MAX_R as i32 {
                r = DISC_MAX_R as i32;
            }
            self.sr.set(i, r as u8);
            let mut sl: i32 = p.speed_level;
            if sl < 0 {
                sl = 0;
            }
            if sl > SPEED_LEVELS as i32 - 1 {
                sl = SPEED_LEVELS as i32 - 1;
            }
            let mut dl: i32 = p.depth_level;
            if dl < 0 {
                dl = 0;
            }
            if dl > DEPTH_LEVELS as i32 - 1 {
                dl = DEPTH_LEVELS as i32 - 1;
            }
            let lut: usize = (dl as usize) * SPEED_LEVELS + sl as usize;
            assert(lut == lut_index(p));
            let c = self.color_lut[lut];
            self.sc.set(i, c);
            let h = self.highlight_lut[lut];
            self.sh.set(i, h);
            let top: i64 = p.y as i64 - r as i64;
            let bot: i64 = p.y as i64 + r as i64;
            let ghost used_before = used@;
            if !(bot < 0 || top >= LCD_V_RES as i64) {
                let b0: usize = if top < 0 {
                    0
                } else {
                    (top / BAND_ROWS as i64) as usize
                };
                let b1: usize = if bot >= LCD_V_RES as i64 {
                    BAND_COUNT - 1
                } else {
                    (bot / BAND_ROWS as i64) as usize
                };
                let mut b: usize = b0;
                while b <= b1
                    invariant
                        b0 <= b <= b1 + 1,
                        b1 < BAND_COUNT,
                        used@.len() == BAND_COUNT,
                        forall|bb: int|
                            0 <= bb < BAND_COUNT ==> #[trigger] used@[bb] == (used_before[bb]
                                || (b0 <= bb < b)),
                    decreases b1 + 1 - b,
                {
                    used.set(b, true);
                    b = b + 1;
                }
            }
            assert forall|bb: int| 0 <= bb < BAND_COUNT implies (#[trigger] used@[bb]
                <==> exists|j: int| 0 <= j < i + 1 && #[trigger] band_hit(particles@[j], bb)) by {
                lemma_band_range(top as int, bot as int, bb);
                if band_hit(particles@[i as int], bb) {
                    assert(0 <= i < i + 1);
                }
                if exists|j: int| 0 <= j < i + 1 && #[trigger] band_hit(particles@[j], bb) {
                    let j = choose|j: int| 0 <= j < i + 1 && #[trigger] band_hit(particles@[j], bb);
                    if j < i {
                        assert(used_before[bb]);
                    }
                }
            }
            i = i + 1;
        }
        self.band_used = used;
        self.count = n;
        assert forall|j: int| 0 <= j < self@.count implies 1 <= #[trigger] self@.sr[j] <= DISC_MAX_R by {
            assert(self@.sr[j] == clamp_radius(particles@[j].radius as int));
        }
    }


    /// The bands to draw and send this frame, in panel order: every band
    /// that holds particles now or held some in the last frame (so that it
    /// is cleared), each with its rows and with the two transfer buffers
    /// taken in turn, starting with buffer 0.
    pub fn plan_frame(&self) -> (jobs: Vec<BandJob>)
        requires
            self@.wf(),
        ensures
            forall|k: int|
                0 <= k < jobs@.len() ==> {
                    let j = #[trigger] jobs@[k];
                    &&& j.band < BAND_COUNT
                    &&& band_drawn(self@, j.band as int)
                    &&& j.y0 == band_start(j.band as int)
                    &&& j.rows == band_rows(j.band as int)
                    &&& j.buffer == k % 2
                },
            forall|k1: int, k2: int|
                0 <= k1 < k2 < jobs@.len() ==> #[trigger] jobs@[k1].band < #[trigger] jobs@[k2].band,
            forall|b: int|
                0 <= b < BAND_COUNT && band_drawn(self@, b) ==> #[trigger] has_job(
                    jobs@,
                    b,
                ),
    {
        let mut jobs: Vec<BandJob> = Vec::new();
        let mut buf_i: usize = 0;
        let mut b: usize = 0;
        while b < BAND_COUNT
            invariant
                self@.wf(),
                b <= BAND_COUNT,
                buf_i == jobs@.len() % 2,
                forall|k: int|
                    0 <= k < jobs@.len() ==> {
                        let j = #[trigger] jobs@[k];
                        &&& j.band < b
                        &&& band_drawn(self@, j.band as int)
                        &&& j.y0 == band_start(j.band as int)
                        &&& j.rows == band_rows(j.band as int)
                        &&& j.buffer == k % 2
                    },
                forall|k1: int, k2: int|
                    0 <= k1 < k2 < jobs@.len() ==> #[trigger] jobs@[k1].band < #[trigger] jobs@[k2].band,
                forall|bb: int|
                    0 <= bb < b && band_drawn(self@, bb) ==> #[trigger] has_job(
                        jobs@,
                        bb,
                    ),
            decreases BAND_COUNT - b,
        {
            let ghost before = jobs@;
            let drawn = self.band_used[b] || self.band_used_prev[b];
            if drawn {
                let (y0, rows) = band_geometry(b);
                jobs.push(BandJob { band: b, y0, rows, buffer: buf_i });
                buf_i = 1 - buf_i;
            }
            assert forall|bb: int|
                0 <= bb < b + 1 && band_drawn(self@, bb)
                    implies #[trigger] has_job(jobs@, bb) by {
                if bb < b {
                    assert(has_job(before, bb));
                    let k = choose|k: int| 0 <= k < before.len() && #[trigger] before[k].band == bb;
                    assert(k < before.len() <= jobs@.len());
                    assert(jobs@[k].band == before[k].band);
                } else {
                    assert(drawn);
                    let k = jobs@.len() - 1;
                    assert(0 <= k < jobs@.len() && jobs@[k].band == bb);
                }
            }
            b = b + 1;
        }
        jobs
    }

    /// Draws band `band` of the frame into `buf`, which holds the band's
    /// rows: black, then, if the band holds particles, the discs of all
    /// particles from the last to the first.
    pub fn render_band(&self, band: usize, buf: &mut [u16])
        requires
            self@.wf(),
            band < BAND_COUNT,
            old(buf)@.len() == band_rows(band as int) * band_width(),
        ensures
            final(buf)@ == band_image(self@, band as int),
    {
        let ghost v = self@;
        let (band_y0, rows) = band_geometry(band);
        let total: usize = buf.len();
        let mut k: usize = 0;
        while k < total
            invariant
                total == buf@.len(),
                k <= total,
                forall|kk: int| 0 <= kk < k ==> #[trigger] buf@[kk] == 0u16,
            decreases total - k,
        {
            buf[k] = 0;
            k = k + 1;
        }
        assert(buf@ =~= blank_band(rows as int));
        if self.band_used[band] {
            let band_y1: i32 = band_y0 + rows;
            let mut i: usize = self.count;
            while i > 0
                invariant
                    v == self@,
                    v.wf(),
                    i <= v.count,
                    band_y0 == band_start(band as int),
                    rows == band_rows(band as int),
                    band_y1 == band_y0 + rows,
                    buf@.len() == rows * band_width(),
                    buf@ == painted_from(v, band_y0 as int, rows as int, i as int),
                decreases i,
            {
                i = i - 1;
                let ghost before = buf@;
                assert(before == painted_from(v, band_y0 as int, rows as int, i as int + 1));
                let r: i32 = self.sr[i] as i32;
                let cy: i32 = self.sy[i] as i32;
                let cx: i32 = self.sx[i] as i32;
                assert(1 <= v.sr[i as int] <= DISC_MAX_R);
                if cy + r < band_y0 || cy - r >= band_y1 {
                    proof {
                        let base = paint_disc(before, band_y0 as int, rows as int, cx as int, cy as int, r as int, v.sc[i as int], v.spans);
                        lemma_paint_disc_outside(before, band_y0 as int, rows as int, cx as int, cy as int, r as int, v.sc[i as int], v.spans);
                        if r >= 3 {
                            lemma_paint_disc_outside(base, band_y0 as int, rows as int, cx - r / 3, cy - r / 3, r / 2, v.sh[i as int], v.spans);
                        }
                    }
                    continue;
                }
                draw_disc(buf, band_y0, rows, cx, cy, r, self.sc[i], &self.disc_span);
                if HIGHLIGHT_ENABLE && r >= 3 {
                    draw_disc(buf, band_y0, rows, cx - r / 3, cy - r / 3, r / 2, self.sh[i], &self.disc_span);
                }
            }
        }
    }

    /// Remembers which bands held particles in the frame just sent, so that
    /// the next frame clears them.
    pub fn finish_frame(&mut self)
        requires
            old(self)@.wf(),
        ensures
            final(self)@.wf(),
            final(self)@ == (RenderView { band_used_prev: old(self)@.band_used, ..old(self)@ }),
    {
        self.band_used_prev = self.band_used.clone();
    }
}

/// Rounding a square root to the nearest integer has one result.
pub proof fn lemma_rounded_sqrt_unique(n: int, k1: int, k2: int)
    requires
        is_rounded_sqrt(n, k1),
        is_rounded_sqrt(n, k2),
    ensures
        k1 == k2,
{
    if k1 < k2 {
        assert((2 * k1 + 1) * (2 * k1 + 1) <= (2 * k2 - 1) * (2 * k2 - 1)) by (nonlinear_arith)
            requires
                0 <= k1 < k2,
        ;
    } else if k2 < k1 {
        assert((2 * k2 + 1) * (2 * k2 + 1) <= (2 * k1 - 1) * (2 * k1 - 1)) by (nonlinear_arith)
            requires
                0 <= k2 < k1,
        ;
    }
}

/// Every row of a correct span table is symmetric about its middle entry,
/// which holds the radius itself, and its end entries are zero for radii
/// of at least 1 (the disc's top and bottom rows are single pixels).
pub proof fn lemma_spans_symmetric(spans: Seq<Vec<u8>>, r: int, j: int)
    requires
        spans_correct(spans),
        0 <= r <= DISC_MAX_R,
        0 <= j <= 2 * r,
    ensures
        spans[r]@[j] == spans[r]@[2 * r - j],
        spans[r]@[r] == r,
        r >= 1 ==> spans[r]@[0] == 0 && spans[r]@[2 * r] == 0,
{
    assert(span_entry_ok(r, j, spans[r]@[j] as int));
    assert(span_entry_ok(r, 2 * r - j, spans[r]@[2 * r - j] as int));
    assert((2 * r - j - r) * (2 * r - j - r) == (j - r) * (j - r)) by (nonlinear_arith);
    lemma_rounded_sqrt_unique(
        r * r - (j - r) * (j - r),
        spans[r]@[j] as int,
        spans[r]@[2 * r - j] as int,
    );
    assert(span_entry_ok(r, r, spans[r]@[r] as int));
    assert(is_rounded_sqrt(r * r, r)) by (nonlinear_arith)
        requires
            r >= 0,
    ;
    lemma_rounded_sqrt_unique(r * r, spans[r]@[r] as int, r);
    if r >= 1 {
        assert(span_entry_ok(r, 0, spans[r]@[0] as int));
        assert(span_entry_ok(r, 2 * r, spans[r]@[2 * r] as int));
        assert(is_rounded_sqrt(0, 0)) by (nonlinear_arith);
        assert(r * r - (0 - r) * (0 - r) == 0) by (nonlinear_arith);
        assert(r * r - (2 * r - r) * (2 * r - r) == 0) by (nonlinear_arith);
        lemma_rounded_sqrt_unique(0, spans[r]@[0] as int, 0);
        lemma_rounded_sqrt_unique(0, spans[r]@[2 * r] as int, 0);
    }
}

/// Particle `i` paints pixel `k` of a band starting at panel row `y0`: its
/// disc or its highlight disc covers the pixel.
pub open spec fn particle_covers(v: RenderView, y0: int, i: int, k: int) -> bool {
    let r = v.sr[i] as int;
    let cx = v.sx[i] as int;
    let cy = v.sy[i] as int;
    let row = k / band_width();
    let x = k % band_width();
    disc_covers(v.spans, y0, cx, cy, r, row, x) || (HIGHLIGHT_ENABLE && r >= 3 && disc_covers(
        v.spans,
        y0,
        cx - r / 3,
        cy - r / 3,
        r / 2,
        row,
        x,
    ))
}

/// The colour particle `i` gives pixel `k` when it covers it: the highlight
/// colour where the highlight disc lies, else the plain colour.
pub open spec fn particle_color_at(v: RenderView, y0: int, i: int, k: int) -> u16 {
    let r = v.sr[i] as int;
    let cx = v.sx[i] as int;
    let cy = v.sy[i] as int;
    if HIGHLIGHT_ENABLE && r >= 3 && disc_covers(
        v.spans,
        y0,
        cx - r / 3,
        cy - r / 3,
        r / 2,
        k / band_width(),
        k % band_width(),
    ) {
        v.sh[i]
    } else {
        v.sc[i]
    }
}

/// The colour of pixel `k` given by the first of the particles `m..count`
/// that covers it, black if none does.
pub open spec fn front_color(v: RenderView, y0: int, m: int, k: int) -> u16
    decreases v.count - m,
{
    if m >= v.count || m < 0 {
        0u16
    } else if particle_covers(v, y0, m, k) {
        particle_color_at(v, y0, m, k)
    } else {
        front_color(v, y0, m + 1, k)
    }
}

proof fn lemma_painted_from_pixel(v: RenderView, y0: int, rows: int, m: int, k: int)
    requires
        v.wf(),
        0 <= m <= v.count,
        0 <= k < rows * band_width(),
    ensures
        painted_from(v, y0, rows, m).len() == rows * band_width(),
        painted_from(v, y0, rows, m)[k] == front_color(v, y0, m, k),
    decreases v.count - m,
{
    if m < v.count {
        lemma_painted_from_pixel(v, y0, rows, m + 1, k);
        assert forall|kk: int| 0 <= kk < rows * band_width() implies #[trigger] painted_from(
            v,
            y0,
            rows,
            m,
        )[kk] == painted_from(v, y0, rows, m)[kk] by {}
    }
}

/// The picture of a band shows at each pixel the colour of the
/// lowest-numbered particle whose disc or highlight covers it, black where
/// none does or where the band holds no particles: the back-to-front
/// drawing order puts particle 0 on top.
pub proof fn lemma_band_pixel_is_front_color(v: RenderView, b: int, k: int)
    requires
        v.wf(),
        0 <= b < BAND_COUNT,
        0 <= k < band_rows(b) * band_width(),
    ensures
        band_image(v, b).len() == band_rows(b) * band_width(),
        band_image(v, b)[k] == if v.band_used[b] {
            front_color(v, band_start(b), 0, k)
        } else {
            0u16
        },
{
    lemma_painted_from_pixel(v, band_start(b), band_rows(b), 0, k);
}

proof fn lemma_front_color_black(v: RenderView, y0: int, m: int, k: int)
    requires
        0 <= m <= v.count,
        forall|i: int| m <= i < v.count ==> !#[trigger] particle_covers(v, y0, i, k),
    ensures
        front_color(v, y0, m, k) == 0u16,
    decreases v.count - m,
{
    if m < v.count {
        lemma_front_color_black(v, y0, m + 1, k);
    }
}

/// Leaving out the bands that no particle's disc meets does not change the
/// picture: for the state `project_all` leaves (every particle's row fits
/// in 16 bits), the picture of each band is what painting all particles
/// over black gives. It fails for a particle whose row does not fit in 16
/// bits, whose disc is drawn at the truncated row.
pub proof fn lemma_unmarked_band_blank(v: RenderView, ps: Seq<Projected>, b: int)
    requires
        v.wf(),
        0 <= b < BAND_COUNT,
        v.count == ps.len(),
        forall|i: int|
            0 <= i < v.count ==> #[trigger] v.sy[i] as int == ps[i].y && v.sr[i] == clamp_radius(
                ps[i].radius as int,
            ),
        v.band_used[b] <==> exists|i: int| 0 <= i < ps.len() && #[trigger] band_hit(ps[i], b),
    ensures
        band_image(v, b) == painted_from(v, band_start(b), band_rows(b), 0),
{
    let y0 = band_start(b);
    let rows = band_rows(b);
    if !v.band_used[b] {
        assert forall|k: int| 0 <= k < rows * band_width() implies #[trigger] painted_from(
            v,
            y0,
            rows,
            0,
        )[k] == 0u16 by {
            assert forall|i: int| 0 <= i < v.count implies !#[trigger] particle_covers(
                v,
                y0,
                i,
                k,
            ) by {
                assert(!band_hit(ps[i], b));
                assert(v.sy[i] as int == ps[i].y);
                assert(1 <= v.sr[i] <= DISC_MAX_R);
            }
            lemma_front_color_black(v, y0, 0, k);
            lemma_painted_from_pixel(v, y0, rows, 0, k);
        }
        lemma_painted_from_pixel(v, y0, rows, 0, 0);
        assert(painted_from(v, y0, rows, 0) =~= blank_band(rows));
    }
}

/// The rasterised disc of radius `r` (as the span table draws it) holds
/// every pixel whose offset `(dx, dy)` from the centre lies within distance
/// `r`, and none whose squared distance exceeds `r * r + r`, i.e. none
/// farther than about `r + 1/2`.
pub proof fn lemma_disc_geometry(spans: Seq<Vec<u8>>, r: int, dx: int, dy: int)
    requires
        spans_correct(spans),
        1 <= r <= DISC_MAX_R,
    ensures
        dx * dx + dy * dy <= r * r ==> -r <= dy <= r && -(spans[r]@[dy + r] as int) <= dx
            <= spans[r]@[dy + r] as int,
        -r <= dy <= r && -(spans[r]@[dy + r] as int) <= dx <= spans[r]@[dy + r] as int ==> dx
            * dx + dy * dy <= r * r + r,
{
    if -r <= dy <= r {
        let j = dy + r;
        let w = spans[r]@[j] as int;
        assert(span_entry_ok(r, j, w));
        let n = r * r - dy * dy;
        assert(n == r * r - (j - r) * (j - r));
        assert(is_rounded_sqrt(n, w));
        assert(0 <= n <= r * r) by (nonlinear_arith)
            requires
                -r <= dy <= r,
                n == r * r - dy * dy,
        ;
        assert(dx * dx <= n ==> -w <= dx <= w) by (nonlinear_arith)
            requires
                4 * n < (2 * w + 1) * (2 * w + 1),
                w >= 0,
        {
            if dx * dx <= n && (dx > w || dx < -w) {
                assert((w + 1) * (w + 1) <= dx * dx) by (nonlinear_arith)
                    requires
                        dx > w || dx < -w,
                        w >= 0,
                ;
            }
        }
        assert(-w <= dx <= w ==> dx * dx <= n + r) by (nonlinear_arith)
            requires
                w == 0 || (2 * w - 1) * (2 * w - 1) <= 4 * n,
                4 * n < (2 * w + 1) * (2 * w + 1),
                w >= 0,
                0 <= n <= r * r,
                r >= 1,
        {
            if -w <= dx <= w {
                assert(dx * dx <= w * w) by (nonlinear_arith)
                    requires
                        -w <= dx <= w,
                ;
                assert(w <= r) by (nonlinear_arith)
                    requires
                        4 * n < (2 * w + 1) * (2 * w + 1),
                        w == 0 || (2 * w - 1) * (2 * w - 1) <= 4 * n,
                        n <= r * r,
                        r >= 1,
                        w >= 0,
                {
                    if w > r {
                        assert((2 * r + 1) * (2 * r + 1) <= (2 * w - 1) * (2 * w - 1)) by (
                        nonlinear_arith)
                            requires
                                w > r,
                                r >= 1,
                        ;
                    }
                }
            }
        }
    } else {
        assert(dx * dx + dy * dy > r * r) by (nonlinear_arith)
            requires
                dy > r || dy < -r,
                r >= 1,
        ;
    }
}

/// Drawing with a radius outside `1..=DISC_MAX_R` draws the disc of the
/// nearest radius in that range, and drawing the same disc a second time
/// changes nothing.
pub proof fn lemma_paint_disc_clamp_idempotent(
    img: Seq<u16>,
    y0: int,
    rows: int,
    cx: int,
    cy: int,
    r: int,
    color: u16,
    spans: Seq<Vec<u8>>,
)
    ensures
        paint_disc(img, y0, rows, cx, cy, r, color, spans) == paint_disc(
            img,
            y0,
            rows,
            cx,
            cy,
            clamp_radius(r),
            color,
            spans,
        ),
        paint_disc(paint_disc(img, y0, rows, cx, cy, r, color, spans), y0, rows, cx, cy, r, color, spans)
            == paint_disc(img, y0, rows, cx, cy, r, color, spans),
{
    assert(paint_disc(img, y0, rows, cx, cy, r, color, spans) =~= paint_disc(
        img,
        y0,
        rows,
        cx,
        cy,
        clamp_radius(r),
        color,
        spans,
    ));
    assert(paint_disc(paint_disc(img, y0, rows, cx, cy, r, color, spans), y0, rows, cx, cy, r, color, spans)
        =~= paint_disc(img, y0, rows, cx, cy, r, color, spans));
}

/// A band that held particles in the last frame and holds none now is
/// drawn once more, blank, which erases them; once `finish_frame` has
/// handed this frame's bands on, it is not drawn again until a particle
/// reaches it.
pub proof fn lemma_stale_band_cleared_once(v: RenderView, next: RenderView, b: int)
    requires
        v.wf(),
        0 <= b < BAND_COUNT,
        v.band_used_prev[b],
        !v.band_used[b],
        next.band_used_prev == v.band_used,
        !next.band_used[b],
    ensures
        band_drawn(v, b),
        band_image(v, b) == blank_band(band_rows(b)),
        !band_drawn(next, b),
{
}

proof fn lemma_span_entry_unique(r: int, j: int, w1: int, w2: int)
    requires
        span_entry_ok(r, j, w1),
        span_entry_ok(r, j, w2),
    ensures
        w1 == w2,
{
    if j <= 2 * r {
        lemma_rounded_sqrt_unique(r * r - (j - r) * (j - r), w1, w2);
    }
}

/// Preparing the renderer twice with the same colour channels gives the
/// same state as preparing it once: the same tables, span entries and band
/// marks, with the bands of the current frame kept.
pub proof fn lemma_init_idempotent(
    v0: RenderView,
    v1: RenderView,
    v2: RenderView,
    base: Seq<(i32, i32, i32)>,
    lifted: Seq<(i32, i32, i32)>,
)
    requires
        init_result(v0, v1, base, lifted),
        init_result(v1, v2, base, lifted),
    ensures
        v2.color_lut == v1.color_lut,
        v2.highlight_lut == v1.highlight_lut,
        v2.band_used_prev == v1.band_used_prev,
        v2.band_used == v1.band_used,
        v2.band_used == v0.band_used,
        v2.count == v1.count,
        v2.sx == v1.sx && v2.sy == v1.sy && v2.sr == v1.sr && v2.sc == v1.sc && v2.sh == v1.sh,
        forall|r: int, j: int|
            0 <= r <= DISC_MAX_R && 0 <= j < 2 * DISC_MAX_R + 1 ==> #[trigger] v2.spans[r]@[j]
                == v1.spans[r]@[j],
{
    assert forall|r: int, j: int|
        0 <= r <= DISC_MAX_R && 0 <= j < 2 * DISC_MAX_R + 1 implies #[trigger] v2.spans[r]@[j]
        == v1.spans[r]@[j] by {
        assert(span_entry_ok(r, j, v1.spans[r]@[j] as int));
        assert(span_entry_ok(r, j, v2.spans[r]@[j] as int));
        lemma_span_entry_unique(r, j, v1.spans[r]@[j] as int, v2.spans[r]@[j] as int);
    }
}

/// Every pixel of the band whose centre lies within the radius (limited to
/// `1..=10`) of the disc's centre takes the disc's colour, and every pixel
/// farther than `sqrt(r*r + r)` keeps its value: the disc is drawn on all
/// of the band's rows, whichever rows of the disc the band holds.
pub proof fn lemma_draw_disc_circle(
    img: Seq<u16>,
    y0: int,
    rows: int,
    cx: int,
    cy: int,
    r: int,
    color: u16,
    spans: Seq<Vec<u8>>,
    row: int,
    x: int,
)
    requires
        spans_correct(spans),
        0 <= row < rows,
        0 <= x < 466,
        row * 466 + x < img.len(),
    ensures
        ({
            let rr = if r < 1 {
                1
            } else if r > 10 {
                10
            } else {
                r
            };
            let dx = x - cx;
            let dy = y0 + row - cy;
            let k = row * 466 + x;
            &&& dx * dx + dy * dy <= rr * rr ==> paint_disc(img, y0, rows, cx, cy, r, color, spans)[k]
                == color
            &&& dx * dx + dy * dy > rr * rr + rr ==> paint_disc(
                img,
                y0,
                rows,
                cx,
                cy,
                r,
                color,
                spans,
            )[k] == img[k]
        }),
{
    let rr = clamp_radius(r);
    let k = row * 466 + x;
    assert(k / 466 == row && k % 466 == x);
    assert(0 <= k);
    assert(k < rows * 466) by (nonlinear_arith)
        requires
            0 <= row < rows,
            0 <= x < 466,
            k == row * 466 + x,
    ;
    lemma_disc_geometry(spans, rr, x - cx, y0 + row - cy);
}

proof fn lemma_far_not_covered(v: RenderView, y0: int, j: int, k: int)
    requires
        v.wf(),
        spans_correct(v.spans),
        0 <= j < v.count,
        0 <= k,
        ({
            let dx = k % band_width() - v.sx[j];
            let dy = y0 + k / band_width() - v.sy[j];
            dx * dx + dy * dy > 4 * v.sr[j] * v.sr[j]
        }),
    ensures
        !particle_covers(v, y0, j, k),
{
    let r = v.sr[j] as int;
    let cx = v.sx[j] as int;
    let cy = v.sy[j] as int;
    let row = k / band_width();
    let x = k % band_width();
    let dx = x - cx;
    let dy = y0 + row - cy;
    assert(1 <= r <= DISC_MAX_R);
    lemma_disc_geometry(v.spans, r, dx, dy);
    assert(r * r + r < 4 * r * r) by (nonlinear_arith)
        requires
            r >= 1,
    ;
    if r >= 3 {
        let t = r / 3;
        let h = r / 2;
        let ex = x - (cx - t);
        let ey = y0 + row - (cy - t);
        lemma_disc_geometry(v.spans, h, ex, ey);
        assert(ex * ex + ey * ey <= h * h + h ==> dx * dx + dy * dy <= 4 * r * r) by (
        nonlinear_arith)
            requires
                3 <= r <= 10,
                0 <= 3 * t <= r,
                0 <= 2 * h <= r,
                dx == ex - t,
                dy == ey - t,
        {
            if ex * ex + ey * ey <= h * h + h {
                assert(dx * dx <= 2 * ex * ex + 2 * t * t) by (nonlinear_arith)
                    requires
                        dx == ex - t,
                ;
                assert(dy * dy <= 2 * ey * ey + 2 * t * t) by (nonlinear_arith)
                    requires
                        dy == ey - t,
                ;
                assert(9 * (t * t) <= r * r) by (nonlinear_arith)
                    requires
                        0 <= 3 * t <= r,
                ;
                assert(4 * (h * h) <= r * r) by (nonlinear_arith)
                    requires
                        0 <= 2 * h <= r,
                ;
            }
        }
    }
}

proof fn lemma_front_color_skip(v: RenderView, y0: int, m: int, i: int, k: int)
    requires
        0 <= m <= i < v.count,
        forall|j: int| m <= j < i ==> !#[trigger] particle_covers(v, y0, j, k),
    ensures
        front_color(v, y0, m, k) == front_color(v, y0, i, k),
    decreases i - m,
{
    if m < i {
        lemma_front_color_skip(v, y0, m + 1, i, k);
    }
}

/// The highlight of a particle of radius at least 3 sits up and to the
/// left of it: at the pixel a third of the radius left of and above its
/// centre, the band shows the particle's highlight colour, unless a
/// lower-numbered particle lies on top there (one whose centre is within
/// twice its radius of the pixel).
pub proof fn lemma_highlight_up_left(v: RenderView, b: int, i: int)
    requires
        v.wf(),
        spans_correct(v.spans),
        0 <= b < BAND_COUNT,
        v.band_used[b],
        0 <= i < v.count,
        3 <= v.sr[i],
        ({
            let hx = v.sx[i] - v.sr[i] / 3;
            let hy = v.sy[i] - v.sr[i] / 3;
            &&& 0 <= hx < 466
            &&& b * 22 <= hy < b * 22 + band_rows(b)
            &&& forall|j: int|
                0 <= j < i ==> (hx - v.sx[j]) * (hx - v.sx[j]) + (hy - v.sy[j]) * (hy - v.sy[j])
                    > 4 * #[trigger] v.sr[j] * v.sr[j]
        }),
    ensures
        band_image(v, b)[(v.sy[i] - v.sr[i] / 3 - b * 22) * 466 + v.sx[i] - v.sr[i] / 3] == v.sh[i],
{
    let r = v.sr[i] as int;
    let hx = v.sx[i] - r / 3;
    let hy = v.sy[i] - r / 3;
    let y0 = band_start(b);
    let row = hy - y0;
    let k = row * 466 + hx;
    assert(k / 466 == row && k % 466 == hx);
    assert(0 <= k < band_rows(b) * band_width()) by (nonlinear_arith)
        requires
            0 <= row < band_rows(b),
            0 <= hx < 466,
            k == row * 466 + hx,
            band_width() == 466,
    ;
    lemma_band_pixel_is_front_color(v, b, k);
    assert forall|j: int| 0 <= j < i implies !#[trigger] particle_covers(v, y0, j, k) by {
        assert(v.sr[j] == v.sr[j]);
        lemma_far_not_covered(v, y0, j, k);
    }
    lemma_front_color_skip(v, y0, 0, i, k);
    assert(disc_covers(v.spans, y0, v.sx[i] - r / 3, v.sy[i] - r / 3, r / 2, row, hx));
    assert(particle_covers(v, y0, i, k));
}

/// The particle's own colour shows to the right of its centre: at the
/// pixel half its radius right of the centre, the band shows the plain
/// colour (the highlight, up and to the left, does not reach there),
/// unless a lower-numbered particle lies on top there.
pub proof fn lemma_plain_color_right(v: RenderView, b: int, i: int)
    requires
        v.wf(),
        spans_correct(v.spans),
        0 <= b < BAND_COUNT,
        v.band_used[b],
        0 <= i < v.count,
        ({
            let px = v.sx[i] + v.sr[i] / 2;
            let py = v.sy[i] as int;
            &&& 0 <= px < 466
            &&& b * 22 <= py < b * 22 + band_rows(b)
            &&& forall|j: int|
                0 <= j < i ==> (px - v.sx[j]) * (px - v.sx[j]) + (py - v.sy[j]) * (py - v.sy[j])
                    > 4 * #[trigger] v.sr[j] * v.sr[j]
        }),
    ensures
        band_image(v, b)[(v.sy[i] - b * 22) * 466 + v.sx[i] + v.sr[i] / 2] == v.sc[i],
{
    let r = v.sr[i] as int;
    let px = v.sx[i] + r / 2;
    let py = v.sy[i] as int;
    let y0 = band_start(b);
    let row = py - y0;
    let k = row * 466 + px;
    assert(k / 466 == row && k % 466 == px);
    assert(0 <= k < band_rows(b) * band_width()) by (nonlinear_arith)
        requires
            0 <= row < band_rows(b),
            0 <= px < 466,
            k == row * 466 + px,
            band_width() == 466,
    ;
    lemma_band_pixel_is_front_color(v, b, k);
    assert forall|j: int| 0 <= j < i implies !#[trigger] particle_covers(v, y0, j, k) by {
        assert(v.sr[j] == v.sr[j]);
        lemma_far_not_covered(v, y0, j, k);
    }
    lemma_front_color_skip(v, y0, 0, i, k);
    assert(1 <= r <= DISC_MAX_R);
    lemma_disc_geometry(v.spans, r, r / 2, 0);
    assert((r / 2) * (r / 2) <= r * r) by (nonlinear_arith)
        requires
            1 <= r <= 10,
    ;
    if r >= 3 {
        let t = r / 3;
        let h = r / 2;
        lemma_disc_geometry(v.spans, h, h + t, t);
        assert((h + t) * (h + t) + t * t > h * h + h) by (nonlinear_arith)
            requires
                3 <= r <= 10,
                t == r / 3,
                h == r / 2,
        ;
    }
    assert(particle_covers(v, y0, i, k));
}

/// Band `b` starts at panel row `22 * b` and holds 22 rows, except the last
/// band (21), which holds the remaining 4.
pub proof fn lemma_band_layout(b: int)
    requires
        0 <= b < BAND_COUNT,
    ensures
        band_start(b) == 22 * b,
        band_rows(b) == if b == 21 {
            4int
        } else {
            22int
        },
        BAND_COUNT == 22,
{
}

/// Exchanging the bytes twice gives the value back.
pub proof fn lemma_swap16_involution(v: u16)
    ensures
        swap16_spec(swap16_spec(v)) == v,
{
    assert(swap16_spec(swap16_spec(v)) == v) by (bit_vector);
}

} // verus!
