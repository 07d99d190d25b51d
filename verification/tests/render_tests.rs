use fluidbox::config::{BAND_COUNT, DISC_MAX_R, LCD_H_RES, PARTICLE_MAX};
use fluidbox::render::{
    band_geometry, disc_spans, draw_disc, rgb565, swap16, BandJob, Projected, Render, LUT_LEN,
};

const W: usize = LCD_H_RES as usize;

fn blank(rows: usize) -> Vec<u16> {
    vec![0u16; rows * W]
}

#[test]
fn swap16_exchanges_bytes() {
    assert_eq!(swap16(0x1234), 0x3412);
    assert_eq!(swap16(0x00F8), 0xF800);
    assert_eq!(swap16(swap16(0xBEEF)), 0xBEEF);
}

#[test]
fn rgb565_packs_top_bits() {
    assert_eq!(rgb565(255, 255, 255), 0xFFFF);
    assert_eq!(rgb565(0, 0, 0), 0);
    assert_eq!(rgb565(255, 0, 0), 0xF800);
    assert_eq!(rgb565(0, 255, 0), 0x07E0);
    assert_eq!(rgb565(0, 0, 255), 0x001F);
    assert_eq!(rgb565(10, 45, 165), 0x0974);
}

#[test]
fn rgb565_limits_channels() {
    assert_eq!(rgb565(-5, 300, 128), 2032);
    assert_eq!(rgb565(1000, -1000, 1000), rgb565(255, 0, 255));
}

#[test]
fn disc_spans_are_rounded_half_widths() {
    let spans = disc_spans();
    assert_eq!(spans.len(), DISC_MAX_R + 1);
    assert_eq!(
        spans[10],
        vec![0u8, 4, 6, 7, 8, 9, 9, 10, 10, 10, 10, 10, 10, 10, 9, 9, 8, 7, 6, 4, 0]
    );
    assert_eq!(&spans[2][..5], &[0u8, 2, 2, 2, 0]);
    assert!(spans[2][5..].iter().all(|&w| w == 0));
    assert_eq!(spans[0][0], 0);
    assert_eq!(spans[1][..3], [0u8, 1, 0]);
}

#[test]
fn draw_disc_fills_exactly_the_disc() {
    let spans = disc_spans();
    let mut buf = blank(22);
    draw_disc(&mut buf, 0, 22, 100, 10, 2, 7, &spans);
    let painted: Vec<(usize, usize)> = (0..buf.len())
        .filter(|&k| buf[k] == 7)
        .map(|k| (k / W, k % W))
        .collect();
    assert_eq!(painted.len(), 17);
    assert!(painted.contains(&(8, 100)));
    assert!(!painted.contains(&(8, 99)));
    assert!(painted.contains(&(10, 98)));
    assert!(painted.contains(&(10, 102)));
    assert!(!painted.contains(&(10, 103)));
    assert!(painted.contains(&(12, 100)));
    assert!(buf.iter().all(|&p| p == 0 || p == 7));
}

#[test]
fn draw_disc_clips_to_band_and_panel() {
    let spans = disc_spans();
    let mut buf = blank(4);
    // Centre above the band's first row and left of the first column.
    draw_disc(&mut buf, 22, 4, 0, 20, 3, 9, &spans);
    // Rows 22 and 23 are 2 and 3 below the centre: half-widths 2 and 0.
    assert_eq!(buf[0], 9);
    assert_eq!(buf[1], 9);
    assert_eq!(buf[2], 9);
    assert_eq!(buf[3], 0);
    assert_eq!(buf[W], 9);
    assert_eq!(buf[W + 1], 0);
    assert!(buf[2 * W..].iter().all(|&p| p == 0));
    // A disc wholly outside the band leaves the buffer untouched.
    let mut other = blank(4);
    draw_disc(&mut other, 22, 4, 200, 100, 10, 5, &spans);
    assert!(other.iter().all(|&p| p == 0));
}

#[test]
fn draw_disc_limits_radius() {
    let spans = disc_spans();
    let mut a = blank(22);
    let mut b = blank(22);
    draw_disc(&mut a, 0, 22, 50, 11, 0, 1, &spans);
    draw_disc(&mut b, 0, 22, 50, 11, 1, 1, &spans);
    assert_eq!(a, b);
    let mut c = blank(22);
    let mut d = blank(22);
    draw_disc(&mut c, 0, 22, 50, 11, 40, 1, &spans);
    draw_disc(&mut d, 0, 22, 50, 11, 10, 1, &spans);
    assert_eq!(c, d);
}

#[test]
fn band_geometry_covers_panel() {
    assert_eq!(band_geometry(0), (0, 22));
    assert_eq!(band_geometry(20), (440, 22));
    assert_eq!(band_geometry(21), (462, 4));
    let total: i32 = (0..BAND_COUNT).map(|b| band_geometry(b).1).sum();
    assert_eq!(total, 466);
}

fn ready_render() -> Render {
    let mut rd = Render::empty();
    let base = vec![(255, 0, 0); LUT_LEN];
    let lifted = vec![(255, 255, 255); LUT_LEN];
    rd.init(&base, &lifted);
    rd
}

#[test]
fn first_frame_clears_every_band() {
    let rd = ready_render();
    let jobs = rd.plan_frame();
    assert_eq!(jobs.len(), BAND_COUNT);
    for (k, job) in jobs.iter().enumerate() {
        let (y0, rows) = band_geometry(k);
        assert_eq!(*job, BandJob { band: k, y0, rows, buffer: k % 2 });
    }
}

#[test]
fn empty_renderer_plans_nothing() {
    let rd = Render::empty();
    assert!(rd.plan_frame().is_empty());
}

#[test]
fn frame_with_one_particle() {
    let mut rd = ready_render();
    let p = Projected { x: 233, y: 30, radius: 5, speed_level: 0, depth_level: 0 };
    rd.project_all(&[p]);
    let jobs = rd.plan_frame();
    assert_eq!(jobs.len(), BAND_COUNT);

    let mut buf = blank(22);
    rd.render_band(1, &mut buf);
    let at = |row: usize, x: usize| buf[row * W + x];
    // Inside the highlight (centre 232, 29, radius 2).
    assert_eq!(at(8, 233), 0xFFFF);
    // Inside the plain disc only.
    assert_eq!(at(8, 237), 0x00F8);
    // Outside the disc.
    assert_eq!(at(8, 240), 0);
    assert_eq!(at(0, 233), 0);

    let mut other = vec![0x5555u16; 22 * W];
    rd.render_band(5, &mut other);
    assert!(other.iter().all(|&p| p == 0));

    rd.finish_frame();
    let jobs = rd.plan_frame();
    assert_eq!(jobs, vec![BandJob { band: 1, y0: 22, rows: 22, buffer: 0 }]);
}

#[test]
fn particle_spanning_two_bands_marks_both() {
    let mut rd = ready_render();
    rd.finish_frame();
    let p = Projected { x: 100, y: 43, radius: 3, speed_level: 70, depth_level: -2 };
    rd.project_all(&[p]);
    let bands: Vec<usize> = rd.plan_frame().iter().map(|j| j.band).collect();
    assert_eq!(bands, vec![1, 2]);
    let buffers: Vec<usize> = rd.plan_frame().iter().map(|j| j.buffer).collect();
    assert_eq!(buffers, vec![0, 1]);
}

#[test]
fn particles_off_panel_mark_no_band() {
    let mut rd = ready_render();
    rd.finish_frame();
    let ps = [
        Projected { x: 10, y: -20, radius: 4, speed_level: 0, depth_level: 0 },
        Projected { x: 10, y: 480, radius: 4, speed_level: 0, depth_level: 0 },
    ];
    rd.project_all(&ps);
    assert!(rd.plan_frame().is_empty());
}

#[test]
fn particle_at_panel_bottom_marks_last_band() {
    let mut rd = ready_render();
    rd.finish_frame();
    let p = Projected { x: 10, y: 470, radius: 5, speed_level: 0, depth_level: 0 };
    rd.project_all(&[p]);
    let bands: Vec<usize> = rd.plan_frame().iter().map(|j| j.band).collect();
    assert_eq!(bands, vec![21]);
}

#[test]
fn lower_numbered_particle_is_on_top() {
    let mut rd = Render::empty();
    let mut base = vec![(0, 0, 0); LUT_LEN];
    base[0] = (255, 0, 0);
    base[1] = (0, 0, 255);
    let lifted = base.clone();
    rd.init(&base, &lifted);
    let ps = [
        Projected { x: 100, y: 10, radius: 2, speed_level: 0, depth_level: 0 },
        Projected { x: 101, y: 10, radius: 2, speed_level: 1, depth_level: 0 },
    ];
    rd.project_all(&ps);
    let mut buf = blank(22);
    rd.render_band(0, &mut buf);
    let red = swap16(rgb565(255, 0, 0));
    let blue = swap16(rgb565(0, 0, 255));
    assert_eq!(buf[10 * W + 100], red);
    assert_eq!(buf[10 * W + 102], red);
    assert_eq!(buf[10 * W + 103], blue);
}

#[test]
fn color_table_is_byte_swapped_rgb565() {
    let mut rd = Render::empty();
    let base: Vec<(i32, i32, i32)> = (0..LUT_LEN as i32).map(|i| (i % 256, 0, 0)).collect();
    let lifted = vec![(0, 0, 0); LUT_LEN];
    rd.build_color_lut(&base, &lifted);
    rd.build_disc_spans();
    // depth 3, speed 5 selects entry 3 * 64 + 5 = 197.
    let p = Projected { x: 50, y: 11, radius: 1, speed_level: 5, depth_level: 3 };
    rd.project_all(&[p]);
    let mut buf = blank(22);
    rd.render_band(0, &mut buf);
    assert_eq!(buf[11 * W + 50], swap16(rgb565(197, 0, 0)));
}

#[test]
fn projecting_the_maximum_count() {
    let mut rd = ready_render();
    let ps = vec![Projected { x: 233, y: 233, radius: 1, speed_level: 0, depth_level: 0 }; PARTICLE_MAX];
    rd.project_all(&ps);
    rd.finish_frame();
    let bands: Vec<usize> = rd.plan_frame().iter().map(|j| j.band).collect();
    assert_eq!(bands, vec![10]);
}

#[test]
fn span_rows_are_symmetric_and_peak_at_radius() {
    let spans = disc_spans();
    for r in 0..=DISC_MAX_R {
        for j in 0..=2 * r {
            assert_eq!(spans[r][j], spans[r][2 * r - j]);
        }
        assert_eq!(spans[r][r] as usize, r);
        if r >= 1 {
            assert_eq!(spans[r][0], 0);
        }
    }
}

#[test]
fn drawn_disc_matches_circle() {
    let spans = disc_spans();
    for r in 1..=DISC_MAX_R as i32 {
        let mut buf = blank(22);
        draw_disc(&mut buf, 0, 22, 200, 11, r, 1, &spans);
        for row in 0..22i32 {
            for x in 0..W as i32 {
                let (dx, dy) = (x - 200, row - 11);
                let d2 = dx * dx + dy * dy;
                let on = buf[row as usize * W + x as usize] == 1;
                if d2 <= r * r {
                    assert!(on, "r={r} missing {dx},{dy}");
                }
                if on {
                    assert!(d2 <= r * r + r, "r={r} extra {dx},{dy}");
                }
            }
        }
    }
}

#[test]
fn draw_disc_into_short_buffer_is_cut_off() {
    let spans = disc_spans();
    let mut short = vec![0u16; 10 * W + 50];
    draw_disc(&mut short, 0, 22, 100, 10, 3, 4, &spans);
    let mut full = blank(22);
    draw_disc(&mut full, 0, 22, 100, 10, 3, 4, &spans);
    assert_eq!(&short[..], &full[..10 * W + 50]);
    // Drawing the same disc again changes nothing.
    let again = full.clone();
    draw_disc(&mut full, 0, 22, 100, 10, 3, 4, &spans);
    assert_eq!(full, again);
}

#[test]
fn init_twice_is_init_once() {
    let base = vec![(10, 20, 30); LUT_LEN];
    let lifted = vec![(200, 210, 220); LUT_LEN];
    let mut a = Render::empty();
    a.init(&base, &lifted);
    let mut b = Render::empty();
    b.init(&base, &lifted);
    b.init(&base, &lifted);
    let p = [Projected { x: 233, y: 100, radius: 6, speed_level: 3, depth_level: 2 }];
    a.project_all(&p);
    b.project_all(&p);
    assert_eq!(a.plan_frame(), b.plan_frame());
    let (mut x, mut y) = (blank(22), blank(22));
    a.render_band(4, &mut x);
    b.render_band(4, &mut y);
    assert_eq!(x, y);
    assert!(x.iter().any(|&p| p != 0));
}

#[test]
fn stale_band_cleared_once() {
    let mut rd = ready_render();
    rd.finish_frame();
    rd.project_all(&[Projected { x: 100, y: 50, radius: 3, speed_level: 0, depth_level: 0 }]);
    rd.finish_frame();
    rd.project_all(&[Projected { x: 100, y: 300, radius: 3, speed_level: 0, depth_level: 0 }]);
    let bands: Vec<usize> = rd.plan_frame().iter().map(|j| j.band).collect();
    assert_eq!(bands, vec![2, 13]);
    let mut buf = vec![0xAAAAu16; 22 * W];
    rd.render_band(2, &mut buf);
    assert!(buf.iter().all(|&p| p == 0));
    rd.finish_frame();
    rd.project_all(&[Projected { x: 100, y: 300, radius: 3, speed_level: 0, depth_level: 0 }]);
    let bands: Vec<usize> = rd.plan_frame().iter().map(|j| j.band).collect();
    assert_eq!(bands, vec![13]);
}
