use fluidbox::config::LCD_H_RES;
use fluidbox::pattern::{draw_band, rgb565};

const W: usize = LCD_H_RES as usize;

#[test]
fn pattern_rgb565_is_byte_swapped() {
    assert_eq!(rgb565(255, 255, 255), 0xFFFF);
    assert_eq!(rgb565(10, 45, 165), 0x7409);
    assert_eq!(rgb565(255, 0, 0), 0x00F8);
    assert_eq!(rgb565(255, 0, 0), fluidbox::render::swap16(fluidbox::render::rgb565(255, 0, 0)));
}

#[test]
fn top_band_of_pattern() {
    let mut band = vec![0x1234u16; 22 * W];
    draw_band(&mut band, 0, 22);
    let at = |row: usize, x: usize| band[row * W + x];
    // Row 0 lies wholly outside the inscribed circle.
    assert!((0..W).all(|x| at(0, x) == 0));
    // Row 1 touches the ring between columns 216 and 249.
    assert_eq!(at(1, 215), 0);
    assert_eq!(at(1, 216), 0xFFFF);
    assert_eq!(at(1, 232), 0xFFFF);
    assert_eq!(at(1, 233), 0xFFFF);
    assert_eq!(at(1, 249), 0xFFFF);
    assert_eq!(at(1, 250), 0);
    assert_eq!(at(21, 0), 0);
}

#[test]
fn whole_pattern_pixel_count() {
    let mut white = 0usize;
    for b in 0..22 {
        let rows = if b == 21 { 4 } else { 22 };
        let mut band = vec![0u16; 22 * W];
        draw_band(&mut band, (b * 22) as i32, rows);
        white += band.iter().filter(|&&p| p == 0xFFFF).count();
        assert!(band.iter().all(|&p| p == 0 || p == 0xFFFF));
    }
    assert_eq!(white, 6484);
}

#[test]
fn pattern_centre_and_clearing() {
    let mut band = vec![7u16; 3 * W + 10];
    draw_band(&mut band, 231, 3);
    // The middle rows 232 and 233 are white across the circle.
    assert_eq!(band[W + 232], 0xFFFF);
    assert_eq!(band[W + 100], 0xFFFF);
    assert_eq!(band[W], 0);
    assert_eq!(band[W + 1], 0xFFFF);
    assert_eq!(band[W + 464], 0xFFFF);
    assert_eq!(band[W + 465], 0);
    assert_eq!(band[2 * W + 1], 0xFFFF);
    // Row 231 holds only the ring and the middle columns.
    assert_eq!(band[232], 0xFFFF);
    assert_eq!(band[233], 0xFFFF);
    assert_eq!(band[231], 0);
    // The tail past the band's rows is cleared too.
    assert!(band[3 * W..].iter().all(|&p| p == 0));
}

#[test]
fn pattern_into_short_buffer_is_cut_off() {
    // Two rows asked for, one and a half fit: the rest is left out.
    let mut short = vec![5u16; W + W / 2];
    draw_band(&mut short, 232, 2);
    let mut full = vec![0u16; 2 * W];
    draw_band(&mut full, 232, 2);
    assert_eq!(&short[..], &full[..W + W / 2]);
}

#[test]
fn pattern_rows_outside_panel_are_black() {
    let mut band = vec![9u16; 2 * W];
    draw_band(&mut band, -500, 2);
    assert!(band.iter().all(|&p| p == 0));
    let mut none = vec![9u16; W];
    draw_band(&mut none, 0, 0);
    assert!(none.iter().all(|&p| p == 0));
}

fn whole_panel() -> Vec<u16> {
    let mut panel = Vec::new();
    for b in 0..22 {
        let rows = if b == 21 { 4 } else { 22 };
        let mut band = vec![0u16; rows * W];
        draw_band(&mut band, (b * 22) as i32, rows as i32);
        panel.extend_from_slice(&band);
    }
    panel
}

#[test]
fn pattern_is_symmetric() {
    let panel = whole_panel();
    assert_eq!(panel.len(), W * W);
    for y in 0..W {
        for x in 0..W {
            let p = panel[y * W + x];
            assert_eq!(p, panel[y * W + (465 - x)], "mirror x at {x},{y}");
            assert_eq!(p, panel[(465 - y) * W + x], "mirror y at {x},{y}");
            assert_eq!(p, panel[x * W + y], "transpose at {x},{y}");
        }
    }
}

#[test]
fn pattern_lies_inside_inscribed_circle() {
    let panel = whole_panel();
    for y in 0..W as i64 {
        for x in 0..W as i64 {
            if panel[(y as usize) * W + x as usize] == 0xFFFF {
                let (ex, ey) = (2 * x - 465, 2 * y - 465);
                assert!(ex * ex + ey * ey <= 465 * 465);
            }
        }
    }
}
