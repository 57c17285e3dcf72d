use mandelbrot::fixed::SCALE;
use mandelbrot::mandelbrot::{evaluate, Mandelbrot};
use mandelbrot::render::{render_frame, Rgba};
use mandelbrot::viewport::Viewport;

fn test_palette(len: u32) -> Vec<Rgba> {
    let mut palette = Vec::new();
    for i in 0..len {
        palette.push(Rgba { r: i as u8, g: 100, b: 50, a: 255 });
    }
    palette
}

#[test]
fn full_frame_is_deterministic() {
    let m = Mandelbrot::new(300, 300, 100, 16 * SCALE);
    let v = Viewport::new(2 * SCALE);
    let palette = test_palette(100);
    let first = render_frame(&m, &v, &palette);
    let second = render_frame(&m, &v, &palette);
    assert_eq!(first.len(), 4 * 300 * 300);
    assert_eq!(first, second);
}

#[test]
fn in_set_pixel_is_black() {
    let m = Mandelbrot::new(300, 300, 100, 16 * SCALE);
    let v = Viewport::new(2 * SCALE);
    // Pixel (112, 75) maps to about (-0.0067, 0), well inside the set,
    // so it gets the fixed in-set color, not a palette entry.
    let palette = test_palette(100);
    let buf = render_frame(&m, &v, &palette);
    let idx = (75 * 300 + 112) * 4;
    assert_eq!(&buf[idx..idx + 4], &[0, 0, 0, 255]);
}

#[test]
fn diverging_pixel_takes_its_palette_entry() {
    // A 1x1 view: its only pixel maps to (-1.5, -1.0), and |c|^2 = 3.25
    // exceeds a threshold of 3 at the very first step.
    let m = Mandelbrot::new(1, 1, 5, 3 * SCALE);
    let v = Viewport::new(SCALE);
    let palette = test_palette(5);
    let buf = render_frame(&m, &v, &palette);
    assert_eq!(buf, vec![0, 100, 50, 255]);
}

#[test]
fn frame_agrees_with_the_evaluator() {
    let m = Mandelbrot::new(64, 64, 50, 16 * SCALE);
    let v = Viewport::new(2 * SCALE);
    let palette = test_palette(50);
    let buf = render_frame(&m, &v, &palette);
    assert_eq!(buf.len(), 4 * 64 * 64);
    for &(x, y) in &[(0u32, 0u32), (31, 17), (63, 63), (20, 40)] {
        let p = v.to_plane(x, y, 64, 64);
        let expected = match evaluate(p.0, p.1, 50, 16 * SCALE) {
            Some(n) => palette[n as usize],
            None => Rgba { r: 0, g: 0, b: 0, a: 255 },
        };
        let idx = ((y * 64 + x) * 4) as usize;
        assert_eq!(&buf[idx..idx + 4], &[expected.r, expected.g, expected.b, expected.a]);
    }
}
