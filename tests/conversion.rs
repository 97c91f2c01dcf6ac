use ascii_art::cli::Commands;
use ascii_art::dims::demure_unwrap;
use ascii_art::engine::{convert, AsciiImg};
use ascii_art::glyph::{classify, ColorChar, DensityRamp, Options, UsageError};
use ascii_art::pixel::{calc_penalty, Rgb, Rgba};
use ascii_art::reduce::{average, collect_window, reduce_cell, Cell, SourceImage};
use ascii_art::render::{cell_text, gen_ascii};
use ascii_art::source::SampleError;

fn uniform_bytes(w: u32, h: u32, px: [u8; 4]) -> Vec<u8> {
    let mut v = Vec::new();
    for _ in 0..(w * h) {
        v.extend_from_slice(&px);
    }
    v
}

fn image(w: u32, h: u32, px: [u8; 4]) -> SourceImage {
    SourceImage::from_rgba(w, h, &uniform_bytes(w, h, px)).unwrap()
}

fn gradient(w: u32, h: u32) -> SourceImage {
    let mut v = Vec::new();
    for y in 0..h {
        for x in 0..w {
            let c = ((x * 37 + y * 91) % 256) as u8;
            v.extend_from_slice(&[c, c / 2, 255 - c, ((x * 13 + y * 7) % 256) as u8]);
        }
    }
    SourceImage::from_rgba(w, h, &v).unwrap()
}

fn glyphs(a: &AsciiImg) -> Vec<String> {
    a.pixels.iter().map(|row| row.iter().map(|c| c.ch).collect()).collect()
}

fn opts(invert: bool, colored: bool, uniform: bool) -> Options {
    Options::new(invert, colored, uniform).unwrap()
}

#[test]
fn mid_gray_four_by_four_to_two_by_two() {
    let img = image(4, 4, [128, 128, 128, 255]);
    let out = convert(&img, Some(2), Some(2), false, true, false, false).unwrap();
    assert_eq!(out, "++\n++");
    let a = AsciiImg::new(&img, &DensityRamp::standard(), Some(2), Some(2), opts(false, true, false));
    for row in &a.pixels {
        for c in row {
            assert_eq!(c.color, Some(Rgb { r: 128, g: 128, b: 128 }));
        }
    }
    let g = AsciiImg::new(&img, &DensityRamp::standard(), Some(2), Some(2), opts(false, false, false));
    assert!(g.pixels.iter().flatten().all(|c| c.ch == '+' && c.color == Some(Rgb { r: 255, g: 255, b: 255 })));
}

#[test]
fn no_target_keeps_source_size() {
    let img = gradient(10, 20);
    let a = AsciiImg::new(&img, &DensityRamp::standard(), None, None, opts(false, true, false));
    assert_eq!(a.pixels.len(), 20);
    assert!(a.pixels.iter().all(|r| r.len() == 10));
    let ramp = DensityRamp::standard();
    for y in 0..20usize {
        for x in 0..10usize {
            let cell = average(&vec![img.rows[y][x]]);
            assert_eq!(a.pixels[y][x], classify(&ramp, cell, opts(false, true, false)));
        }
    }
    assert_eq!(demure_unwrap(None, None, 10, 20), (10, 20));
}

#[test]
fn width_only_derives_height() {
    assert_eq!(demure_unwrap(Some(80), None, 100, 50), (80, 20));
    assert_eq!(demure_unwrap(Some(10), None, 10, 1000), (10, 500));
    assert_eq!(demure_unwrap(Some(100), None, 100, 1), (100, 1));
    assert_eq!(demure_unwrap(Some(3), None, 100, 1), (3, 1));
    assert_eq!(demure_unwrap(Some(500), None, 100, 100), (100, 100));
    for w in 1..60u32 {
        let (_, h) = demure_unwrap(Some(w), None, 37, 23);
        assert!(h >= 1 && h <= 23);
        let exact = w as f64 * 23.0 / 37.0 / 2.0;
        if exact >= 1.0 && exact <= 23.0 {
            assert!((h as f64 - exact).abs() <= 0.5);
        }
    }
}

#[test]
fn height_only_derives_width() {
    assert_eq!(demure_unwrap(None, Some(10), 100, 100), (20, 10));
    assert_eq!(demure_unwrap(None, Some(10), 5, 100), (1, 10));
    assert_eq!(demure_unwrap(None, Some(300), 100, 100), (100, 100));
}

#[test]
fn both_given_clamped_independently() {
    assert_eq!(demure_unwrap(Some(0), Some(1000), 40, 30), (1, 30));
    assert_eq!(demure_unwrap(Some(7), Some(9), 40, 30), (7, 9));
}

#[test]
fn window_counts_at_edges() {
    let img = gradient(5, 5);
    assert_eq!(collect_window(&img, 0, 3, 0, 3).len(), 9);
    assert_eq!(collect_window(&img, 3, 5, 0, 3).len(), 6);
    assert_eq!(collect_window(&img, 3, 5, 3, 5).len(), 4);
    let w = collect_window(&img, 1, 3, 2, 4);
    assert_eq!(w, vec![img.rows[1][2], img.rows[1][3], img.rows[2][2], img.rows[2][3]]);
}

#[test]
fn window_clipped_away_is_black() {
    let img = image(5, 5, [200, 200, 200, 255]);
    assert_eq!(reduce_cell(&img, 3, 0, 2, 2), Cell { luminance: 0, color: Rgb { r: 0, g: 0, b: 0 } });
    assert_eq!(reduce_cell(&img, 2, 2, 2, 2), Cell { luminance: 200, color: Rgb { r: 200, g: 200, b: 200 } });
}

#[test]
fn black_maps_to_lightest_glyph() {
    let img = image(4, 4, [0, 0, 0, 255]);
    assert_eq!(convert(&img, Some(2), Some(2), false, true, false, false).unwrap(), "  \n  ");
    assert_eq!(convert(&img, Some(2), Some(2), true, true, false, false).unwrap(), "@@\n@@");
}

#[test]
fn white_maps_to_densest_glyph() {
    let img = image(4, 4, [255, 255, 255, 255]);
    assert_eq!(convert(&img, Some(2), Some(2), false, true, false, false).unwrap(), "@@\n@@");
    assert_eq!(convert(&img, Some(2), Some(2), true, true, false, false).unwrap(), "  \n  ");
}

#[test]
fn uniform_uses_densest_glyph() {
    let img = gradient(9, 7);
    let a = AsciiImg::new(&img, &DensityRamp::standard(), Some(4), Some(5), opts(false, true, true));
    assert!(a.pixels.iter().flatten().all(|c| c.ch == '@' && c.color.is_some()));
    let b = AsciiImg::new(&img, &DensityRamp::standard(), Some(4), Some(5), opts(true, true, true));
    assert!(b.pixels.iter().flatten().all(|c| c.ch == '@'));
}

#[test]
fn uniform_without_color_is_refused() {
    let img = gradient(3, 3);
    assert_eq!(convert(&img, None, None, false, true, true, true), Err(UsageError::UniformWithoutColor));
    assert_eq!(Options::new(false, false, true), Err(UsageError::UniformWithoutColor));
    let cmd = Commands::Image {
        path: "a.png".to_string(),
        width: None,
        height: None,
        invert: false,
        savepath: None,
        colored: false,
        uniform_char: true,
        no_parallel: false,
    };
    assert_eq!(cmd.options(), Err(UsageError::UniformWithoutColor));
    assert!(cmd.parallel());
}

#[test]
fn sequential_and_parallel_agree() {
    let img = gradient(23, 17);
    let ramp = DensityRamp::standard();
    for (h, w) in [(None, None), (Some(5), None), (None, Some(7)), (Some(4), Some(6))] {
        let o = opts(false, true, false);
        let a = AsciiImg::new(&img, &ramp, h, w, o);
        let b = AsciiImg::new_parallel(&img, &ramp, h, w, o);
        assert_eq!(a.pixels, b.pixels);
        for grayscale in [true, false] {
            assert_eq!(
                convert(&img, h, w, true, grayscale, false, false),
                convert(&img, h, w, true, grayscale, false, true)
            );
        }
    }
    let bytes = uniform_bytes(6, 4, [1, 2, 3, 4]);
    let s = SourceImage::from_rgba(6, 4, &bytes).unwrap();
    let p = SourceImage::from_rgba_parallel(6, 4, &bytes).unwrap();
    assert_eq!(s.rows, p.rows);
}

#[test]
fn invert_reverses_glyphs_not_colors() {
    let img = gradient(12, 8);
    let ramp = DensityRamp::standard();
    let a = AsciiImg::new(&img, &ramp, Some(4), Some(6), opts(false, true, false));
    let b = AsciiImg::new(&img, &ramp, Some(4), Some(6), opts(true, true, false));
    for (ra, rb) in a.pixels.iter().zip(b.pixels.iter()) {
        for (ca, cb) in ra.iter().zip(rb.iter()) {
            let ia = ramp.glyphs.iter().position(|g| *g == ca.ch).unwrap();
            let ib = ramp.glyphs.iter().position(|g| *g == cb.ch).unwrap();
            assert_eq!(ia + ib, ramp.glyphs.len() - 1);
            assert_eq!(ca.color, cb.color);
        }
    }
}

#[test]
fn penalty_darkens_transparent_samples() {
    assert_eq!(calc_penalty(Rgba { r: 200, g: 0, b: 0, a: 128 }), 73);
    assert_eq!(calc_penalty(Rgba { r: 100, g: 0, b: 0, a: 100 }), 0);
    assert_eq!(calc_penalty(Rgba { r: 255, g: 0, b: 0, a: 255 }), 255);
    assert_eq!(calc_penalty(Rgba { r: 0, g: 0, b: 0, a: 0 }), 0);
}

#[test]
fn average_truncates_luminance_and_rounds_color_to_even() {
    let px = |r: u8, a: u8| Rgba { r, g: r, b: r, a };
    let c = average(&vec![px(1, 255), px(2, 255)]);
    assert_eq!(c, Cell { luminance: 1, color: Rgb { r: 2, g: 2, b: 2 } });
    let c = average(&vec![px(2, 255), px(3, 255)]);
    assert_eq!(c, Cell { luminance: 2, color: Rgb { r: 2, g: 2, b: 2 } });
    let c = average(&vec![px(0, 255), px(1, 255)]);
    assert_eq!(c.color, Rgb { r: 0, g: 0, b: 0 });
    let c = average(&vec![px(0, 255), px(0, 255), px(2, 255)]);
    assert_eq!(c.color, Rgb { r: 1, g: 1, b: 1 });
    let c = average(&vec![px(200, 128), px(100, 255)]);
    assert_eq!(c.luminance, 86);
}

#[test]
fn classify_scales_luminance_over_ramp() {
    let ramp = DensityRamp::from_glyphs(vec!['a', 'b', 'c', 'd']).unwrap();
    let cell = |l: u8| Cell { luminance: l, color: Rgb { r: 9, g: 8, b: 7 } };
    assert_eq!(
        classify(&ramp, cell(63), opts(false, false, false)),
        ColorChar { ch: 'a', color: Some(Rgb { r: 255, g: 255, b: 255 }) }
    );
    assert_eq!(classify(&ramp, cell(64), opts(false, false, false)).ch, 'b');
    assert_eq!(classify(&ramp, cell(255), opts(false, false, false)).ch, 'd');
    assert_eq!(classify(&ramp, cell(64), opts(true, false, false)).ch, 'c');
    assert_eq!(
        classify(&ramp, cell(0), opts(false, true, true)),
        ColorChar { ch: 'd', color: Some(Rgb { r: 9, g: 8, b: 7 }) }
    );
    assert!(DensityRamp::from_glyphs(vec!['x']).is_none());
}

#[test]
fn sampling_errors() {
    assert_eq!(SourceImage::from_rgba(0, 3, &vec![]).err(), Some(SampleError::Empty));
    assert_eq!(SourceImage::from_rgba(2, 2, &vec![0; 15]).err(), Some(SampleError::SizeMismatch));
    assert_eq!(SourceImage::from_rgba_parallel(2, 0, &vec![]).err(), Some(SampleError::Empty));
    let longer = SourceImage::from_rgba(1, 1, &vec![1, 2, 3, 4, 9, 9]).unwrap();
    assert_eq!(longer.rows, vec![vec![Rgba { r: 1, g: 2, b: 3, a: 4 }]]);
    let img = SourceImage::from_rgba(2, 1, &vec![1, 2, 3, 4, 5, 6, 7, 8]).unwrap();
    assert_eq!(img.rows, vec![vec![Rgba { r: 1, g: 2, b: 3, a: 4 }, Rgba { r: 5, g: 6, b: 7, a: 8 }]]);
}

#[test]
fn text_assembly() {
    let plain = |c: char| ColorChar { ch: c, color: None };
    let grid = vec![vec![plain('a'), plain('b')], vec![plain('c'), plain(' ')]];
    assert_eq!(gen_ascii(&grid, false), "ab\nc ");
    assert_eq!(gen_ascii(&grid, true), "ab\nc ");
    assert_eq!(gen_ascii(&vec![], true), "");
    let black_space = ColorChar { ch: ' ', color: Some(Rgb { r: 0, g: 0, b: 0 }) };
    assert_eq!(gen_ascii(&vec![vec![black_space, plain('x')]], true), "x");
    assert_eq!(gen_ascii(&vec![vec![black_space, plain('x')]], false), " x");
    let white = ColorChar { ch: 'w', color: Some(Rgb { r: 255, g: 255, b: 255 }) };
    assert_eq!(gen_ascii(&vec![vec![white], vec![white]], false), "w\nw");
}

#[test]
fn colored_cell_is_wrapped_in_escape() {
    colored::control::set_override(true);
    let s = cell_text(ColorChar { ch: 'a', color: Some(Rgb { r: 1, g: 2, b: 3 }) }, true);
    assert!(s.starts_with("\x1b["));
    assert!(s.ends_with("ma\x1b[0m"));
    assert_ne!(s, "a");
    let dark_space = cell_text(ColorChar { ch: ' ', color: Some(Rgb { r: 0, g: 0, b: 1 }) }, true);
    assert_eq!(cell_text(ColorChar { ch: 'a', color: Some(Rgb { r: 1, g: 2, b: 3 }) }, false), "a");
    assert!(dark_space.ends_with("m \x1b[0m"));
}

#[test]
fn decoded_image_is_sampled() {
    let mut buf = image::RgbaImage::new(3, 2);
    buf.put_pixel(1, 0, image::Rgba([10, 20, 30, 40]));
    buf.put_pixel(2, 1, image::Rgba([200, 100, 50, 255]));
    let img = image::DynamicImage::ImageRgba8(buf);
    for parallel in [false, true] {
        let s = SourceImage::from_decoded(&img, false, parallel).unwrap();
        assert_eq!((s.width, s.height), (3, 2));
        assert_eq!(s.rows[0][1], Rgba { r: 10, g: 20, b: 30, a: 40 });
        assert_eq!(s.rows[1][2], Rgba { r: 200, g: 100, b: 50, a: 255 });
        assert_eq!(s.rows[0][0], Rgba { r: 0, g: 0, b: 0, a: 0 });
    }
    let g = SourceImage::from_decoded(&img, true, false).unwrap();
    let p = g.rows[1][2];
    assert!(p.r == p.g && p.g == p.b);
    assert_ne!(p.r, 200);
    assert_eq!(p.a, 255);
}

#[test]
fn colored_text_has_one_line_per_row() {
    colored::control::set_override(true);
    let img = gradient(20, 12);
    let s = convert(&img, Some(5), Some(8), false, false, false, true).unwrap();
    assert_eq!(s.matches('\n').count(), 4);
    assert!(s.contains("\x1b["));
    let u = convert(&img, Some(3), Some(4), false, false, true, false).unwrap();
    assert_eq!(u.matches('\n').count(), 2);
    assert!(u.split("\x1b[0m").filter(|p| !p.is_empty()).all(|p| p.trim_start_matches('\n').ends_with('@')));
}
