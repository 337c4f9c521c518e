use spectrum::hsl::channel_to_byte;
use spectrum::hsl::hsl_to_rgb;
use spectrum::posterize::Posterizer;
use spectrum::posterize::Rgb;
use spectrum::render::render_spectrum;
use spectrum::render::Component;
use spectrum::CHANNEL_ONE;
use spectrum::SCALE;

fn rgb_bytes(h: u64, s: u64, l: u64) -> (u8, u8, u8) {
    let (r, g, b) = hsl_to_rgb(h, s, l);
    (channel_to_byte(r), channel_to_byte(g), channel_to_byte(b))
}

#[test]
fn achromatic_channels_equal() {
    for h in [0u64, 1, 12345, 32768, 65535, 65536] {
        for l in [0u64, 1, 16384, 32768, 65535, 65536] {
            let (r, g, b) = hsl_to_rgb(h, 0, l);
            assert_eq!(r, g);
            assert_eq!(g, b);
            assert_eq!(r, 3 * SCALE * SCALE * l);
        }
    }
    assert_eq!(rgb_bytes(0, 0, SCALE / 2), (127, 127, 127));
    assert_eq!(rgb_bytes(12345, 0, SCALE), (255, 255, 255));
    assert_eq!(rgb_bytes(12345, 0, 0), (0, 0, 0));
}

#[test]
fn primary_hues() {
    // full saturation at half lightness: hue 0 is red, 1/3 green, 1/2 cyan, 2/3 blue
    assert_eq!(rgb_bytes(0, SCALE, SCALE / 2), (255, 0, 0));
    assert_eq!(rgb_bytes(21845, SCALE, SCALE / 2), (0, 255, 0));
    assert_eq!(rgb_bytes(SCALE / 2, SCALE, SCALE / 2), (0, 255, 255));
    assert_eq!(rgb_bytes(43690, SCALE, SCALE / 2), (0, 0, 255));
    // hue 1.0 wraps back to red
    assert_eq!(rgb_bytes(SCALE, SCALE, SCALE / 2), (255, 0, 0));
}

#[test]
fn channels_in_range() {
    let (r, g, b) = hsl_to_rgb(SCALE / 3, SCALE, SCALE / 2);
    assert!(r <= CHANNEL_ONE && g <= CHANNEL_ONE && b <= CHANNEL_ONE);
    let (r, g, b) = hsl_to_rgb(SCALE / 4, SCALE / 2, SCALE / 4);
    assert!(r <= CHANNEL_ONE && g <= CHANNEL_ONE && b <= CHANNEL_ONE);
    assert_eq!(
        (channel_to_byte(r), channel_to_byte(g), channel_to_byte(b)),
        (63, 95, 31)
    );
}

#[test]
fn continuity_at_band_edges() {
    // one fixed-point step of hue across the 1/6 offset boundary moves
    // the red and green bytes by one
    assert_eq!(rgb_bytes(10922, SCALE, SCALE / 2), (255, 254, 0));
    assert_eq!(rgb_bytes(10923, SCALE, SCALE / 2), (254, 255, 0));
}

#[test]
fn posterize_table_values() {
    let p = Posterizer::new(5);
    let cases: [(u8, u8); 11] = [
        (0, 0),
        (51, 0),
        (52, 63),
        (100, 63),
        (102, 63),
        (103, 127),
        (153, 127),
        (154, 191),
        (204, 191),
        (205, 255),
        (255, 255),
    ];
    for (v, expected) in cases {
        let mut c = Rgb { r: v, g: v, b: v };
        p.apply(&mut c);
        assert_eq!((c.r, c.g, c.b), (expected, expected, expected));
    }
}

#[test]
fn posterize_endpoints_other_levels() {
    for levels in [2usize, 3, 7, 16, 256] {
        let p = Posterizer::new(levels);
        let mut lo = Rgb { r: 0, g: 0, b: 0 };
        let mut hi = Rgb { r: 255, g: 255, b: 255 };
        p.apply(&mut lo);
        p.apply(&mut hi);
        assert_eq!((lo.r, lo.g, lo.b), (0, 0, 0));
        assert_eq!((hi.r, hi.g, hi.b), (255, 255, 255));
    }
}

#[test]
fn posterize_monotone() {
    for levels in [2usize, 5, 9, 100] {
        let p = Posterizer::new(levels);
        let mut last = 0u8;
        for v in 0..=255u8 {
            let mut c = Rgb { r: v, g: v, b: v };
            p.apply(&mut c);
            assert!(c.r >= last);
            last = c.r;
        }
    }
}

#[test]
fn posterize_idempotent() {
    let p = Posterizer::new(5);
    for v in 0..=255u8 {
        let mut once = Rgb { r: v, g: v, b: v };
        p.apply(&mut once);
        let mut twice = once;
        p.apply(&mut twice);
        assert_eq!((once.r, once.g, once.b), (twice.r, twice.g, twice.b));
    }
}

#[test]
fn render_2x2_hue_axis() {
    let data = render_spectrum(
        2,
        2,
        0,
        SCALE,
        SCALE / 2,
        Component::Hue,
        false,
        Component::Unassigned,
        false,
    );
    assert_eq!(data.len(), 16);
    // column 0 has hue 0 (red), column 1 has hue 1/2 (cyan); both rows alike
    let expected: Vec<u8> = vec![
        255, 0, 0, 255, 0, 255, 255, 255, 255, 0, 0, 255, 0, 255, 255, 255,
    ];
    assert_eq!(data, expected);
}

#[test]
fn render_empty() {
    let data = render_spectrum(
        0,
        7,
        0,
        SCALE,
        SCALE / 2,
        Component::Hue,
        false,
        Component::Lightness,
        false,
    );
    assert_eq!(data.len(), 0);
    let data = render_spectrum(
        7,
        0,
        0,
        SCALE,
        SCALE / 2,
        Component::Hue,
        true,
        Component::Saturation,
        true,
    );
    assert_eq!(data.len(), 0);
}

#[test]
fn render_invert_x() {
    // saturation on X, inverted: the first column is fully saturated red
    let inverted = render_spectrum(
        2,
        1,
        0,
        SCALE,
        SCALE / 2,
        Component::Saturation,
        true,
        Component::Unassigned,
        false,
    );
    assert_eq!(&inverted[0..4], &[255, 0, 0, 255]);
    // not inverted: the first column is achromatic gray
    let plain = render_spectrum(
        2,
        1,
        0,
        SCALE,
        SCALE / 2,
        Component::Saturation,
        false,
        Component::Unassigned,
        false,
    );
    assert_eq!(&plain[0..4], &[127, 127, 127, 255]);
}

#[test]
fn render_x_overrides_y() {
    // both axes on Hue give the same buffer as X on Hue and Y unassigned
    let both = render_spectrum(
        4,
        3,
        9000,
        SCALE,
        SCALE / 2,
        Component::Hue,
        false,
        Component::Hue,
        true,
    );
    let x_only = render_spectrum(
        4,
        3,
        9000,
        SCALE,
        SCALE / 2,
        Component::Hue,
        false,
        Component::Unassigned,
        true,
    );
    assert_eq!(both, x_only);
}

#[test]
fn render_five_levels_per_channel() {
    let data = render_spectrum(
        64,
        64,
        0,
        SCALE,
        SCALE / 2,
        Component::Hue,
        false,
        Component::Lightness,
        false,
    );
    assert_eq!(data.len(), 64 * 64 * 4);
    let mut seen = [[false; 256]; 3];
    for px in data.chunks(4) {
        for ch in 0..3 {
            seen[ch][px[ch] as usize] = true;
        }
        assert_eq!(px[3], 255);
    }
    for ch in 0..3 {
        let distinct = seen[ch].iter().filter(|&&s| s).count();
        assert!(distinct <= 5, "channel {} has {} distinct values", ch, distinct);
    }
}
