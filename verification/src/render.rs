//! The rendering pipeline: axis mapping, HSL to RGB conversion,
//! posterization, and RGBA packing over a width x height grid.

use vstd::prelude::*;

use crate::hsl::blue_num;
use crate::hsl::byte_of;
use crate::hsl::channel_to_byte;
use crate::hsl::green_num;
use crate::hsl::hsl_to_rgb;
use crate::hsl::lemma_byte_of_bounds;
use crate::hsl::lemma_channel_bounds;
use crate::hsl::red_num;
use crate::posterize::lemma_posterize_level_count;
use crate::posterize::level_value;
use crate::posterize::posterize_value;
use crate::posterize::Posterizer;
use crate::posterize::Rgb;
use crate::SCALE;

verus! {

/// Which HSL component an axis drives; `Unassigned` leaves the triple alone.
#[derive(Clone, Copy, Debug, PartialEq, Eq, Structural)]
pub enum Component {
    Unassigned,
    Hue,
    Saturation,
    Lightness,
}

/// The number of color levels every render posterizes to.
pub const LEVELS: usize = 5;

/// The normalized coordinate of index `i` on an axis of length `n`:
/// `floor(i / n)` in fixed point, mirrored to `1 - i / n` when inverted.
pub open spec fn axis_val(i: int, n: int, invert: bool) -> int {
    if invert {
        SCALE - (i * SCALE) / n
    } else {
        (i * SCALE) / n
    }
}

/// Overwrites the component of the triple that `c` names with `v`;
/// with `Component::Unassigned` the triple is unchanged.
pub open spec fn apply_component(t: (int, int, int), c: Component, v: int) -> (int, int, int) {
    match c {
        Component::Unassigned => t,
        Component::Hue => (v, t.1, t.2),
        Component::Saturation => (t.0, v, t.2),
        Component::Lightness => (t.0, t.1, v),
    }
}

/// The effective HSL triple of a pixel: the Y assignment is applied first,
/// then the X assignment, so where both drive the same component the X
/// value wins.
pub open spec fn effective_hsl(
    base: (int, int, int),
    x_axis: Component,
    y_axis: Component,
    xv: int,
    yv: int,
) -> (int, int, int) {
    apply_component(apply_component(base, y_axis, yv), x_axis, xv)
}

/// The posterized RGB bytes of the pixel at column `xi` of row `yi`.
/// Opaque: proofs open it with `reveal` only where a pixel's bytes are
/// actually computed, which keeps the quantified buffer invariants light.
#[verifier::opaque]
pub open spec fn pixel_bytes(
    hue: int,
    saturation: int,
    lightness: int,
    x_axis: Component,
    invert_x: bool,
    y_axis: Component,
    invert_y: bool,
    width: int,
    height: int,
    xi: int,
    yi: int,
) -> (int, int, int) {
    let e = effective_hsl(
        (hue, saturation, lightness),
        x_axis,
        y_axis,
        axis_val(xi, width, invert_x),
        axis_val(yi, height, invert_y),
    );
    (
        posterize_value(byte_of(red_num(e.0, e.1, e.2)), LEVELS as int),
        posterize_value(byte_of(green_num(e.0, e.1, e.2)), LEVELS as int),
        posterize_value(byte_of(blue_num(e.0, e.1, e.2)), LEVELS as int),
    )
}

/// Whether the four bytes of pixel `(xi, yi)` in `data` hold its
/// posterized color followed by an opaque alpha byte.
pub open spec fn pixel_ok(
    data: Seq<u8>,
    hue: int,
    saturation: int,
    lightness: int,
    x_axis: Component,
    invert_x: bool,
    y_axis: Component,
    invert_y: bool,
    width: int,
    height: int,
    xi: int,
    yi: int,
) -> bool {
    let px = pixel_bytes(
        hue,
        saturation,
        lightness,
        x_axis,
        invert_x,
        y_axis,
        invert_y,
        width,
        height,
        xi,
        yi,
    );
    let idx = 4 * (yi * width + xi);
    &&& data[idx] == px.0
    &&& data[idx + 1] == px.1
    &&& data[idx + 2] == px.2
    &&& data[idx + 3] == 255
}

/// A pixel of an earlier row lies wholly before the current write position.
proof fn lemma_row_index(w: int, x2: int, y2: int, y: int)
    requires
        0 <= x2 < w,
        0 <= y2 < y,
    ensures
        y2 * w + x2 < y * w,
{
    assert(y2 * w + x2 < y * w) by (nonlinear_arith)
        requires
            0 <= x2 < w,
            0 <= y2 < y,
    ;
}

/// An axis coordinate is always a fixed-point value in `[0, 1]`.
pub proof fn lemma_axis_val_bounds(i: int, n: int, invert: bool)
    requires
        0 <= i < n,
    ensures
        0 <= axis_val(i, n, invert) <= SCALE,
{
    assert(0 <= i * SCALE / n && i * SCALE / n < SCALE) by (nonlinear_arith)
        requires
            0 <= i < n,
    ;
}

/// Computes the normalized, optionally inverted axis coordinate.
fn axis_value(i: usize, n: usize, invert: bool) -> (v: u64)
    requires
        i < n,
    ensures
        v == axis_val(i as int, n as int, invert),
        v <= SCALE,
{
    proof {
        assert(0 <= (i as int) * SCALE / (n as int) < SCALE) by (nonlinear_arith)
            requires
                0 <= i < n,
        ;
    }
    let frac = ((i as u128) * (SCALE as u128) / (n as u128)) as u64;
    if invert {
        SCALE - frac
    } else {
        frac
    }
}

/// Applies the Y assignment, then the X assignment, to the base triple.
fn effective(
    hue: u64,
    saturation: u64,
    lightness: u64,
    x_axis: Component,
    y_axis: Component,
    xv: u64,
    yv: u64,
) -> (e: (u64, u64, u64))
    requires
        hue <= SCALE,
        saturation <= SCALE,
        lightness <= SCALE,
        xv <= SCALE,
        yv <= SCALE,
    ensures
        (e.0 as int, e.1 as int, e.2 as int) == effective_hsl(
            (hue as int, saturation as int, lightness as int),
            x_axis,
            y_axis,
            xv as int,
            yv as int,
        ),
        e.0 <= SCALE,
        e.1 <= SCALE,
        e.2 <= SCALE,
{
    let mut h = hue;
    let mut s = saturation;
    let mut l = lightness;
    match y_axis {
        Component::Unassigned => {},
        Component::Hue => {
            h = yv;
        },
        Component::Saturation => {
            s = yv;
        },
        Component::Lightness => {
            l = yv;
        },
    }
    match x_axis {
        Component::Unassigned => {},
        Component::Hue => {
            h = xv;
        },
        Component::Saturation => {
            s = xv;
        },
        Component::Lightness => {
            l = xv;
        },
    }
    (h, s, l)
}

/// Renders the spectrum: for each pixel, row-major, the effective HSL
/// triple is converted to RGB, scaled to bytes, posterized at `LEVELS`
/// levels, and appended as `[R, G, B, 255]`. The buffer holds exactly
/// `width * height * 4` bytes; a zero width or height gives an empty one.
#[verifier::rlimit(100)]
pub fn render_spectrum(
    width: usize,
    height: usize,
    hue: u64,
    saturation: u64,
    lightness: u64,
    x_axis: Component,
    invert_x: bool,
    y_axis: Component,
    invert_y: bool,
) -> (data: Vec<u8>)
    requires
        hue <= SCALE,
        saturation <= SCALE,
        lightness <= SCALE,
        width * height * 4 <= usize::MAX,
    ensures
        data@.len() == width * height * 4,
        forall|xi: int, yi: int|
            0 <= xi < width && 0 <= yi < height ==> pixel_ok(
                data@,
                hue as int,
                saturation as int,
                lightness as int,
                x_axis,
                invert_x,
                y_axis,
                invert_y,
                width as int,
                height as int,
                xi,
                yi,
            ),
{
    let posterizer = Posterizer::new(LEVELS);
    let mut data: Vec<u8> = Vec::new();
    let mut yi: usize = 0;
    while yi < height
        invariant
            yi <= height,
            hue <= SCALE,
            saturation <= SCALE,
            lightness <= SCALE,
            width * height * 4 <= usize::MAX,
            posterizer.wf(),
            posterizer.levels() == LEVELS,
            data@.len() == yi * width * 4,
            forall|x2: int, y2: int|
                0 <= x2 < width && 0 <= y2 < yi ==> pixel_ok(
                    data@,
                    hue as int,
                    saturation as int,
                    lightness as int,
                    x_axis,
                    invert_x,
                    y_axis,
                    invert_y,
                    width as int,
                    height as int,
                    x2,
                    y2,
                ),
        decreases height - yi,
    {
        let yv = axis_value(yi, height, invert_y);
        let mut xi: usize = 0;
        while xi < width
            invariant
                xi <= width,
                yi < height,
                hue <= SCALE,
                saturation <= SCALE,
                lightness <= SCALE,
                width * height * 4 <= usize::MAX,
                posterizer.wf(),
                posterizer.levels() == LEVELS,
                yv == axis_val(yi as int, height as int, invert_y),
                yv <= SCALE,
                data@.len() == (yi * width + xi) * 4,
                forall|x2: int, y2: int|
                    0 <= x2 < width && 0 <= y2 < yi ==> pixel_ok(
                        data@,
                        hue as int,
                        saturation as int,
                        lightness as int,
                        x_axis,
                        invert_x,
                        y_axis,
                        invert_y,
                        width as int,
                        height as int,
                        x2,
                        y2,
                    ),
                forall|x2: int|
                    0 <= x2 < xi ==> pixel_ok(
                        data@,
                        hue as int,
                        saturation as int,
                        lightness as int,
                        x_axis,
                        invert_x,
                        y_axis,
                        invert_y,
                        width as int,
                        height as int,
                        x2,
                        yi as int,
                    ),
            decreases width - xi,
        {
            let ghost prev = data@;
            let xv = axis_value(xi, width, invert_x);
            let e = effective(hue, saturation, lightness, x_axis, y_axis, xv, yv);
            let rgb = hsl_to_rgb(e.0, e.1, e.2);
            let mut color = Rgb {
                r: channel_to_byte(rgb.0),
                g: channel_to_byte(rgb.1),
                b: channel_to_byte(rgb.2),
            };
            posterizer.apply(&mut color);
            data.push(color.r);
            data.push(color.g);
            data.push(color.b);
            data.push(255);
            proof {
                assert(pixel_ok(
                    data@,
                    hue as int,
                    saturation as int,
                    lightness as int,
                    x_axis,
                    invert_x,
                    y_axis,
                    invert_y,
                    width as int,
                    height as int,
                    xi as int,
                    yi as int,
                )) by {
                    reveal(pixel_bytes);
                }
                assert forall|x2: int, y2: int|
                    0 <= x2 < width && 0 <= y2 < yi implies pixel_ok(
                    data@,
                    hue as int,
                    saturation as int,
                    lightness as int,
                    x_axis,
                    invert_x,
                    y_axis,
                    invert_y,
                    width as int,
                    height as int,
                    x2,
                    y2,
                ) by {
                    lemma_row_index(width as int, x2, y2, yi as int);
                    assert(pixel_ok(
                        prev,
                        hue as int,
                        saturation as int,
                        lightness as int,
                        x_axis,
                        invert_x,
                        y_axis,
                        invert_y,
                        width as int,
                        height as int,
                        x2,
                        y2,
                    ));
                }
                assert forall|x2: int|
                    0 <= x2 < xi + 1 implies pixel_ok(
                    data@,
                    hue as int,
                    saturation as int,
                    lightness as int,
                    x_axis,
                    invert_x,
                    y_axis,
                    invert_y,
                    width as int,
                    height as int,
                    x2,
                    yi as int,
                ) by {
                    if x2 < xi {
                        assert(pixel_ok(
                            prev,
                            hue as int,
                            saturation as int,
                            lightness as int,
                            x_axis,
                            invert_x,
                            y_axis,
                            invert_y,
                            width as int,
                            height as int,
                            x2,
                            yi as int,
                        ));
                    }
                }
            }
            xi = xi + 1;
        }
        proof {
            assert((yi + 1) * width == yi * width + width) by (nonlinear_arith);
        }
        yi = yi + 1;
    }
    proof {
        assert(height * width * 4 == width * height * 4) by (nonlinear_arith);
    }
    data
}

/// When the X and Y axes drive the same component, the X value wins: every
/// pixel equals the one of a render whose Y axis drives nothing.
pub proof fn lemma_x_axis_wins(
    hue: int,
    saturation: int,
    lightness: int,
    c: Component,
    invert_x: bool,
    invert_y: bool,
    width: int,
    height: int,
    xi: int,
    yi: int,
)
    ensures
        pixel_bytes(
            hue,
            saturation,
            lightness,
            c,
            invert_x,
            c,
            invert_y,
            width,
            height,
            xi,
            yi,
        ) == pixel_bytes(
            hue,
            saturation,
            lightness,
            c,
            invert_x,
            Component::Unassigned,
            invert_y,
            width,
            height,
            xi,
            yi,
        ),
{
    reveal(pixel_bytes);
}

/// Every color byte of a rendered pixel is one of the five quantization
/// values, so a whole render shows at most five distinct values per
/// channel; the alpha byte is always opaque.
pub proof fn lemma_render_level_count(
    data: Seq<u8>,
    hue: int,
    saturation: int,
    lightness: int,
    x_axis: Component,
    invert_x: bool,
    y_axis: Component,
    invert_y: bool,
    width: int,
    height: int,
    xi: int,
    yi: int,
)
    requires
        0 <= hue <= SCALE,
        0 <= saturation <= SCALE,
        0 <= lightness <= SCALE,
        0 <= xi < width,
        0 <= yi < height,
        pixel_ok(
            data,
            hue,
            saturation,
            lightness,
            x_axis,
            invert_x,
            y_axis,
            invert_y,
            width,
            height,
            xi,
            yi,
        ),
    ensures
        exists|k: int| 0 <= k < 5 && data[4 * (yi * width + xi)] == level_value(k, 5),
        exists|k: int| 0 <= k < 5 && data[4 * (yi * width + xi) + 1] == level_value(k, 5),
        exists|k: int| 0 <= k < 5 && data[4 * (yi * width + xi) + 2] == level_value(k, 5),
        data[4 * (yi * width + xi) + 3] == 255,
{
    reveal(pixel_bytes);
    lemma_axis_val_bounds(xi, width, invert_x);
    lemma_axis_val_bounds(yi, height, invert_y);
    let e = effective_hsl(
        (hue, saturation, lightness),
        x_axis,
        y_axis,
        axis_val(xi, width, invert_x),
        axis_val(yi, height, invert_y),
    );
    assert(0 <= e.0 <= SCALE && 0 <= e.1 <= SCALE && 0 <= e.2 <= SCALE);
    lemma_channel_bounds(e.0, e.1, e.2);
    lemma_byte_of_bounds(red_num(e.0, e.1, e.2));
    lemma_byte_of_bounds(green_num(e.0, e.1, e.2));
    lemma_byte_of_bounds(blue_num(e.0, e.1, e.2));
    lemma_posterize_level_count(byte_of(red_num(e.0, e.1, e.2)), 5);
    lemma_posterize_level_count(byte_of(green_num(e.0, e.1, e.2)), 5);
    lemma_posterize_level_count(byte_of(blue_num(e.0, e.1, e.2)), 5);
}

} // verus!
