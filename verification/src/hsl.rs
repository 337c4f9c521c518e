//! HSL to RGB conversion in fixed-point arithmetic.
//!
//! A hue, saturation or lightness value in `[0, 1]` is an integer numerator
//! over `SCALE`. The two chroma bounds `p` and `q` live at scale
//! `SCALE * SCALE`, hue offsets at scale `TURN = 3 * SCALE` (so that the
//! one-third offsets of the red and blue channels are exact), and a
//! converted channel at scale `CHANNEL_ONE = 3 * SCALE^3`, from which it is
//! reduced to a byte by `floor(255 * channel / CHANNEL_ONE)`.

use vstd::prelude::*;

use crate::CHANNEL_ONE;
use crate::SCALE;
use crate::TURN;

verus! {

/// Upper chroma bound `q` at scale `SCALE * SCALE`:
/// `l * (1 + s)` for dark colors, `l + s - l * s` for light ones.
pub open spec fn q_num(s: int, l: int) -> int {
    if 2 * l < SCALE {
        l * (SCALE + s)
    } else {
        (l + s) * SCALE - l * s
    }
}

/// Lower chroma bound `p = 2 * l - q` at scale `SCALE * SCALE`.
pub open spec fn p_num(s: int, l: int) -> int {
    2 * l * SCALE - q_num(s, l)
}

/// Wraps a hue offset at scale `TURN` into `[0, TURN]` by one step,
/// as the converter does before the piecewise cases.
pub open spec fn wrap_turn(t: int) -> int {
    if t < 0 {
        t + TURN
    } else if t > TURN {
        t - TURN
    } else {
        t
    }
}

/// One channel of the piecewise-linear hue ramp, at scale `CHANNEL_ONE`.
/// `p` and `q` are at scale `SCALE * SCALE`; `t` is a wrapped hue offset at
/// scale `TURN`. The four pieces are `t < 1/6`, `t < 1/2`, `t < 2/3` and
/// the rest.
pub open spec fn hue2rgb_num(p: int, q: int, t: int) -> int {
    if 2 * t < SCALE {
        3 * SCALE * p + 6 * (q - p) * t
    } else if 2 * t < 3 * SCALE {
        3 * SCALE * q
    } else if t < 2 * SCALE {
        3 * SCALE * p + 6 * (q - p) * (2 * SCALE - t)
    } else {
        3 * SCALE * p
    }
}

/// The red channel at scale `CHANNEL_ONE`; hue offset `h + 1/3`.
pub open spec fn red_num(h: int, s: int, l: int) -> int {
    if s == 0 {
        3 * SCALE * SCALE * l
    } else {
        hue2rgb_num(p_num(s, l), q_num(s, l), wrap_turn(3 * h + SCALE))
    }
}

/// The green channel at scale `CHANNEL_ONE`; hue offset `h`.
pub open spec fn green_num(h: int, s: int, l: int) -> int {
    if s == 0 {
        3 * SCALE * SCALE * l
    } else {
        hue2rgb_num(p_num(s, l), q_num(s, l), wrap_turn(3 * h))
    }
}

/// The blue channel at scale `CHANNEL_ONE`; hue offset `h - 1/3`.
pub open spec fn blue_num(h: int, s: int, l: int) -> int {
    if s == 0 {
        3 * SCALE * SCALE * l
    } else {
        hue2rgb_num(p_num(s, l), q_num(s, l), wrap_turn(3 * h - SCALE))
    }
}

/// A channel numerator at scale `CHANNEL_ONE` reduced to a byte:
/// `floor(255 * v)` of the represented value `v = n / CHANNEL_ONE`.
pub open spec fn byte_of(n: int) -> int {
    255 * n / (CHANNEL_ONE as int)
}

/// Bounds of the chroma numerators for inputs in `[0, 1]`:
/// `l <= q <= 1`, `q <= 2 * l` and so `0 <= p <= l`, at their scales.
pub proof fn lemma_pq_bounds(s: int, l: int)
    requires
        0 <= s <= SCALE,
        0 <= l <= SCALE,
    ensures
        l * SCALE <= q_num(s, l) <= SCALE * SCALE,
        q_num(s, l) <= 2 * l * SCALE,
        0 <= p_num(s, l) <= l * SCALE,
        p_num(s, l) <= q_num(s, l),
{
    if 2 * l < SCALE {
        assert(l * SCALE <= l * (SCALE + s) <= SCALE * SCALE) by (nonlinear_arith)
            requires
                0 <= s <= SCALE,
                0 <= l,
                2 * l < SCALE,
        ;
        assert(l * (SCALE + s) <= 2 * l * SCALE) by (nonlinear_arith)
            requires
                0 <= s <= SCALE,
                0 <= l,
        ;
    } else {
        assert(l * SCALE <= (l + s) * SCALE - l * s <= SCALE * SCALE) by (nonlinear_arith)
            requires
                0 <= s <= SCALE,
                0 <= l <= SCALE,
        ;
        assert((l + s) * SCALE - l * s <= 2 * l * SCALE) by (nonlinear_arith)
            requires
                0 <= s <= SCALE,
                0 <= l <= SCALE,
                2 * l >= SCALE,
        ;
    }
}

/// The hue ramp stays between the scaled chroma bounds for any wrapped
/// offset.
pub proof fn lemma_hue2rgb_bounds(p: int, q: int, t: int)
    requires
        0 <= p <= q,
        q <= SCALE * SCALE,
        0 <= t <= TURN,
    ensures
        3 * SCALE * p <= hue2rgb_num(p, q, t) <= 3 * SCALE * q,
{
    if 2 * t < SCALE {
        assert(0 <= 6 * (q - p) * t <= 3 * SCALE * (q - p)) by (nonlinear_arith)
            requires
                0 <= q - p,
                2 * t < SCALE,
                0 <= t,
        ;
    } else if 2 * t < 3 * SCALE {
    } else if t < 2 * SCALE {
        assert(0 <= 6 * (q - p) * (2 * SCALE - t) <= 3 * SCALE * (q - p)) by (nonlinear_arith)
            requires
                0 <= q - p,
                2 * t >= 3 * SCALE,
                t < 2 * SCALE,
        ;
    } else {
    }
}

/// One channel of the hue ramp. Relates the result to `hue2rgb_num` and
/// keeps it between the scaled chroma bounds.
fn hue2rgb(p: u64, q: u64, t: u64) -> (r: u64)
    requires
        p <= q,
        q <= SCALE * SCALE,
        t <= TURN,
    ensures
        r == hue2rgb_num(p as int, q as int, t as int),
        3 * SCALE * p <= r <= 3 * SCALE * q,
{
    proof {
        lemma_hue2rgb_bounds(p as int, q as int, t as int);
        assert(0 <= 6 * (q - p) * t <= 6 * (SCALE * SCALE) * TURN) by (nonlinear_arith)
            requires
                0 <= q - p <= SCALE * SCALE,
                0 <= t <= TURN,
        ;
        assert(t < 2 * SCALE ==> 0 <= 6 * (q - p) * (2 * SCALE - t) <= 6 * (SCALE * SCALE) * TURN)
            by (nonlinear_arith)
            requires
                0 <= q - p <= SCALE * SCALE,
                0 <= t,
        ;
    }
    if 2 * t < SCALE {
        3 * SCALE * p + 6 * (q - p) * t
    } else if 2 * t < 3 * SCALE {
        3 * SCALE * q
    } else if t < 2 * SCALE {
        3 * SCALE * p + 6 * (q - p) * (2 * SCALE - t)
    } else {
        3 * SCALE * p
    }
}

/// Converts an HSL triple in `[0, 1]` (numerators over `SCALE`) to the RGB
/// channels at scale `CHANNEL_ONE`. With zero saturation all three channels
/// are the lightness; otherwise each channel follows the hue ramp between
/// the chroma bounds. Every channel stays in `[0, CHANNEL_ONE]`.
pub fn hsl_to_rgb(h: u64, s: u64, l: u64) -> (rgb: (u64, u64, u64))
    requires
        h <= SCALE,
        s <= SCALE,
        l <= SCALE,
    ensures
        rgb.0 == red_num(h as int, s as int, l as int),
        rgb.1 == green_num(h as int, s as int, l as int),
        rgb.2 == blue_num(h as int, s as int, l as int),
        rgb.0 <= CHANNEL_ONE,
        rgb.1 <= CHANNEL_ONE,
        rgb.2 <= CHANNEL_ONE,
{
    if s == 0 {
        let v = 3 * SCALE * SCALE * l;
        (v, v, v)
    } else {
        proof {
            lemma_pq_bounds(s as int, l as int);
        }
        let q = if 2 * l < SCALE {
            l * (SCALE + s)
        } else {
            (l + s) * SCALE - l * s
        };
        let p = 2 * l * SCALE - q;

        let tr = if 3 * h + SCALE > TURN {
            3 * h + SCALE - TURN
        } else {
            3 * h + SCALE
        };
        let tg = 3 * h;
        let tb = if 3 * h < SCALE {
            3 * h + TURN - SCALE
        } else {
            3 * h - SCALE
        };
        let r = hue2rgb(p, q, tr);
        let g = hue2rgb(p, q, tg);
        let b = hue2rgb(p, q, tb);
        proof {
            assert(3 * SCALE * q <= CHANNEL_ONE) by (nonlinear_arith)
                requires
                    q <= SCALE * SCALE,
                    0 <= q,
            ;
        }
        (r, g, b)
    }
}

/// A channel within `[0, CHANNEL_ONE]` reduces to a byte within `[0, 255]`.
pub proof fn lemma_byte_of_bounds(n: int)
    requires
        0 <= n <= CHANNEL_ONE,
    ensures
        0 <= byte_of(n) <= 255,
{
    assert(0 <= 255 * n / (CHANNEL_ONE as int) <= 255) by (nonlinear_arith)
        requires
            0 <= n <= CHANNEL_ONE,
            CHANNEL_ONE >= 1,
    ;
}

/// For inputs in `[0, 1]` every converted channel stays in
/// `[0, CHANNEL_ONE]`: the scaled conversion cannot overshoot.
pub proof fn lemma_channel_bounds(h: int, s: int, l: int)
    requires
        0 <= h <= SCALE,
        0 <= s <= SCALE,
        0 <= l <= SCALE,
    ensures
        0 <= red_num(h, s, l) <= CHANNEL_ONE,
        0 <= green_num(h, s, l) <= CHANNEL_ONE,
        0 <= blue_num(h, s, l) <= CHANNEL_ONE,
{
    if s != 0 {
        lemma_pq_bounds(s, l);
        lemma_hue2rgb_bounds(p_num(s, l), q_num(s, l), wrap_turn(3 * h + SCALE));
        lemma_hue2rgb_bounds(p_num(s, l), q_num(s, l), wrap_turn(3 * h));
        lemma_hue2rgb_bounds(p_num(s, l), q_num(s, l), wrap_turn(3 * h - SCALE));
    }
}

/// Reduces a channel at scale `CHANNEL_ONE` to a byte by
/// `floor(255 * channel)` over the represented value.
pub fn channel_to_byte(n: u64) -> (b: u8)
    requires
        n <= CHANNEL_ONE,
    ensures
        b == byte_of(n as int),
{
    proof {
        lemma_byte_of_bounds(n as int);
    }
    (255 * n / CHANNEL_ONE) as u8
}

/// With zero saturation the conversion is achromatic: all three channels
/// equal the lightness, whatever the hue.
pub proof fn lemma_achromatic(h: int, s: int, l: int)
    requires
        s == 0,
    ensures
        red_num(h, s, l) == 3 * SCALE * SCALE * l,
        green_num(h, s, l) == 3 * SCALE * SCALE * l,
        blue_num(h, s, l) == 3 * SCALE * SCALE * l,
{
}

/// The hue ramp is continuous across its piece boundaries: one step of the
/// wrapped offset `t` moves the channel by at most `6 * (q - p)`, one unit
/// of the ramp's own slope, in either direction.
pub proof fn lemma_hue2rgb_continuous(p: int, q: int, t: int)
    requires
        0 <= p <= q,
        1 <= t <= TURN,
    ensures
        hue2rgb_num(p, q, t) - hue2rgb_num(p, q, t - 1) <= 6 * (q - p),
        hue2rgb_num(p, q, t - 1) - hue2rgb_num(p, q, t) <= 6 * (q - p),
{
    let d = q - p;
    if 2 * t < SCALE {
        assert(hue2rgb_num(p, q, t) - hue2rgb_num(p, q, t - 1) == 6 * d) by (nonlinear_arith)
            requires
                d == q - p,
                1 <= t,
                2 * t < SCALE,
        ;
    } else if 2 * t == SCALE {
        // last step of the first piece: p + (q - p) * 6 * t reaches q
        assert(3 * SCALE * p + 6 * d * (t - 1) == 3 * SCALE * q - 6 * d) by (nonlinear_arith)
            requires
                d == q - p,
                2 * t == SCALE,
        ;
    } else if 2 * t < 3 * SCALE {
        // both sides sit on the flat piece at q
    } else if 2 * t == 3 * SCALE {
        // the third piece starts exactly at q
        assert(3 * SCALE * p + 6 * d * (2 * SCALE - t) == 3 * SCALE * q) by (nonlinear_arith)
            requires
                d == q - p,
                2 * t == 3 * SCALE,
        ;
    } else if t < 2 * SCALE {
        assert(hue2rgb_num(p, q, t - 1) - hue2rgb_num(p, q, t) == 6 * d) by (nonlinear_arith)
            requires
                d == q - p,
                2 * (t - 1) >= 3 * SCALE,
                t < 2 * SCALE,
        ;
    } else if t == 2 * SCALE {
        // the third piece ends exactly at p
        assert(3 * SCALE * p + 6 * d * (2 * SCALE - (t - 1)) == 3 * SCALE * p + 6 * d) by (nonlinear_arith)
            requires
                d == q - p,
                t == 2 * SCALE,
        ;
    } else {
        // both sides sit on the flat piece at p
    }
}

} // verus!
