//! Posterization: quantizing byte channels to a few discrete levels
//! through a precomputed 256-entry lookup table.

use vstd::prelude::*;

verus! {

/// One RGB byte triple.
#[derive(Clone, Copy, Debug, PartialEq, Eq, Structural)]
pub struct Rgb {
    pub r: u8,
    pub g: u8,
    pub b: u8,
}

/// The posterized value of a byte `v` for a level count `levels`:
/// `floor(255 * floor(v * levels / 256) / (levels - 1))`.
pub open spec fn posterize_value(v: int, levels: int) -> int {
    255 * ((v * levels) / 256) / (levels - 1)
}

/// Replaces each byte channel by its posterized value, through a lookup
/// table built once from the level count.
pub struct Posterizer {
    lookup: Vec<u8>,
    levels: Ghost<usize>,
}

impl Posterizer {
    /// The level count this table was built with.
    pub closed spec fn levels(&self) -> int {
        self.levels@ as int
    }

    /// The lookup table, one entry per byte value.
    pub closed spec fn table(&self) -> Seq<u8> {
        self.lookup@
    }

    /// The table has 256 entries, one posterized value per byte.
    pub open spec fn wf(&self) -> bool {
        &&& 2 <= self.levels()
        &&& self.table().len() == 256
        &&& forall|i: int|
            0 <= i < 256 ==> self.table()[i] == posterize_value(i, self.levels())
    }

    /// Builds the table for `levels` quantization steps. A single level
    /// would divide by zero, so at least two are required; the upper bound
    /// keeps the table arithmetic within `usize`.
    pub fn new(levels: usize) -> (p: Posterizer)
        requires
            2 <= levels,
            255 * levels <= usize::MAX,
        ensures
            p.wf(),
            p.levels() == levels,
    {
        let mut lookup: Vec<u8> = Vec::new();
        let mut i: usize = 0;
        while i < 256
            invariant
                i <= 256,
                2 <= levels,
                255 * levels <= usize::MAX,
                lookup@.len() == i,
                forall|j: int| 0 <= j < i ==> lookup@[j] == posterize_value(j, levels as int),
            decreases 256 - i,
        {
            proof {
                assert(i * levels <= 255 * levels) by (nonlinear_arith)
                    requires
                        0 <= i <= 255,
                        0 <= levels,
                ;
                assert((i * levels) / 256 <= levels - 1) by (nonlinear_arith)
                    requires
                        i * levels <= 255 * levels,
                        0 <= i * levels,
                        2 <= levels,
                ;
            }
            let k = i * levels / 256;
            proof {
                assert(255 * k / (levels - 1) <= 255) by (nonlinear_arith)
                    requires
                        0 <= k <= levels - 1,
                        2 <= levels,
                ;
            }
            let v = 255 * k / (levels - 1);
            lookup.push(v as u8);
            i = i + 1;
        }
        Posterizer { lookup, levels: Ghost(levels) }
    }

    /// Replaces each channel of `color` with its table entry.
    pub fn apply(&self, color: &mut Rgb)
        requires
            self.wf(),
        ensures
            final(color).r == posterize_value(old(color).r as int, self.levels()),
            final(color).g == posterize_value(old(color).g as int, self.levels()),
            final(color).b == posterize_value(old(color).b as int, self.levels()),
    {
        let r = self.lookup[color.r as usize];
        let g = self.lookup[color.g as usize];
        let b = self.lookup[color.b as usize];
        *color = Rgb { r, g, b };
    }
}

/// The byte that quantization step `k` maps to: `255 * k / (levels - 1)`.
pub open spec fn level_value(k: int, levels: int) -> int {
    255 * k / (levels - 1)
}

/// Every entry of the table is the value of one of the `levels` steps.
/// A render posterized at `levels` can therefore show at most `levels`
/// distinct values per channel.
pub proof fn lemma_posterize_level_count(v: int, levels: int)
    requires
        0 <= v < 256,
        2 <= levels,
    ensures
        exists|k: int| 0 <= k < levels && posterize_value(v, levels) == level_value(k, levels),
{
    let k = (v * levels) / 256;
    assert(0 <= k < levels) by (nonlinear_arith)
        requires
            0 <= v < 256,
            2 <= levels,
            k == (v * levels) / 256,
    ;
    assert(posterize_value(v, levels) == level_value(k, levels));
}

/// The ends of the table are exact: byte 0 posterizes to 0 and byte 255 to
/// 255, for any level count up to 256.
pub proof fn lemma_posterize_endpoints(levels: int)
    requires
        2 <= levels <= 256,
    ensures
        posterize_value(0, levels) == 0,
        posterize_value(255, levels) == 255,
{
    assert((0 * levels) / 256 == 0);
    assert(255 * 0int == 0);
    assert(0int / (levels - 1) == 0) by (nonlinear_arith)
        requires
            2 <= levels,
    ;
    assert((255 * levels) / 256 == levels - 1) by (nonlinear_arith)
        requires
            2 <= levels <= 256,
    ;
    assert(255 * (levels - 1) / (levels - 1) == 255) by (nonlinear_arith)
        requires
            2 <= levels,
    ;
}

/// The lookup table is monotonically non-decreasing: a brighter channel
/// never posterizes to a darker value.
pub proof fn lemma_posterize_monotone(v1: int, v2: int, levels: int)
    requires
        0 <= v1 <= v2,
        2 <= levels,
    ensures
        posterize_value(v1, levels) <= posterize_value(v2, levels),
{
    assert((v1 * levels) / 256 <= (v2 * levels) / 256) by (nonlinear_arith)
        requires
            0 <= v1 <= v2,
            0 <= levels,
    ;
    assert(255 * ((v1 * levels) / 256) / (levels - 1) <= 255 * ((v2 * levels) / 256) / (levels
        - 1)) by (nonlinear_arith)
        requires
            0 <= (v1 * levels) / 256 <= (v2 * levels) / 256,
            2 <= levels,
    ;
}

/// Posterizing at five levels is idempotent: a second pass through the
/// table leaves every byte unchanged.
pub proof fn lemma_posterize_idempotent(v: int)
    requires
        0 <= v < 256,
    ensures
        posterize_value(posterize_value(v, 5), 5) == posterize_value(v, 5),
{
    if v < 52 {
        assert(posterize_value(v, 5) == 0);
        assert(posterize_value(0, 5) == 0);
    } else if v < 103 {
        assert(posterize_value(v, 5) == 63);
        assert(posterize_value(63, 5) == 63);
    } else if v < 154 {
        assert(posterize_value(v, 5) == 127);
        assert(posterize_value(127, 5) == 127);
    } else if v < 205 {
        assert(posterize_value(v, 5) == 191);
        assert(posterize_value(191, 5) == 191);
    } else {
        assert(posterize_value(v, 5) == 255);
        assert(posterize_value(255, 5) == 255);
    }
}

} // verus!
