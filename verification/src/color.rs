use vstd::prelude::*;

verus! {

/// The channel value that stands for full intensity. A channel `n` of a
/// normalised colour is the fraction `n / UNIT`; a coverage value is a
/// fraction of the same unit.
pub const UNIT: u16 = 0xFFFF;

/// A colour in normalised space, the interchange form of all rendering.
#[derive(Debug, Clone, Copy, PartialEq, Eq, Structural)]
pub struct Rgb {
    pub r: u16,
    pub g: u16,
    pub b: u16,
}

/// One channel of `coverage * color + (1 - coverage) * background`, in
/// fractions of `UNIT`, rounded towards zero.
pub open spec fn spec_mix(coverage: u16, color: u16, background: u16) -> u16 {
    ((coverage as int * color as int + (UNIT as int - coverage as int) * background as int)
        / UNIT as int) as u16
}

/// The 16-bit fixed-point channel scaled down to `levels + 1` steps, rounded
/// towards zero.
pub open spec fn spec_quantize(n: u16, levels: u16) -> u16 {
    (n as int * levels as int / UNIT as int) as u16
}

/// The channel that a quantised value `q` out of `levels` stands for: the
/// smallest channel that is stored as `q`, which is `q * UNIT / levels`
/// rounded up.
pub open spec fn spec_expand(q: u16, levels: u16) -> u16
    recommends
        0 < levels,
        q <= levels,
{
    ((q as int * UNIT as int + levels as int - 1) / levels as int) as u16
}

/// The three fields of a 5/6/5 packed pixel.
pub open spec fn spec_red5(p: u16) -> u16 {
    (p & 0xf800) >> 11
}

pub open spec fn spec_green6(p: u16) -> u16 {
    (p & 0x07e0) >> 5
}

pub open spec fn spec_blue5(p: u16) -> u16 {
    p & 0x001f
}

/// The 5/6/5 packed pixel with the given fields.
pub open spec fn spec_pack565(r: u16, g: u16, b: u16) -> u16 {
    (r << 11) | (g << 5) | b
}

impl Rgb {
    pub open spec fn spec_black() -> Rgb {
        Rgb { r: 0, g: 0, b: 0 }
    }

    pub open spec fn spec_white() -> Rgb {
        Rgb { r: UNIT, g: UNIT, b: UNIT }
    }

    /// `self` composited over `background` with the given coverage.
    pub open spec fn spec_blend(self, background: Rgb, coverage: u16) -> Rgb {
        Rgb {
            r: spec_mix(coverage, self.r, background.r),
            g: spec_mix(coverage, self.g, background.g),
            b: spec_mix(coverage, self.b, background.b),
        }
    }

    pub fn new(r: u16, g: u16, b: u16) -> (c: Rgb)
        ensures
            c == (Rgb { r, g, b }),
    {
        Rgb { r, g, b }
    }

    pub fn black() -> (c: Rgb)
        ensures
            c == Rgb::spec_black(),
    {
        Rgb { r: 0, g: 0, b: 0 }
    }

    pub fn white() -> (c: Rgb)
        ensures
            c == Rgb::spec_white(),
    {
        Rgb { r: UNIT, g: UNIT, b: UNIT }
    }

    /// Alpha-composites `self` over `background`.
    pub fn blend(self, background: Rgb, coverage: u16) -> (out: Rgb)
        ensures
            out == self.spec_blend(background, coverage),
    {
        Rgb {
            r: mix(coverage, self.r, background.r),
            g: mix(coverage, self.g, background.g),
            b: mix(coverage, self.b, background.b),
        }
    }
}

/// Blends one channel.
pub fn mix(coverage: u16, color: u16, background: u16) -> (out: u16)
    ensures
        out == spec_mix(coverage, color, background),
{
    let c: u64 = coverage as u64;
    let rest: u64 = 0xFFFF - c;
    proof {
        lemma_mix_bounds(coverage, color, background);
        assert(c * (color as u64) <= c * 0xFFFF) by (nonlinear_arith)
            requires
                color <= 0xFFFF,
                c >= 0,
        ;
        assert(rest * (background as u64) <= rest * 0xFFFF) by (nonlinear_arith)
            requires
                background <= 0xFFFF,
                rest >= 0,
        ;
    }
    let total: u64 = c * (color as u64) + rest * (background as u64);
    (total / 0xFFFF) as u16
}

/// A blend never leaves the unit interval.
pub proof fn lemma_mix_bounds(coverage: u16, color: u16, background: u16)
    ensures
        0 <= coverage as int * color as int + (UNIT as int - coverage as int) * background as int
            <= UNIT as int * UNIT as int,
        0 <= (coverage as int * color as int + (UNIT as int - coverage as int) * background as int)
            / UNIT as int <= UNIT as int,
{
    let c = coverage as int;
    let rest = UNIT as int - c;
    assert(0 <= c * color as int <= c * 0xFFFF) by (nonlinear_arith)
        requires
            0 <= color as int <= 0xFFFF,
            c >= 0,
    ;
    assert(0 <= rest * background as int <= rest * 0xFFFF) by (nonlinear_arith)
        requires
            0 <= background as int <= 0xFFFF,
            rest >= 0,
    ;
    assert(c * 0xFFFF + rest * 0xFFFF == 0xFFFF * 0xFFFF) by (nonlinear_arith)
        requires
            c + rest == 0xFFFF,
    ;
}

/// Full coverage gives the colour, no coverage keeps the background.
pub proof fn lemma_mix_ends(color: u16, background: u16)
    ensures
        spec_mix(UNIT, color, background) == color,
        spec_mix(0, color, background) == background,
{
    assert(0xFFFF * color as int / 0xFFFF == color as int);
    assert(0xFFFF * background as int / 0xFFFF == background as int);
}

/// Full coverage replaces the background; no coverage leaves it alone.
pub proof fn lemma_blend_ends(color: Rgb, background: Rgb)
    ensures
        color.spec_blend(background, UNIT) == color,
        color.spec_blend(background, 0) == background,
{
    lemma_mix_ends(color.r, background.r);
    lemma_mix_ends(color.g, background.g);
    lemma_mix_ends(color.b, background.b);
}

/// An on-the-wire colour encoding of one pixel.
pub trait PixelType: Copy {
    /// The encoding's black value.
    spec fn spec_black() -> Self;

    /// The pixel that a normalised colour is stored as.
    spec fn spec_encode(rgb: Rgb) -> Self;

    /// The normalised colour that a pixel stands for.
    spec fn spec_decode(&self) -> Rgb;

    fn black() -> (p: Self)
        ensures
            p == Self::spec_black(),
    ;

    fn set(&mut self, rgb: Rgb)
        ensures
            *final(self) == Self::spec_encode(rgb),
    ;

    fn get(&self) -> (rgb: Rgb)
        ensures
            rgb == self.spec_decode(),
    ;

    /// The black value stands for black, and black is stored as it.
    proof fn lemma_black()
        ensures
            Self::spec_black().spec_decode() == Rgb::spec_black(),
            Self::spec_encode(Rgb::spec_black()) == Self::spec_black(),
    ;

    /// White is stored and read back as white.
    proof fn lemma_white()
        ensures
            Self::spec_encode(Rgb::spec_white()).spec_decode() == Rgb::spec_white(),
    ;

    /// A pixel that is read and stored again is the same pixel.
    proof fn lemma_stored(p: Self)
        ensures
            Self::spec_encode(p.spec_decode()) == p,
    ;
}

/// Three bytes, one per channel.
impl PixelType for [u8; 3] {
    open spec fn spec_black() -> Self {
        [0u8, 0u8, 0u8]
    }

    open spec fn spec_encode(rgb: Rgb) -> Self {
        [
            spec_quantize(rgb.r, 0xFF) as u8,
            spec_quantize(rgb.g, 0xFF) as u8,
            spec_quantize(rgb.b, 0xFF) as u8,
        ]
    }

    open spec fn spec_decode(&self) -> Rgb {
        Rgb {
            r: spec_expand(self[0] as u16, 0xFF),
            g: spec_expand(self[1] as u16, 0xFF),
            b: spec_expand(self[2] as u16, 0xFF),
        }
    }

    fn black() -> (p: Self) {
        [0u8, 0u8, 0u8]
    }

    fn set(&mut self, rgb: Rgb) {
        let r: u8 = quantize(rgb.r, 0xFF) as u8;
        let g: u8 = quantize(rgb.g, 0xFF) as u8;
        let b: u8 = quantize(rgb.b, 0xFF) as u8;
        *self = [r, g, b];
    }

    fn get(&self) -> (rgb: Rgb) {
        Rgb {
            r: expand(self[0] as u16, 0xFF),
            g: expand(self[1] as u16, 0xFF),
            b: expand(self[2] as u16, 0xFF),
        }
    }

    proof fn lemma_black() {
        assert(<[u8; 3]>::spec_encode(Rgb::spec_black())@ =~= <[u8; 3]>::spec_black()@);
    }

    proof fn lemma_white() {
    }

    proof fn lemma_stored(p: Self) {
        lemma_rgb888_pixel_exact(p);
    }
}

/// Sixteen bits: five of red, six of green, five of blue.
impl PixelType for u16 {
    open spec fn spec_black() -> Self {
        0u16
    }

    open spec fn spec_encode(rgb: Rgb) -> Self {
        spec_pack565(
            spec_quantize(rgb.r, 31),
            spec_quantize(rgb.g, 63),
            spec_quantize(rgb.b, 31),
        )
    }

    open spec fn spec_decode(&self) -> Rgb {
        Rgb {
            r: spec_expand(spec_red5(*self), 31),
            g: spec_expand(spec_green6(*self), 63),
            b: spec_expand(spec_blue5(*self), 31),
        }
    }

    fn black() -> (p: Self) {
        0u16
    }

    fn set(&mut self, rgb: Rgb) {
        let r: u16 = quantize(rgb.r, 31);
        let g: u16 = quantize(rgb.g, 63);
        let b: u16 = quantize(rgb.b, 31);
        assert(r << 11 == (r << 11) & 0xffff && g << 5 == (g << 5) & 0xffff) by (bit_vector);
        *self = (r << 11) | (g << 5) | b;
    }

    fn get(&self) -> (rgb: Rgb) {
        let p: u16 = *self;
        let r: u16 = (p & 0xf800) >> 11;
        let g: u16 = (p & 0x07e0) >> 5;
        let b: u16 = p & 0x001f;
        assert(r <= 31 && g <= 63 && b <= 31) by (bit_vector)
            requires
                r == (p & 0xf800) >> 11,
                g == (p & 0x07e0) >> 5,
                b == p & 0x001f,
        ;
        Rgb { r: expand(r, 31), g: expand(g, 63), b: expand(b, 31) }
    }

    proof fn lemma_black() {
        assert(spec_red5(0) == 0 && spec_green6(0) == 0 && spec_blue5(0) == 0 && spec_pack565(
            0,
            0,
            0,
        ) == 0) by (bit_vector);
    }

    proof fn lemma_white() {
        lemma_pack565_fields(31, 63, 31);
    }

    proof fn lemma_stored(p: Self) {
        let r = spec_red5(p);
        let g = spec_green6(p);
        let b = spec_blue5(p);
        assert(r <= 31 && g <= 63 && b <= 31 && p == (r << 11) | (g << 5) | b) by (bit_vector)
            requires
                r == (p & 0xf800) >> 11,
                g == (p & 0x07e0) >> 5,
                b == p & 0x001f,
        ;
        lemma_channel_stored(r, 31);
        lemma_channel_stored(g, 63);
        lemma_channel_stored(b, 31);
    }
}

/// Scales a channel down to `levels + 1` steps.
pub fn quantize(n: u16, levels: u16) -> (q: u16)
    ensures
        q == spec_quantize(n, levels),
        q <= levels,
{
    proof {
        lemma_quantize_bound(n, levels);
    }
    let wide: u32 = (n as u32) * (levels as u32);
    (wide / 0xFFFF) as u16
}

/// Scales a quantised value back to the full channel range.
pub fn expand(q: u16, levels: u16) -> (n: u16)
    requires
        0 < levels,
        q <= levels,
    ensures
        n == spec_expand(q, levels),
{
    proof {
        lemma_expand_bound(q, levels);
    }
    let wide: u32 = (q as u32) * 0xFFFF + (levels as u32 - 1);
    (wide / (levels as u32)) as u16
}

/// A quantised channel never exceeds its number of levels.
pub proof fn lemma_quantize_bound(n: u16, levels: u16)
    ensures
        0 <= n as int * levels as int <= 0xFFFF * 0xFFFF,
        0 <= n as int * levels as int / 0xFFFF <= levels,
{
    assert(0 <= n as int * levels as int <= 0xFFFF * levels as int) by (nonlinear_arith)
        requires
            0 <= n as int <= 0xFFFF,
            0 <= levels as int,
    ;
    assert(0xFFFF * levels as int <= 0xFFFF * 0xFFFF) by (nonlinear_arith)
        requires
            levels as int <= 0xFFFF,
    ;
    assert(0xFFFF * levels as int / 0xFFFF == levels as int) by (nonlinear_arith);
    assert(n as int * levels as int / 0xFFFF <= 0xFFFF * levels as int / 0xFFFF)
        by (nonlinear_arith)
        requires
            n as int * levels as int <= 0xFFFF * levels as int,
    ;
}

/// An expanded channel never exceeds `UNIT`, and lies within one level's
/// width above `q * UNIT / levels`.
pub proof fn lemma_expand_bound(q: u16, levels: u16)
    requires
        0 < levels,
        q <= levels,
    ensures
        0 <= q as int * 0xFFFF + levels as int - 1 <= u32::MAX,
        0 <= (q as int * 0xFFFF + levels as int - 1) / levels as int <= 0xFFFF,
        q as int * 0xFFFF <= spec_expand(q, levels) as int * levels as int,
        spec_expand(q, levels) as int * levels as int <= q as int * 0xFFFF + levels as int - 1,
{
    let l = levels as int;
    let top = q as int * 0xFFFF + l - 1;
    assert(0 <= q as int * 0xFFFF <= l * 0xFFFF) by (nonlinear_arith)
        requires
            0 <= q as int <= l,
    ;
    assert(l * 0xFFFF <= 0xFFFF * 0xFFFF) by (nonlinear_arith)
        requires
            l <= 0xFFFF,
    ;
    let d = top / l;
    assert(d * l <= top < d * l + l) by (nonlinear_arith)
        requires
            d == top / l,
            0 < l,
    ;
    assert(0 <= d <= 0xFFFF) by (nonlinear_arith)
        requires
            d * l <= top,
            top < d * l + l,
            0 <= top,
            top < 0xFFFF * l + l,
            0 < l,
    ;
}

/// Storing a channel with `levels + 1` steps and reading it back never
/// raises it, and lowers it by at most one step: by `1 / levels` of the
/// full range.
pub proof fn lemma_channel_within_step(n: u16, levels: u16)
    requires
        0 < levels,
    ensures
        spec_expand(spec_quantize(n, levels), levels) <= n,
        (n - spec_expand(spec_quantize(n, levels), levels)) * levels <= UNIT,
{
    lemma_quantize_bound(n, levels);
    let q = spec_quantize(n, levels);
    lemma_expand_bound(q, levels);
    let l = levels as int;
    let e = n as int * l / 0xFFFF;
    let d = spec_expand(q, levels) as int;
    assert(e * 0xFFFF <= n as int * l < e * 0xFFFF + 0xFFFF) by (nonlinear_arith)
        requires
            e == n as int * l / 0xFFFF,
    ;
    assert(d <= n as int) by (nonlinear_arith)
        requires
            d * l <= e * 0xFFFF + l - 1,
            e * 0xFFFF <= n as int * l,
            0 < l,
    ;
    assert((n as int - d) * l <= 0xFFFF) by (nonlinear_arith)
        requires
            e * 0xFFFF <= d * l,
            n as int * l < e * 0xFFFF + 0xFFFF,
    ;
}

/// A quantised value that is expanded and quantised again is itself.
pub proof fn lemma_channel_stored(q: u16, levels: u16)
    requires
        0 < levels,
        q <= levels,
    ensures
        spec_quantize(spec_expand(q, levels), levels) == q,
{
    lemma_expand_bound(q, levels);
    let l = levels as int;
    let d = spec_expand(q, levels) as int;
    let e = d * l / 0xFFFF;
    assert(e == q as int) by (nonlinear_arith)
        requires
            e == d * l / 0xFFFF,
            q as int * 0xFFFF <= d * l,
            d * l <= q as int * 0xFFFF + l - 1,
            0 < l <= 0xFFFF,
    ;
}

/// Whether every channel of `c` is a value that three bytes can hold exactly.
pub open spec fn spec_is_rgb888(c: Rgb) -> bool {
    c.r % 257 == 0 && c.g % 257 == 0 && c.b % 257 == 0
}

/// A value that a byte can hold exactly is stored and read back unchanged.
pub proof fn lemma_channel_exact(n: u16)
    requires
        n % 257 == 0,
    ensures
        spec_expand(spec_quantize(n, 0xFF), 0xFF) == n,
{
}

/// The three-byte encoding is exact: a colour that it can hold reads back
/// as itself.
pub proof fn lemma_rgb888_exact(c: Rgb)
    requires
        spec_is_rgb888(c),
    ensures
        <[u8; 3]>::spec_encode(c).spec_decode() == c,
{
    lemma_channel_exact(c.r);
    lemma_channel_exact(c.g);
    lemma_channel_exact(c.b);
}

/// Every three-byte pixel stands for a colour that is stored as that pixel.
pub proof fn lemma_rgb888_pixel_exact(p: [u8; 3])
    ensures
        spec_is_rgb888(p.spec_decode()),
        <[u8; 3]>::spec_encode(p.spec_decode()) == p,
{
    let q = <[u8; 3]>::spec_encode(p.spec_decode());
    assert(q@ =~= p@);
}

/// The fields of a packed 5/6/5 pixel are the ones it was packed from.
pub proof fn lemma_pack565_fields(r: u16, g: u16, b: u16)
    requires
        r <= 31,
        g <= 63,
        b <= 31,
    ensures
        spec_red5(spec_pack565(r, g, b)) == r,
        spec_green6(spec_pack565(r, g, b)) == g,
        spec_blue5(spec_pack565(r, g, b)) == b,
{
    assert((((r << 11) | (g << 5) | b) & 0xf800) >> 11 == r && (((r << 11) | (g << 5) | b)
        & 0x07e0) >> 5 == g && ((r << 11) | (g << 5) | b) & 0x001f == b) by (bit_vector)
        requires
            r <= 31,
            g <= 63,
            b <= 31,
    ;
}

/// The 5/6/5 encoding is lossy: a colour reads back no brighter than it was
/// stored, and within one quantisation step per channel, which is a 31st
/// of the full range for red and blue and a 63rd for green.
pub proof fn lemma_rgb565_within_step(c: Rgb)
    ensures
        ({
            let d = <u16 as PixelType>::spec_encode(c).spec_decode();
            &&& d.r <= c.r && (c.r - d.r) * 31 <= UNIT
            &&& d.g <= c.g && (c.g - d.g) * 63 <= UNIT
            &&& d.b <= c.b && (c.b - d.b) * 31 <= UNIT
        }),
{
    lemma_quantize_bound(c.r, 31);
    lemma_quantize_bound(c.g, 63);
    lemma_quantize_bound(c.b, 31);
    lemma_pack565_fields(spec_quantize(c.r, 31), spec_quantize(c.g, 63), spec_quantize(c.b, 31));
    lemma_channel_within_step(c.r, 31);
    lemma_channel_within_step(c.g, 63);
    lemma_channel_within_step(c.b, 31);
}

/// Every 5/6/5 pixel stands for a colour that is stored as that pixel.
pub proof fn lemma_rgb565_pixel_exact(p: u16)
    ensures
        <u16 as PixelType>::spec_encode(p.spec_decode()) == p,
{
    <u16 as PixelType>::lemma_stored(p);
}

} // verus!
