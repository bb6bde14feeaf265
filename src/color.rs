use vstd::prelude::*;
use vstd::arithmetic::div_mod::{lemma_fundamental_div_mod, lemma_mod_bound};

verus! {

/// Fixed-point unit: `ONE` stands for 1.0 (saturation, brightness, alpha and filter values
/// are all counted in millionths).
pub const ONE: i64 = 1_000_000;

/// A full hue turn, in millionths of a degree.
pub const FULL_TURN: i64 = 360_000_000;

/// One sixth of a hue turn (60 degrees), in millionths of a degree.
pub const SIXTH_TURN: i64 = 60_000_000;

/// A stored pixel: four 8-bit channels.
#[derive(Clone, Copy, Debug, PartialEq, Eq, Structural)]
pub struct Rgba {
    pub r: u8,
    pub g: u8,
    pub b: u8,
    pub a: u8,
}

/// A pixel in HSV(A) space, in fixed point.
///
/// `hue` is in millionths of a degree; `saturation`, `value` and `alpha` are in millionths
/// of the unit interval.
#[derive(Clone, Copy, Debug, PartialEq, Eq, Structural)]
pub struct Hsva {
    pub hue: i64,
    pub saturation: i64,
    pub value: i64,
    pub alpha: i64,
}

impl Hsva {
    /// Hue normalized into one turn; the other components in `[0, ONE]`.
    pub open spec fn wf(self) -> bool {
        &&& 0 <= self.hue < FULL_TURN
        &&& 0 <= self.saturation <= ONE
        &&& 0 <= self.value <= ONE
        &&& 0 <= self.alpha <= ONE
    }
}

pub open spec fn max3(a: int, b: int, c: int) -> int {
    if a >= b && a >= c {
        a
    } else if b >= c {
        b
    } else {
        c
    }
}

pub open spec fn min3(a: int, b: int, c: int) -> int {
    if a <= b && a <= c {
        a
    } else if b <= c {
        b
    } else {
        c
    }
}

/// A hue angle brought into `[0, FULL_TURN)`.
pub open spec fn wrap_hue(x: int) -> int {
    x % (FULL_TURN as int)
}

/// The hue of an RGB triple, in millionths of a degree (0 for grays).
pub open spec fn hue_of(r: int, g: int, b: int) -> int {
    let mx = max3(r, g, b);
    let d = mx - min3(r, g, b);
    if d == 0 {
        0
    } else if r == mx {
        wrap_hue(SIXTH_TURN * (g - b) / d)
    } else if g == mx {
        2 * SIXTH_TURN + SIXTH_TURN * (b - r) / d
    } else {
        4 * SIXTH_TURN + SIXTH_TURN * (r - g) / d
    }
}

/// The saturation of an RGB triple: spread over maximum.
pub open spec fn saturation_of(r: int, g: int, b: int) -> int {
    let mx = max3(r, g, b);
    if mx == 0 {
        0
    } else {
        (mx - min3(r, g, b)) * ONE / mx
    }
}

/// An 8-bit channel as a fraction of `ONE`.
pub open spec fn unit_of(c: int) -> int {
    c * ONE / 255 as int
}

/// A fraction of `ONE` rounded to the nearest 8-bit channel.
pub open spec fn channel_of(x: int) -> int {
    (x * 255 + ONE / 2) / ONE as int
}

/// RGBA to HSVA, directly in gamma (display) space.
pub open spec fn to_hsva_spec(p: Rgba) -> Hsva {
    let r = p.r as int;
    let g = p.g as int;
    let b = p.b as int;
    Hsva {
        hue: hue_of(r, g, b) as i64,
        saturation: saturation_of(r, g, b) as i64,
        value: unit_of(max3(r, g, b)) as i64,
        alpha: unit_of(p.a as int) as i64,
    }
}

/// The three color components (before quantization) that an HSV value stands for.
pub open spec fn hsv_components(hue: int, saturation: int, value: int) -> (int, int, int) {
    let c = value * saturation / ONE as int;
    let m = value - c;
    let i = hue / SIXTH_TURN as int;
    let f = hue % SIXTH_TURN as int;
    let up = c * f / SIXTH_TURN as int;
    let down = c * (SIXTH_TURN - f) / SIXTH_TURN as int;
    if i == 0 {
        (c + m, up + m, m)
    } else if i == 1 {
        (down + m, c + m, m)
    } else if i == 2 {
        (m, c + m, up + m)
    } else if i == 3 {
        (m, down + m, c + m)
    } else if i == 4 {
        (up + m, m, c + m)
    } else {
        (c + m, m, down + m)
    }
}

/// HSVA back to RGBA, rounding each channel to the nearest 8-bit value.
pub open spec fn from_hsva_spec(h: Hsva) -> Rgba {
    let t = hsv_components(h.hue as int, h.saturation as int, h.value as int);
    Rgba {
        r: channel_of(t.0) as u8,
        g: channel_of(t.1) as u8,
        b: channel_of(t.2) as u8,
        a: channel_of(h.alpha as int) as u8,
    }
}

pub proof fn lemma_floor(x: int, d: int)
    requires
        d > 0,
    ensures
        d * (x / d) <= x < d * (x / d) + d,
{
    lemma_fundamental_div_mod(x, d);
    lemma_mod_bound(x, d);
}

pub proof fn lemma_floor_unique(x: int, d: int, q: int)
    requires
        d > 0,
        d * q <= x < d * q + d,
    ensures
        x / d == q,
{
    lemma_floor(x, d);
    let k = x / d;
    assert(k == q) by (nonlinear_arith)
        requires
            d > 0,
            d * q <= x < d * q + d,
            d * k <= x < d * k + d,
    ;
}

/// A share of a sixth turn: `SIXTH_TURN * num / d` for `|num| <= d`.
pub proof fn lemma_sector_offset(num: int, d: int)
    requires
        0 < d,
        -d <= num <= d,
    ensures
        -SIXTH_TURN <= SIXTH_TURN * num / d <= SIXTH_TURN,
{
    lemma_floor(SIXTH_TURN * num, d);
    let q = SIXTH_TURN * num / d;
    assert(-SIXTH_TURN <= q <= SIXTH_TURN) by (nonlinear_arith)
        requires
            0 < d,
            -d <= num <= d,
            d * q <= SIXTH_TURN * num < d * q + d,
    ;
}

/// Floor division by a positive divisor.
pub(crate) fn floor_div(n: i64, d: i64) -> (q: i64)
    requires
        d > 0,
        n > i64::MIN,
    ensures
        q == n / d,
{
    proof {
        lemma_floor(n as int, d as int);
    }
    if n >= 0 {
        n / d
    } else {
        let p: i64 = (-n) / d;
        proof {
            lemma_floor(-n as int, d as int);
        }
        assert(p * d <= -n) by (nonlinear_arith)
            requires
                d * p <= -n,
        ;
        if p * d == -n {
            proof {
                assert(d * (-p) == n) by (nonlinear_arith)
                    requires
                        p * d == -n,
                ;
                lemma_floor_unique(n as int, d as int, -p);
            }
            -p
        } else {
            proof {
                assert(d * (-p - 1) <= n < d * (-p - 1) + d) by (nonlinear_arith)
                    requires
                        d * p <= -n < d * p + d,
                        p * d != -n,
                ;
                lemma_floor_unique(n as int, d as int, -p - 1);
            }
            -p - 1
        }
    }
}

/// `x % FULL_TURN`, Euclidean.
pub fn wrap_degrees(x: i64) -> (r: i64)
    requires
        -4_000_000_000_000_000_000 <= x <= 4_000_000_000_000_000_000,
    ensures
        r == wrap_hue(x as int),
        0 <= r < FULL_TURN,
{
    let q = floor_div(x, FULL_TURN);
    proof {
        lemma_fundamental_div_mod(x as int, FULL_TURN as int);
        lemma_mod_bound(x as int, FULL_TURN as int);
    }
    x - q * FULL_TURN
}

/// RGBA to HSVA.
pub fn to_hsva(p: Rgba) -> (h: Hsva)
    ensures
        h == to_hsva_spec(p),
        h.wf(),
{
    let r = p.r as i64;
    let g = p.g as i64;
    let b = p.b as i64;
    let mx: i64 = if r >= g && r >= b {
        r
    } else if g >= b {
        g
    } else {
        b
    };
    let mn: i64 = if r <= g && r <= b {
        r
    } else if g <= b {
        g
    } else {
        b
    };
    let d: i64 = mx - mn;
    proof {
        if d > 0 {
            lemma_sector_offset(g - b, d as int);
            lemma_sector_offset(b - r, d as int);
            lemma_sector_offset(r - g, d as int);
            lemma_floor(d * ONE, mx as int);
            assert(d * ONE / mx as int <= ONE) by (nonlinear_arith)
                requires
                    0 < d <= mx,
                    mx * (d * ONE / mx as int) <= d * ONE,
            ;
        }
        lemma_floor(mx * ONE, 255);
        lemma_floor(p.a as int * ONE, 255);
    }
    let hue: i64 = if d == 0 {
        0
    } else if r == mx {
        wrap_degrees(floor_div(SIXTH_TURN * (g - b), d))
    } else if g == mx {
        2 * SIXTH_TURN + floor_div(SIXTH_TURN * (b - r), d)
    } else {
        4 * SIXTH_TURN + floor_div(SIXTH_TURN * (r - g), d)
    };
    let saturation: i64 = if mx == 0 {
        0
    } else {
        d * ONE / mx
    };
    Hsva { hue, saturation, value: mx * ONE / 255, alpha: p.a as i64 * ONE / 255 }
}

/// A fraction of `ONE` rounded to the nearest 8-bit channel.
fn to_channel(x: i64) -> (c: u8)
    requires
        0 <= x <= ONE,
    ensures
        c == channel_of(x as int),
{
    proof {
        lemma_floor(x * 255 + ONE / 2, ONE as int);
    }
    ((x * 255 + ONE / 2) / ONE) as u8
}

/// `c * k / SIXTH_TURN` lies in `[0, c]` for `k` in `[0, SIXTH_TURN]`.
proof fn lemma_share(c: int, k: int)
    requires
        0 <= c,
        0 <= k <= SIXTH_TURN,
    ensures
        0 <= c * k / SIXTH_TURN as int <= c,
{
    lemma_floor(c * k, SIXTH_TURN as int);
    let q = c * k / SIXTH_TURN as int;
    assert(0 <= q <= c) by (nonlinear_arith)
        requires
            0 <= c,
            0 <= k <= SIXTH_TURN,
            SIXTH_TURN * q <= c * k < SIXTH_TURN * q + SIXTH_TURN,
    ;
}

/// HSVA to RGBA.
pub fn from_hsva(h: Hsva) -> (p: Rgba)
    requires
        h.wf(),
    ensures
        p == from_hsva_spec(h),
{
    let v = h.value;
    proof {
        lemma_floor(v * h.saturation, ONE as int);
        assert(0 <= v * h.saturation / ONE as int <= v) by (nonlinear_arith)
            requires
                0 <= v <= ONE,
                0 <= h.saturation <= ONE,
                ONE * (v * h.saturation / ONE as int) <= v * h.saturation,
        ;
    }
    let c: i64 = v * h.saturation / ONE;
    let m: i64 = v - c;
    let i: i64 = h.hue / SIXTH_TURN;
    let f: i64 = h.hue % SIXTH_TURN;
    proof {
        lemma_share(c as int, f as int);
        lemma_share(c as int, SIXTH_TURN - f);
    }
    let up: i64 = c * f / SIXTH_TURN;
    let down: i64 = c * (SIXTH_TURN - f) / SIXTH_TURN;
    let (r, g, b) = if i == 0 {
        (c + m, up + m, m)
    } else if i == 1 {
        (down + m, c + m, m)
    } else if i == 2 {
        (m, c + m, up + m)
    } else if i == 3 {
        (m, down + m, c + m)
    } else if i == 4 {
        (up + m, m, c + m)
    } else {
        (c + m, m, down + m)
    };
    Rgba { r: to_channel(r), g: to_channel(g), b: to_channel(b), a: to_channel(h.alpha) }
}

} // verus!
