use vstd::prelude::*;
use vstd::arithmetic::div_mod::lemma_fundamental_div_mod;
use crate::color::{
    channel_of, from_hsva_spec, hsv_components, hue_of, lemma_floor, lemma_floor_unique, max3,
    min3, saturation_of, to_hsva_spec, unit_of, wrap_hue, Rgba, FULL_TURN, ONE, SIXTH_TURN,
};

verus! {

/// A component close enough to `t` units of 1/255 rounds to channel `t`.
proof fn lemma_quantize(x: int, t: int)
    requires
        t * ONE - 400_000 <= x * 255 <= t * ONE + 400_000,
    ensures
        channel_of(x) == t,
{
    lemma_floor_unique(x * 255 + ONE / 2, ONE as int, t);
}

/// `hue` lies in sector `i` at offset `f`.
proof fn lemma_sector(hue: int, i: int, f: int)
    requires
        hue == i * SIXTH_TURN + f,
        0 <= f < SIXTH_TURN,
    ensures
        hue / (SIXTH_TURN as int) == i,
        hue % (SIXTH_TURN as int) == f,
{
    lemma_floor_unique(hue, SIXTH_TURN as int, i);
    lemma_fundamental_div_mod(hue, SIXTH_TURN as int);
}

/// The chroma `v * s / ONE` is within a few units of the spread `d` scaled to `ONE`.
proof fn lemma_chroma(mx: int, d: int, v: int, s: int, c: int)
    requires
        0 < d <= mx <= 255,
        mx * ONE - 255 < 255 * v <= mx * ONE,
        d * ONE - mx < mx * s <= d * ONE,
        0 <= s <= ONE,
        0 <= v,
        ONE * c <= v * s < ONE * c + ONE,
    ensures
        d * ONE - 765 < 255 * c <= d * ONE,
{
    assert(255 * v * s <= mx * ONE * s) by (nonlinear_arith)
        requires
            255 * v <= mx * ONE,
            0 <= s,
    ;
    assert(255 * v * s >= mx * ONE * s - 255 * s) by (nonlinear_arith)
        requires
            mx * ONE - 255 < 255 * v,
            0 <= s,
    ;
    assert(mx * ONE * s == ONE * (mx * s)) by (nonlinear_arith);
    assert(255 * (v * s) == 255 * v * s) by (nonlinear_arith);
    assert(255 * c * ONE <= d * ONE * ONE) by (nonlinear_arith)
        requires
            ONE * c <= v * s,
            255 * (v * s) <= ONE * (mx * s),
            mx * s <= d * ONE,
    ;
    assert(255 * c * ONE > d * ONE * ONE - 765 * ONE) by (nonlinear_arith)
        requires
            v * s < ONE * c + ONE,
            255 * (v * s) >= ONE * (mx * s) - 255 * s,
            mx * s > d * ONE - mx,
            mx <= 255,
            s <= ONE,
    ;
}

/// The middle channel: `c * k / SIXTH_TURN` plus the minimum rounds to `mn + num` when
/// `k` is within one of `SIXTH_TURN * num / d`.
proof fn lemma_middle(c: int, d: int, num: int, k: int, v: int, mx: int, mn: int)
    requires
        0 < d <= mx <= 255,
        mn == mx - d,
        0 <= num <= d,
        0 <= k <= SIXTH_TURN,
        SIXTH_TURN * num - d < k * d < SIXTH_TURN * num + d,
        d * ONE - 765 < 255 * c <= d * ONE,
        mx * ONE - 255 < 255 * v <= mx * ONE,
    ensures
        channel_of(c * k / SIXTH_TURN as int + (v - c)) == mn + num,
{
    let x = c * k / SIXTH_TURN as int;
    lemma_floor(c * k, SIXTH_TURN as int);
    assert(255 * x * SIXTH_TURN <= d * ONE * k) by (nonlinear_arith)
        requires
            SIXTH_TURN * x <= c * k,
            255 * c <= d * ONE,
            0 <= k,
    ;
    assert(d * ONE * k < (SIXTH_TURN * num + d) * ONE) by (nonlinear_arith)
        requires
            k * d < SIXTH_TURN * num + d,
    ;
    assert(255 * x < num * ONE + 5) by (nonlinear_arith)
        requires
            255 * x * SIXTH_TURN <= d * ONE * k,
            d * ONE * k < (SIXTH_TURN * num + d) * ONE,
            d <= 255,
    ;
    assert(255 * x * SIXTH_TURN > (d * ONE - 765) * k - 255 * SIXTH_TURN) by (nonlinear_arith)
        requires
            c * k < SIXTH_TURN * x + SIXTH_TURN,
            255 * c > d * ONE - 765,
            0 <= k,
    ;
    assert(d * ONE * k > (SIXTH_TURN * num - d) * ONE) by (nonlinear_arith)
        requires
            k * d > SIXTH_TURN * num - d,
    ;
    assert(255 * x > num * ONE - 1100) by (nonlinear_arith)
        requires
            255 * x * SIXTH_TURN > (d * ONE - 765) * k - 255 * SIXTH_TURN,
            d * ONE * k > (SIXTH_TURN * num - d) * ONE,
            0 <= k <= SIXTH_TURN,
            d <= 255,
    ;
    lemma_quantize(x + (v - c), mn + num);
}

/// `SIXTH_TURN * num / d` for `0 <= num < d` lies in `[0, SIXTH_TURN)`, and equals
/// `SIXTH_TURN` for `num == d`.
proof fn lemma_share_range(num: int, d: int)
    requires
        0 < d <= 255,
        -d <= num <= d,
    ensures
        0 <= num < d ==> 0 <= SIXTH_TURN * num / d < SIXTH_TURN,
        num == d ==> SIXTH_TURN * num / d == SIXTH_TURN,
        -d < num < 0 ==> -SIXTH_TURN < SIXTH_TURN * num / d < 0,
        num == -d ==> SIXTH_TURN * num / d == -SIXTH_TURN,
        SIXTH_TURN * num - d < (SIXTH_TURN * num / d) * d <= SIXTH_TURN * num,
        SIXTH_TURN * (-num) - d < (-(SIXTH_TURN * num / d)) * d < SIXTH_TURN * (-num) + d,
{
    let q = SIXTH_TURN * num / d;
    lemma_floor(SIXTH_TURN * num, d);
    assert(d * q == q * d) by (nonlinear_arith);
    assert((-q) * d == -(q * d)) by (nonlinear_arith);
    if num == d {
        lemma_floor_unique(SIXTH_TURN * num, d, SIXTH_TURN as int);
    }
    if num == -d {
        lemma_floor_unique(SIXTH_TURN * num, d, -SIXTH_TURN);
    }
    if 0 <= num < d {
        assert(0 <= q < SIXTH_TURN) by (nonlinear_arith)
            requires
                0 <= num < d,
                d * q <= SIXTH_TURN * num < d * q + d,
                0 < d,
        ;
    }
    if -d < num < 0 {
        assert(-SIXTH_TURN < q < 0) by (nonlinear_arith)
            requires
                -d < num < 0,
                d * q <= SIXTH_TURN * num < d * q + d,
                0 < d <= 255,
        ;
    }
}

/// Converting a pixel to HSVA and back gives the same pixel.
pub proof fn lemma_round_trip(p: Rgba)
    ensures
        from_hsva_spec(to_hsva_spec(p)) == p,
{
    let r = p.r as int;
    let g = p.g as int;
    let b = p.b as int;
    let a = p.a as int;
    let mx = max3(r, g, b);
    let mn = min3(r, g, b);
    let d = mx - mn;
    let h = to_hsva_spec(p);
    lemma_floor(a * ONE, 255);
    lemma_quantize(unit_of(a), a);
    let v = unit_of(mx);
    lemma_floor(mx * ONE, 255);
    assert(0 <= v <= ONE);
    if d == 0 {
        assert(saturation_of(r, g, b) == 0) by {
            if mx > 0 {
                lemma_floor_unique(0, mx, 0);
            }
        }
        lemma_sector(0, 0, 0);
        assert(v * 0 == 0) by (nonlinear_arith);
        assert(0int / (ONE as int) == 0);
        assert(v * 0 / (ONE as int) == 0);
        assert((0int * 0int) / (SIXTH_TURN as int) == 0);
        lemma_quantize(v, mx);
        assert(hsv_components(h.hue as int, h.saturation as int, h.value as int) == (v, v, v));
    } else {
        let s = saturation_of(r, g, b);
        lemma_floor(d * ONE, mx);
        assert(0 <= s <= ONE) by (nonlinear_arith)
            requires
                0 < d <= mx,
                mx * s <= d * ONE < mx * s + mx,
        ;
        let c = v * s / ONE as int;
        lemma_floor(v * s, ONE as int);
        lemma_chroma(mx, d, v, s, c);
        let m = v - c;
        lemma_quantize(v, mx);
        lemma_quantize(m, mn);
        let hue = hue_of(r, g, b);
        assert(h.hue as int == hue && h.saturation as int == s && h.value as int == v) by {
            if r == mx {
                lemma_share_range(g - b, d);
            } else if g == mx {
                lemma_share_range(b - r, d);
            } else {
                lemma_share_range(r - g, d);
            }
            assert(0 <= hue < FULL_TURN) by {
                if r == mx {
                    let q = SIXTH_TURN * (g - b) / d;
                    if q >= 0 {
                        assert(wrap_hue(q) == q);
                    } else {
                        lemma_floor_unique(q, FULL_TURN as int, -1);
                        lemma_fundamental_div_mod(q, FULL_TURN as int);
                    }
                }
            }
        }
        let comps = hsv_components(hue, s, v);
        if r == mx {
            let num = g - b;
            lemma_share_range(num, d);
            let q = SIXTH_TURN * num / d;
            if num >= 0 {
                assert(wrap_hue(q) == q);
                if num < d {
                    lemma_sector(hue, 0, q);
                    lemma_middle(c, d, num, q, v, mx, mn);
                } else {
                    lemma_sector(hue, 1, 0);
                    lemma_middle(c, d, d, SIXTH_TURN as int, v, mx, mn);
                }
            } else {
                lemma_floor_unique(q, FULL_TURN as int, -1);
                lemma_fundamental_div_mod(q, FULL_TURN as int);
                assert(hue == FULL_TURN + q);
                if num > -d {
                    lemma_sector(hue, 5, SIXTH_TURN + q);
                    lemma_middle(c, d, -num, -q, v, mx, mn);
                } else {
                    lemma_sector(hue, 5, 0);
                    lemma_middle(c, d, d, SIXTH_TURN as int, v, mx, mn);
                }
            }
        } else if g == mx {
            let num = b - r;
            lemma_share_range(num, d);
            let q = SIXTH_TURN * num / d;
            if num >= 0 {
                if num < d {
                    lemma_sector(hue, 2, q);
                    lemma_middle(c, d, num, q, v, mx, mn);
                } else {
                    lemma_sector(hue, 3, 0);
                    lemma_middle(c, d, d, SIXTH_TURN as int, v, mx, mn);
                }
            } else {
                lemma_sector(hue, 1, SIXTH_TURN + q);
                lemma_middle(c, d, -num, -q, v, mx, mn);
            }
        } else {
            let num = r - g;
            lemma_share_range(num, d);
            let q = SIXTH_TURN * num / d;
            if num >= 0 {
                lemma_sector(hue, 4, q);
                lemma_middle(c, d, num, q, v, mx, mn);
            } else {
                lemma_sector(hue, 3, SIXTH_TURN + q);
                lemma_middle(c, d, -num, -q, v, mx, mn);
            }
        }
    }
}

} // verus!
