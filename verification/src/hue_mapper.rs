//! Conversion between 8-bit RGB and fixed-point HSV, and the blend strength.
//!
//! Hue is an angle in micro-degrees, saturation and value are fractions in
//! millionths. A colour channel is an integer in `0..=255`.

use vstd::prelude::*;
use vstd::arithmetic::div_mod::{
    lemma_fundamental_div_mod, lemma_fundamental_div_mod_converse, lemma_mod_bound,
};
use crate::units::{
    MILLION, SIXTH_TURN, FULL_TURN, div_round, clamp_unit, wrap_turn, lemma_div_round_bounds,
    div_round_u128, clamp_to_unit, wrap_to_turn,
};

verus! {

/// The scale on which `hsv_levels` states its three levels: one is
/// `MILLION * MILLION * SIXTH_TURN`.
pub open spec fn level_scale() -> int {
    60_000_000_000_000_000_000int
}

/// The largest of three channels.
pub open spec fn max3(r: int, g: int, b: int) -> int {
    if r >= g && r >= b {
        r
    } else if g >= b {
        g
    } else {
        b
    }
}

/// The smallest of three channels.
pub open spec fn min3(r: int, g: int, b: int) -> int {
    if r <= g && r <= b {
        r
    } else if g <= b {
        g
    } else {
        b
    }
}

/// The hue of a colour whose largest channel exceeds its smallest by `delta`:
/// `base` sectors of sixty degrees, moved towards `up` and away from `down`
/// by the share of `delta` that separates those two channels.
pub open spec fn sector_hue(base: int, up: int, down: int, delta: int) -> int {
    if up >= down {
        base * SIXTH_TURN + div_round((up - down) * SIXTH_TURN, delta)
    } else {
        base * SIXTH_TURN - div_round((down - up) * SIXTH_TURN, delta)
    }
}

/// Hue in micro-degrees of the colour `(r, g, b)`, in `[0, FULL_TURN)`.
/// A grey has hue zero; a red that leans to blue is counted back from a
/// full turn.
pub open spec fn hue_of(r: int, g: int, b: int) -> int {
    let max = max3(r, g, b);
    let delta = max - min3(r, g, b);
    if delta == 0 {
        0
    } else if max == r {
        if g >= b {
            sector_hue(0, g, b, delta)
        } else {
            sector_hue(6, g, b, delta)
        }
    } else if max == g {
        sector_hue(2, b, r, delta)
    } else {
        sector_hue(4, r, g, delta)
    }
}

/// Saturation in millionths of the colour `(r, g, b)`; zero for black.
pub open spec fn saturation_of(r: int, g: int, b: int) -> int {
    let max = max3(r, g, b);
    if max == 0 {
        0
    } else {
        div_round((max - min3(r, g, b)) * MILLION, max)
    }
}

/// Value in millionths of the colour `(r, g, b)`.
pub open spec fn value_of(r: int, g: int, b: int) -> int {
    div_round(max3(r, g, b) * MILLION, 255)
}

/// How far the hue `h` (already in `[0, FULL_TURN)`) stands from the nearest
/// even multiple of sixty degrees, in micro-degrees: a triangle wave between
/// zero and `SIXTH_TURN`.
pub open spec fn hue_ramp(h: int) -> int {
    let f = h % (2 * SIXTH_TURN);
    if f <= SIXTH_TURN {
        f
    } else {
        2 * SIXTH_TURN - f
    }
}

/// The three levels that an HSV colour spreads over its channels, on the
/// scale `level_scale()`: the highest, the middle and the lowest. Saturation
/// and value are clamped into the unit interval first.
pub open spec fn hsv_levels(h: int, s: int, v: int) -> (int, int, int) {
    let sc = clamp_unit(s);
    let vc = clamp_unit(v);
    let chroma = vc * sc;
    let low = (vc * MILLION - chroma) * SIXTH_TURN;
    (vc * MILLION * SIXTH_TURN, chroma * hue_ramp(wrap_turn(h)) + low, low)
}

/// The 8-bit channel nearest to a level.
pub open spec fn level_to_channel(level: int) -> int {
    div_round(level * 255, level_scale())
}

/// The colour of the HSV triple `(h, s, v)`: the hue picks one of six
/// sectors, which decides the channels that get the highest, the middle and
/// the lowest level.
pub open spec fn hsv_color(h: int, s: int, v: int) -> (int, int, int) {
    let (high, mid, low) = hsv_levels(h, s, v);
    let sector = wrap_turn(h) / (SIXTH_TURN as int);
    let (r, g, b) = if sector == 0 {
        (high, mid, low)
    } else if sector == 1 {
        (mid, high, low)
    } else if sector == 2 {
        (low, high, mid)
    } else if sector == 3 {
        (low, mid, high)
    } else if sector == 4 {
        (mid, low, high)
    } else {
        (high, low, mid)
    };
    (level_to_channel(r), level_to_channel(g), level_to_channel(b))
}

/// The three levels are ordered and stay within the scale.
pub proof fn lemma_hsv_levels_bounds(h: int, s: int, v: int)
    ensures
        0 <= hsv_levels(h, s, v).2 <= hsv_levels(h, s, v).1 <= hsv_levels(h, s, v).0
            <= level_scale(),
{
    let sc = clamp_unit(s);
    let vc = clamp_unit(v);
    let chroma = vc * sc;
    let ramp = hue_ramp(wrap_turn(h));
    assert(0 <= ramp <= SIXTH_TURN);
    assert(0 <= chroma <= vc * MILLION) by (nonlinear_arith)
        requires
            chroma == vc * sc,
            0 <= sc <= MILLION,
            0 <= vc <= MILLION,
    ;
    assert(vc * MILLION <= 1_000_000_000_000int);
    assert(0 <= chroma * ramp <= chroma * SIXTH_TURN) by (nonlinear_arith)
        requires
            0 <= chroma,
            0 <= ramp <= SIXTH_TURN,
    ;
    assert((vc * MILLION - chroma) * SIXTH_TURN == vc * MILLION * SIXTH_TURN - chroma
        * SIXTH_TURN) by (nonlinear_arith);
    assert(vc * MILLION * SIXTH_TURN <= level_scale()) by (nonlinear_arith)
        requires
            0 <= vc * MILLION <= 1_000_000_000_000int,
    ;
    assert(0 <= (vc * MILLION - chroma) * SIXTH_TURN) by (nonlinear_arith)
        requires
            0 <= chroma <= vc * MILLION,
    ;
}

/// Every level within the scale has a channel in `0..=255`.
pub proof fn lemma_level_to_channel_bounds(level: int)
    requires
        0 <= level <= level_scale(),
    ensures
        0 <= level_to_channel(level) <= 255,
{
    lemma_div_round_bounds(level * 255, level_scale(), 255);
}

/// The converted colour is an 8-bit colour.
pub proof fn lemma_hsv_color_bounds(h: int, s: int, v: int)
    ensures
        0 <= hsv_color(h, s, v).0 <= 255,
        0 <= hsv_color(h, s, v).1 <= 255,
        0 <= hsv_color(h, s, v).2 <= 255,
{
    lemma_hsv_levels_bounds(h, s, v);
    let (high, mid, low) = hsv_levels(h, s, v);
    lemma_level_to_channel_bounds(high);
    lemma_level_to_channel_bounds(mid);
    lemma_level_to_channel_bounds(low);
}

/// The HSV triple of an 8-bit colour is a valid one: hue within a turn,
/// saturation and value within the unit interval.
pub proof fn lemma_hsv_of_bounds(r: int, g: int, b: int)
    requires
        0 <= r <= 255,
        0 <= g <= 255,
        0 <= b <= 255,
    ensures
        0 <= hue_of(r, g, b) < FULL_TURN,
        0 <= saturation_of(r, g, b) <= MILLION,
        0 <= value_of(r, g, b) <= MILLION,
{
    let max = max3(r, g, b);
    let min = min3(r, g, b);
    let delta = max - min;
    lemma_div_round_bounds(max * MILLION, 255, MILLION as int);
    if max != 0 {
        assert(delta * MILLION <= MILLION * max) by (nonlinear_arith)
            requires
                0 <= delta <= max,
        ;
        lemma_div_round_bounds(delta * MILLION, max, MILLION as int);
    }
    if delta != 0 {
        lemma_sector_share(g, b, delta);
        lemma_sector_share(b, g, delta);
        lemma_sector_share(b, r, delta);
        lemma_sector_share(r, b, delta);
        lemma_sector_share(r, g, delta);
        lemma_sector_share(g, r, delta);
    }
}

/// The share of a sector that two channels span: at most the whole sector,
/// and at least one micro-degree when the channels differ.
proof fn lemma_sector_share(up: int, down: int, delta: int)
    requires
        0 < delta <= 255,
        up - down <= delta,
    ensures
        up >= down ==> 0 <= div_round((up - down) * SIXTH_TURN, delta) <= SIXTH_TURN,
        up > down ==> 1 <= div_round((up - down) * SIXTH_TURN, delta),
{
    if up >= down {
        let d = up - down;
        assert(d * SIXTH_TURN <= SIXTH_TURN * delta) by (nonlinear_arith)
            requires
                0 <= d <= delta,
        ;
        assert(0 <= d * SIXTH_TURN) by (nonlinear_arith)
            requires
                0 <= d,
        ;
        lemma_div_round_bounds(d * SIXTH_TURN, delta, SIXTH_TURN as int);
        if d > 0 {
            assert((2 * (d * SIXTH_TURN) + delta) / (2 * delta) >= 1) by (nonlinear_arith)
                requires
                    1 <= d,
                    0 < delta <= 255,
            ;
        }
    }
}

/// The level that a share `t` of a sector carries between the lowest and
/// the highest level of a colour of saturation `s` and value `v`, on the
/// scale `level_scale()`. The whole sector gives the highest level, none of
/// it the lowest.
pub open spec fn mix_level(v: int, s: int, t: int) -> int {
    v * s * t + (v * MILLION - v * s) * SIXTH_TURN
}

/// A rounded quotient is off by at most a half: twice the difference
/// between the divisor times the quotient and the dividend stays within
/// the divisor.
pub proof fn lemma_div_round_error(x: int, y: int)
    requires
        0 <= x,
        0 < y,
    ensures
        -y < 2 * (y * div_round(x, y) - x) <= y,
{
    let q = div_round(x, y);
    lemma_fundamental_div_mod(2 * x + y, 2 * y);
    lemma_mod_bound(2 * x + y, 2 * y);
    assert(2 * (y * q - x) == (2 * y) * q - 2 * x) by (nonlinear_arith);
}

/// The product of two bounded numbers is bounded by the product of the
/// bounds.
proof fn lemma_product_bound(x: int, y: int, bx: int, by: int)
    requires
        -bx <= x <= bx,
        -by <= y <= by,
    ensures
        -(bx * by) <= x * y <= bx * by,
{
    assert(-(bx * by) <= x * y <= bx * by) by (nonlinear_arith)
        requires
            -bx <= x <= bx,
            -by <= y <= by,
    ;
}

/// The level of a share of a sector comes back as the channel it was made
/// from. Here `high` is the largest channel of a colour, `delta` what it
/// exceeds the smallest by, and `up` what the channel in question exceeds
/// the smallest by; `v` and `s` are the colour's value and saturation, and
/// `t` is the rounded share `up / delta` of a sector.
pub proof fn lemma_mix_channel(high: int, delta: int, up: int, v: int, s: int, t: int)
    requires
        0 <= delta <= high <= 255,
        0 <= up <= delta,
        v == div_round(high * MILLION, 255),
        s == if high == 0 {
            0
        } else {
            div_round(delta * MILLION, high)
        },
        0 <= t <= SIXTH_TURN,
        -delta <= 2 * (delta * t - up * SIXTH_TURN) <= delta,
    ensures
        level_to_channel(mix_level(v, s, t)) == high - delta + up,
{
    let c = high - delta + up;
    // How far value and saturation are off their exact ratios.
    lemma_div_round_error(high * MILLION, 255);
    let a = 255 * v - high * MILLION;
    assert(-127 <= a <= 127);
    let es2 = 2 * (high * s - delta * MILLION);
    if high > 0 {
        assert(0 <= delta * MILLION) by (nonlinear_arith)
            requires
                0 <= delta,
        ;
        lemma_div_round_error(delta * MILLION, high);
    }
    assert(-255 <= es2 <= 255);
    let et2 = 2 * (delta * t - up * SIXTH_TURN);
    assert(-255 <= et2 <= 255);
    // Saturation stays within the unit interval.
    assert(0 <= s <= MILLION) by {
        if high > 0 {
            assert(delta * MILLION <= MILLION * high) by (nonlinear_arith)
                requires
                    0 <= delta <= high,
            ;
            assert(0 <= delta * MILLION) by (nonlinear_arith)
                requires
                    0 <= delta,
            ;
            lemma_div_round_bounds(delta * MILLION, high, MILLION as int);
        }
    }
    // The weight of the level: `mix_level(v, s, t) == v * b`.
    let b = s * t + (MILLION - s) * SIXTH_TURN;
    assert(mix_level(v, s, t) == v * b) by (nonlinear_arith)
        requires
            b == s * t + (MILLION - s) * SIXTH_TURN,
    ;
    assert(0 <= b <= MILLION * SIXTH_TURN) by (nonlinear_arith)
        requires
            b == s * t + (MILLION - s) * SIXTH_TURN,
            0 <= s <= MILLION,
            0 <= t <= SIXTH_TURN,
    ;
    // The weight times the largest channel is nearly the channel in question.
    let e1 = 2 * (b * high - MILLION * SIXTH_TURN * c);
    assert(e1 == MILLION * et2 + es2 * (t - SIXTH_TURN)) by (nonlinear_arith)
        requires
            e1 == 2 * (b * high - MILLION * SIXTH_TURN * c),
            b == s * t + (MILLION - s) * SIXTH_TURN,
            c == high - delta + up,
            es2 == 2 * (high * s - delta * MILLION),
            et2 == 2 * (delta * t - up * SIXTH_TURN),
    ;
    lemma_product_bound(es2, t - SIXTH_TURN, 255, SIXTH_TURN as int);
    assert(-15_555_000_000 <= e1 <= 15_555_000_000);
    // And so is 255 times the level, on the scale of the levels.
    let e2 = 2 * (255 * (v * b) - level_scale() * c);
    assert(e2 == MILLION * e1 + 2 * (a * b)) by (nonlinear_arith)
        requires
            e2 == 2 * (255 * (v * b) - 60_000_000_000_000_000_000 * c),
            e1 == 2 * (b * high - MILLION * SIXTH_TURN * c),
            a == 255 * v - high * MILLION,
    ;
    lemma_product_bound(a, b, 127, MILLION * SIXTH_TURN);
    assert(-level_scale() <= e2 < level_scale());
    let level = mix_level(v, s, t);
    let r = 2 * (level * 255) + level_scale() - (2 * level_scale()) * c;
    assert(r == e2 + level_scale()) by (nonlinear_arith)
        requires
            r == 2 * (level * 255) + level_scale() - (2 * level_scale()) * c,
            e2 == 2 * (255 * level - level_scale() * c),
    ;
    assert(2 * (level * 255) + level_scale() == c * (2 * level_scale()) + r) by (nonlinear_arith)
        requires
            r == 2 * (level * 255) + level_scale() - (2 * level_scale()) * c,
    ;
    lemma_fundamental_div_mod_converse(
        2 * (level * 255) + level_scale(),
        2 * level_scale(),
        c,
        r,
    );
}

/// The three levels of a colour's own HSV triple come back as its largest
/// channel, as the channel that exceeds the smallest by `up`, and as its
/// smallest channel, where `t` is the rounded share `up / delta` of a
/// sector.
proof fn lemma_own_levels(r: int, g: int, b: int, up: int, t: int)
    requires
        0 <= r <= 255,
        0 <= g <= 255,
        0 <= b <= 255,
        0 <= up <= max3(r, g, b) - min3(r, g, b),
        0 <= t <= SIXTH_TURN,
        max3(r, g, b) > min3(r, g, b) ==> t == div_round(
            up * SIXTH_TURN,
            max3(r, g, b) - min3(r, g, b),
        ),
        max3(r, g, b) == min3(r, g, b) ==> t == 0,
    ensures
        ({
            let s = saturation_of(r, g, b);
            let v = value_of(r, g, b);
            let low = (v * MILLION - v * s) * SIXTH_TURN;
            &&& level_to_channel(v * MILLION * SIXTH_TURN) == max3(r, g, b)
            &&& level_to_channel(v * s * t + low) == min3(r, g, b) + up
            &&& level_to_channel(low) == min3(r, g, b)
        }),
{
    let high = max3(r, g, b);
    let delta = high - min3(r, g, b);
    let s = saturation_of(r, g, b);
    let v = value_of(r, g, b);
    let low = (v * MILLION - v * s) * SIXTH_TURN;
    if delta > 0 {
        assert(0 <= up * SIXTH_TURN) by (nonlinear_arith)
            requires
                0 <= up,
        ;
        lemma_div_round_error(up * SIXTH_TURN, delta);
    }
    lemma_mix_channel(high, delta, delta, v, s, SIXTH_TURN as int);
    lemma_mix_channel(high, delta, up, v, s, t);
    lemma_mix_channel(high, delta, 0, v, s, 0);
    assert(mix_level(v, s, SIXTH_TURN as int) == v * MILLION * SIXTH_TURN) by (nonlinear_arith);
    assert(mix_level(v, s, t) == v * s * t + low);
    assert(mix_level(v, s, 0) == low) by (nonlinear_arith)
        requires
            low == (v * MILLION - v * s) * SIXTH_TURN,
    ;
}

/// An 8-bit colour that is converted to HSV and back is the same colour
/// again: the rounding of hue, saturation and value to whole units loses
/// nothing that a channel could show.
pub proof fn lemma_rgb_round_trip(r: int, g: int, b: int)
    requires
        0 <= r <= 255,
        0 <= g <= 255,
        0 <= b <= 255,
    ensures
        hsv_color(hue_of(r, g, b), saturation_of(r, g, b), value_of(r, g, b)) == (r, g, b),
{
    let high = max3(r, g, b);
    let low = min3(r, g, b);
    let delta = high - low;
    let h = hue_of(r, g, b);
    let s = saturation_of(r, g, b);
    let v = value_of(r, g, b);
    lemma_hsv_of_bounds(r, g, b);
    assert(wrap_turn(h) == h);
    assert(clamp_unit(s) == s && clamp_unit(v) == v);
    if delta == 0 {
        lemma_own_levels(r, g, b, 0, 0);
        assert(hue_ramp(h) == 0);
    } else {
        // The channel between the largest and the smallest, as what it
        // exceeds the smallest by.
        let up = r + g + b - high - low - low;
        let t = div_round(up * SIXTH_TURN, delta);
        lemma_sector_share(up + low, low, delta);
        lemma_own_levels(r, g, b, up, t);
        if up < delta {
            lemma_share_is_partial(up, delta);
        }
        if high == r {
            if g >= b {
                assert(h == t);
                if t < SIXTH_TURN {
                    lemma_hue_place(h, 0, t);
                } else {
                    lemma_hue_place(h, 1, 0);
                }
            } else {
                assert(h == 6 * SIXTH_TURN - t);
                lemma_hue_place(h, 5, SIXTH_TURN - t);
            }
        } else if high == g {
            if b >= r {
                assert(h == 2 * SIXTH_TURN + t);
                if t < SIXTH_TURN {
                    lemma_hue_place(h, 2, t);
                } else {
                    lemma_hue_place(h, 3, 0);
                }
            } else {
                assert(h == 2 * SIXTH_TURN - t);
                lemma_hue_place(h, 1, SIXTH_TURN - t);
            }
        } else {
            if r >= g {
                assert(h == 4 * SIXTH_TURN + t);
                lemma_hue_place(h, 4, t);
            } else {
                assert(h == 4 * SIXTH_TURN - t);
                lemma_hue_place(h, 3, SIXTH_TURN - t);
            }
        }
        assert(hue_ramp(h) == t);
    }
}

/// A hue that stands `within` a sector has that sector, and its ramp rises
/// through the even sectors and falls through the odd ones.
proof fn lemma_hue_place(h: int, sector: int, within: int)
    requires
        0 <= sector <= 5,
        0 <= within < SIXTH_TURN,
        h == sector * SIXTH_TURN + within,
    ensures
        h / (SIXTH_TURN as int) == sector,
        hue_ramp(h) == if sector % 2 == 0 {
            within
        } else {
            SIXTH_TURN - within
        },
{
    lemma_fundamental_div_mod_converse(h, SIXTH_TURN as int, sector, within);
    let pair = sector / 2;
    let odd = sector % 2;
    let rest = odd * SIXTH_TURN + within;
    assert(h == pair * (2 * SIXTH_TURN) + rest) by (nonlinear_arith)
        requires
            h == sector * SIXTH_TURN + within,
            sector == 2 * pair + odd,
            rest == odd * SIXTH_TURN + within,
    ;
    assert(0 <= rest < 2 * SIXTH_TURN) by (nonlinear_arith)
        requires
            rest == odd * SIXTH_TURN + within,
            0 <= odd <= 1,
            0 <= within < SIXTH_TURN,
    ;
    lemma_fundamental_div_mod_converse(h, 2 * SIXTH_TURN, pair, rest);
}

/// A channel below the largest has less than a whole sector as its share.
proof fn lemma_share_is_partial(up: int, delta: int)
    requires
        0 <= up < delta <= 255,
    ensures
        div_round(up * SIXTH_TURN, delta) < SIXTH_TURN,
{
    assert((2 * (up * SIXTH_TURN) + delta) / (2 * delta) < SIXTH_TURN) by (nonlinear_arith)
        requires
            0 <= up < delta <= 255,
    ;
}

/// The strength with which the overlay pulls a pixel towards its target
/// colour: a fraction in millionths, kept within the unit interval.
pub struct HueMapper {
    pub strength: i64,
}

impl HueMapper {
    /// A mapper with the given strength, clamped into the unit interval.
    pub fn new(strength: i64) -> (mapper: Self)
        ensures
            mapper.strength == clamp_unit(strength as int),
    {
        HueMapper { strength: clamp_to_unit(strength) }
    }

    /// Replaces the strength by `strength`, clamped into the unit interval.
    pub fn set_strength(&mut self, strength: i64)
        ensures
            final(self).strength == clamp_unit(strength as int),
    {
        self.strength = clamp_to_unit(strength);
    }

    /// The strength, in millionths.
    pub fn get_strength(&self) -> (strength: i64)
        ensures
            strength == self.strength,
    {
        self.strength
    }

    /// Converts an 8-bit colour to hue (micro-degrees), saturation and value
    /// (millionths), each rounded to the nearest unit.
    pub fn rgb_to_hsv(r: u8, g: u8, b: u8) -> (hsv: (i64, i64, i64))
        ensures
            hsv.0 == hue_of(r as int, g as int, b as int),
            hsv.1 == saturation_of(r as int, g as int, b as int),
            hsv.2 == value_of(r as int, g as int, b as int),
            0 <= hsv.0 < FULL_TURN,
            0 <= hsv.1 <= MILLION,
            0 <= hsv.2 <= MILLION,
    {
        proof {
            lemma_hsv_of_bounds(r as int, g as int, b as int);
        }
        let max: u8 = if r >= g && r >= b {
            r
        } else if g >= b {
            g
        } else {
            b
        };
        let min: u8 = if r <= g && r <= b {
            r
        } else if g <= b {
            g
        } else {
            b
        };
        let delta: u8 = max - min;
        let v: i64 = div_round_u128(max as u128 * 1_000_000u128, 255u128) as i64;
        let s: i64 = if max == 0 {
            0
        } else {
            div_round_u128(delta as u128 * 1_000_000u128, max as u128) as i64
        };
        let h: i64 = if delta == 0 {
            0
        } else if max == r {
            if g >= b {
                Self::sector_offset(0, g, b, delta)
            } else {
                Self::sector_offset(6, g, b, delta)
            }
        } else if max == g {
            Self::sector_offset(2, b, r, delta)
        } else {
            Self::sector_offset(4, r, g, delta)
        };
        (h, s, v)
    }

    /// The hue that `sector_hue` states, computed.
    fn sector_offset(base: i64, up: u8, down: u8, delta: u8) -> (h: i64)
        requires
            0 <= base <= 6,
            0 < delta,
            up as int - down as int <= delta as int,
            down as int - up as int <= delta as int,
        ensures
            h == sector_hue(base as int, up as int, down as int, delta as int),
    {
        proof {
            lemma_sector_share(up as int, down as int, delta as int);
            lemma_sector_share(down as int, up as int, delta as int);
        }
        if up >= down {
            let share: u128 = div_round_u128((up - down) as u128 * 60_000_000u128, delta as u128);
            base * SIXTH_TURN + share as i64
        } else {
            let share: u128 = div_round_u128((down - up) as u128 * 60_000_000u128, delta as u128);
            base * SIXTH_TURN - share as i64
        }
    }

    /// Converts hue (micro-degrees), saturation and value (millionths) to the
    /// nearest 8-bit colour. The hue is taken modulo a full turn; saturation
    /// and value outside the unit interval count as the nearest bound.
    pub fn hsv_to_rgb(h: i64, s: i64, v: i64) -> (rgb: (u8, u8, u8))
        ensures
            (rgb.0 as int, rgb.1 as int, rgb.2 as int) == hsv_color(h as int, s as int, v as int),
    {
        let hn: i64 = wrap_to_turn(h);
        let sc: u128 = clamp_to_unit(s) as u128;
        let vc: u128 = clamp_to_unit(v) as u128;
        proof {
            lemma_hsv_levels_bounds(h as int, s as int, v as int);
            lemma_hsv_color_bounds(h as int, s as int, v as int);
        }
        let f: i64 = hn % (2 * SIXTH_TURN);
        let ramp: u128 = if f <= SIXTH_TURN {
            f as u128
        } else {
            (2 * SIXTH_TURN - f) as u128
        };
        assert(vc * sc <= 1_000_000_000_000u128) by (nonlinear_arith)
            requires
                vc <= 1_000_000u128,
                sc <= 1_000_000u128,
        ;
        let chroma: u128 = vc * sc;
        assert(chroma <= vc * 1_000_000u128) by (nonlinear_arith)
            requires
                chroma == vc * sc,
                sc <= 1_000_000u128,
        ;
        assert(chroma * ramp <= 60_000_000_000_000_000_000u128) by (nonlinear_arith)
            requires
                chroma <= 1_000_000_000_000u128,
                ramp <= 60_000_000u128,
        ;
        let low: u128 = (vc * 1_000_000u128 - chroma) * 60_000_000u128;
        let mid: u128 = chroma * ramp + low;
        let high: u128 = vc * 1_000_000u128 * 60_000_000u128;
        assert((high as int, mid as int, low as int) == hsv_levels(h as int, s as int, v as int));
        let sector: i64 = hn / SIXTH_TURN;
        let (r, g, b): (u128, u128, u128) = if sector == 0 {
            (high, mid, low)
        } else if sector == 1 {
            (mid, high, low)
        } else if sector == 2 {
            (low, high, mid)
        } else if sector == 3 {
            (low, mid, high)
        } else if sector == 4 {
            (mid, low, high)
        } else {
            (high, low, mid)
        };
        (Self::channel(r), Self::channel(g), Self::channel(b))
    }

    /// The channel that `level_to_channel` states, computed.
    fn channel(level: u128) -> (c: u8)
        requires
            level <= level_scale(),
        ensures
            c == level_to_channel(level as int),
    {
        proof {
            lemma_level_to_channel_bounds(level as int);
        }
        div_round_u128(level * 255u128, 60_000_000_000_000_000_000u128) as u8
    }
}

} // verus!
