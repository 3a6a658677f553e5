use vstd::prelude::*;
use vstd::arithmetic::div_mod::{
    lemma_fundamental_div_mod, lemma_hoist_over_denominator, lemma_mod_bound,
};
use crate::fixed::{ceil_div, floor_div, mul32, mul64, mul_signed, UNIT};
use crate::zoom::Zoom;

verus! {

/// An image axis of `img` pixels is shown whole in `out` screen pixels.
pub open spec fn fits(img: int, out: int, z: Zoom) -> bool {
    img * z.num <= out * z.den
}

/// Half of the length of image that `out` screen pixels show, in units,
/// rounded up.
pub open spec fn half_visible(out: int, z: Zoom) -> int {
    (out * UNIT * z.den + 2 * z.num - 1) / (2 * z.num)
}

/// Where a view centred on `p` comes to rest on one axis: on the middle of
/// the image when the axis is shown whole, and otherwise on the nearest
/// position at which nothing outside the image is shown.
pub open spec fn clamp_axis(p: int, img: int, out: int, z: Zoom) -> int {
    if fits(img, out, z) {
        img * (UNIT / 2)
    } else {
        let low = half_visible(out, z);
        let high = img * UNIT - low;
        if p < low {
            low
        } else if p > high {
            high
        } else {
            p
        }
    }
}

/// A view centred on `p` shows nothing outside the image on this axis: an
/// axis that is shown whole is centred, and on any other at least half of
/// the visible length lies between `p` and either end of the image.
pub open spec fn in_view(p: int, img: int, out: int, z: Zoom) -> bool {
    if fits(img, out, z) {
        2 * p == img * UNIT
    } else {
        &&& 2 * z.num * p >= out * UNIT * z.den
        &&& 2 * z.num * (img * UNIT - p) >= out * UNIT * z.den
    }
}

/// Distance in the image, in units, from the middle of the output to the
/// screen coordinate `s`, rounded down.
pub open spec fn screen_offset(s: int, out: int, z: Zoom) -> int {
    ((2 * s - out) * UNIT * z.den) / (2 * z.num)
}

/// The image coordinate shown at screen coordinate `s` when the view is
/// centred on `p`, or `None` when that coordinate lies outside the image.
pub open spec fn image_coord(s: int, p: int, img: int, out: int, z: Zoom) -> Option<int> {
    let c = p + screen_offset(s, out, z);
    if c < 0 || c > img * UNIT {
        None
    } else {
        Some(c)
    }
}

/// The centre that keeps the image coordinate `c` at its place on screen
/// when the zoom changes from `from` to `to`: the distance from `c` to the
/// centre `p` shrinks by the factor `from / to`, rounded down.
pub open spec fn rescale(p: int, c: int, from: Zoom, to: Zoom) -> int {
    c + ((p - c) * (from.num * to.den)) / (from.den * to.num)
}

/// Length of image, in units, of `step / UNIT` screens of `out` pixels,
/// rounded down.
pub open spec fn page(step: int, out: int, z: Zoom) -> int {
    (step * (out * z.den)) / (z.num as int)
}

/// Number of screen pixels that `img` image pixels take, rounded to the
/// nearest integer, halves upwards.
pub open spec fn scaled(img: int, z: Zoom) -> int {
    (2 * (img * z.num) + z.den) / (2 * z.den)
}

/// The screen coordinate at which the image begins when the view is
/// centred on `p`, rounded down.
pub open spec fn screen_origin(p: int, out: int, z: Zoom) -> int {
    (out * (UNIT * z.den) - 2 * (p * z.num)) / (2 * (UNIT * z.den))
}

/// Number of whole screen pixels that `img` image pixels take.
pub open spec fn screen_length(img: int, z: Zoom) -> int {
    (img * z.num) / (z.den as int)
}

/// An integer as the nearest `i32`.
pub open spec fn near_i32(x: int) -> i32 {
    if x > i32::MAX {
        i32::MAX
    } else if x < i32::MIN {
        i32::MIN
    } else {
        x as i32
    }
}

/// A natural number as the nearest `u32`.
pub open spec fn near_u32(x: int) -> u32 {
    if x > u32::MAX {
        u32::MAX
    } else {
        x as u32
    }
}

/// What Euclidean division by a positive number means.
pub proof fn lemma_division(x: int, b: int)
    requires
        b > 0,
    ensures
        x == b * (x / b) + x % b,
        0 <= x % b < b,
        b * (x / b) <= x < b * (x / b) + b,
{
    lemma_fundamental_div_mod(x, b);
    lemma_mod_bound(x, b);
}

/// A quotient lies on the side of `k` on which the dividend lies of `k * b`.
pub proof fn lemma_quotient_bounds(x: int, b: int, k: int)
    requires
        b > 0,
    ensures
        x < (k + 1) * b ==> x / b <= k,
        x >= k * b ==> x / b >= k,
{
    lemma_division(x, b);
    let q = x / b;
    if x < (k + 1) * b {
        assert(q <= k) by (nonlinear_arith)
            requires
                b > 0,
                b * q <= x,
                x < (k + 1) * b,
        ;
    }
    if x >= k * b {
        assert(q >= k) by (nonlinear_arith)
            requires
                b > 0,
                x < b * q + b,
                x >= k * b,
        ;
    }
}

/// The bounds between which `clamp_axis` keeps a position are ordered and
/// lie inside the image.
pub proof fn lemma_clamp_range(img: int, out: int, z: Zoom)
    requires
        z.wf(),
        0 <= out,
        0 <= img,
        !fits(img, out, z),
    ensures
        0 <= half_visible(out, z) <= img * (UNIT / 2),
        2 * z.num * half_visible(out, z) >= out * UNIT * z.den,
{
    let a = out * UNIT * z.den;
    let b = 2 * z.num;
    let k = img * (UNIT / 2);
    assert(a >= 0 && a + b - 1 < (k + 1) * b) by (nonlinear_arith)
        requires
            a == out * 65536 * z.den,
            b == 2 * z.num,
            k == img * 32768,
            img * z.num > out * z.den,
            z.num > 0,
            z.den > 0,
            out >= 0,
    ;
    lemma_quotient_bounds(a + b - 1, b, k);
    lemma_quotient_bounds(a + b - 1, b, 0);
    lemma_division(a + b - 1, b);
}

/// Brings a centre to rest on one axis.
pub fn clamp_coord(p: i128, img: u32, out: u32, z: Zoom) -> (r: i64)
    requires
        z.wf(),
    ensures
        r == clamp_axis(p as int, img as int, out as int, z),
        0 <= r <= img * UNIT,
{
    assert(UNIT == 65536);
    if mul32(img, z.num) <= mul32(out, z.den) {
        (img as i64) * 32768
    } else {
        proof {
            lemma_clamp_range(img as int, out as int, z);
        }
        let span: u128 = mul64((out as u64) * 65536, z.den as u64);
        assert(span <= 0xffff_ffff_0000 * 0xffff_ffff) by (nonlinear_arith)
            requires
                span == (out * 65536) * z.den,
                0 <= out * 65536 <= 0xffff_ffff_0000,
                0 <= z.den <= 0xffff_ffff,
        ;
        let low: u128 = ceil_div(span, 2 * (z.num as u64));
        assert(low == half_visible(out as int, z));
        assert(low <= img * 32768);
        let low: i64 = low as i64;
        let high: i64 = (img as i64) * 65536 - low;
        if p < low as i128 {
            low
        } else if p > high as i128 {
            high
        } else {
            p as i64
        }
    }
}

/// Distance in the image from the middle of the output to a screen
/// coordinate.
pub fn offset_of(s: i32, out: u32, z: Zoom) -> (r: i128)
    requires
        z.wf(),
    ensures
        r == screen_offset(s as int, out as int, z),
        -0x1_0000_0000_0000_0000_0000_0000 <= r <= 0x1_0000_0000_0000_0000_0000_0000,
{
    let a: i128 = (2 * (s as i128) - (out as i128)) * 65536;
    let n: i128 = mul_signed(a, z.den as i128);
    let r = floor_div(n, 2 * (z.num as u64));
    proof {
        let b = 2 * z.num as int;
        assert(-0x2_0000_0000_0000 * 0xffff_ffff <= n <= 0x2_0000_0000_0000 * 0xffff_ffff)
            by (nonlinear_arith)
            requires
                n == a * z.den,
                -0x2_0000_0000_0000 <= a <= 0x2_0000_0000_0000,
                0 <= z.den <= 0xffff_ffff,
        ;
        lemma_division(n as int, b);
        assert(-0x1_0000_0000_0000_0000_0000_0000 <= r <= 0x1_0000_0000_0000_0000_0000_0000)
            by (nonlinear_arith)
            requires
                b >= 2,
                b * r <= n,
                n < b * r + b,
                -0x2_0000_0000_0000 * 0xffff_ffff <= n <= 0x2_0000_0000_0000 * 0xffff_ffff,
        ;
    }
    r
}

/// The image coordinate under a screen coordinate, if it lies in the image.
pub fn coord_at(s: i32, p: i64, img: u32, out: u32, z: Zoom) -> (r: Option<i64>)
    requires
        z.wf(),
    ensures
        match r {
            Some(c) => image_coord(s as int, p as int, img as int, out as int, z) == Some(
                c as int,
            ),
            None => image_coord(s as int, p as int, img as int, out as int, z).is_none(),
        },
{
    let c: i128 = (p as i128) + offset_of(s, out, z);
    if c < 0 || c > (img as i128) * (UNIT as i128) {
        None
    } else {
        Some(c as i64)
    }
}

/// Number of screen pixels that an image axis takes.
pub fn scaled_size(img: u32, z: Zoom) -> (r: u128)
    requires
        z.wf(),
    ensures
        r == scaled(img as int, z),
{
    let n: u128 = 2 * (mul32(img, z.num) as u128) + (z.den as u128);
    n / (2 * (z.den as u128))
}

/// Length of image that a number of screens covers.
pub fn page_length(step: i64, out: u32, z: Zoom) -> (r: i128)
    requires
        z.wf(),
    ensures
        r == page(step as int, out as int, z),
{
    let n: i128 = mul_signed(step as i128, mul32(out, z.den) as i128);
    floor_div(n, z.num as u64)
}

/// Far enough outside the image, where a centre lies no longer matters to
/// where it comes to rest.
pub proof fn lemma_clamp_far(p: int, q: int, img: int, out: int, z: Zoom)
    requires
        z.wf(),
        0 <= out,
        0 <= img,
        (p > img * UNIT && q > img * UNIT) || (p < 0 && q < 0),
    ensures
        clamp_axis(p, img, out, z) == clamp_axis(q, img, out, z),
{
    assert(img * UNIT == 2 * (img * (UNIT / 2))) by (nonlinear_arith)
        requires
            UNIT == 65536,
    ;
    if !fits(img, out, z) {
        lemma_clamp_range(img, out, z);
    }
}

/// The rescaled centre is the mean of the centre of zoom and the old
/// centre, weighted by the change of zoom and by the old zoom, rounded
/// down.
pub proof fn lemma_rescale_is_mean(p: int, c: int, from: Zoom, to: Zoom)
    requires
        from.wf(),
        to.wf(),
    ensures
        rescale(p, c, from, to) == (c * (from.den * to.num - from.num * to.den) + p * (from.num
            * to.den)) / (from.den * to.num),
{
    let a = from.num * to.den;
    let d = from.den * to.num;
    assert(d > 0) by (nonlinear_arith)
        requires
            d == from.den * to.num,
            from.den > 0,
            to.num > 0,
    ;
    lemma_hoist_over_denominator((p - c) * a, c, d as nat);
    assert((p - c) * a + c * d == c * (d - a) + p * a) by (nonlinear_arith);
}

/// Rescales a centre around the image coordinate `c` and brings it to rest.
pub fn rescale_coord(p: i64, c: i64, img: u32, out: u32, from: Zoom, to: Zoom) -> (r: i64)
    requires
        from.wf(),
        to.wf(),
        0 <= p <= img * UNIT,
    ensures
        r == clamp_axis(rescale(p as int, c as int, from, to), img as int, out as int, to),
        0 <= r <= img * UNIT,
{
    assert(UNIT == 65536);
    let a: u64 = mul32(from.num, to.den);
    let d: u64 = mul32(from.den, to.num);
    assert(d > 0) by (nonlinear_arith)
        requires
            d == from.den * to.num,
            from.den > 0,
            to.num > 0,
    ;
    let turn: i128 = mul_signed(c as i128, (d as i128) - (a as i128));
    let pull: u128 = mul64(p as u64, a);
    assert(pull <= 0xffff_ffff_0000 * 0xffff_ffff_ffff_ffff) by (nonlinear_arith)
        requires
            pull == p * a,
            0 <= p <= 0xffff_ffff_0000,
            0 <= a <= 0xffff_ffff_ffff_ffff,
    ;
    let pull: i128 = pull as i128;
    proof {
        lemma_rescale_is_mean(p as int, c as int, from, to);
    }
    if turn > i128::MAX - pull {
        let far: i128 = 0x8000_0000_0000_0000;
        proof {
            let sum = turn + pull;
            assert(sum >= far * d) by (nonlinear_arith)
                requires
                    sum > 0x7fff_ffff_ffff_ffff_ffff_ffff_ffff_ffff,
                    far == 0x8000_0000_0000_0000,
                    0 < d <= 0xffff_ffff_ffff_ffff,
            ;
            lemma_quotient_bounds(sum, d as int, far as int);
            lemma_clamp_far(sum / (d as int), far as int, img as int, out as int, to);
        }
        clamp_coord(far, img, out, to)
    } else {
        clamp_coord(floor_div(turn + pull, d), img, out, to)
    }
}

/// A centre at rest shows nothing outside the image, and a centre at rest
/// stays where it is.
pub proof fn lemma_clamp_in_view(p: int, img: int, out: int, z: Zoom)
    requires
        z.wf(),
        0 <= out,
        0 <= img,
    ensures
        ({
            let r = clamp_axis(p, img, out, z);
            &&& 0 <= r <= img * UNIT
            &&& in_view(r, img, out, z)
            &&& clamp_axis(r, img, out, z) == r
        }),
{
    assert(img * UNIT == 2 * (img * (UNIT / 2)) && img * UNIT >= 0) by (nonlinear_arith)
        requires
            UNIT == 65536,
            img >= 0,
    ;
    if !fits(img, out, z) {
        lemma_clamp_range(img, out, z);
        let low = half_visible(out, z);
        let r = clamp_axis(p, img, out, z);
        let b = 2 * z.num;
        let a = out * UNIT * z.den;
        assert(b * r >= a && b * (img * UNIT - r) >= a) by (nonlinear_arith)
            requires
                b > 0,
                b * low >= a,
                low <= r,
                r <= img * UNIT - low,
        ;
    }
}

/// A centre that shows nothing outside the image is at rest.
pub proof fn lemma_in_view_is_rest(p: int, img: int, out: int, z: Zoom)
    requires
        z.wf(),
        0 <= out,
        0 <= img,
        in_view(p, img, out, z),
    ensures
        clamp_axis(p, img, out, z) == p,
        0 <= p <= img * UNIT,
{
    assert(img * UNIT == 2 * (img * (UNIT / 2)) && img * UNIT >= 0) by (nonlinear_arith)
        requires
            UNIT == 65536,
            img >= 0,
    ;
    if !fits(img, out, z) {
        lemma_clamp_range(img, out, z);
        let a = out * UNIT * z.den;
        let b = 2 * z.num;
        let far = img * UNIT - p;
        assert(a + b - 1 < (p + 1) * b && a + b - 1 < (far + 1) * b) by (nonlinear_arith)
            requires
                b > 0,
                b * p >= a,
                b * far >= a,
        ;
        lemma_quotient_bounds(a + b - 1, b, p);
        lemma_quotient_bounds(a + b - 1, b, far);
    }
}

/// Zooming around the image coordinate under a screen position keeps that
/// coordinate under it, up to rounding: if `c` is shown at screen position
/// `s` and the centre is rescaled around `c`, then what is shown at `s`
/// afterwards lies less than two units before `c` and less than
/// `from / to` units after it.
pub proof fn lemma_zoom_keeps_cursor(s: int, p: int, out: int, from: Zoom, to: Zoom)
    requires
        from.wf(),
        to.wf(),
    ensures
        ({
            let c = p + screen_offset(s, out, from);
            let after = rescale(p, c, from, to) + screen_offset(s, out, to);
            &&& -2 < after - c
            &&& (after - c) * (from.den * to.num) < from.num * to.den
        }),
{
    let a = (2 * s - out) * UNIT;
    let n0 = from.num as int;
    let d0 = from.den as int;
    let n1 = to.num as int;
    let d1 = to.den as int;
    let q0 = (a * d0) / (2 * n0);
    let c = p + q0;
    let x = n0 * d1;
    let y = d0 * n1;
    let t = ((p - c) * x) / y;
    let u = (a * d1) / (2 * n1);
    assert(y > 0 && x > 0) by (nonlinear_arith)
        requires
            x == n0 * d1,
            y == d0 * n1,
            n0 > 0,
            d0 > 0,
            n1 > 0,
            d1 > 0,
    ;
    lemma_division(a * d0, 2 * n0);
    lemma_division((p - c) * x, y);
    lemma_division(a * d1, 2 * n1);
    assert(p - c == -q0);
    // u * y <= (a * d0 * d1) / 2 < (q0 + 1) * x
    assert(u * y < (q0 + 1) * x) by (nonlinear_arith)
        requires
            x == n0 * d1,
            y == d0 * n1,
            d0 > 0,
            d1 > 0,
            (2 * n1) * u <= a * d1,
            a * d0 < (2 * n0) * q0 + 2 * n0,
    ;
    // q0 * x <= (a * d0 * d1) / 2 < (u + 1) * y
    assert(q0 * x < (u + 1) * y) by (nonlinear_arith)
        requires
            x == n0 * d1,
            y == d0 * n1,
            d0 > 0,
            d1 > 0,
            a * d1 < (2 * n1) * u + 2 * n1,
            (2 * n0) * q0 <= a * d0,
    ;
    assert((t + u) * y < x && -2 < t + u) by (nonlinear_arith)
        requires
            y > 0,
            y * t <= (-q0) * x,
            (-q0) * x < y * t + y,
            u * y < (q0 + 1) * x,
            q0 * x < (u + 1) * y,
    ;
}

/// Where the image begins on screen, as far as an `i32` reaches.
pub fn origin_on_screen(p: i64, out: u32, z: Zoom) -> (r: i32)
    requires
        z.wf(),
        0 <= p <= 0xffff_ffff_0000,
    ensures
        r == near_i32(screen_origin(p as int, out as int, z)),
{
    assert(UNIT == 65536);
    let scale: u64 = 65536 * (z.den as u64);
    let left: u128 = mul64(out as u64, scale);
    let right: u128 = mul64(p as u64, z.num as u64);
    assert(left <= 0xffff_ffff * 0xffff_ffff_0000 && right <= 0xffff_ffff_0000 * 0xffff_ffff)
        by (nonlinear_arith)
        requires
            left == out * scale,
            right == p * z.num,
            0 <= out <= 0xffff_ffff,
            0 <= scale <= 0xffff_ffff_0000,
            0 <= p <= 0xffff_ffff_0000,
            0 <= z.num <= 0xffff_ffff,
    ;
    let q: i128 = floor_div((left as i128) - 2 * (right as i128), 2 * scale);
    if q > 0x7fff_ffff {
        0x7fff_ffff
    } else if q < -0x8000_0000 {
        -0x8000_0000
    } else {
        q as i32
    }
}

/// Number of screen pixels that an image axis takes, as far as a `u32`
/// reaches.
pub fn length_on_screen(img: u32, z: Zoom) -> (r: u32)
    requires
        z.wf(),
    ensures
        r == near_u32(screen_length(img as int, z)),
{
    let q: u64 = mul32(img, z.num) / (z.den as u64);
    if q > 0xffff_ffff {
        0xffff_ffff
    } else {
        q as u32
    }
}

} // verus!
