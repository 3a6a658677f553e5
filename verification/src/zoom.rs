use vstd::prelude::*;
use crate::fixed::mul32;

verus! {

/// A zoom factor: the exact ratio `num / den` of screen pixels to image
/// pixels. Two values may denote the same ratio; comparisons go by the
/// ratio, never by the fields.
#[derive(Clone, Copy, Debug)]
pub struct Zoom {
    pub num: u32,
    pub den: u32,
}

/// The zoom levels that stepping in and out moves through, in percent.
pub const ZOOM_STEPS: [u32; 28] = [
    15, 22, 29, 36, 43, 50, 60, 70, 80, 90, 100, 125, 150, 175, 200, 300, 400, 500, 700, 800,
    900, 1000, 1500, 2000, 2500, 3000, 3500, 4000,
];

/// Smallest zoom factor that can be set explicitly: 1/1000.
pub open spec fn zoom_min() -> Zoom {
    Zoom { num: 1, den: 1000 }
}

/// Largest zoom factor that can be set explicitly: 1000.
pub open spec fn zoom_max() -> Zoom {
    Zoom { num: 1000, den: 1 }
}

/// The `i`-th tabulated zoom level.
pub open spec fn step(i: int) -> Zoom {
    Zoom { num: ZOOM_STEPS[i], den: 100 }
}

/// The first tabulated level at or after index `i` that is greater than `z`.
pub open spec fn first_above(z: Zoom, i: int) -> Option<Zoom>
    decreases 28 - i,
{
    if i < 0 || i >= 28 {
        None
    } else if z.lt(step(i)) {
        Some(step(i))
    } else {
        first_above(z, i + 1)
    }
}

/// The last tabulated level before index `i` that is smaller than `z`.
pub open spec fn last_below(z: Zoom, i: int) -> Option<Zoom>
    decreases i,
{
    if i <= 0 || i > 28 {
        None
    } else if step(i - 1).lt(z) {
        Some(step(i - 1))
    } else {
        last_below(z, i - 1)
    }
}

impl Zoom {
    /// A zoom factor is a positive ratio.
    pub open spec fn wf(self) -> bool {
        self.num > 0 && self.den > 0
    }

    /// `self < other` as ratios.
    pub open spec fn lt(self, other: Zoom) -> bool {
        self.num * other.den < other.num * self.den
    }

    /// `self <= other` as ratios.
    pub open spec fn le(self, other: Zoom) -> bool {
        self.num * other.den <= other.num * self.den
    }

    /// The smaller of two ratios, the first on a tie.
    pub open spec fn min(self, other: Zoom) -> Zoom {
        if self.le(other) {
            self
        } else {
            other
        }
    }

    /// The ratio brought into the range from `zoom_min()` to `zoom_max()`.
    pub open spec fn clamped(self) -> Zoom {
        if self.lt(zoom_min()) {
            zoom_min()
        } else if zoom_max().lt(self) {
            zoom_max()
        } else {
            self
        }
    }

    /// The largest ratio, not above 1, at which an image of size `img` is
    /// shown whole in an output of size `out`.
    pub open spec fn fitting(out: (u32, u32), img: (u32, u32)) -> Zoom {
        Zoom { num: 1, den: 1 }.min(Zoom { num: out.0, den: img.0 }).min(
            Zoom { num: out.1, den: img.1 },
        )
    }

    /// The smallest tabulated level greater than `self`, if there is one.
    pub open spec fn step_above(self) -> Option<Zoom> {
        first_above(self, 0)
    }

    /// The largest tabulated level smaller than `self`, if there is one.
    pub open spec fn step_below(self) -> Option<Zoom> {
        last_below(self, 28)
    }

    /// The ratio `num / den`, or `None` when either part is zero.
    pub fn new(num: u32, den: u32) -> (r: Option<Zoom>)
        ensures
            r == if num > 0 && den > 0 {
                Some(Zoom { num, den })
            } else {
                None
            },
    {
        if num > 0 && den > 0 {
            Some(Zoom { num, den })
        } else {
            None
        }
    }

    /// The ratio 1: one screen pixel for each image pixel.
    pub fn one() -> (r: Zoom)
        ensures
            r == (Zoom { num: 1, den: 1 }),
    {
        Zoom { num: 1, den: 1 }
    }

    /// The ratio in percent, rounded down.
    pub open spec fn percent_of(self) -> int {
        (100 * self.num) / (self.den as int)
    }

    /// The ratio in percent, rounded down.
    pub fn percent(&self) -> (r: u64)
        requires
            self.wf(),
        ensures
            r == self.percent_of(),
    {
        (100 * (self.num as u64)) / (self.den as u64)
    }

    /// Whether `self < other` as ratios.
    pub fn less_than(&self, other: &Zoom) -> (r: bool)
        ensures
            r == self.lt(*other),
    {
        mul32(self.num, other.den) < mul32(other.num, self.den)
    }

    /// Brings the ratio into the range that can be set explicitly.
    pub fn clamp(self) -> (r: Zoom)
        ensures
            r == self.clamped(),
    {
        let low = Zoom { num: 1, den: 1000 };
        let high = Zoom { num: 1000, den: 1 };
        if self.less_than(&low) {
            low
        } else if high.less_than(&self) {
            high
        } else {
            self
        }
    }

    /// Fit-to-window: the image is shown whole and never enlarged.
    pub fn fit(out: (u32, u32), img: (u32, u32)) -> (r: Zoom)
        ensures
            r == Zoom::fitting(out, img),
    {
        let one = Zoom { num: 1, den: 1 };
        let across = Zoom { num: out.0, den: img.0 };
        let down = Zoom { num: out.1, den: img.1 };
        let first = if across.less_than(&one) {
            across
        } else {
            one
        };
        if down.less_than(&first) {
            down
        } else {
            first
        }
    }

    /// One step in: the smallest tabulated level greater than `self`.
    pub fn step_up(&self) -> (r: Option<Zoom>)
        ensures
            r == self.step_above(),
            r.is_some() ==> r.unwrap().wf(),
    {
        let mut i: usize = 0;
        while i < 28
            invariant
                i <= 28,
                first_above(*self, 0) == first_above(*self, i as int),
            decreases 28 - i,
        {
            let level = Zoom { num: ZOOM_STEPS[i], den: 100 };
            if self.less_than(&level) {
                return Some(level);
            }
            i = i + 1;
        }
        None
    }

    /// One step out: the largest tabulated level smaller than `self`.
    pub fn step_down(&self) -> (r: Option<Zoom>)
        ensures
            r == self.step_below(),
            r.is_some() ==> r.unwrap().wf(),
    {
        let mut i: usize = 28;
        while i > 0
            invariant
                i <= 28,
                last_below(*self, 28) == last_below(*self, i as int),
            decreases i,
        {
            let level = Zoom { num: ZOOM_STEPS[i - 1], den: 100 };
            if level.less_than(self) {
                return Some(level);
            }
            i = i - 1;
        }
        None
    }
}

/// The tabulated levels are positive and strictly increasing.
pub proof fn lemma_steps_ascend(i: int, j: int)
    requires
        0 <= i < j < 28,
    ensures
        step(i).wf(),
        step(j).wf(),
        step(i).lt(step(j)),
{
    assert(ZOOM_STEPS[0] == 15 && ZOOM_STEPS[1] == 22 && ZOOM_STEPS[2] == 29 && ZOOM_STEPS[3]
        == 36 && ZOOM_STEPS[4] == 43 && ZOOM_STEPS[5] == 50 && ZOOM_STEPS[6] == 60
        && ZOOM_STEPS[7] == 70 && ZOOM_STEPS[8] == 80 && ZOOM_STEPS[9] == 90);
    assert(ZOOM_STEPS[10] == 100 && ZOOM_STEPS[11] == 125 && ZOOM_STEPS[12] == 150
        && ZOOM_STEPS[13] == 175 && ZOOM_STEPS[14] == 200 && ZOOM_STEPS[15] == 300
        && ZOOM_STEPS[16] == 400 && ZOOM_STEPS[17] == 500 && ZOOM_STEPS[18] == 700
        && ZOOM_STEPS[19] == 800);
    assert(ZOOM_STEPS[20] == 900 && ZOOM_STEPS[21] == 1000 && ZOOM_STEPS[22] == 1500
        && ZOOM_STEPS[23] == 2000 && ZOOM_STEPS[24] == 2500 && ZOOM_STEPS[25] == 3000
        && ZOOM_STEPS[26] == 3500 && ZOOM_STEPS[27] == 4000);
}

/// What the search from index `i` upwards finds is the first level from
/// there that is greater than `z`.
proof fn lemma_first_above(z: Zoom, i: int)
    requires
        0 <= i <= 28,
    ensures
        match first_above(z, i) {
            Some(s) => exists|k: int|
                i <= k < 28 && s == step(k) && z.lt(s) && forall|j: int|
                    i <= j < k ==> !z.lt(#[trigger] step(j)),
            None => forall|j: int| i <= j < 28 ==> !z.lt(#[trigger] step(j)),
        },
    decreases 28 - i,
{
    if i < 28 {
        if z.lt(step(i)) {
            assert(i <= i < 28 && step(i) == step(i) && forall|j: int|
                i <= j < i ==> !z.lt(#[trigger] step(j)));
        } else {
            lemma_first_above(z, i + 1);
            match first_above(z, i + 1) {
                Some(s) => {
                    let k = choose|k: int|
                        i + 1 <= k < 28 && s == step(k) && z.lt(s) && forall|j: int|
                            i + 1 <= j < k ==> !z.lt(#[trigger] step(j));
                    assert(i <= k < 28 && s == step(k) && z.lt(s) && forall|j: int|
                        i <= j < k ==> !z.lt(#[trigger] step(j)));
                },
                None => {},
            }
        }
    }
}

/// What the search from index `i` downwards finds is the last level before
/// it that is smaller than `z`.
proof fn lemma_last_below(z: Zoom, i: int)
    requires
        0 <= i <= 28,
    ensures
        match last_below(z, i) {
            Some(s) => exists|k: int|
                0 <= k < i && s == step(k) && s.lt(z) && forall|j: int|
                    k < j < i ==> !(#[trigger] step(j)).lt(z),
            None => forall|j: int| 0 <= j < i ==> !(#[trigger] step(j)).lt(z),
        },
    decreases i,
{
    if i > 0 {
        if step(i - 1).lt(z) {
            assert(0 <= i - 1 < i && step(i - 1) == step(i - 1) && forall|j: int|
                i - 1 < j < i ==> !(#[trigger] step(j)).lt(z));
        } else {
            lemma_last_below(z, i - 1);
            match last_below(z, i - 1) {
                Some(s) => {
                    let k = choose|k: int|
                        0 <= k < i - 1 && s == step(k) && s.lt(z) && forall|j: int|
                            k < j < i - 1 ==> !(#[trigger] step(j)).lt(z);
                    assert(0 <= k < i && s == step(k) && s.lt(z) && forall|j: int|
                        k < j < i ==> !(#[trigger] step(j)).lt(z));
                },
                None => {},
            }
        }
    }
}

/// One step in leads to the smallest tabulated level that is greater than
/// the zoom, and nowhere if no level is greater.
pub proof fn lemma_step_above_least(z: Zoom)
    ensures
        match z.step_above() {
            Some(s) => {
                &&& s.wf()
                &&& z.lt(s)
                &&& exists|k: int| 0 <= k < 28 && s == step(k)
                &&& forall|j: int| 0 <= j < 28 && z.lt(#[trigger] step(j)) ==> s.le(step(j))
            },
            None => forall|j: int| 0 <= j < 28 ==> !z.lt(#[trigger] step(j)),
        },
{
    lemma_first_above(z, 0);
    match z.step_above() {
        Some(s) => {
            let k = choose|k: int|
                0 <= k < 28 && s == step(k) && z.lt(s) && forall|j: int|
                    0 <= j < k ==> !z.lt(#[trigger] step(j));
            assert forall|j: int| 0 <= j < 28 && z.lt(#[trigger] step(j)) implies s.le(
                step(j),
            ) by {
                if k < j {
                    lemma_steps_ascend(k, j);
                }
            }
            if k < 27 {
                lemma_steps_ascend(k, 27);
            } else {
                lemma_steps_ascend(0, k);
            }
        },
        None => {},
    }
}

/// One step out leads to the largest tabulated level that is smaller than
/// the zoom, and nowhere if no level is smaller.
pub proof fn lemma_step_below_greatest(z: Zoom)
    ensures
        match z.step_below() {
            Some(s) => {
                &&& s.wf()
                &&& s.lt(z)
                &&& exists|k: int| 0 <= k < 28 && s == step(k)
                &&& forall|j: int| 0 <= j < 28 && (#[trigger] step(j)).lt(z) ==> step(j).le(s)
            },
            None => forall|j: int| 0 <= j < 28 ==> !(#[trigger] step(j)).lt(z),
        },
{
    lemma_last_below(z, 28);
    match z.step_below() {
        Some(s) => {
            let k = choose|k: int|
                0 <= k < 28 && s == step(k) && s.lt(z) && forall|j: int|
                    k < j < 28 ==> !(#[trigger] step(j)).lt(z);
            assert forall|j: int| 0 <= j < 28 && (#[trigger] step(j)).lt(z) implies step(j).le(
                s,
            ) by {
                if j < k {
                    lemma_steps_ascend(j, k);
                }
            }
            if k < 27 {
                lemma_steps_ascend(k, 27);
            } else {
                lemma_steps_ascend(0, k);
            }
        },
        None => {},
    }
}

/// A zoom that was brought into range lies between the smallest and the
/// largest zoom that can be set, also where it was zero, and a zoom in that
/// range is left as it is.
pub proof fn lemma_clamped_in_range(z: Zoom)
    requires
        z.den > 0,
    ensures
        z.clamped().wf(),
        zoom_min().le(z.clamped()),
        z.clamped().le(zoom_max()),
        zoom_min().le(z) && z.le(zoom_max()) ==> z.clamped() == z,
        z.num == 0 ==> z.clamped() == zoom_min(),
        z.clamped().clamped() == z.clamped(),
{
    let low = zoom_min();
    let high = zoom_max();
    assert(z.num * low.den == 1000 * z.num && low.num * z.den == z.den && z.num * high.den
        == z.num && high.num * z.den == 1000 * z.den && low.num * high.den == 1 && high.num
        * low.den == 1000000 && low.num * low.den == 1000 && high.num * high.den == 1000)
        by (nonlinear_arith)
        requires
            low.num == 1,
            low.den == 1000,
            high.num == 1000,
            high.den == 1,
    ;
}

/// Fit-to-window never enlarges: an image larger than the output on either
/// axis is shown at a zoom below 1, any other at exactly 1. Either way the
/// zoom is the largest at which both axes are shown whole.
pub proof fn lemma_fitting(out: (u32, u32), img: (u32, u32))
    requires
        img.0 > 0,
        img.1 > 0,
    ensures
        ({
            let z = Zoom::fitting(out, img);
            let one = Zoom { num: 1, den: 1 };
            &&& img.0 <= out.0 && img.1 <= out.1 ==> z == one
            &&& img.0 > out.0 || img.1 > out.1 ==> z.lt(one)
            &&& img.0 * z.num <= out.0 * z.den
            &&& img.1 * z.num <= out.1 * z.den
            &&& z == one || z == (Zoom { num: out.0, den: img.0 }) || z == (Zoom {
                num: out.1,
                den: img.1,
            })
            &&& out.0 > 0 && out.1 > 0 ==> z.wf()
        }),
{
    let one = Zoom { num: 1, den: 1 };
    let across = Zoom { num: out.0, den: img.0 };
    let down = Zoom { num: out.1, den: img.1 };
    let first = one.min(across);
    let z = first.min(down);
    assert(one.le(across) == (img.0 <= out.0) && one.le(down) == (img.1 <= out.1));
    assert(img.0 * out.0 == out.0 * img.0 && img.1 * out.1 == out.1 * img.1 && img.1 * out.0
        == out.0 * img.1 && img.0 * out.1 == out.1 * img.0) by (nonlinear_arith);
    if first == one {
        if z == down && !one.le(down) {
            assert(img.0 * out.1 <= out.0 * img.1) by (nonlinear_arith)
                requires
                    img.0 <= out.0,
                    out.1 < img.1,
                    0 <= img.0,
                    0 <= out.1,
            ;
        }
    } else {
        assert(first == across && out.0 < img.0);
        if !across.le(down) {
            assert(z == down);
            assert(out.1 < img.1) by (nonlinear_arith)
                requires
                    out.0 * img.1 > out.1 * img.0,
                    out.0 < img.0,
                    img.0 > 0,
                    img.1 > 0,
                    out.1 >= 0,
                    out.0 >= 0,
            ;
        }
    }
    if z == one {
        assert(img.0 * z.num == img.0 && out.0 * z.den == out.0 && img.1 * z.num == img.1
            && out.1 * z.den == out.1) by (nonlinear_arith)
            requires
                z.num == 1,
                z.den == 1,
        ;
    }
    assert(img.0 <= out.0 && img.1 <= out.1 ==> z == one);
    assert(img.0 > out.0 || img.1 > out.1 ==> z.lt(one));
    assert(img.0 * z.num <= out.0 * z.den);
    assert(img.1 * z.num <= out.1 * z.den);
    assert(z == one || z == across || z == down);
}

} // verus!
