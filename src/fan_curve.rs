//! The fan's response curve: duty cycle as a function of temperature, by
//! linear interpolation between control points.
use vstd::prelude::*;
use vstd::arithmetic::div_mod::{lemma_div_by_multiple, lemma_div_is_ordered};

verus! {

/// The highest duty cycle, in percent.
pub const MAX_DUTY: u32 = 100;

/// A control point: a temperature in millidegrees Celsius and a duty cycle in percent.
#[derive(Debug, Clone, Copy, PartialEq, Eq, Structural)]
pub struct FanPoint {
    pub temperature: u32,
    pub duty: u32,
}

/// The point with its duty cycle clamped to at most 100%.
pub open spec fn clamp_point(p: FanPoint) -> FanPoint {
    FanPoint {
        temperature: p.temperature,
        duty: if p.duty > MAX_DUTY {
            MAX_DUTY
        } else {
            p.duty
        },
    }
}

pub open spec fn sorted_by_temperature(s: Seq<FanPoint>) -> bool {
    forall|i: int, j: int| 0 <= i < j < s.len() ==> s[i].temperature <= s[j].temperature
}

/// The greatest index below `i` whose point is no warmer than `t`, or -1:
/// the points are scanned from the highest down.
pub open spec fn floor_index(s: Seq<FanPoint>, t: int, i: int) -> int
    decreases i,
{
    if i <= 0 {
        -1
    } else if s[i - 1].temperature <= t {
        i - 1
    } else {
        floor_index(s, t, i - 1)
    }
}

/// The duty cycle on the line from `lo` to `hi` at temperature `t`, with the
/// fraction of the duty step rounded towards `lo`'s duty.
pub open spec fn interpolate(lo: FanPoint, hi: FanPoint, t: int) -> int {
    let dt = hi.temperature - lo.temperature;
    if hi.duty >= lo.duty {
        lo.duty + (t - lo.temperature) * (hi.duty - lo.duty) / dt
    } else {
        lo.duty - (t - lo.temperature) * (lo.duty - hi.duty) / dt
    }
}

/// The duty cycle that the curve `s` gives at `t`: the lowest point's below
/// the curve, the highest point's at or above it, and in between the
/// interpolation from the last point no warmer than `t` to the next one.
pub open spec fn curve_duty(s: Seq<FanPoint>, t: int) -> int {
    let i = floor_index(s, t, s.len() as int);
    if i < 0 {
        s[0].duty as int
    } else if i == s.len() - 1 {
        s[i].duty as int
    } else {
        interpolate(s[i], s[i + 1], t)
    }
}

/// A fan curve: at least one point, sorted by temperature.
pub struct FanCurve {
    points: Vec<FanPoint>,
}

impl FanCurve {
    pub closed spec fn view(&self) -> Seq<FanPoint> {
        self.points@
    }

    pub open spec fn wf(&self) -> bool {
        &&& self@.len() > 0
        &&& sorted_by_temperature(self@)
        &&& forall|i: int| 0 <= i < self@.len() ==> #[trigger] self@[i].duty <= MAX_DUTY
    }

    /// Builds the curve from its points in any order: their duty cycles
    /// clamped to 100%, sorted by temperature. `None` when there is no point.
    pub fn new(points: Vec<FanPoint>) -> (r: Option<FanCurve>)
        ensures
            points@.len() == 0 ==> r is None,
            points@.len() > 0 ==> r is Some,
            r matches Some(c) ==> c.wf() && c@.to_multiset() == points@.map_values(
                |p: FanPoint| clamp_point(p),
            ).to_multiset(),
    {
        if points.len() == 0 {
            return None;
        }
        let ghost clamped = points@.map_values(|p: FanPoint| clamp_point(p));
        let mut sorted: Vec<FanPoint> = Vec::new();
        let mut k: usize = 0;
        proof {
            assert(sorted@ =~= clamped.take(0));
        }
        while k < points.len()
            invariant
                k <= points@.len(),
                clamped == points@.map_values(|p: FanPoint| clamp_point(p)),
                sorted@.len() == k,
                sorted_by_temperature(sorted@),
                forall|i: int| 0 <= i < sorted@.len() ==> #[trigger] sorted@[i].duty <= MAX_DUTY,
                sorted@.to_multiset() == clamped.take(k as int).to_multiset(),
            decreases points@.len() - k,
        {
            let p = points[k];
            let x = FanPoint { temperature: p.temperature, duty: if p.duty > MAX_DUTY { MAX_DUTY } else { p.duty } };
            let mut pos: usize = 0;
            while pos < sorted.len() && sorted[pos].temperature <= x.temperature
                invariant
                    pos <= sorted@.len(),
                    forall|i: int| 0 <= i < pos ==> #[trigger] sorted@[i].temperature <= x.temperature,
                decreases sorted@.len() - pos,
            {
                pos = pos + 1;
            }
            let ghost before = sorted@;
            sorted.insert(pos, x);
            proof {
                assert(x == clamped[k as int]);
                assert(clamped.take(k + 1) =~= clamped.take(k as int).push(x));
                vstd::seq_lib::to_multiset_insert(before, pos as int, x);
                vstd::seq_lib::to_multiset_build(clamped.take(k as int), x);
                assert forall|i: int, j: int| 0 <= i < j < sorted@.len() implies sorted@[i].temperature
                    <= sorted@[j].temperature by {
                    if j < pos {
                    } else if j == pos {
                    } else if i < pos {
                        assert(sorted@[j] == before[j - 1]);
                        if pos < before.len() {
                            assert(before[pos as int].temperature > x.temperature);
                            assert(before[pos as int].temperature <= before[j - 1].temperature);
                        }
                    } else if i == pos {
                        if pos < before.len() {
                            assert(before[pos as int].temperature > x.temperature);
                        }
                    }
                }
                assert forall|i: int| 0 <= i < sorted@.len() implies #[trigger] sorted@[i].duty <= MAX_DUTY by {
                    if i < pos {
                        assert(sorted@[i] == before[i]);
                    } else if i > pos {
                        assert(sorted@[i] == before[i - 1]);
                    }
                }
            }
            k = k + 1;
        }
        proof {
            assert(clamped.take(points@.len() as int) =~= clamped);
        }
        Some(FanCurve { points: sorted })
    }

    /// The duty cycle, in percent, at `temperature` (millidegrees Celsius).
    pub fn evaluate(&self, temperature: u32) -> (r: u32)
        requires
            self.wf(),
        ensures
            r == curve_duty(self@, temperature as int),
            r <= MAX_DUTY,
    {
        let n = self.points.len();
        let mut i = n;
        while i > 0 && self.points[i - 1].temperature > temperature
            invariant
                i <= n,
                n == self@.len(),
                floor_index(self@, temperature as int, n as int) == floor_index(self@, temperature as int, i as int),
                forall|j: int| i <= j < n ==> #[trigger] self@[j].temperature > temperature,
            decreases i,
        {
            i = i - 1;
        }
        if i == 0 {
            return self.points[0].duty;
        }
        let lo = self.points[i - 1];
        if i == n {
            return lo.duty;
        }
        let hi = self.points[i];
        let dt = (hi.temperature - lo.temperature) as u64;
        let x = (temperature - lo.temperature) as u64;
        proof {
            assert(self@[i as int].temperature > temperature);
            assert(self@[i - 1].duty <= MAX_DUTY);
            assert(self@[i as int].duty <= MAX_DUTY);
        }
        if hi.duty >= lo.duty {
            let d = (hi.duty - lo.duty) as u64;
            proof {
                lemma_step_bound(x as int, d as int, dt as int);
            }
            lo.duty + (x * d / dt) as u32
        } else {
            let d = (lo.duty - hi.duty) as u64;
            proof {
                lemma_step_bound(x as int, d as int, dt as int);
            }
            lo.duty - (x * d / dt) as u32
        }
    }
}

proof fn lemma_floor_index_skips(s: Seq<FanPoint>, t: int, i: int, m: int)
    requires
        0 <= m <= i <= s.len(),
        forall|j: int| m <= j < i ==> #[trigger] s[j].temperature > t,
    ensures
        floor_index(s, t, i) == floor_index(s, t, m),
    decreases i,
{
    if i > m {
        lemma_floor_index_skips(s, t, i - 1, m);
    }
}

/// Below the lowest point the curve gives that point's duty cycle unchanged.
pub proof fn lemma_below_curve(curve: &FanCurve, t: int)
    requires
        curve.wf(),
        t < curve@[0].temperature,
    ensures
        curve_duty(curve@, t) == curve@[0].duty,
{
    let s = curve@;
    assert forall|j: int| 0 <= j < s.len() implies #[trigger] s[j].temperature > t by {
        if j > 0 {
            assert(s[0].temperature <= s[j].temperature);
        }
    }
    lemma_floor_index_skips(s, t, s.len() as int, 0);
}

/// At the temperature of a point that no other point shares, the curve gives
/// exactly that point's duty cycle.
pub proof fn lemma_at_point(curve: &FanCurve, k: int)
    requires
        curve.wf(),
        0 <= k < curve@.len(),
        forall|j: int| 0 <= j < curve@.len() && j != k ==> #[trigger] curve@[j].temperature != curve@[k].temperature,
    ensures
        curve_duty(curve@, curve@[k].temperature as int) == curve@[k].duty,
{
    let s = curve@;
    let t = s[k].temperature as int;
    assert forall|j: int| k + 1 <= j < s.len() implies #[trigger] s[j].temperature > t by {
        assert(s[k].temperature <= s[j].temperature);
        assert(s[j].temperature != s[k].temperature);
    }
    lemma_floor_index_skips(s, t, s.len() as int, k + 1);
    assert(floor_index(s, t, k + 1) == k);
    if k < s.len() - 1 {
        let lo = s[k];
        let hi = s[k + 1];
        assert(hi.temperature > lo.temperature);
        assert((t - lo.temperature) == 0);
        if hi.duty >= lo.duty {
            assert(0 * (hi.duty - lo.duty) == 0);
        } else {
            assert(0 * (lo.duty - hi.duty) == 0);
        }
    }
}

/// A fraction `x / dt` (below one) of a step `d` is at most `d`.
proof fn lemma_step_bound(x: int, d: int, dt: int)
    requires
        0 <= x < dt,
        0 <= d <= MAX_DUTY,
        dt < 0x1_0000_0000,
    ensures
        x * d < 0x1_0000_0000 * 128,
        (x * d) / dt <= d,
{
    assert(x * d <= d * dt) by (nonlinear_arith)
        requires
            0 <= x < dt,
            0 <= d,
    ;
    assert(x * d < 0x1_0000_0000 * 128) by (nonlinear_arith)
        requires
            0 <= x < 0x1_0000_0000,
            0 <= d <= 100,
    ;
    lemma_div_is_ordered(x * d, d * dt, dt);
    lemma_div_by_multiple(d, dt);
}

} // verus!
