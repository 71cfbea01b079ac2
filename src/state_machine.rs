//! The regime controller: a hysteresis state machine over recent usage,
//! temperature and power samples, and the device actions each regime asks for.
use vstd::prelude::*;
use vstd::arithmetic::div_mod::{lemma_div_by_multiple, lemma_div_is_ordered};
use crate::circular_buffer::{push_window, CircularBuffer};
use crate::fan::FanMode;
use crate::fan_curve::{curve_duty, FanCurve, FanPoint};
use crate::performance_level::PerformanceLevel;
use crate::polaris_gpu_table::PolarisGpuTable;
use crate::stats::{index_weighted_average, total_weight, weighted_sum, MAX_SAMPLES};

verus! {

/// Weighted usage (percent) above which performance is forced.
pub const OVERRIDE_USAGE: u32 = 95;

/// Weighted usage above which performance is forced when power is high too:
/// half a percent, as numerator and denominator.
pub const ACTIVE_USAGE_NUM: u32 = 1;

pub const ACTIVE_USAGE_DEN: u32 = 2;

/// Weighted power (microwatts) above which an active device is forced into performance.
pub const ACTIVE_POWER: u32 = 40_000_000;

/// Weighted usage above which an idle device turns to performance.
pub const PERFORMANCE_USAGE: u32 = 90;

/// Latest temperature (millidegrees Celsius) from which an idle device cools down.
pub const HEAT_TEMPERATURE: u32 = 55_000;

/// Weighted temperature at or below which a cooling device is idle again.
pub const COOL_TEMPERATURE: u32 = 43_000;

/// Weighted power above which performance is kept.
pub const SUSTAIN_POWER: u32 = 50_000_000;

/// Weighted usage from which performance is kept.
pub const SUSTAIN_USAGE: u32 = 10;

/// Power limit in watts while idle.
pub const IDLE_POWER_LIMIT: u32 = 30;

/// Power limit in watts in performance.
pub const PERFORMANCE_POWER_LIMIT: u32 = 135;

/// Fan duty cycle in percent while idle.
pub const IDLE_FAN_DUTY: u32 = 0;

/// Fan duty cycle in percent while cooling down.
pub const COOL_FAN_DUTY: u32 = 35;

/// The controller's classification of the device's load.
#[derive(Debug, Clone, Copy, PartialEq, Eq, Structural)]
pub enum GpuCustomState {
    Idle,
    CoolOff,
    Performance,
}

/// Which of the controller's derived operating-point tables to apply.
#[derive(Debug, Clone, Copy, PartialEq, Eq, Structural)]
pub enum TableChoice {
    Idle,
    Performance,
}

/// One action on the device, for the caller to carry out in order.
#[derive(Debug, Clone, Copy, PartialEq, Eq, Structural)]
pub enum DeviceAction {
    /// Write the chosen table over the device's own, by difference.
    ApplyTable(TableChoice),
    SetPerformanceLevel(PerformanceLevel),
    SetFanMode(FanMode),
    /// Duty cycle in percent.
    SetFanSpeed(u32),
    /// Power limit in watts.
    SetPowerLimit(u32),
}

/// Whether the recency-weighted mean of `s` is above `n / d`.
pub open spec fn weighted_above(s: Seq<u32>, n: int, d: int) -> bool {
    weighted_sum(s) * d > n * total_weight(s.len())
}

/// Whether the recency-weighted mean of `s` is at least `n / d`.
pub open spec fn weighted_at_least(s: Seq<u32>, n: int, d: int) -> bool {
    weighted_sum(s) * d >= n * total_weight(s.len())
}

/// The regime to go to from `state`, given the samples held.
pub open spec fn next_regime(
    state: GpuCustomState,
    usage: Seq<u32>,
    temperature: Seq<u32>,
    power: Seq<u32>,
) -> GpuCustomState {
    if weighted_above(usage, OVERRIDE_USAGE as int, 1) || (weighted_above(
        usage,
        ACTIVE_USAGE_NUM as int,
        ACTIVE_USAGE_DEN as int,
    ) && weighted_above(power, ACTIVE_POWER as int, 1)) {
        GpuCustomState::Performance
    } else {
        match state {
            GpuCustomState::Idle => {
                if weighted_above(usage, PERFORMANCE_USAGE as int, 1) {
                    GpuCustomState::Performance
                } else if temperature.last() >= HEAT_TEMPERATURE {
                    GpuCustomState::CoolOff
                } else {
                    GpuCustomState::Idle
                }
            },
            GpuCustomState::CoolOff => {
                if !weighted_above(temperature, COOL_TEMPERATURE as int, 1) {
                    GpuCustomState::Idle
                } else {
                    GpuCustomState::CoolOff
                }
            },
            GpuCustomState::Performance => {
                if weighted_above(power, SUSTAIN_POWER as int, 1) || weighted_at_least(
                    usage,
                    SUSTAIN_USAGE as int,
                    1,
                ) {
                    GpuCustomState::Performance
                } else {
                    GpuCustomState::Idle
                }
            },
        }
    }
}

/// The actions that put the device into regime `target` when it was in
/// `current`: the table is left alone when coming back from cooling down.
pub open spec fn profile(target: GpuCustomState, current: GpuCustomState) -> Seq<DeviceAction> {
    match target {
        GpuCustomState::Idle => {
            let rest = seq![
                DeviceAction::SetPerformanceLevel(PerformanceLevel::ProfileMinMclk),
                DeviceAction::SetFanMode(FanMode::Manual),
                DeviceAction::SetFanSpeed(IDLE_FAN_DUTY),
                DeviceAction::SetPowerLimit(IDLE_POWER_LIMIT),
            ];
            if current != GpuCustomState::CoolOff {
                seq![DeviceAction::ApplyTable(TableChoice::Idle)] + rest
            } else {
                rest
            }
        },
        GpuCustomState::Performance => seq![
            DeviceAction::ApplyTable(TableChoice::Performance),
            DeviceAction::SetPerformanceLevel(PerformanceLevel::Auto),
            DeviceAction::SetFanMode(FanMode::Manual),
            DeviceAction::SetPowerLimit(PERFORMANCE_POWER_LIMIT),
        ],
        GpuCustomState::CoolOff => seq![
            DeviceAction::SetFanMode(FanMode::Manual),
            DeviceAction::SetFanSpeed(COOL_FAN_DUTY),
        ],
    }
}

/// The recency-weighted mean of `s`, rounded down.
pub open spec fn weighted_floor(s: Seq<u32>) -> int {
    weighted_sum(s) / (total_weight(s.len()) as int)
}

/// The actions of one step: the profile of the new regime when it changes,
/// then, in performance, the fan duty cycle that the curve gives at the
/// weighted temperature.
pub open spec fn step_actions(
    state: GpuCustomState,
    usage: Seq<u32>,
    temperature: Seq<u32>,
    power: Seq<u32>,
    curve: Seq<FanPoint>,
) -> Seq<DeviceAction> {
    let target = next_regime(state, usage, temperature, power);
    let change = if target != state {
        profile(target, state)
    } else {
        Seq::empty()
    };
    if target == GpuCustomState::Performance {
        change.push(DeviceAction::SetFanSpeed(curve_duty(curve, weighted_floor(temperature)) as u32))
    } else {
        change
    }
}

proof fn lemma_all_above(s: Seq<u32>, n: int)
    requires
        s.len() > 0,
        forall|i: int| 0 <= i < s.len() ==> #[trigger] s[i] > n,
        n >= 0,
    ensures
        weighted_sum(s) > n * total_weight(s.len()),
    decreases s.len(),
{
    let m = (s.len() - 1) as nat;
    let prev = s.drop_last();
    if m > 0 {
        assert forall|i: int| 0 <= i < prev.len() implies #[trigger] prev[i] > n by {
            assert(prev[i] == s[i]);
        }
        lemma_all_above(prev, n);
    } else {
        assert(weighted_sum(prev) == 0);
        assert(total_weight(m) == 0);
        assert(n * total_weight(m) == 0) by (nonlinear_arith)
            requires
                total_weight(m) == 0,
        ;
    }
    assert(s[s.len() - 1] > n);
    assert(total_weight(s.len()) == total_weight(m) + s.len());
    assert(weighted_sum(s) == weighted_sum(prev) + s.len() * s.last());
    assert(s.len() * s.last() > s.len() * n) by (nonlinear_arith)
        requires
            s.last() > n,
            s.len() > 0,
    ;
    assert(n * total_weight(s.len()) == n * total_weight(m) + n * s.len()) by (nonlinear_arith)
        requires
            total_weight(s.len()) == total_weight(m) + s.len(),
    ;
}

proof fn lemma_all_at_most(s: Seq<u32>, n: int)
    requires
        forall|i: int| 0 <= i < s.len() ==> #[trigger] s[i] <= n,
        n >= 0,
    ensures
        weighted_sum(s) <= n * total_weight(s.len()),
    decreases s.len(),
{
    if s.len() > 0 {
        let m = (s.len() - 1) as nat;
        let prev = s.drop_last();
        assert forall|i: int| 0 <= i < prev.len() implies #[trigger] prev[i] <= n by {
            assert(prev[i] == s[i]);
        }
        lemma_all_at_most(prev, n);
        assert(s.len() * s.last() <= s.len() * n) by (nonlinear_arith)
            requires
                s.last() <= n,
                s.len() > 0,
        ;
        assert(n * total_weight(s.len()) == n * total_weight(m) + n * s.len()) by (nonlinear_arith)
            requires
                total_weight(s.len()) == total_weight(m) + s.len(),
        ;
    }
}

/// An idle device whose latest temperature reaches the heat threshold, with
/// every usage sample at most the performance threshold and every power sample
/// at most the active power, starts cooling down.
pub proof fn lemma_heat_leads_to_cooling(usage: Seq<u32>, temperature: Seq<u32>, power: Seq<u32>)
    requires
        forall|i: int| 0 <= i < usage.len() ==> #[trigger] usage[i] <= PERFORMANCE_USAGE,
        forall|i: int| 0 <= i < power.len() ==> #[trigger] power[i] <= ACTIVE_POWER,
        temperature.len() > 0,
        temperature.last() >= HEAT_TEMPERATURE,
    ensures
        next_regime(GpuCustomState::Idle, usage, temperature, power) == GpuCustomState::CoolOff,
{
    lemma_all_at_most(usage, PERFORMANCE_USAGE as int);
    lemma_all_at_most(power, ACTIVE_POWER as int);
}

/// A cooling device whose temperature samples are all back at or below the
/// cool threshold, with every usage sample at most the override threshold and
/// every power sample at most the active power, is idle again.
pub proof fn lemma_cooling_leads_to_idle(usage: Seq<u32>, temperature: Seq<u32>, power: Seq<u32>)
    requires
        forall|i: int| 0 <= i < usage.len() ==> #[trigger] usage[i] <= OVERRIDE_USAGE,
        forall|i: int| 0 <= i < power.len() ==> #[trigger] power[i] <= ACTIVE_POWER,
        forall|i: int| 0 <= i < temperature.len() ==> #[trigger] temperature[i] <= COOL_TEMPERATURE,
    ensures
        next_regime(GpuCustomState::CoolOff, usage, temperature, power) == GpuCustomState::Idle,
{
    lemma_all_at_most(usage, OVERRIDE_USAGE as int);
    lemma_all_at_most(power, ACTIVE_POWER as int);
    lemma_all_at_most(temperature, COOL_TEMPERATURE as int);
}

/// With every usage sample above the override threshold, any regime goes
/// straight to performance: the performance profile is issued once, on the
/// change, and a step that starts in performance issues only the fan duty
/// cycle from the curve.
pub proof fn lemma_high_usage_leads_to_performance(
    state: GpuCustomState,
    usage: Seq<u32>,
    temperature: Seq<u32>,
    power: Seq<u32>,
    curve: Seq<FanPoint>,
)
    requires
        usage.len() > 0,
        forall|i: int| 0 <= i < usage.len() ==> #[trigger] usage[i] > OVERRIDE_USAGE,
    ensures
        next_regime(state, usage, temperature, power) == GpuCustomState::Performance,
        step_actions(state, usage, temperature, power, curve) == if state == GpuCustomState::Performance {
            seq![DeviceAction::SetFanSpeed(curve_duty(curve, weighted_floor(temperature)) as u32)]
        } else {
            profile(GpuCustomState::Performance, state).push(
                DeviceAction::SetFanSpeed(curve_duty(curve, weighted_floor(temperature)) as u32),
            )
        },
{
    lemma_all_above(usage, OVERRIDE_USAGE as int);
    if state == GpuCustomState::Performance {
        assert(Seq::<DeviceAction>::empty().push(
            DeviceAction::SetFanSpeed(curve_duty(curve, weighted_floor(temperature)) as u32),
        ) =~= seq![DeviceAction::SetFanSpeed(curve_duty(curve, weighted_floor(temperature)) as u32)]);
    }
}

/// The controller: the current regime, the recent samples, the derived
/// tables it applies and the curve that drives the fan in performance.
pub struct GpuStateMachine {
    state: GpuCustomState,
    usage_buffer: CircularBuffer<u32>,
    temperature_buffer: CircularBuffer<u32>,
    power_usage_buffer: CircularBuffer<u32>,
    idle_table: PolarisGpuTable,
    performance_table: PolarisGpuTable,
    fan_curve: FanCurve,
}

impl GpuStateMachine {
    pub closed spec fn spec_state(&self) -> GpuCustomState {
        self.state
    }

    /// Usage samples held, in percent, oldest first.
    pub closed spec fn usage_samples(&self) -> Seq<u32> {
        self.usage_buffer@
    }

    /// Temperature samples held, in millidegrees Celsius, oldest first.
    pub closed spec fn temperature_samples(&self) -> Seq<u32> {
        self.temperature_buffer@
    }

    /// Power samples held, in microwatts, oldest first.
    pub closed spec fn power_samples(&self) -> Seq<u32> {
        self.power_usage_buffer@
    }

    pub closed spec fn usage_capacity(&self) -> nat {
        self.usage_buffer.capacity()
    }

    pub closed spec fn temperature_capacity(&self) -> nat {
        self.temperature_buffer.capacity()
    }

    pub closed spec fn power_capacity(&self) -> nat {
        self.power_usage_buffer.capacity()
    }

    pub closed spec fn spec_curve(&self) -> Seq<FanPoint> {
        self.fan_curve@
    }

    pub closed spec fn spec_table(&self, choice: TableChoice) -> PolarisGpuTable {
        match choice {
            TableChoice::Idle => self.idle_table,
            TableChoice::Performance => self.performance_table,
        }
    }

    /// The derived table that `ApplyTable(choice)` asks for.
    pub fn table(&self, choice: TableChoice) -> (r: &PolarisGpuTable)
        ensures
            *r == self.spec_table(choice),
    {
        match choice {
            TableChoice::Idle => &self.idle_table,
            TableChoice::Performance => &self.performance_table,
        }
    }

    pub closed spec fn wf(&self) -> bool {
        &&& self.usage_buffer.wf()
        &&& self.temperature_buffer.wf()
        &&& self.power_usage_buffer.wf()
        &&& self.usage_buffer.capacity() <= MAX_SAMPLES
        &&& self.temperature_buffer.capacity() <= MAX_SAMPLES
        &&& self.power_usage_buffer.capacity() <= MAX_SAMPLES
        &&& self.fan_curve.wf()
    }

    /// Whether every buffer holds a sample, as a step needs.
    pub open spec fn has_samples(&self) -> bool {
        &&& self.usage_samples().len() > 0
        &&& self.temperature_samples().len() > 0
        &&& self.power_samples().len() > 0
    }

    pub fn state(&self) -> (r: GpuCustomState)
        ensures
            r == self.spec_state(),
    {
        self.state
    }

    /// A controller in the idle regime with empty buffers that keep
    /// `20 * buffer_scale` usage, `10 * buffer_scale` temperature and
    /// `5 * buffer_scale` power samples.
    pub fn new(
        buffer_scale: usize,
        idle_table: PolarisGpuTable,
        performance_table: PolarisGpuTable,
        fan_curve: FanCurve,
    ) -> (r: Self)
        requires
            0 < buffer_scale <= MAX_SAMPLES / 20,
            fan_curve.wf(),
        ensures
            r.wf(),
            r.spec_state() == GpuCustomState::Idle,
            r.usage_samples().len() == 0,
            r.temperature_samples().len() == 0,
            r.power_samples().len() == 0,
            r.usage_capacity() == 20 * buffer_scale,
            r.temperature_capacity() == 10 * buffer_scale,
            r.power_capacity() == 5 * buffer_scale,
            r.spec_curve() == fan_curve@,
            r.spec_table(TableChoice::Idle) == idle_table,
            r.spec_table(TableChoice::Performance) == performance_table,
    {
        GpuStateMachine {
            state: GpuCustomState::Idle,
            usage_buffer: CircularBuffer::new(20 * buffer_scale),
            temperature_buffer: CircularBuffer::new(10 * buffer_scale),
            power_usage_buffer: CircularBuffer::new(5 * buffer_scale),
            idle_table,
            performance_table,
            fan_curve,
        }
    }

    /// Takes one sample of each quantity: usage in percent, temperature in
    /// millidegrees Celsius, power in microwatts.
    pub fn update(&mut self, usage: u32, temperature: u32, power: u32)
        requires
            old(self).wf(),
        ensures
            final(self).wf(),
            final(self).spec_state() == old(self).spec_state(),
            final(self).spec_curve() == old(self).spec_curve(),
            final(self).usage_samples() == push_window(old(self).usage_samples(), usage, old(self).usage_capacity()),
            final(self).temperature_samples() == push_window(
                old(self).temperature_samples(),
                temperature,
                old(self).temperature_capacity(),
            ),
            final(self).power_samples() == push_window(old(self).power_samples(), power, old(self).power_capacity()),
            final(self).usage_capacity() == old(self).usage_capacity(),
            final(self).temperature_capacity() == old(self).temperature_capacity(),
            final(self).power_capacity() == old(self).power_capacity(),
            forall|c: TableChoice| final(self).spec_table(c) == old(self).spec_table(c),
    {
        self.usage_buffer.add(usage);
        self.temperature_buffer.add(temperature);
        self.power_usage_buffer.add(power);
    }

    /// Decides the regime from the samples held and returns the actions to
    /// carry out: the new regime's profile when it changes, then in
    /// performance the fan duty cycle from the curve at the weighted
    /// temperature. The new regime becomes the current one.
    pub fn step(&mut self) -> (r: Vec<DeviceAction>)
        requires
            old(self).wf(),
            old(self).has_samples(),
        ensures
            final(self).wf(),
            final(self).spec_state() == next_regime(
                old(self).spec_state(),
                old(self).usage_samples(),
                old(self).temperature_samples(),
                old(self).power_samples(),
            ),
            r@ == step_actions(
                old(self).spec_state(),
                old(self).usage_samples(),
                old(self).temperature_samples(),
                old(self).power_samples(),
                old(self).spec_curve(),
            ),
            final(self).usage_samples() == old(self).usage_samples(),
            final(self).temperature_samples() == old(self).temperature_samples(),
            final(self).power_samples() == old(self).power_samples(),
            final(self).spec_curve() == old(self).spec_curve(),
            final(self).usage_capacity() == old(self).usage_capacity(),
            final(self).temperature_capacity() == old(self).temperature_capacity(),
            final(self).power_capacity() == old(self).power_capacity(),
            forall|c: TableChoice| final(self).spec_table(c) == old(self).spec_table(c),
    {
        proof {
            self.usage_buffer.lemma_len_bound();
            self.temperature_buffer.lemma_len_bound();
            self.power_usage_buffer.lemma_len_bound();
        }
        let current_temperature = *self.temperature_buffer.last();
        let usage = index_weighted_average(self.usage_buffer.iter());
        let temperature = index_weighted_average(self.temperature_buffer.iter());
        let power = index_weighted_average(self.power_usage_buffer.iter());
        let target = if usage.greater_than(OVERRIDE_USAGE, 1) || (usage.greater_than(
            ACTIVE_USAGE_NUM,
            ACTIVE_USAGE_DEN,
        ) && power.greater_than(ACTIVE_POWER, 1)) {
            GpuCustomState::Performance
        } else {
            match self.state {
                GpuCustomState::Idle => {
                    if usage.greater_than(PERFORMANCE_USAGE, 1) {
                        GpuCustomState::Performance
                    } else if current_temperature >= HEAT_TEMPERATURE {
                        GpuCustomState::CoolOff
                    } else {
                        GpuCustomState::Idle
                    }
                },
                GpuCustomState::CoolOff => {
                    if !temperature.greater_than(COOL_TEMPERATURE, 1) {
                        GpuCustomState::Idle
                    } else {
                        GpuCustomState::CoolOff
                    }
                },
                GpuCustomState::Performance => {
                    if power.greater_than(SUSTAIN_POWER, 1) || usage.at_least(SUSTAIN_USAGE, 1) {
                        GpuCustomState::Performance
                    } else {
                        GpuCustomState::Idle
                    }
                },
            }
        };
        let mut actions = if target != self.state {
            self.apply(target)
        } else {
            Vec::new()
        };
        if target == GpuCustomState::Performance {
            let t = temperature.floor();
            proof {
                lemma_div_is_ordered(
                    temperature.numerator as int,
                    0xFFFF_FFFF * temperature.denominator,
                    temperature.denominator as int,
                );
                lemma_div_by_multiple(0xFFFF_FFFF, temperature.denominator as int);
            }
            let duty = self.fan_curve.evaluate(t as u32);
            actions.push(DeviceAction::SetFanSpeed(duty));
        }
        self.state = target;
        actions
    }

    /// The actions that move the device from the current regime into `target`.
    pub fn apply(&self, target: GpuCustomState) -> (r: Vec<DeviceAction>)
        ensures
            r@ == profile(target, self.spec_state()),
    {
        let mut actions: Vec<DeviceAction> = Vec::new();
        match target {
            GpuCustomState::Idle => {
                if self.state != GpuCustomState::CoolOff {
                    actions.push(DeviceAction::ApplyTable(TableChoice::Idle));
                }
                actions.push(DeviceAction::SetPerformanceLevel(PerformanceLevel::ProfileMinMclk));
                actions.push(DeviceAction::SetFanMode(FanMode::Manual));
                actions.push(DeviceAction::SetFanSpeed(IDLE_FAN_DUTY));
                actions.push(DeviceAction::SetPowerLimit(IDLE_POWER_LIMIT));
            },
            GpuCustomState::Performance => {
                actions.push(DeviceAction::ApplyTable(TableChoice::Performance));
                actions.push(DeviceAction::SetPerformanceLevel(PerformanceLevel::Auto));
                actions.push(DeviceAction::SetFanMode(FanMode::Manual));
                actions.push(DeviceAction::SetPowerLimit(PERFORMANCE_POWER_LIMIT));
            },
            GpuCustomState::CoolOff => {
                actions.push(DeviceAction::SetFanMode(FanMode::Manual));
                actions.push(DeviceAction::SetFanSpeed(COOL_FAN_DUTY));
            },
        }
        proof {
            assert(actions@ =~= profile(target, self.spec_state()));
        }
        actions
    }
}

} // verus!
