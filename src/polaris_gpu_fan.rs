//! Fans driven through a hwmon PWM channel: the values of their control points.
use vstd::prelude::*;
use crate::fan::FanMode;
use crate::fan_curve::MAX_DUTY;

verus! {

/// The highest PWM value.
pub const MAX_PWM: u32 = 255;

/// A fan behind a hwmon PWM channel: what its mode values are, and which
/// channel it is.
pub trait GenericSysFsFan {
    /// The number of the PWM channel: `pwm<index>`, `pwm<index>_enable`.
    fn index(&self) -> u32;

    /// The value of the enable control point that stands for `mode`.
    spec fn mode_value(mode: FanMode) -> u8;

    /// The mode that the device reports as `value`, if it is one.
    fn parse_mode(value: u8) -> (r: Option<FanMode>)
        ensures
            r matches Some(m) ==> Self::mode_value(m) == value,
            r is None ==> Self::mode_value(FanMode::Auto) != value && Self::mode_value(FanMode::Manual) != value;

    /// The value that selects `mode`.
    fn dump_mode(mode: FanMode) -> (r: u8)
        ensures
            r == Self::mode_value(mode);
}

/// The PWM value for a duty cycle in percent, rounded down.
pub fn pwm_of(percent: u32) -> (r: u8)
    requires
        percent <= MAX_DUTY,
    ensures
        r as int == percent as int * MAX_PWM as int / 100,
{
    assert(percent as int * 255 / 100 <= 255) by (nonlinear_arith)
        requires
            percent <= 100,
    ;
    (percent * MAX_PWM / 100) as u8
}

/// The duty cycle in percent, rounded down, for a PWM value.
pub fn percent_of(pwm: u8) -> (r: u32)
    ensures
        r as int == pwm as int * 100 / MAX_PWM as int,
        r <= MAX_DUTY,
{
    assert(pwm as int * 100 / 255 <= 100) by (nonlinear_arith)
        requires
            pwm <= 255,
    ;
    (pwm as u32) * 100 / MAX_PWM
}

/// The fan of a Polaris GPU.
#[derive(Debug, Clone, Copy, PartialEq, Eq, Structural)]
pub struct PolarisGpuFan {
    pub index: u32,
}

impl PolarisGpuFan {
    pub fn new(index: u32) -> (r: PolarisGpuFan)
        ensures
            r.index == index,
    {
        PolarisGpuFan { index }
    }
}

impl GenericSysFsFan for PolarisGpuFan {
    open spec fn mode_value(mode: FanMode) -> u8 {
        match mode {
            FanMode::Manual => 1,
            FanMode::Auto => 2,
        }
    }

    fn index(&self) -> u32 {
        self.index
    }

    fn parse_mode(value: u8) -> Option<FanMode> {
        match value {
            1 => Some(FanMode::Manual),
            2 => Some(FanMode::Auto),
            _ => None,
        }
    }

    fn dump_mode(mode: FanMode) -> u8 {
        match mode {
            FanMode::Manual => 1,
            FanMode::Auto => 2,
        }
    }
}

/// A fan on the Nuvoton NCT6797 motherboard controller.
#[derive(Debug, Clone, Copy, PartialEq, Eq, Structural)]
pub struct Nct6797Fan {
    pub index: u32,
}

impl Nct6797Fan {
    pub fn new(index: u32) -> (r: Nct6797Fan)
        ensures
            r.index == index,
    {
        Nct6797Fan { index }
    }
}

impl GenericSysFsFan for Nct6797Fan {
    open spec fn mode_value(mode: FanMode) -> u8 {
        match mode {
            FanMode::Manual => 1,
            FanMode::Auto => 5,
        }
    }

    fn index(&self) -> u32 {
        self.index
    }

    fn parse_mode(value: u8) -> Option<FanMode> {
        match value {
            1 => Some(FanMode::Manual),
            5 => Some(FanMode::Auto),
            _ => None,
        }
    }

    fn dump_mode(mode: FanMode) -> u8 {
        match mode {
            FanMode::Manual => 1,
            FanMode::Auto => 5,
        }
    }
}

} // verus!
