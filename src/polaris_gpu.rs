//! The Polaris GPU as the governor sees it: the values it reads from and
//! writes to the device's control points. The reads and writes themselves
//! are the caller's.
use vstd::prelude::*;
use vstd::string::StringSliceAdditionalSpecFns;
use crate::polaris_gpu_fan::PolarisGpuFan;
use crate::polaris_gpu_table::{spec_parse_table, PolarisGpuTable, COLON, NEWLINE};
use crate::table_commands::{diff_to_commands, spec_diff, TableCommand};
use crate::text::{
    decimal, find_byte, find_byte_at, lemma_find_byte_bounds, parse_u32_at, push_decimal,
    skip_spaces, skip_spaces_at, spec_parse_u32, trim_end, trim_end_at,
};

verus! {

/// The two clock domains of the operating-point table.
#[derive(Debug, Clone, Copy, PartialEq, Eq, Hash, Structural)]
pub enum Part {
    Core,
    Memory,
}

/// The temperature sensors of the GPU.
#[derive(Debug, Clone, Copy, PartialEq, Eq, Structural)]
pub enum TemperatureSensor {
    Edge,
    Junction,
    Memory,
}

/// The PCIe link speeds the governor selects between.
#[derive(Debug, Clone, Copy, PartialEq, Eq, Structural)]
pub enum PcieLevel {
    Gen1,
    Gen3,
}

/// Why an operating-point table could not be applied.
#[derive(Debug, Clone, Copy, PartialEq, Eq, Structural)]
pub enum OverclockError {
    /// The device's table cannot be read: overclocking is off.
    Disabled,
    /// The device refused a write; its table has been reset.
    WriteRejected,
    /// The table's ranges differ from the device's, which cannot change.
    RangesAreImmutable,
}

/// The byte `*` that marks the current performance state in a listing.
pub const STAR: u8 = 42;

/// Microwatts per watt.
pub const MICROWATTS_PER_WATT: u64 = 1_000_000;

/// The start of the first line at or after `start` that holds a `*`, or -1.
pub open spec fn marked_line(b: Seq<u8>, start: int) -> int
    decreases b.len() - start,
    when 0 <= start <= b.len()
{
    let le = find_byte(b, start, b.len() as int, NEWLINE);
    if find_byte(b, start, le, STAR) < le {
        start
    } else if le < b.len() {
        proof {
            lemma_find_byte_bounds(b, start, b.len() as int, NEWLINE);
        }
        marked_line(b, le + 1)
    } else {
        -1
    }
}

/// The index of the current state in a listing such as `0: 300Mhz`,
/// `1: 1000Mhz *`: what stands before the colon on the first line marked
/// with `*`, once the line's surrounding spaces are dropped.
pub open spec fn current_pstate(b: Seq<u8>) -> Option<u32> {
    let ls = marked_line(b, 0);
    if ls < 0 {
        None
    } else {
        let le = find_byte(b, ls, b.len() as int, NEWLINE);
        let ts = skip_spaces(b, ls, le);
        let te = trim_end(b, ts, le);
        spec_parse_u32(b, ts, find_byte(b, ts, te, COLON))
    }
}

/// The GPU: its name and its fan.
pub struct PolarisGpu {
    name: String,
    fan: PolarisGpuFan,
}

impl PolarisGpu {
    pub closed spec fn spec_fan(&self) -> PolarisGpuFan {
        self.fan
    }

    pub closed spec fn spec_name(&self) -> Seq<char> {
        self.name@
    }

    pub fn name(&self) -> (r: &String)
        ensures
            r@ == self.spec_name(),
    {
        &self.name
    }

    pub fn new(name: String, fan: PolarisGpuFan) -> (r: PolarisGpu)
        ensures
            r.spec_name() == name@,
            r.spec_fan() == fan,
    {
        PolarisGpu { name, fan }
    }

    pub fn fan(&self) -> (r: &PolarisGpuFan)
        ensures
            *r == self.spec_fan(),
    {
        &self.fan
    }

    /// The number in the name of a sensor's input: `temp<index>_input`.
    pub fn get_sensor_index(sensor: TemperatureSensor) -> (r: u32)
        ensures
            r == match sensor {
                TemperatureSensor::Edge => 1u32,
                TemperatureSensor::Junction => 2u32,
                TemperatureSensor::Memory => 3u32,
            },
    {
        match sensor {
            TemperatureSensor::Edge => 1,
            TemperatureSensor::Junction => 2,
            TemperatureSensor::Memory => 3,
        }
    }

    /// The index of the current state in a listing of performance states.
    pub fn parse_current_pstate(data: &str) -> (r: Option<u32>)
        ensures
            r == current_pstate(data.spec_bytes()),
    {
        let b = data.as_bytes();
        let n = b.len();
        let mut start: usize = 0;
        loop
            invariant
                start <= n,
                n == b@.len(),
                b@ == data.spec_bytes(),
                marked_line(b@, 0) == marked_line(b@, start as int),
            decreases n - start,
        {
            let le = find_byte_at(b, start, n, NEWLINE);
            if find_byte_at(b, start, le, STAR) < le {
                let ts = skip_spaces_at(b, start, le);
                let te = trim_end_at(b, ts, le);
                let colon = find_byte_at(b, ts, te, COLON);
                return parse_u32_at(b, ts, colon);
            }
            if le == n {
                return None;
            }
            start = le + 1;
        }
    }

    /// The current memory state, from the listing of memory states.
    pub fn pstate_memory(data: &str) -> (r: Option<u32>)
        ensures
            r == current_pstate(data.spec_bytes()),
    {
        Self::parse_current_pstate(data)
    }

    /// The current core state, from the listing of core states.
    pub fn pstate_core(data: &str) -> (r: Option<u32>)
        ensures
            r == current_pstate(data.spec_bytes()),
    {
        Self::parse_current_pstate(data)
    }

    /// The text that selects memory state `state`.
    pub fn set_pstate_memory(state: u32) -> (r: Vec<u8>)
        ensures
            r@ == decimal(state as nat),
    {
        let mut out: Vec<u8> = Vec::new();
        push_decimal(&mut out, state as u64);
        out
    }

    /// The text that selects core state `state`.
    pub fn set_pstate_core(state: u32) -> (r: Vec<u8>)
        ensures
            r@ == decimal(state as nat),
    {
        let mut out: Vec<u8> = Vec::new();
        push_decimal(&mut out, state as u64);
        out
    }

    /// The text that selects power profile `mode`.
    pub fn set_power_profile_mode(mode: u8) -> (r: Vec<u8>)
        ensures
            r@ == decimal(mode as nat),
    {
        let mut out: Vec<u8> = Vec::new();
        push_decimal(&mut out, mode as u64);
        out
    }

    /// The operating-point table that the device's text describes.
    pub fn read_pstates(data: &str) -> (r: Option<PolarisGpuTable>)
        ensures
            spec_parse_table(data.spec_bytes()) is None ==> r is None,
            spec_parse_table(data.spec_bytes()) is Some ==> r is Some && r.unwrap().describes(
                spec_parse_table(data.spec_bytes()).unwrap(),
            ),
    {
        PolarisGpuTable::try_parse(data)
    }

    /// The writes that turn the device's table `current` into `new_table`:
    /// refused when the device's table could not be read, or when the ranges
    /// of the two differ.
    pub fn set_pstates(current: Option<&PolarisGpuTable>, new_table: &PolarisGpuTable) -> (r: Result<
        Vec<TableCommand>,
        OverclockError,
    >)
        ensures
            current is None ==> r == Err::<Vec<TableCommand>, OverclockError>(OverclockError::Disabled),
            current is Some && !current.unwrap().same_ranges(new_table) ==> r == Err::<
                Vec<TableCommand>,
                OverclockError,
            >(OverclockError::RangesAreImmutable),
            current is Some && current.unwrap().same_ranges(new_table) ==> r is Ok && r.unwrap()@
                == spec_diff(current.unwrap(), new_table),
    {
        match current {
            None => Err(OverclockError::Disabled),
            Some(table) => {
                if table.shared_voltage_range() == new_table.shared_voltage_range()
                    && table.part_clock_range(Part::Core) == new_table.part_clock_range(Part::Core)
                    && table.part_clock_range(Part::Memory) == new_table.part_clock_range(
                    Part::Memory,
                ) {
                    Ok(diff_to_commands(table, new_table))
                } else {
                    Err(OverclockError::RangesAreImmutable)
                }
            },
        }
    }

    /// The command that restores the device's default table.
    pub fn reset_pstates() -> (r: TableCommand)
        ensures
            r == TableCommand::Reset,
    {
        TableCommand::Reset
    }

    /// The link speed that the device reports as `value`; `None` for one it
    /// does not know.
    pub fn pcie_level(value: u32) -> (r: Option<PcieLevel>)
        ensures
            value == 0 ==> r == Some(PcieLevel::Gen1),
            value == 1 ==> r == Some(PcieLevel::Gen3),
            value > 1 ==> r is None,
    {
        match value {
            0 => Some(PcieLevel::Gen1),
            1 => Some(PcieLevel::Gen3),
            _ => None,
        }
    }

    /// The value that selects link speed `mode`.
    pub fn set_pcie_level(mode: PcieLevel) -> (r: u32)
        ensures
            r == match mode {
                PcieLevel::Gen1 => 0u32,
                PcieLevel::Gen3 => 1u32,
            },
    {
        match mode {
            PcieLevel::Gen1 => 0,
            PcieLevel::Gen3 => 1,
        }
    }

    /// The power limit of `watts` in microwatts, as the device takes it; `None`
    /// when it lies outside the device's range `[min, max]` (in microwatts).
    pub fn set_power_limit(watts: u32, min: u64, max: u64) -> (r: Option<u64>)
        ensures
            min <= watts * MICROWATTS_PER_WATT <= max ==> r == Some((watts * MICROWATTS_PER_WATT) as u64),
            !(min <= watts * MICROWATTS_PER_WATT <= max) ==> r is None,
    {
        let value = watts as u64 * MICROWATTS_PER_WATT;
        if min <= value && value <= max {
            Some(value)
        } else {
            None
        }
    }
}

} // verus!
