//! The clock/voltage operating-point table: parsing, validation and mutation.
use vstd::prelude::*;
use vstd::string::StringSliceAdditionalSpecFns;
use crate::polaris_gpu::Part;
use crate::text::{
    find_byte, find_byte_at, lemma_find_byte_bounds, matches_at, parse_u32_at, skip_spaces,
    skip_spaces_at, skip_token, skip_token_at, spec_parse_u32, trim_end, trim_end_at,
};

verus! {

/// An inclusive range of values that the hardware enforces.
#[derive(Debug, Clone, Copy, PartialEq, Eq, Hash, Structural)]
pub struct ValueRange {
    pub min: u32,
    pub max: u32,
}

impl ValueRange {
    pub open spec fn spec_contains(self, v: u32) -> bool {
        self.min <= v <= self.max
    }

    pub fn contains(&self, v: u32) -> (r: bool)
        ensures
            r == self.spec_contains(v),
    {
        self.min <= v && v <= self.max
    }
}

/// One operating point: a clock in MHz and a voltage in mV.
#[derive(Debug, Clone, Copy, PartialEq, Eq, Hash, Structural)]
pub struct PolarisGpuState {
    pub clock: u32,
    pub voltage: u32,
}

/// Why a state cannot be stored in a table.
#[derive(Debug, Clone, Copy, PartialEq, Eq, Structural)]
pub enum StateInvalidReason {
    VoltageNotInRange,
    ClockNotInRange,
    InvalidIndex,
}

/// The operating points of the core and memory clocks, with the ranges that
/// bound them.
#[derive(Debug)]
pub struct PolarisGpuTable {
    voltage_range: ValueRange,
    sclk_range: ValueRange,
    mclk_range: ValueRange,
    memory_states: Vec<PolarisGpuState>,
    core_states: Vec<PolarisGpuState>,
}

/// Why `state` cannot be stored in a part whose clocks are bounded by `clocks`
/// under the voltage bounds `voltages`, if it cannot.
pub open spec fn state_check(voltages: ValueRange, clocks: ValueRange, state: PolarisGpuState) -> Result<
    (),
    StateInvalidReason,
> {
    if !voltages.spec_contains(state.voltage) {
        Err(StateInvalidReason::VoltageNotInRange)
    } else if !clocks.spec_contains(state.clock) {
        Err(StateInvalidReason::ClockNotInRange)
    } else {
        Ok(())
    }
}

impl PolarisGpuTable {
    /// The states of a part, lowest performance state first.
    pub closed spec fn spec_states(&self, part: Part) -> Seq<PolarisGpuState> {
        match part {
            Part::Core => self.core_states@,
            Part::Memory => self.memory_states@,
        }
    }

    pub closed spec fn spec_voltage_range(&self) -> ValueRange {
        self.voltage_range
    }

    pub closed spec fn spec_clock_range(&self, part: Part) -> ValueRange {
        match part {
            Part::Core => self.sclk_range,
            Part::Memory => self.mclk_range,
        }
    }

    /// Reads a table from its text. The text is a section `OD_SCLK:` of core
    /// states, a section `OD_MCLK:` of memory states and a section `OD_RANGE:`
    /// of the ranges `SCLK`, `MCLK` and `VDDC`; each state line reads
    /// `<index>: <clock>MHz <voltage>mV`, each range line
    /// `<NAME>: <lower><unit> <upper><unit>`. States are kept in the order of
    /// their lines; the index before the colon is not read. `None` when a line
    /// is malformed, a range is missing or a part has no state.
    pub fn try_parse(data: &str) -> (r: Option<PolarisGpuTable>)
        ensures
            spec_parse_table(data.spec_bytes()) is None ==> r is None,
            spec_parse_table(data.spec_bytes()) is Some ==> r is Some && r.unwrap().describes(
                spec_parse_table(data.spec_bytes()).unwrap(),
            ),
    {
        let b = data.as_bytes();
        let n = b.len();
        let mut parser = TableParser {
            section: Section::Initial,
            core: Vec::new(),
            memory: Vec::new(),
            sclk: None,
            mclk: None,
            voltage: None,
        };
        proof {
            assert(parser@.core =~= initial_progress().core);
            assert(parser@.memory =~= initial_progress().memory);
        }
        let mut start: usize = 0;
        loop
            invariant_except_break
                start <= n,
                n == b@.len(),
                b@ == data.spec_bytes(),
                parse_lines(b@, 0, initial_progress()) == parse_lines(b@, start as int, parser@),
            ensures
                parse_lines(b@, 0, initial_progress()) == Some(parser@),
            decreases n - start,
        {
            let le = find_byte_at(b, start, n, NEWLINE);
            let ghost before = parser@;
            if !parser.parse_line(b, start, le) {
                proof {
                    assert(parse_lines(b@, start as int, before) is None);
                }
                return None;
            }
            if le == n {
                break;
            }
            start = le + 1;
        }
        match (parser.sclk, parser.mclk, parser.voltage) {
            (Some(sclk), Some(mclk), Some(voltage)) => {
                if parser.core.len() > 0 && parser.memory.len() > 0 {
                    Some(
                        PolarisGpuTable {
                            voltage_range: voltage,
                            sclk_range: sclk,
                            mclk_range: mclk,
                            memory_states: parser.memory,
                            core_states: parser.core,
                        },
                    )
                } else {
                    None
                }
            },
            _ => None,
        }
    }

    /// Reads a table from text that is known to describe one.
    pub fn parse(data: &str) -> (r: PolarisGpuTable)
        requires
            spec_parse_table(data.spec_bytes()) is Some,
        ensures
            r.describes(spec_parse_table(data.spec_bytes()).unwrap()),
    {
        match Self::try_parse(data) {
            Some(table) => table,
            None => vstd::pervasive::unreached(),
        }
    }

    /// Whether the table holds exactly what `p` has read.
    pub open spec fn describes(&self, p: ParseProgress) -> bool {
        &&& p.sclk == Some(self.spec_clock_range(Part::Core))
        &&& p.mclk == Some(self.spec_clock_range(Part::Memory))
        &&& p.voltage == Some(self.spec_voltage_range())
        &&& p.core == self.spec_states(Part::Core)
        &&& p.memory == self.spec_states(Part::Memory)
    }

    /// A copy of the table.
    pub fn duplicate(&self) -> (r: PolarisGpuTable)
        ensures
            r.same_ranges(self),
            r.spec_states(Part::Core) == self.spec_states(Part::Core),
            r.spec_states(Part::Memory) == self.spec_states(Part::Memory),
    {
        PolarisGpuTable {
            voltage_range: self.voltage_range,
            sclk_range: self.sclk_range,
            mclk_range: self.mclk_range,
            memory_states: copy_states(&self.memory_states),
            core_states: copy_states(&self.core_states),
        }
    }

    /// Sets every state of `part` to `state`; when `state` lies outside the
    /// ranges nothing changes and the reason is returned.
    pub fn set_all_states(&mut self, part: Part, state: PolarisGpuState) -> (r: Result<(), StateInvalidReason>)
        ensures
            final(self).same_ranges(old(self)),
            r == state_check(old(self).spec_voltage_range(), old(self).spec_clock_range(part), state),
            r is Ok ==> final(self).spec_states(part) == Seq::new(
                old(self).spec_states(part).len(),
                |i: int| state,
            ),
            r is Err ==> final(self).spec_states(part) == old(self).spec_states(part),
            forall|p: Part| p != part ==> final(self).spec_states(p) == old(self).spec_states(p),
    {
        match self.validate_state(part, state) {
            Err(reason) => Err(reason),
            Ok(_) => {
                let n = self.states(part).len();
                let ghost before = self.spec_states(part);
                let mut i: usize = 0;
                while i < n
                    invariant
                        i <= n,
                        n == before.len(),
                        self.same_ranges(old(self)),
                        state_check(self.spec_voltage_range(), self.spec_clock_range(part), state) is Ok,
                        self.spec_states(part).len() == n,
                        forall|j: int| 0 <= j < i ==> self.spec_states(part)[j] == state,
                        forall|j: int| i <= j < n ==> self.spec_states(part)[j] == before[j],
                        forall|p: Part| p != part ==> self.spec_states(p) == old(self).spec_states(p),
                    decreases n - i,
                {
                    let _ = self.set_state(part, i, state);
                    i = i + 1;
                }
                proof {
                    assert(self.spec_states(part) =~= Seq::new(n as nat, |i: int| state));
                }
                Ok(())
            },
        }
    }

    /// Whether every state that capping `part` at `ceiling` writes lies
    /// within the ranges: `part` has a state, and so can take `ceiling` last.
    pub open spec fn can_cap(&self, part: Part, ceiling: PolarisGpuState) -> bool {
        let v = self.spec_voltage_range();
        let c = self.spec_clock_range(part);
        let s = self.spec_states(part);
        &&& s.len() > 0
        &&& forall|i: int| 0 <= i < s.len() ==> state_check(v, c, #[trigger] capped(s[i], ceiling)) is Ok
        &&& state_check(v, c, ceiling) is Ok
    }

    /// Lowers every voltage of `part` above the ceiling's to it, then makes
    /// `ceiling` the part's highest state.
    pub fn cap_states(&mut self, part: Part, ceiling: PolarisGpuState) -> (r: Result<(), StateInvalidReason>)
        ensures
            final(self).same_ranges(old(self)),
            r is Ok <==> old(self).can_cap(part, ceiling),
            old(self).spec_states(part).len() == 0 ==> r == Err::<(), StateInvalidReason>(
                StateInvalidReason::InvalidIndex),
            r is Ok ==> final(self).spec_states(part) == performance_states(old(self).spec_states(part), ceiling),
            forall|p: Part| p != part ==> final(self).spec_states(p) == old(self).spec_states(p),
    {
        let n = self.states(part).len();
        if n == 0 {
            return Err(StateInvalidReason::InvalidIndex);
        }
        let ghost before = self.spec_states(part);
        let mut i: usize = 0;
        while i < n
            invariant
                i <= n,
                n == before.len(),
                before == old(self).spec_states(part),
                self.same_ranges(old(self)),
                self.spec_states(part).len() == n,
                forall|j: int| 0 <= j < i ==> self.spec_states(part)[j] == capped(before[j], ceiling),
                forall|j: int| i <= j < n ==> self.spec_states(part)[j] == before[j],
                forall|j: int| 0 <= j < i ==> state_check(self.spec_voltage_range(), self.spec_clock_range(part), #[trigger] capped(before[j], ceiling)) is Ok,
                forall|p: Part| p != part ==> self.spec_states(p) == old(self).spec_states(p),
            decreases n - i,
        {
            let current = self.states(part)[i];
            let voltage = if current.voltage > ceiling.voltage {
                ceiling.voltage
            } else {
                current.voltage
            };
            let next = PolarisGpuState { clock: current.clock, voltage };
            match self.set_state(part, i, next) {
                Ok(_) => {},
                Err(reason) => {
                    proof {
                        assert(next == capped(before[i as int], ceiling));
                        assert(state_check(old(self).spec_voltage_range(), old(self).spec_clock_range(part), capped(before[i as int], ceiling)) is Err);
                    }
                    return Err(reason);
                },
            }
            i = i + 1;
        }
        match self.set_state(part, n - 1, ceiling) {
            Ok(_) => {
                proof {
                    assert(self.spec_states(part) =~= performance_states(before, ceiling));
                }
                Ok(())
            },
            Err(reason) => Err(reason),
        }
    }

    /// Reads `b[s..e]` as a number followed by the text of `unit`.
    fn parse_unit(b: &[u8], s: usize, e: usize, unit: Unit) -> (r: Option<u32>)
        requires
            s <= e <= b@.len(),
        ensures
            r == spec_parse_value(b@, s as int, e as int, unit),
    {
        let (k, found) = match unit {
            Unit::MegaHertz => {
                let w: [u8; 3] = ['M' as u8, 'H' as u8, 'z' as u8];
                proof {
                    assert(w@ =~= unit_text(unit));
                }
                (3, e - s >= 3 && matches_at(b, e - 3, e, w.as_slice()))
            },
            Unit::MilliVolt => {
                let w: [u8; 2] = ['m' as u8, 'V' as u8];
                proof {
                    assert(w@ =~= unit_text(unit));
                }
                (2, e - s >= 2 && matches_at(b, e - 2, e, w.as_slice()))
            },
        };
        if found {
            parse_u32_at(b, s, e - k)
        } else {
            None
        }
    }

    /// Whether the three ranges of the two tables are pairwise equal.
    pub open spec fn same_ranges(&self, other: &PolarisGpuTable) -> bool {
        &&& self.spec_voltage_range() == other.spec_voltage_range()
        &&& self.spec_clock_range(Part::Core) == other.spec_clock_range(Part::Core)
        &&& self.spec_clock_range(Part::Memory) == other.spec_clock_range(Part::Memory)
    }

    pub fn voltage_range(&self) -> (r: std::ops::RangeInclusive<u32>)
        ensures
            r@.start == self.spec_voltage_range().min,
            r@.end == self.spec_voltage_range().max,
            !r@.exhausted,
    {
        std::ops::RangeInclusive::new(self.voltage_range.min, self.voltage_range.max)
    }

    pub fn clock_range(&self, part: Part) -> (r: std::ops::RangeInclusive<u32>)
        ensures
            r@.start == self.spec_clock_range(part).min,
            r@.end == self.spec_clock_range(part).max,
            !r@.exhausted,
    {
        let range = self.part_clock_range(part);
        std::ops::RangeInclusive::new(range.min, range.max)
    }

    /// The clock range of a part, as a value of this library.
    pub fn part_clock_range(&self, part: Part) -> (r: ValueRange)
        ensures
            r == self.spec_clock_range(part),
    {
        match part {
            Part::Core => self.sclk_range,
            Part::Memory => self.mclk_range,
        }
    }

    /// The voltage range, as a value of this library.
    pub fn shared_voltage_range(&self) -> (r: ValueRange)
        ensures
            r == self.spec_voltage_range(),
    {
        self.voltage_range
    }

    pub fn states(&self, part: Part) -> (r: &Vec<PolarisGpuState>)
        ensures
            r@ == self.spec_states(part),
    {
        match part {
            Part::Core => &self.core_states,
            Part::Memory => &self.memory_states,
        }
    }

    pub fn get_state(&self, part: Part, index: usize) -> (r: Option<PolarisGpuState>)
        ensures
            index < self.spec_states(part).len() ==> r == Some(self.spec_states(part)[index as int]),
            index >= self.spec_states(part).len() ==> r.is_none(),
    {
        let states = self.states(part);
        if index < states.len() {
            Some(states[index])
        } else {
            None
        }
    }

    /// Checks `state` against the voltage range and the part's clock range.
    pub fn validate_state(&self, part: Part, state: PolarisGpuState) -> (r: Result<(), StateInvalidReason>)
        ensures
            r == state_check(self.spec_voltage_range(), self.spec_clock_range(part), state),
    {
        let clock_range = self.part_clock_range(part);
        if !self.voltage_range.contains(state.voltage) {
            Err(StateInvalidReason::VoltageNotInRange)
        } else if !clock_range.contains(state.clock) {
            Err(StateInvalidReason::ClockNotInRange)
        } else {
            Ok(())
        }
    }

    /// Replaces the state at `index` of `part`. A state outside the ranges is
    /// refused first, then an index past the end; on refusal nothing changes.
    pub fn set_state(&mut self, part: Part, index: usize, state: PolarisGpuState) -> (r: Result<
        (),
        StateInvalidReason,
    >)
        ensures
            final(self).same_ranges(old(self)),
            state_check(old(self).spec_voltage_range(), old(self).spec_clock_range(part), state) is Err
                ==> r == state_check(old(self).spec_voltage_range(), old(self).spec_clock_range(part), state),
            state_check(old(self).spec_voltage_range(), old(self).spec_clock_range(part), state) is Ok
                && index >= old(self).spec_states(part).len() ==> r == Err::<(), StateInvalidReason>(
                StateInvalidReason::InvalidIndex),
            r is Ok <==> (state_check(old(self).spec_voltage_range(), old(self).spec_clock_range(part), state) is Ok
                && index < old(self).spec_states(part).len()),
            r is Ok ==> final(self).spec_states(part) == old(self).spec_states(part).update(index as int, state),
            r is Err ==> final(self).spec_states(part) == old(self).spec_states(part),
            forall|p: Part| p != part ==> final(self).spec_states(p) == old(self).spec_states(p),
    {
        match self.validate_state(part, state) {
            Ok(_) => {
                match part {
                    Part::Core => {
                        if index < self.core_states.len() {
                            self.core_states.set(index, state);
                            Ok(())
                        } else {
                            Err(StateInvalidReason::InvalidIndex)
                        }
                    },
                    Part::Memory => {
                        if index < self.memory_states.len() {
                            self.memory_states.set(index, state);
                            Ok(())
                        } else {
                            Err(StateInvalidReason::InvalidIndex)
                        }
                    },
                }
            },
            Err(reason) => Err(reason),
        }
    }
}

pub const NEWLINE: u8 = 10;

pub const COLON: u8 = 58;

fn copy_states(v: &Vec<PolarisGpuState>) -> (r: Vec<PolarisGpuState>)
    ensures
        r@ == v@,
{
    let mut r: Vec<PolarisGpuState> = Vec::new();
    let mut i: usize = 0;
    while i < v.len()
        invariant
            i <= v@.len(),
            r@ == v@.take(i as int),
        decreases v@.len() - i,
    {
        r.push(v[i]);
        proof {
            assert(v@.take(i + 1) =~= v@.take(i as int).push(v@[i as int]));
        }
        i = i + 1;
    }
    proof {
        assert(v@.take(v@.len() as int) =~= v@);
    }
    r
}

/// `s` with its voltage lowered to the ceiling's where it is higher.
pub open spec fn capped(s: PolarisGpuState, ceiling: PolarisGpuState) -> PolarisGpuState {
    PolarisGpuState {
        clock: s.clock,
        voltage: if s.voltage > ceiling.voltage {
            ceiling.voltage
        } else {
            s.voltage
        },
    }
}

/// The states of a part of a performance table: each capped at the ceiling's
/// voltage, and the ceiling itself as the highest.
pub open spec fn performance_states(s: Seq<PolarisGpuState>, ceiling: PolarisGpuState) -> Seq<PolarisGpuState> {
    Seq::new(
        s.len(),
        |i: int|
            if i == s.len() - 1 {
                ceiling
            } else {
                capped(s[i], ceiling)
            },
    )
}

/// Every state of `s` replaced by its lowest one.
pub open spec fn idle_states(s: Seq<PolarisGpuState>) -> Seq<PolarisGpuState> {
    Seq::new(s.len(), |i: int| s[0])
}

/// Why the idle table of `t` cannot be built, if it cannot: a part without
/// states, or a lowest state outside the ranges; the core part is looked at first.
pub open spec fn idle_check(t: &PolarisGpuTable) -> Result<(), StateInvalidReason> {
    let core = t.spec_states(Part::Core);
    let memory = t.spec_states(Part::Memory);
    if core.len() == 0 {
        Err(StateInvalidReason::InvalidIndex)
    } else if state_check(t.spec_voltage_range(), t.spec_clock_range(Part::Core), core[0]) is Err {
        state_check(t.spec_voltage_range(), t.spec_clock_range(Part::Core), core[0])
    } else if memory.len() == 0 {
        Err(StateInvalidReason::InvalidIndex)
    } else {
        state_check(t.spec_voltage_range(), t.spec_clock_range(Part::Memory), memory[0])
    }
}

/// The idle table of `table`: every state of each part set to the part's lowest.
pub fn create_idle_table(table: &PolarisGpuTable) -> (r: Result<PolarisGpuTable, StateInvalidReason>)
    ensures
        r is Ok <==> idle_check(table) is Ok,
        r matches Err(e) ==> Err::<(), StateInvalidReason>(e) == idle_check(table),
        r matches Ok(t) ==> t.same_ranges(table) && t.spec_states(Part::Core) == idle_states(
            table.spec_states(Part::Core),
        ) && t.spec_states(Part::Memory) == idle_states(table.spec_states(Part::Memory)),
{
    let mut idle = table.duplicate();
    let lowest_core = match table.get_state(Part::Core, 0) {
        Some(state) => state,
        None => {
            return Err(StateInvalidReason::InvalidIndex);
        },
    };
    match idle.set_all_states(Part::Core, lowest_core) {
        Ok(_) => {},
        Err(reason) => {
            return Err(reason);
        },
    }
    let lowest_memory = match table.get_state(Part::Memory, 0) {
        Some(state) => state,
        None => {
            return Err(StateInvalidReason::InvalidIndex);
        },
    };
    match idle.set_all_states(Part::Memory, lowest_memory) {
        Ok(_) => {},
        Err(reason) => {
            return Err(reason);
        },
    }
    proof {
        assert(idle.spec_states(Part::Core) =~= idle_states(table.spec_states(Part::Core)));
        assert(idle.spec_states(Part::Memory) =~= idle_states(table.spec_states(Part::Memory)));
    }
    Ok(idle)
}

/// Whether the performance table of `table` can be built with these ceilings.
pub open spec fn performance_ok(
    table: &PolarisGpuTable,
    highest_core: PolarisGpuState,
    highest_memory: PolarisGpuState,
    fixed_memory: bool,
) -> bool {
    &&& table.can_cap(Part::Core, highest_core)
    &&& if fixed_memory {
        state_check(table.spec_voltage_range(), table.spec_clock_range(Part::Memory), highest_memory) is Ok
    } else {
        table.can_cap(Part::Memory, highest_memory)
    }
}

/// The performance table of `table`: the core part (and the memory part too,
/// unless `fixed_memory`) capped at its ceiling's voltage with the ceiling as
/// its highest state; with `fixed_memory` every memory state is the memory ceiling.
pub fn create_performance_table(
    table: &PolarisGpuTable,
    highest_core_state: &PolarisGpuState,
    highest_memory_state: &PolarisGpuState,
    fixed_memory: bool,
) -> (r: Result<PolarisGpuTable, StateInvalidReason>)
    ensures
        r is Ok <==> performance_ok(table, *highest_core_state, *highest_memory_state, fixed_memory),
        r matches Ok(t) ==> t.same_ranges(table) && t.spec_states(Part::Core) == performance_states(
            table.spec_states(Part::Core),
            *highest_core_state,
        ) && t.spec_states(Part::Memory) == if fixed_memory {
            Seq::new(table.spec_states(Part::Memory).len(), |i: int| *highest_memory_state)
        } else {
            performance_states(table.spec_states(Part::Memory), *highest_memory_state)
        },
{
    let mut perf = table.duplicate();
    match perf.cap_states(Part::Core, *highest_core_state) {
        Ok(_) => {},
        Err(reason) => {
            return Err(reason);
        },
    }
    let memory = if fixed_memory {
        perf.set_all_states(Part::Memory, *highest_memory_state)
    } else {
        perf.cap_states(Part::Memory, *highest_memory_state)
    };
    match memory {
        Ok(_) => Ok(perf),
        Err(reason) => Err(reason),
    }
}

/// The section of the table text that the lines being read belong to.
#[derive(Debug, Clone, Copy, PartialEq, Eq, Structural)]
pub enum Section {
    Initial,
    Core,
    Memory,
    Ranges,
}

/// What has been read of a table's text so far.
pub struct ParseProgress {
    pub section: Section,
    pub core: Seq<PolarisGpuState>,
    pub memory: Seq<PolarisGpuState>,
    pub sclk: Option<ValueRange>,
    pub mclk: Option<ValueRange>,
    pub voltage: Option<ValueRange>,
}

/// The unit that follows a number in the table's text.
#[derive(Debug, Clone, Copy, PartialEq, Eq, Structural)]
pub enum Unit {
    MegaHertz,
    MilliVolt,
}

pub open spec fn unit_text(u: Unit) -> Seq<u8> {
    match u {
        Unit::MegaHertz => seq!['M' as u8, 'H' as u8, 'z' as u8],
        Unit::MilliVolt => seq!['m' as u8, 'V' as u8],
    }
}

pub open spec fn od_sclk_text() -> Seq<u8> {
    seq!['O' as u8, 'D' as u8, '_' as u8, 'S' as u8, 'C' as u8, 'L' as u8, 'K' as u8]
}

pub open spec fn od_mclk_text() -> Seq<u8> {
    seq!['O' as u8, 'D' as u8, '_' as u8, 'M' as u8, 'C' as u8, 'L' as u8, 'K' as u8]
}

pub open spec fn od_range_text() -> Seq<u8> {
    seq!['O' as u8, 'D' as u8, '_' as u8, 'R' as u8, 'A' as u8, 'N' as u8, 'G' as u8, 'E' as u8]
}

pub open spec fn sclk_text() -> Seq<u8> {
    seq!['S' as u8, 'C' as u8, 'L' as u8, 'K' as u8]
}

pub open spec fn mclk_text() -> Seq<u8> {
    seq!['M' as u8, 'C' as u8, 'L' as u8, 'K' as u8]
}

pub open spec fn vddc_text() -> Seq<u8> {
    seq!['V' as u8, 'D' as u8, 'D' as u8, 'C' as u8]
}

/// The number `b[s..e]` when it is followed there by the text of `unit`.
pub open spec fn spec_parse_value(b: Seq<u8>, s: int, e: int, unit: Unit) -> Option<u32> {
    let k = unit_text(unit).len() as int;
    if e - s >= k && b.subrange(e - k, e) == unit_text(unit) {
        spec_parse_u32(b, s, e - k)
    } else {
        None
    }
}

/// Nothing read yet.
pub open spec fn initial_progress() -> ParseProgress {
    ParseProgress {
        section: Section::Initial,
        core: Seq::empty(),
        memory: Seq::empty(),
        sclk: None,
        mclk: None,
        voltage: None,
    }
}

/// A line without data: a section header, or nothing at all. `b[s..e]` is
/// the text before the colon, without surrounding spaces.
pub open spec fn parse_header(b: Seq<u8>, s: int, e: int, p: ParseProgress) -> Option<ParseProgress> {
    let name = b.subrange(s, e);
    if name == od_sclk_text() {
        Some(ParseProgress { section: Section::Core, ..p })
    } else if name == od_mclk_text() {
        Some(ParseProgress { section: Section::Memory, ..p })
    } else if name == od_range_text() {
        Some(ParseProgress { section: Section::Ranges, ..p })
    } else if s == e {
        Some(p)
    } else {
        None
    }
}

/// A line with data `b[ds..de]` after the name `b[ns..ne]`: a state of the
/// current part, or a range. The first two words of the data are read.
pub open spec fn parse_entry(
    b: Seq<u8>,
    ns: int,
    ne: int,
    ds: int,
    de: int,
    p: ParseProgress,
) -> Option<ParseProgress> {
    let first_end = skip_token(b, ds, de);
    let second = skip_spaces(b, first_end, de);
    let second_end = skip_token(b, second, de);
    let name = b.subrange(ns, ne);
    if second >= de {
        None
    } else {
        match p.section {
            Section::Initial => None,
            Section::Core | Section::Memory => {
                match (
                    spec_parse_value(b, ds, first_end, Unit::MegaHertz),
                    spec_parse_value(b, second, second_end, Unit::MilliVolt),
                ) {
                    (Some(clock), Some(voltage)) => {
                        let state = PolarisGpuState { clock, voltage };
                        if p.section == Section::Core {
                            Some(ParseProgress { core: p.core.push(state), ..p })
                        } else {
                            Some(ParseProgress { memory: p.memory.push(state), ..p })
                        }
                    },
                    _ => None,
                }
            },
            Section::Ranges => {
                let unit = if name == vddc_text() {
                    Unit::MilliVolt
                } else {
                    Unit::MegaHertz
                };
                match (
                    spec_parse_value(b, ds, first_end, unit),
                    spec_parse_value(b, second, second_end, unit),
                ) {
                    (Some(min), Some(max)) => {
                        let range = ValueRange { min, max };
                        if name == sclk_text() {
                            Some(ParseProgress { sclk: Some(range), ..p })
                        } else if name == mclk_text() {
                            Some(ParseProgress { mclk: Some(range), ..p })
                        } else if name == vddc_text() {
                            Some(ParseProgress { voltage: Some(range), ..p })
                        } else {
                            None
                        }
                    },
                    _ => None,
                }
            },
        }
    }
}

/// The reading of the line `b[ls..le]` on top of `p`, or `None` when the line
/// is malformed. Surrounding spaces are dropped; the name is what stands
/// before the first colon, the data what stands between it and the next one.
pub open spec fn parse_line(b: Seq<u8>, ls: int, le: int, p: ParseProgress) -> Option<ParseProgress> {
    let ts = skip_spaces(b, ls, le);
    let te = trim_end(b, ts, le);
    let colon = find_byte(b, ts, te, COLON);
    let data_end = if colon < te {
        find_byte(b, colon + 1, te, COLON)
    } else {
        te
    };
    let ds = if colon < te {
        skip_spaces(b, colon + 1, data_end)
    } else {
        te
    };
    let de = if colon < te {
        trim_end(b, ds, data_end)
    } else {
        te
    };
    if ds < de {
        parse_entry(b, ts, colon, ds, de, p)
    } else {
        parse_header(b, ts, trim_end(b, ts, colon), p)
    }
}

/// The reading of the lines from `start` on, on top of `p`.
pub open spec fn parse_lines(b: Seq<u8>, start: int, p: ParseProgress) -> Option<ParseProgress>
    decreases b.len() - start,
    when 0 <= start <= b.len()
{
    let le = find_byte(b, start, b.len() as int, NEWLINE);
    match parse_line(b, start, le, p) {
        None => None,
        Some(q) => {
            if le < b.len() {
                proof {
                    lemma_find_byte_bounds(b, start, b.len() as int, NEWLINE);
                }
                parse_lines(b, le + 1, q)
            } else {
                Some(q)
            }
        },
    }
}

/// The table that the text `b` describes: every line reads, and both parts
/// have at least one state and all three ranges are given.
pub open spec fn spec_parse_table(b: Seq<u8>) -> Option<ParseProgress> {
    match parse_lines(b, 0, initial_progress()) {
        Some(p) => {
            if p.sclk is Some && p.mclk is Some && p.voltage is Some && p.core.len() > 0
                && p.memory.len() > 0 {
                Some(p)
            } else {
                None
            }
        },
        None => None,
    }
}

/// The state of a parse under way.
struct TableParser {
    section: Section,
    core: Vec<PolarisGpuState>,
    memory: Vec<PolarisGpuState>,
    sclk: Option<ValueRange>,
    mclk: Option<ValueRange>,
    voltage: Option<ValueRange>,
}

impl TableParser {
    spec fn view(&self) -> ParseProgress {
        ParseProgress {
            section: self.section,
            core: self.core@,
            memory: self.memory@,
            sclk: self.sclk,
            mclk: self.mclk,
            voltage: self.voltage,
        }
    }

    fn parse_header(&mut self, b: &[u8], s: usize, e: usize) -> (r: bool)
        requires
            s <= e <= b@.len(),
        ensures
            r == parse_header(b@, s as int, e as int, old(self)@) is Some,
            r ==> final(self)@ == parse_header(b@, s as int, e as int, old(self)@).unwrap(),
    {
        let od_sclk: [u8; 7] = ['O' as u8, 'D' as u8, '_' as u8, 'S' as u8, 'C' as u8, 'L' as u8, 'K' as u8];
        let od_mclk: [u8; 7] = ['O' as u8, 'D' as u8, '_' as u8, 'M' as u8, 'C' as u8, 'L' as u8, 'K' as u8];
        let od_range: [u8; 8] = [
            'O' as u8,
            'D' as u8,
            '_' as u8,
            'R' as u8,
            'A' as u8,
            'N' as u8,
            'G' as u8,
            'E' as u8,
        ];
        proof {
            assert(od_sclk@ =~= od_sclk_text());
            assert(od_mclk@ =~= od_mclk_text());
            assert(od_range@ =~= od_range_text());
        }
        if matches_at(b, s, e, od_sclk.as_slice()) {
            self.section = Section::Core;
            true
        } else if matches_at(b, s, e, od_mclk.as_slice()) {
            self.section = Section::Memory;
            true
        } else if matches_at(b, s, e, od_range.as_slice()) {
            self.section = Section::Ranges;
            true
        } else {
            s == e
        }
    }

    fn parse_entry(&mut self, b: &[u8], ns: usize, ne: usize, ds: usize, de: usize) -> (r: bool)
        requires
            ns <= ne <= b@.len(),
            ds <= de <= b@.len(),
        ensures
            r == parse_entry(b@, ns as int, ne as int, ds as int, de as int, old(self)@) is Some,
            r ==> final(self)@ == parse_entry(b@, ns as int, ne as int, ds as int, de as int, old(self)@).unwrap(),
    {
        let first_end = skip_token_at(b, ds, de);
        let second = skip_spaces_at(b, first_end, de);
        let second_end = skip_token_at(b, second, de);
        if second >= de {
            return false;
        }
        match self.section {
            Section::Initial => false,
            Section::Core | Section::Memory => {
                let clock = PolarisGpuTable::parse_unit(b, ds, first_end, Unit::MegaHertz);
                let voltage = PolarisGpuTable::parse_unit(b, second, second_end, Unit::MilliVolt);
                match (clock, voltage) {
                    (Some(clock), Some(voltage)) => {
                        let state = PolarisGpuState { clock, voltage };
                        if self.section == Section::Core {
                            self.core.push(state);
                        } else {
                            self.memory.push(state);
                        }
                        true
                    },
                    _ => false,
                }
            },
            Section::Ranges => {
                let sclk: [u8; 4] = ['S' as u8, 'C' as u8, 'L' as u8, 'K' as u8];
                let mclk: [u8; 4] = ['M' as u8, 'C' as u8, 'L' as u8, 'K' as u8];
                let vddc: [u8; 4] = ['V' as u8, 'D' as u8, 'D' as u8, 'C' as u8];
                proof {
                    assert(sclk@ =~= sclk_text());
                    assert(mclk@ =~= mclk_text());
                    assert(vddc@ =~= vddc_text());
                }
                let is_sclk = matches_at(b, ns, ne, sclk.as_slice());
                let is_mclk = matches_at(b, ns, ne, mclk.as_slice());
                let is_vddc = matches_at(b, ns, ne, vddc.as_slice());
                let unit = if is_vddc {
                    Unit::MilliVolt
                } else {
                    Unit::MegaHertz
                };
                let min = PolarisGpuTable::parse_unit(b, ds, first_end, unit);
                let max = PolarisGpuTable::parse_unit(b, second, second_end, unit);
                match (min, max) {
                    (Some(min), Some(max)) => {
                        let range = ValueRange { min, max };
                        if is_sclk {
                            self.sclk = Some(range);
                            true
                        } else if is_mclk {
                            self.mclk = Some(range);
                            true
                        } else if is_vddc {
                            self.voltage = Some(range);
                            true
                        } else {
                            false
                        }
                    },
                    _ => false,
                }
            },
        }
    }

    fn parse_line(&mut self, b: &[u8], ls: usize, le: usize) -> (r: bool)
        requires
            ls <= le <= b@.len(),
        ensures
            r == parse_line(b@, ls as int, le as int, old(self)@) is Some,
            r ==> final(self)@ == parse_line(b@, ls as int, le as int, old(self)@).unwrap(),
    {
        let ts = skip_spaces_at(b, ls, le);
        let te = trim_end_at(b, ts, le);
        let colon = find_byte_at(b, ts, te, COLON);
        let (ds, de) = if colon < te {
            let data_end = find_byte_at(b, colon + 1, te, COLON);
            let ds = skip_spaces_at(b, colon + 1, data_end);
            (ds, trim_end_at(b, ds, data_end))
        } else {
            (te, te)
        };
        if ds < de {
            self.parse_entry(b, ts, colon, ds, de)
        } else {
            let ne = trim_end_at(b, ts, colon);
            self.parse_header(b, ts, ne)
        }
    }
}

} // verus!
