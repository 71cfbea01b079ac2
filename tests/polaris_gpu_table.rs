use gpu_governor::polaris_gpu::Part;
use gpu_governor::polaris_gpu_table::{
    create_idle_table, create_performance_table, PolarisGpuState, PolarisGpuTable,
    StateInvalidReason, ValueRange,
};
use std::ops::RangeInclusive;

const TABLE: &str = "\n\
        OD_SCLK:\n\
        0:        300MHz        750mV\n\
        1:        588MHz        765mV\n\
        2:        952MHz        931mV\n\
        3:       1041MHz       1006mV\n\
        4:       1106MHz       1068mV\n\
        5:       1168MHz       1131mV\n\
        6:       1209MHz       1150mV\n\
        7:       1244MHz       1150mV\n\
        OD_MCLK:\n\
        0:        300MHz        750mV\n\
        1:       1000MHz        800mV\n\
        2:       1500MHz        900mV\n\
        OD_RANGE:\n\
        SCLK:     300MHz       2000MHz\n\
        MCLK:     300MHz       2250MHz\n\
        VDDC:     750mV        1150mV\n\
        ";

#[test]
fn parses_pstate_table() {
    let data = "\n\
        OD_SCLK:\n\
        0:        300MHz        750mV\n\
        1:        588MHz        765mV\n\
        2:        952MHz        931mV\n\
        3:       1041MHz       1006mV\n\
        4:       1106MHz       1068mV\n\
        5:       1168MHz       1131mV\n\
        6:       1209MHz       1150mV\n\
        7:       1244MHz       1150mV\n\
        OD_MCLK:\n\
        0:        300MHz        750mV\n\
        1:       1000MHz        800mV\n\
        2:       1500MHz        900mV\n\
        OD_RANGE:\n\
        SCLK:     300MHz       2000MHz\n\
        MCLK:     300MHz       2250MHz\n\
        VDDC:     750mV        1150mV\n\
        ";

    let table = PolarisGpuTable::parse(&data);
    assert_eq!(table.voltage_range(), RangeInclusive::new(750, 1150));
    assert_eq!(table.clock_range(Part::Core), RangeInclusive::new(300, 2000));
    assert_eq!(table.clock_range(Part::Memory), RangeInclusive::new(300, 2250));
    let states = table.states(Part::Core);
    assert_eq!(states[0].clock, 300);
    assert_eq!(states[0].voltage, 750);
    assert_eq!(states[1].clock, 588);
    assert_eq!(states[1].voltage, 765);
    assert_eq!(states[2].clock, 952);
    assert_eq!(states[2].voltage, 931);
    assert_eq!(states[3].clock, 1041);
    assert_eq!(states[3].voltage, 1006);
    assert_eq!(states[4].clock, 1106);
    assert_eq!(states[4].voltage, 1068);
    assert_eq!(states[5].clock, 1168);
    assert_eq!(states[5].voltage, 1131);
    assert_eq!(states[6].clock, 1209);
    assert_eq!(states[6].voltage, 1150);
    assert_eq!(states[7].clock, 1244);
    assert_eq!(states[7].voltage, 1150);
    let mstates = table.states(Part::Memory);
    assert_eq!(mstates[0].clock, 300);
    assert_eq!(mstates[0].voltage, 750);
    assert_eq!(mstates[1].clock, 1000);
    assert_eq!(mstates[1].voltage, 800);
    assert_eq!(mstates[2].clock, 1500);
    assert_eq!(mstates[2].voltage, 900);
}

fn table() -> PolarisGpuTable {
    PolarisGpuTable::try_parse(TABLE).expect("the sample table parses")
}

fn state(clock: u32, voltage: u32) -> PolarisGpuState {
    PolarisGpuState { clock, voltage }
}

#[test]
fn canonical_table_states_and_ranges() {
    let t = table();
    assert_eq!(t.get_state(Part::Core, 0), Some(state(300, 750)));
    assert_eq!(t.get_state(Part::Memory, 2), Some(state(1500, 900)));
    assert_eq!(t.get_state(Part::Memory, 3), None);
    assert_eq!(t.part_clock_range(Part::Memory), ValueRange { min: 300, max: 2250 });
    assert_eq!(t.shared_voltage_range(), ValueRange { min: 750, max: 1150 });
    assert_eq!(t.states(Part::Core).len(), 8);
    assert_eq!(t.states(Part::Memory).len(), 3);
}

#[test]
fn parse_accepts_carriage_returns_and_extra_words() {
    let data = "OD_SCLK:\r\n0: 300MHz 750mV extra\r\nOD_MCLK:\r\n0: 300MHz 750mV\r\nOD_RANGE:\r\nSCLK: 300MHz 2000MHz\r\nMCLK: 300MHz 2250MHz\r\nVDDC: 750mV 1150mV";
    let t = PolarisGpuTable::try_parse(data).expect("parses");
    assert_eq!(t.get_state(Part::Core, 0), Some(state(300, 750)));
    assert_eq!(t.clock_range(Part::Core), RangeInclusive::new(300, 2000));
}

#[test]
fn parse_rejects_missing_range() {
    let data = "OD_SCLK:\n0: 300MHz 750mV\nOD_MCLK:\n0: 300MHz 750mV\nOD_RANGE:\nSCLK: 300MHz 2000MHz\nVDDC: 750mV 1150mV\n";
    assert!(PolarisGpuTable::try_parse(data).is_none());
}

#[test]
fn parse_rejects_malformed_number() {
    let data = TABLE.replace("588MHz", "58x8MHz");
    assert!(PolarisGpuTable::try_parse(&data).is_none());
}

#[test]
fn parse_rejects_wrong_unit() {
    let data = TABLE.replace("765mV", "765MHz");
    assert!(PolarisGpuTable::try_parse(&data).is_none());
}

#[test]
fn parse_rejects_data_before_any_section() {
    let data = format!("0: 300MHz 750mV\n{}", TABLE);
    assert!(PolarisGpuTable::try_parse(&data).is_none());
}

#[test]
fn parse_rejects_unknown_header() {
    let data = format!("OD_VDDC_CURVE:\n{}", TABLE);
    assert!(PolarisGpuTable::try_parse(&data).is_none());
}

#[test]
fn parse_rejects_unknown_range_name() {
    let data = TABLE.replace("VDDC:", "VDDX:");
    assert!(PolarisGpuTable::try_parse(&data).is_none());
}

#[test]
fn parse_rejects_state_line_with_one_value() {
    let data = TABLE.replace("588MHz        765mV", "588MHz");
    assert!(PolarisGpuTable::try_parse(&data).is_none());
}

#[test]
fn parse_rejects_number_above_u32() {
    let data = TABLE.replace("588MHz", "4294967296MHz");
    assert!(PolarisGpuTable::try_parse(&data).is_none());
}

#[test]
fn parse_rejects_empty_text() {
    assert!(PolarisGpuTable::try_parse("").is_none());
}

#[test]
fn set_state_rejects_voltage_out_of_range() {
    let mut t = table();
    let before = t.states(Part::Core).clone();
    assert_eq!(
        t.set_state(Part::Core, 1, state(588, 1200)),
        Err(StateInvalidReason::VoltageNotInRange)
    );
    assert_eq!(t.states(Part::Core), &before);
}

#[test]
fn set_state_rejects_clock_out_of_range() {
    let mut t = table();
    assert_eq!(
        t.set_state(Part::Memory, 0, state(2300, 800)),
        Err(StateInvalidReason::ClockNotInRange)
    );
    assert_eq!(t.get_state(Part::Memory, 0), Some(state(300, 750)));
}

#[test]
fn set_state_rejects_index_past_end() {
    let mut t = table();
    assert_eq!(
        t.set_state(Part::Memory, 3, state(1000, 800)),
        Err(StateInvalidReason::InvalidIndex)
    );
}

#[test]
fn set_state_replaces_one_state() {
    let mut t = table();
    assert_eq!(t.set_state(Part::Core, 2, state(1000, 950)), Ok(()));
    assert_eq!(t.get_state(Part::Core, 2), Some(state(1000, 950)));
    assert_eq!(t.get_state(Part::Core, 1), Some(state(588, 765)));
    assert_eq!(t.get_state(Part::Core, 3), Some(state(1041, 1006)));
    assert_eq!(t.states(Part::Memory).len(), 3);
}

#[test]
fn validate_state_checks_voltage_first() {
    let t = table();
    assert_eq!(
        t.validate_state(Part::Core, state(5000, 5000)),
        Err(StateInvalidReason::VoltageNotInRange)
    );
    assert_eq!(t.validate_state(Part::Core, state(2000, 1150)), Ok(()));
}

#[test]
fn idle_table_uses_lowest_states() {
    let t = table();
    let idle = create_idle_table(&t).expect("idle table");
    assert!(idle.states(Part::Core).iter().all(|s| *s == state(300, 750)));
    assert!(idle.states(Part::Memory).iter().all(|s| *s == state(300, 750)));
    assert_eq!(idle.states(Part::Core).len(), 8);
    assert_eq!(idle.voltage_range(), t.voltage_range());
}

#[test]
fn performance_table_caps_core_and_fixes_memory() {
    let t = table();
    let perf = create_performance_table(&t, &state(1274, 1000), &state(1850, 900), true)
        .expect("performance table");
    let core = perf.states(Part::Core);
    assert_eq!(core[0], state(300, 750));
    assert_eq!(core[3], state(1041, 1000));
    assert_eq!(core[6], state(1209, 1000));
    assert_eq!(core[7], state(1274, 1000));
    assert!(perf.states(Part::Memory).iter().all(|s| *s == state(1850, 900)));
}

#[test]
fn performance_table_caps_both_parts() {
    let t = table();
    let perf = create_performance_table(&t, &state(1274, 1000), &state(1600, 850), false)
        .expect("performance table");
    let memory = perf.states(Part::Memory);
    assert_eq!(memory[0], state(300, 750));
    assert_eq!(memory[1], state(1000, 800));
    assert_eq!(memory[2], state(1600, 850));
}

#[test]
fn performance_table_refuses_ceiling_out_of_range() {
    let t = table();
    assert_eq!(
        create_performance_table(&t, &state(2500, 1000), &state(1850, 900), true).err(),
        Some(StateInvalidReason::ClockNotInRange)
    );
    assert_eq!(
        create_performance_table(&t, &state(1274, 1000), &state(1850, 700), true).err(),
        Some(StateInvalidReason::VoltageNotInRange)
    );
}
