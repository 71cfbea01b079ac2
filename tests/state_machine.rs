use gpu_governor::fan::FanMode;
use gpu_governor::fan_curve::{FanCurve, FanPoint};
use gpu_governor::performance_level::PerformanceLevel;
use gpu_governor::polaris_gpu_table::{create_idle_table, create_performance_table, PolarisGpuState, PolarisGpuTable};
use gpu_governor::state_machine::{DeviceAction, GpuCustomState, GpuStateMachine, TableChoice};

const TABLE: &str = "OD_SCLK:\n0: 300MHz 750mV\n1: 1244MHz 1150mV\nOD_MCLK:\n0: 300MHz 750mV\n1: 1500MHz 900mV\nOD_RANGE:\nSCLK: 300MHz 2000MHz\nMCLK: 300MHz 2250MHz\nVDDC: 750mV 1150mV\n";

fn machine() -> GpuStateMachine {
    let table = PolarisGpuTable::try_parse(TABLE).unwrap();
    let idle = create_idle_table(&table).unwrap();
    let perf = create_performance_table(
        &table,
        &PolarisGpuState { clock: 1274, voltage: 1000 },
        &PolarisGpuState { clock: 1850, voltage: 900 },
        true,
    )
    .unwrap();
    let curve = FanCurve::new(vec![
        FanPoint { temperature: 40_000, duty: 30 },
        FanPoint { temperature: 80_000, duty: 70 },
    ])
    .unwrap();
    GpuStateMachine::new(1, idle, perf, curve)
}

fn idle_from_cooling() -> Vec<DeviceAction> {
    vec![
        DeviceAction::SetPerformanceLevel(PerformanceLevel::ProfileMinMclk),
        DeviceAction::SetFanMode(FanMode::Manual),
        DeviceAction::SetFanSpeed(0),
        DeviceAction::SetPowerLimit(30),
    ]
}

#[test]
fn starts_idle() {
    assert_eq!(machine().state(), GpuCustomState::Idle);
}

#[test]
fn heat_cools_down_then_returns_to_idle() {
    let mut m = machine();
    m.update(0, 30_000, 5_000_000);
    assert!(m.step().is_empty());
    assert_eq!(m.state(), GpuCustomState::Idle);

    m.update(0, 60_000, 5_000_000);
    let actions = m.step();
    assert_eq!(m.state(), GpuCustomState::CoolOff);
    assert_eq!(
        actions,
        vec![DeviceAction::SetFanMode(FanMode::Manual), DeviceAction::SetFanSpeed(35)]
    );

    m.update(0, 50_000, 5_000_000);
    assert!(m.step().is_empty());
    assert_eq!(m.state(), GpuCustomState::CoolOff);

    for _ in 0..10 {
        m.update(0, 30_000, 5_000_000);
    }
    let actions = m.step();
    assert_eq!(m.state(), GpuCustomState::Idle);
    assert_eq!(actions, idle_from_cooling());
}

#[test]
fn high_usage_goes_to_performance_once() {
    let mut m = machine();
    for _ in 0..20 {
        m.update(100, 60_000, 100_000_000);
    }
    let actions = m.step();
    assert_eq!(m.state(), GpuCustomState::Performance);
    assert_eq!(
        actions,
        vec![
            DeviceAction::ApplyTable(TableChoice::Performance),
            DeviceAction::SetPerformanceLevel(PerformanceLevel::Auto),
            DeviceAction::SetFanMode(FanMode::Manual),
            DeviceAction::SetPowerLimit(135),
            DeviceAction::SetFanSpeed(50),
        ]
    );
    m.update(100, 60_000, 100_000_000);
    assert_eq!(m.step(), vec![DeviceAction::SetFanSpeed(50)]);
    assert_eq!(m.state(), GpuCustomState::Performance);
}

#[test]
fn high_usage_from_cooling_goes_to_performance() {
    let mut m = machine();
    m.update(0, 60_000, 5_000_000);
    m.step();
    assert_eq!(m.state(), GpuCustomState::CoolOff);
    for _ in 0..20 {
        m.update(100, 60_000, 5_000_000);
    }
    let actions = m.step();
    assert_eq!(m.state(), GpuCustomState::Performance);
    assert_eq!(actions[0], DeviceAction::ApplyTable(TableChoice::Performance));
}

#[test]
fn performance_falls_back_to_idle_with_table() {
    let mut m = machine();
    for _ in 0..20 {
        m.update(100, 40_000, 100_000_000);
    }
    m.step();
    assert_eq!(m.state(), GpuCustomState::Performance);
    for _ in 0..20 {
        m.update(0, 40_000, 5_000_000);
    }
    let actions = m.step();
    assert_eq!(m.state(), GpuCustomState::Idle);
    let mut expected = vec![DeviceAction::ApplyTable(TableChoice::Idle)];
    expected.extend(idle_from_cooling());
    assert_eq!(actions, expected);
}

#[test]
fn performance_is_kept_while_usage_is_moderate() {
    let mut m = machine();
    for _ in 0..20 {
        m.update(100, 40_000, 100_000_000);
    }
    m.step();
    for _ in 0..20 {
        m.update(10, 40_000, 5_000_000);
    }
    assert_eq!(m.step(), vec![DeviceAction::SetFanSpeed(30)]);
    assert_eq!(m.state(), GpuCustomState::Performance);
}

#[test]
fn active_usage_with_high_power_forces_performance() {
    let mut m = machine();
    for _ in 0..5 {
        m.update(1, 40_000, 45_000_000);
    }
    m.step();
    assert_eq!(m.state(), GpuCustomState::Performance);
}

#[test]
fn apply_from_idle_rewrites_idle_table() {
    let m = machine();
    let mut expected = vec![DeviceAction::ApplyTable(TableChoice::Idle)];
    expected.extend(idle_from_cooling());
    assert_eq!(m.apply(GpuCustomState::Idle), expected);
}
