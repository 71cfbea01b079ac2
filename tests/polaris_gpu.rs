use gpu_governor::fan::FanMode;
use gpu_governor::polaris_gpu::{PcieLevel, PolarisGpu, TemperatureSensor};
use gpu_governor::polaris_gpu_fan::{percent_of, pwm_of, GenericSysFsFan, Nct6797Fan, PolarisGpuFan};

#[test]
fn current_pstate_is_the_marked_line() {
    let listing = "0: 300Mhz \n1: 1000Mhz *\n2: 1500Mhz \n";
    assert_eq!(PolarisGpu::parse_current_pstate(listing), Some(1));
    assert_eq!(PolarisGpu::pstate_memory(listing), Some(1));
    assert_eq!(PolarisGpu::pstate_core("0: 300Mhz *\n1: 600Mhz\n"), Some(0));
}

#[test]
fn current_pstate_needs_a_marked_numbered_line() {
    assert_eq!(PolarisGpu::parse_current_pstate("0: 300Mhz\n1: 1000Mhz\n"), None);
    assert_eq!(PolarisGpu::parse_current_pstate("x: 300Mhz *\n"), None);
}

#[test]
fn values_written_to_control_points() {
    assert_eq!(PolarisGpu::set_pstate_memory(2), b"2".to_vec());
    assert_eq!(PolarisGpu::set_pstate_core(17), b"17".to_vec());
    assert_eq!(PolarisGpu::set_power_profile_mode(255), b"255".to_vec());
    assert_eq!(PolarisGpu::set_pcie_level(PcieLevel::Gen3), 1);
    assert_eq!(PolarisGpu::pcie_level(0), Some(PcieLevel::Gen1));
    assert_eq!(PolarisGpu::pcie_level(2), None);
}

#[test]
fn sensor_indices() {
    assert_eq!(PolarisGpu::get_sensor_index(TemperatureSensor::Edge), 1);
    assert_eq!(PolarisGpu::get_sensor_index(TemperatureSensor::Junction), 2);
    assert_eq!(PolarisGpu::get_sensor_index(TemperatureSensor::Memory), 3);
}

#[test]
fn power_limit_in_microwatts_within_range() {
    assert_eq!(PolarisGpu::set_power_limit(30, 0, 150_000_000), Some(30_000_000));
    assert_eq!(PolarisGpu::set_power_limit(200, 0, 150_000_000), None);
}

#[test]
fn gpu_keeps_name_and_fan() {
    let gpu = PolarisGpu::new(String::from("RX 570"), PolarisGpuFan::new(1));
    assert_eq!(gpu.name(), "RX 570");
    assert_eq!(gpu.fan().index(), 1);
}

#[test]
fn fan_mode_values() {
    assert_eq!(PolarisGpuFan::dump_mode(FanMode::Auto), 2);
    assert_eq!(PolarisGpuFan::parse_mode(1), Some(FanMode::Manual));
    assert_eq!(PolarisGpuFan::parse_mode(5), None);
    assert_eq!(Nct6797Fan::dump_mode(FanMode::Auto), 5);
    assert_eq!(Nct6797Fan::parse_mode(5), Some(FanMode::Auto));
    assert_eq!(Nct6797Fan::new(3).index(), 3);
}

#[test]
fn pwm_conversions() {
    assert_eq!(pwm_of(100), 255);
    assert_eq!(pwm_of(50), 127);
    assert_eq!(pwm_of(0), 0);
    assert_eq!(percent_of(255), 100);
    assert_eq!(percent_of(128), 50);
}
