use gpu_governor::clamped_percentage::{ClampedPercentage, ClampedPercentageError};
use gpu_governor::performance_level::PerformanceLevel;

#[test]
fn level_names() {
    assert_eq!(PerformanceLevel::Auto.name(), b"auto".to_vec());
    assert_eq!(PerformanceLevel::ProfileMinMclk.name(), b"profile_min_mclk".to_vec());
    assert_eq!(PerformanceLevel::ProfileStandard.name(), b"profile_standard".to_vec());
}

#[test]
fn level_from_name_ignores_case_and_spaces() {
    assert_eq!(PerformanceLevel::from_name("auto\n"), Some(PerformanceLevel::Auto));
    assert_eq!(PerformanceLevel::from_name("  Profile_Peak "), Some(PerformanceLevel::ProfilePeak));
    assert_eq!(PerformanceLevel::from_name("MANUAL"), Some(PerformanceLevel::Manual));
    assert_eq!(PerformanceLevel::from_name("profile_min"), None);
    assert_eq!(PerformanceLevel::from_name(""), None);
}

#[test]
fn every_level_reads_back_from_its_name() {
    let levels = [
        PerformanceLevel::Auto,
        PerformanceLevel::Low,
        PerformanceLevel::High,
        PerformanceLevel::Manual,
        PerformanceLevel::ProfileStandard,
        PerformanceLevel::ProfileMinSclk,
        PerformanceLevel::ProfileMinMclk,
        PerformanceLevel::ProfilePeak,
    ];
    for level in levels.iter() {
        let name = String::from_utf8(level.name()).unwrap();
        assert_eq!(PerformanceLevel::from_name(&name), Some(*level));
    }
}

#[test]
fn clamped_percentage_bounds() {
    assert_eq!(ClampedPercentage::try_new(-1), Err(ClampedPercentageError::TooLittle));
    assert_eq!(ClampedPercentage::try_new(101), Err(ClampedPercentageError::TooBig));
    assert_eq!(ClampedPercentage::try_new(100).unwrap().value(), 100);
    assert_eq!(ClampedPercentage::new(0).value(), 0);
}
