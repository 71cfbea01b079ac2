//! Decision engine of a thermal and power governor for a discrete GPU: a
//! rolling window of samples with exact averages, the clock/voltage
//! operating-point table, the fan curve and the regime controller.
pub mod circular_buffer;
pub mod stats;
pub mod text;
pub mod polaris_gpu;
pub mod polaris_gpu_fan;
pub mod polaris_gpu_table;
pub mod table_commands;
pub mod fan_curve;
pub mod fan;
pub mod clamped_percentage;
pub mod performance_level;
pub mod state_machine;
