use gpu_governor::polaris_gpu::{OverclockError, Part, PolarisGpu};
use gpu_governor::polaris_gpu_table::{PolarisGpuState, PolarisGpuTable};
use gpu_governor::table_commands::{diff_to_commands, TableCommand};

const TABLE: &str = "OD_SCLK:\n0: 300MHz 750mV\n1: 588MHz 765mV\n2: 952MHz 931mV\nOD_MCLK:\n0: 300MHz 750mV\n1: 1000MHz 800mV\nOD_RANGE:\nSCLK: 300MHz 2000MHz\nMCLK: 300MHz 2250MHz\nVDDC: 750mV 1150mV\n";

fn table() -> PolarisGpuTable {
    PolarisGpuTable::try_parse(TABLE).expect("the sample table parses")
}

fn text(c: &TableCommand) -> String {
    String::from_utf8(c.to_bytes()).expect("ascii")
}

#[test]
fn diff_of_identical_tables_is_empty() {
    let a = table();
    let b = a.duplicate();
    assert!(diff_to_commands(&a, &b).is_empty());
}

#[test]
fn diff_of_one_changed_state_is_one_write_and_commit() {
    let a = table();
    let mut b = a.duplicate();
    let s = PolarisGpuState { clock: 1000, voltage: 950 };
    b.set_state(Part::Memory, 1, s).unwrap();
    let cmds = diff_to_commands(&a, &b);
    assert_eq!(
        cmds,
        vec![TableCommand::SetState { part: Part::Memory, index: 1, state: s }, TableCommand::Commit]
    );
}

#[test]
fn diff_orders_core_before_memory_by_index() {
    let a = table();
    let mut b = a.duplicate();
    b.set_state(Part::Memory, 0, PolarisGpuState { clock: 400, voltage: 760 }).unwrap();
    b.set_state(Part::Core, 2, PolarisGpuState { clock: 900, voltage: 900 }).unwrap();
    b.set_state(Part::Core, 0, PolarisGpuState { clock: 310, voltage: 750 }).unwrap();
    let texts: Vec<String> = diff_to_commands(&a, &b).iter().map(text).collect();
    assert_eq!(texts, vec!["s 0 310 750", "s 2 900 900", "m 0 400 760", "c"]);
}

#[test]
fn command_text() {
    let c = TableCommand::SetState {
        part: Part::Core,
        index: 7,
        state: PolarisGpuState { clock: 1244, voltage: 1150 },
    };
    assert_eq!(text(&c), "s 7 1244 1150");
    assert_eq!(text(&TableCommand::Commit), "c");
    assert_eq!(text(&TableCommand::Reset), "r");
}

#[test]
fn set_pstates_needs_a_readable_table() {
    let t = table();
    assert_eq!(PolarisGpu::set_pstates(None, &t), Err(OverclockError::Disabled));
}

#[test]
fn set_pstates_refuses_other_ranges() {
    let t = table();
    let other = PolarisGpuTable::try_parse(&TABLE.replace("2250MHz", "2000MHz")).unwrap();
    assert_eq!(
        PolarisGpu::set_pstates(Some(&t), &other),
        Err(OverclockError::RangesAreImmutable)
    );
}

#[test]
fn set_pstates_writes_the_difference() {
    let current = table();
    let mut target = current.duplicate();
    target.set_state(Part::Core, 1, PolarisGpuState { clock: 600, voltage: 770 }).unwrap();
    let cmds = PolarisGpu::set_pstates(Some(&current), &target).unwrap();
    let texts: Vec<String> = cmds.iter().map(text).collect();
    assert_eq!(texts, vec!["s 1 600 770", "c"]);
    assert_eq!(PolarisGpu::reset_pstates(), TableCommand::Reset);
}
