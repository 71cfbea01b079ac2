//! The writes that turn the device's operating-point table into another, and
//! their text.
use vstd::prelude::*;
use crate::polaris_gpu::Part;
use crate::polaris_gpu_table::{PolarisGpuState, PolarisGpuTable};
use crate::text::{decimal, push_decimal};

verus! {

/// One write to the device's operating-point table.
#[derive(Debug, Clone, Copy, PartialEq, Eq, Structural)]
pub enum TableCommand {
    /// Replace the state at `index` of `part`; takes effect on commit.
    SetState { part: Part, index: usize, state: PolarisGpuState },
    /// Apply the pending state changes at once.
    Commit,
    /// Restore the hardware's default table.
    Reset,
}

/// The text written to the device for a command.
pub open spec fn command_text(c: TableCommand) -> Seq<u8> {
    match c {
        TableCommand::SetState { part, index, state } => {
            let prefix = match part {
                Part::Core => 's' as u8,
                Part::Memory => 'm' as u8,
            };
            seq![prefix, ' ' as u8] + decimal(index as nat) + seq![' ' as u8] + decimal(
                state.clock as nat,
            ) + seq![' ' as u8] + decimal(state.voltage as nat)
        },
        TableCommand::Commit => seq!['c' as u8],
        TableCommand::Reset => seq!['r' as u8],
    }
}

impl TableCommand {
    /// The text of the command, as the device reads it.
    pub fn to_bytes(&self) -> (r: Vec<u8>)
        ensures
            r@ == command_text(*self),
    {
        let mut out: Vec<u8> = Vec::new();
        match *self {
            TableCommand::SetState { part, index, state } => {
                match part {
                    Part::Core => out.push('s' as u8),
                    Part::Memory => out.push('m' as u8),
                }
                out.push(' ' as u8);
                push_decimal(&mut out, index as u64);
                out.push(' ' as u8);
                push_decimal(&mut out, state.clock as u64);
                out.push(' ' as u8);
                push_decimal(&mut out, state.voltage as u64);
                proof {
                    assert(out@ =~= command_text(*self));
                }
            },
            TableCommand::Commit => {
                out.push('c' as u8);
                proof {
                    assert(out@ =~= command_text(*self));
                }
            },
            TableCommand::Reset => {
                out.push('r' as u8);
                proof {
                    assert(out@ =~= command_text(*self));
                }
            },
        }
        out
    }
}

/// One command for each of the first `n` indices of `target` whose state
/// differs from `current`'s (or that `current` lacks), in index order.
pub open spec fn part_diff(part: Part, current: Seq<PolarisGpuState>, target: Seq<PolarisGpuState>, n: int) -> Seq<
    TableCommand,
>
    decreases n,
{
    if n <= 0 {
        Seq::empty()
    } else {
        let prev = part_diff(part, current, target, n - 1);
        let i = n - 1;
        if i < current.len() && current[i] == target[i] {
            prev
        } else {
            prev.push(TableCommand::SetState { part, index: i as usize, state: target[i] })
        }
    }
}

/// The state commands that turn `current` into `target`: the core part's, then the memory part's.
pub open spec fn state_commands(current: &PolarisGpuTable, target: &PolarisGpuTable) -> Seq<TableCommand> {
    let core = target.spec_states(Part::Core);
    let memory = target.spec_states(Part::Memory);
    part_diff(Part::Core, current.spec_states(Part::Core), core, core.len() as int) + part_diff(
        Part::Memory,
        current.spec_states(Part::Memory),
        memory,
        memory.len() as int,
    )
}

/// The state commands followed by a commit when there is at least one.
pub open spec fn spec_diff(current: &PolarisGpuTable, target: &PolarisGpuTable) -> Seq<TableCommand> {
    let s = state_commands(current, target);
    if s.len() > 0 {
        s.push(TableCommand::Commit)
    } else {
        s
    }
}

fn push_part_diff(out: &mut Vec<TableCommand>, part: Part, current: &Vec<PolarisGpuState>, target: &Vec<PolarisGpuState>)
    ensures
        final(out)@ == old(out)@ + part_diff(part, current@, target@, target@.len() as int),
{
    let ghost start = out@;
    let mut i: usize = 0;
    while i < target.len()
        invariant
            i <= target@.len(),
            out@ == start + part_diff(part, current@, target@, i as int),
        decreases target@.len() - i,
    {
        if !(i < current.len() && current[i] == target[i]) {
            out.push(TableCommand::SetState { part, index: i, state: target[i] });
        }
        proof {
            assert(out@ =~= start + part_diff(part, current@, target@, i + 1));
        }
        i = i + 1;
    }
}

/// The writes that turn the table `current` into `target`: one per index
/// whose state differs, core part first, each part in index order, then a
/// commit if anything is to be written.
pub fn diff_to_commands(current: &PolarisGpuTable, target: &PolarisGpuTable) -> (r: Vec<TableCommand>)
    ensures
        r@ == spec_diff(current, target),
{
    let mut out: Vec<TableCommand> = Vec::new();
    push_part_diff(&mut out, Part::Core, current.states(Part::Core), target.states(Part::Core));
    push_part_diff(&mut out, Part::Memory, current.states(Part::Memory), target.states(Part::Memory));
    proof {
        assert(out@ =~= state_commands(current, target));
    }
    if out.len() > 0 {
        out.push(TableCommand::Commit);
    }
    out
}

proof fn lemma_part_diff_same(part: Part, s: Seq<PolarisGpuState>, n: int)
    requires
        n <= s.len(),
    ensures
        part_diff(part, s, s, n) == Seq::<TableCommand>::empty(),
    decreases n,
{
    if n > 0 {
        lemma_part_diff_same(part, s, n - 1);
    }
}

proof fn lemma_part_diff_one(part: Part, s: Seq<PolarisGpuState>, i: int, state: PolarisGpuState, n: int)
    requires
        0 <= i < s.len(),
        s[i] != state,
        n <= s.len(),
    ensures
        part_diff(part, s, s.update(i, state), n) == if n > i {
            seq![TableCommand::SetState { part, index: i as usize, state }]
        } else {
            Seq::<TableCommand>::empty()
        },
    decreases n,
{
    if n > 0 {
        lemma_part_diff_one(part, s, i, state, n - 1);
        if n - 1 == i {
            assert(Seq::<TableCommand>::empty().push(TableCommand::SetState { part, index: i as usize, state })
                =~= seq![TableCommand::SetState { part, index: i as usize, state }]);
        }
    }
}

/// Turning a table into one with the same states takes no write at all.
pub proof fn lemma_diff_same_states(current: &PolarisGpuTable, target: &PolarisGpuTable)
    requires
        target.spec_states(Part::Core) == current.spec_states(Part::Core),
        target.spec_states(Part::Memory) == current.spec_states(Part::Memory),
    ensures
        spec_diff(current, target) == Seq::<TableCommand>::empty(),
{
    lemma_part_diff_same(Part::Core, current.spec_states(Part::Core), current.spec_states(Part::Core).len() as int);
    lemma_part_diff_same(Part::Memory, current.spec_states(Part::Memory), current.spec_states(Part::Memory).len() as int);
    assert(state_commands(current, target) =~= Seq::<TableCommand>::empty());
}

/// Turning a table into one that differs from it in a single state takes
/// exactly one state write and a commit.
pub proof fn lemma_diff_one_state(
    current: &PolarisGpuTable,
    target: &PolarisGpuTable,
    part: Part,
    index: int,
    state: PolarisGpuState,
)
    requires
        0 <= index < current.spec_states(part).len(),
        current.spec_states(part)[index] != state,
        target.spec_states(part) == current.spec_states(part).update(index, state),
        forall|p: Part| p != part ==> target.spec_states(p) == current.spec_states(p),
    ensures
        spec_diff(current, target) == seq![
            TableCommand::SetState { part, index: index as usize, state },
            TableCommand::Commit,
        ],
{
    let cmd = TableCommand::SetState { part, index: index as usize, state };
    let cs = current.spec_states(part);
    lemma_part_diff_one(part, cs, index, state, cs.len() as int);
    match part {
        Part::Core => {
            let m = current.spec_states(Part::Memory);
            assert(target.spec_states(Part::Memory) == m);
            lemma_part_diff_same(Part::Memory, m, m.len() as int);
        },
        Part::Memory => {
            let c = current.spec_states(Part::Core);
            assert(target.spec_states(Part::Core) == c);
            lemma_part_diff_same(Part::Core, c, c.len() as int);
        },
    }
    assert(state_commands(current, target) =~= seq![cmd]);
    assert(spec_diff(current, target) =~= seq![cmd, TableCommand::Commit]);
}

} // verus!
