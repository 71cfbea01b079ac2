//! The device's performance policies and their names at the control point.
use vstd::prelude::*;
use vstd::string::StringSliceAdditionalSpecFns;
use crate::text::{skip_spaces, skip_spaces_at, trim_end, trim_end_at};

verus! {

/// A performance policy of the device's power management.
#[derive(Debug, Clone, Copy, PartialEq, Eq, Hash, Structural)]
pub enum PerformanceLevel {
    Auto,
    Low,
    High,
    Manual,
    ProfileStandard,
    ProfileMinSclk,
    ProfileMinMclk,
    ProfilePeak,
}

/// The name of a policy at the control point, in lower case.
pub open spec fn level_name(level: PerformanceLevel) -> Seq<u8> {
    match level {
        PerformanceLevel::Auto => seq!['a' as u8, 'u' as u8, 't' as u8, 'o' as u8],
        PerformanceLevel::Low => seq!['l' as u8, 'o' as u8, 'w' as u8],
        PerformanceLevel::High => seq!['h' as u8, 'i' as u8, 'g' as u8, 'h' as u8],
        PerformanceLevel::Manual => seq!['m' as u8, 'a' as u8, 'n' as u8, 'u' as u8, 'a' as u8, 'l' as u8],
        PerformanceLevel::ProfileStandard => profile_prefix() + seq![
            's' as u8, 't' as u8, 'a' as u8, 'n' as u8, 'd' as u8, 'a' as u8, 'r' as u8, 'd' as u8,
        ],
        PerformanceLevel::ProfileMinSclk => profile_prefix() + seq![
            'm' as u8, 'i' as u8, 'n' as u8, '_' as u8, 's' as u8, 'c' as u8, 'l' as u8, 'k' as u8,
        ],
        PerformanceLevel::ProfileMinMclk => profile_prefix() + seq![
            'm' as u8, 'i' as u8, 'n' as u8, '_' as u8, 'm' as u8, 'c' as u8, 'l' as u8, 'k' as u8,
        ],
        PerformanceLevel::ProfilePeak => profile_prefix() + seq!['p' as u8, 'e' as u8, 'a' as u8, 'k' as u8],
    }
}

/// `profile_`
pub open spec fn profile_prefix() -> Seq<u8> {
    seq!['p' as u8, 'r' as u8, 'o' as u8, 'f' as u8, 'i' as u8, 'l' as u8, 'e' as u8, '_' as u8]
}

/// An ASCII letter in lower case; other bytes unchanged.
pub open spec fn ascii_lower(c: u8) -> u8 {
    if 65 <= c <= 90 {
        (c + 32) as u8
    } else {
        c
    }
}

/// Whether `b[s..e]` is `name` when ASCII case is ignored (`name` is in lower case).
pub open spec fn equals_ignoring_case(b: Seq<u8>, s: int, e: int, name: Seq<u8>) -> bool {
    &&& e - s == name.len()
    &&& forall|i: int| 0 <= i < name.len() ==> ascii_lower(#[trigger] b[s + i]) == name[i]
}

/// The policy whose name the text `b` holds, ignoring surrounding spaces and
/// ASCII case.
pub open spec fn level_of_name(b: Seq<u8>) -> Option<PerformanceLevel> {
    let s = skip_spaces(b, 0, b.len() as int);
    let e = trim_end(b, s, b.len() as int);
    if exists|l: PerformanceLevel| equals_ignoring_case(b, s, e, #[trigger] level_name(l)) {
        Some(choose|l: PerformanceLevel| equals_ignoring_case(b, s, e, #[trigger] level_name(l)))
    } else {
        None
    }
}

fn matches_ignoring_case(b: &[u8], s: usize, e: usize, name: &Vec<u8>) -> (r: bool)
    requires
        s <= e <= b@.len(),
    ensures
        r == equals_ignoring_case(b@, s as int, e as int, name@),
{
    if e - s != name.len() {
        return false;
    }
    let mut i: usize = 0;
    while i < name.len()
        invariant
            e - s == name@.len(),
            s <= e <= b@.len(),
            i <= name@.len(),
            forall|j: int| 0 <= j < i ==> ascii_lower(#[trigger] b@[s + j]) == name@[j],
        decreases name@.len() - i,
    {
        let c = b[s + i];
        let lower = if 65 <= c && c <= 90 {
            c + 32
        } else {
            c
        };
        if lower != name[i] {
            return false;
        }
        i = i + 1;
    }
    true
}

proof fn lemma_names_differ(a: PerformanceLevel, b: PerformanceLevel)
    requires
        a != b,
    ensures
        level_name(a) != level_name(b),
{
    let x = level_name(a);
    let y = level_name(b);
    if x.len() == y.len() && x.len() > 8 {
        assert(x[8] != y[8] || x[12] != y[12]);
    } else if x.len() == y.len() {
        assert(x[0] != y[0] || x[1] != y[1]);
    }
}

impl PerformanceLevel {
    /// The name written to the control point to select the policy.
    pub fn name(&self) -> (r: Vec<u8>)
        ensures
            r@ == level_name(*self),
    {
        let r: Vec<u8> = match *self {
            PerformanceLevel::Auto => vec!['a' as u8, 'u' as u8, 't' as u8, 'o' as u8],
            PerformanceLevel::Low => vec!['l' as u8, 'o' as u8, 'w' as u8],
            PerformanceLevel::High => vec!['h' as u8, 'i' as u8, 'g' as u8, 'h' as u8],
            PerformanceLevel::Manual => vec!['m' as u8, 'a' as u8, 'n' as u8, 'u' as u8, 'a' as u8, 'l' as u8],
            PerformanceLevel::ProfileStandard => vec![
                'p' as u8, 'r' as u8, 'o' as u8, 'f' as u8, 'i' as u8, 'l' as u8, 'e' as u8, '_' as u8,
                's' as u8, 't' as u8, 'a' as u8, 'n' as u8, 'd' as u8, 'a' as u8, 'r' as u8, 'd' as u8,
            ],
            PerformanceLevel::ProfileMinSclk => vec![
                'p' as u8, 'r' as u8, 'o' as u8, 'f' as u8, 'i' as u8, 'l' as u8, 'e' as u8, '_' as u8,
                'm' as u8, 'i' as u8, 'n' as u8, '_' as u8, 's' as u8, 'c' as u8, 'l' as u8, 'k' as u8,
            ],
            PerformanceLevel::ProfileMinMclk => vec![
                'p' as u8, 'r' as u8, 'o' as u8, 'f' as u8, 'i' as u8, 'l' as u8, 'e' as u8, '_' as u8,
                'm' as u8, 'i' as u8, 'n' as u8, '_' as u8, 'm' as u8, 'c' as u8, 'l' as u8, 'k' as u8,
            ],
            PerformanceLevel::ProfilePeak => vec![
                'p' as u8, 'r' as u8, 'o' as u8, 'f' as u8, 'i' as u8, 'l' as u8, 'e' as u8, '_' as u8,
                'p' as u8, 'e' as u8, 'a' as u8, 'k' as u8,
            ],
        };
        proof {
            assert(r@ =~= level_name(*self));
        }
        r
    }

    /// The policy that the control point's text names; `None` for an unknown name.
    pub fn from_name(data: &str) -> (r: Option<PerformanceLevel>)
        ensures
            r == level_of_name(data.spec_bytes()),
    {
        let b = data.as_bytes();
        let s = skip_spaces_at(b, 0, b.len());
        let e = trim_end_at(b, s, b.len());
        let levels: [PerformanceLevel; 8] = [
            PerformanceLevel::Auto,
            PerformanceLevel::Low,
            PerformanceLevel::High,
            PerformanceLevel::Manual,
            PerformanceLevel::ProfileMinMclk,
            PerformanceLevel::ProfileMinSclk,
            PerformanceLevel::ProfilePeak,
            PerformanceLevel::ProfileStandard,
        ];
        let mut k: usize = 0;
        while k < 8
            invariant
                k <= 8,
                b@ == data.spec_bytes(),
                s == skip_spaces(b@, 0, b@.len() as int),
                e == trim_end(b@, s as int, b@.len() as int),
                s <= e <= b@.len(),
                forall|j: int| 0 <= j < k ==> !equals_ignoring_case(b@, s as int, e as int, #[trigger] level_name(levels@[j])),
            decreases 8 - k,
        {
            let level = levels[k];
            if matches_ignoring_case(b, s, e, &level.name()) {
                proof {
                    assert forall|l: PerformanceLevel| #[trigger] equals_ignoring_case(b@, s as int, e as int, level_name(l)) implies l == level by {
                        if l != level {
                            lemma_names_differ(l, level);
                            assert(level_name(l) =~= level_name(level)) by {
                                assert forall|i: int| 0 <= i < level_name(l).len() implies level_name(l)[i] == level_name(level)[i] by {
                                    assert(ascii_lower(b@[s + i]) == level_name(l)[i]);
                                }
                            }
                        }
                    }
                }
                return Some(level);
            }
            k = k + 1;
        }
        proof {
            assert forall|l: PerformanceLevel| !equals_ignoring_case(b@, s as int, e as int, #[trigger] level_name(l)) by {
                match l {
                    PerformanceLevel::Auto => assert(levels@[0] == l),
                    PerformanceLevel::Low => assert(levels@[1] == l),
                    PerformanceLevel::High => assert(levels@[2] == l),
                    PerformanceLevel::Manual => assert(levels@[3] == l),
                    PerformanceLevel::ProfileMinMclk => assert(levels@[4] == l),
                    PerformanceLevel::ProfileMinSclk => assert(levels@[5] == l),
                    PerformanceLevel::ProfilePeak => assert(levels@[6] == l),
                    PerformanceLevel::ProfileStandard => assert(levels@[7] == l),
                }
            }
        }
        None
    }
}

} // verus!
