//! Program configuration types: the unit system, and finding a configured tool.
use vstd::prelude::*;

verus! {

/// Possible unit standards for dimensional values.
#[derive(Clone, Copy, Debug, PartialEq, Eq, Structural)]
pub enum Unit {
    Metric,
    Imperial,
}

/// Index of the first configured tool with the number `tool`, if any; callers fall back to
/// the default tool when there is none.
pub fn find_tool(numbers: &[u32], tool: u32) -> (r: Option<usize>)
    ensures
        match r {
            Some(i) => i < numbers@.len() && numbers@[i as int] == tool && forall|k: int|
                0 <= k < i ==> numbers@[k] != tool,
            None => forall|k: int| 0 <= k < numbers@.len() ==> numbers@[k] != tool,
        },
{
    let mut i: usize = 0;
    while i < numbers.len()
        invariant
            i <= numbers@.len(),
            forall|k: int| 0 <= k < i ==> numbers@[k] != tool,
        decreases numbers@.len() - i,
    {
        if numbers[i] == tool {
            return Some(i);
        }
        i = i + 1;
    }
    None
}

} // verus!
