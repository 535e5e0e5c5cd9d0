//! The rule a cellular automaton applies: a total, deterministic mapping
//! from a packed neighbor pattern to the next state of the center cell.

use vstd::prelude::*;

verus! {

/// A rule: a pure, total mapping from a packed neighbor pattern to the next
/// boolean state of the center cell. `apply` must answer exactly what
/// `spec_apply` says, so a rule is deterministic by contract and the
/// evolution it drives is reproducible.
pub trait Rule {
    /// What the rule answers for a packed neighbor pattern.
    spec fn spec_apply(&self, pattern: u8) -> bool;

    /// Apply the rule to a packed neighbor pattern.
    fn apply(&self, pattern: u8) -> (cell: bool)
        ensures
            cell == self.spec_apply(pattern),
    ;
}

/// An elementary three-neighbor rule given by its rule number: bit p of the
/// number answers the packed pattern p. Patterns of 8 and above, which no
/// three-neighbor kernel produces, answer false.
#[derive(Clone, Copy, PartialEq, Eq, Structural, Debug)]
pub struct TableRule {
    /// The rule number; bit p holds the answer for pattern p.
    pub bits: u8,
}

impl TableRule {
    /// A rule from its rule number.
    pub fn new(bits: u8) -> (rule: Self)
        ensures
            rule.bits == bits,
    {
        TableRule { bits }
    }
}

impl Rule for TableRule {
    open spec fn spec_apply(&self, pattern: u8) -> bool {
        pattern < 8 && (self.bits >> pattern) & 1 == 1
    }

    fn apply(&self, pattern: u8) -> bool {
        pattern < 8 && (self.bits >> pattern) & 1 == 1
    }
}

} // verus!
