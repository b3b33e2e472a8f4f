//! ALU flags and the per-instruction predicates that read them.

use vstd::prelude::*;

verus! {

/// Three-bit ALU flag state: less-than/overflow, equal, greater-than.
///
/// Set by arithmetic and comparison instructions; read by predicates.
/// Reset to all-false on frame entry and normal return; a revert or panic
/// leaves `(true, false, false)`.
#[derive(Clone, Copy, Debug, PartialEq, Eq, Structural)]
pub struct Flags {
    pub lt_of: bool,
    pub eq: bool,
    pub gt: bool,
}

impl Flags {
    pub fn new(lt_of: bool, eq: bool, gt: bool) -> (r: Flags)
        ensures
            r == (Flags { lt_of, eq, gt }),
    {
        Flags { lt_of, eq, gt }
    }
}

/// A flag-based guard attached to each instruction, selecting whether it
/// executes.
#[derive(Clone, Copy, Debug, PartialEq, Eq, Structural)]
pub enum Predicate {
    Always,
    IfGT,
    IfLT,
    IfEQ,
    IfGE,
    IfLE,
    IfNotEQ,
    IfGTOrLT,
}

/// What it means for a predicate to be satisfied by a flag state.
///
/// This is a total function of its two arguments: every predicate has
/// exactly one meaning for every flag state.
pub open spec fn spec_satisfied(p: Predicate, f: Flags) -> bool {
    match p {
        Predicate::Always => true,
        Predicate::IfGT => f.gt,
        Predicate::IfLT => f.lt_of,
        Predicate::IfEQ => f.eq,
        Predicate::IfGE => f.gt || f.eq,
        Predicate::IfLE => f.lt_of || f.eq,
        Predicate::IfNotEQ => !f.eq,
        Predicate::IfGTOrLT => f.gt || f.lt_of,
    }
}

impl Predicate {
    /// Decides whether an instruction guarded by `self` executes under
    /// `flags`. Total over all inputs and deterministic: the result is
    /// pinned to `spec_satisfied`, a function of the arguments alone.
    pub fn satisfied(self, flags: &Flags) -> (r: bool)
        ensures
            r == spec_satisfied(self, *flags),
    {
        match self {
            Predicate::Always => true,
            Predicate::IfGT => flags.gt,
            Predicate::IfLT => flags.lt_of,
            Predicate::IfEQ => flags.eq,
            Predicate::IfGE => flags.gt || flags.eq,
            Predicate::IfLE => flags.lt_of || flags.eq,
            Predicate::IfNotEQ => !flags.eq,
            Predicate::IfGTOrLT => flags.gt || flags.lt_of,
        }
    }
}

} // verus!
