//! The kinds of probe, as the small integers that instrumented code sends.

use vstd::prelude::*;

verus! {

/// Line probe: tracks whether a line was executed.
pub const LINE: u8 = 0;

/// Function-entry probe: tracks calls of a function.
pub const FUNCTION_ENTRY: u8 = 1;

/// Branch-true probe: tracks the true side of a conditional.
pub const BRANCH_TRUE: u8 = 2;

/// Branch-false probe: tracks the false side of a conditional.
pub const BRANCH_FALSE: u8 = 3;

/// The four kinds of probe.
#[derive(Debug, Clone, Copy, PartialEq, Eq, Structural)]
pub enum ProbeKind {
    /// A line was executed.
    Line,
    /// A function was entered.
    FunctionEntry,
    /// The true side of a conditional was taken.
    BranchTrue,
    /// The false side of a conditional was taken.
    BranchFalse,
}

impl ProbeKind {
    /// The integer that stands for the kind.
    pub open spec fn code_of(self) -> u8 {
        match self {
            ProbeKind::Line => LINE,
            ProbeKind::FunctionEntry => FUNCTION_ENTRY,
            ProbeKind::BranchTrue => BRANCH_TRUE,
            ProbeKind::BranchFalse => BRANCH_FALSE,
        }
    }

    /// The kind that an integer stands for, if it stands for one.
    pub open spec fn of_code(code: u8) -> Option<ProbeKind> {
        if code == LINE {
            Some(ProbeKind::Line)
        } else if code == FUNCTION_ENTRY {
            Some(ProbeKind::FunctionEntry)
        } else if code == BRANCH_TRUE {
            Some(ProbeKind::BranchTrue)
        } else if code == BRANCH_FALSE {
            Some(ProbeKind::BranchFalse)
        } else {
            None
        }
    }

    /// The integer that stands for the kind: 0 to 3.
    pub fn code(self) -> (code: u8)
        ensures
            code == self.code_of(),
            code <= 3,
            ProbeKind::of_code(code) == Some(self),
    {
        match self {
            ProbeKind::Line => LINE,
            ProbeKind::FunctionEntry => FUNCTION_ENTRY,
            ProbeKind::BranchTrue => BRANCH_TRUE,
            ProbeKind::BranchFalse => BRANCH_FALSE,
        }
    }

    /// The kind that an integer stands for; `None` for an integer above 3.
    pub fn from_code(code: u8) -> (kind: Option<ProbeKind>)
        ensures
            kind == ProbeKind::of_code(code),
            kind is Some <==> code <= 3,
            kind matches Some(known) ==> known.code_of() == code,
    {
        if code == LINE {
            Some(ProbeKind::Line)
        } else if code == FUNCTION_ENTRY {
            Some(ProbeKind::FunctionEntry)
        } else if code == BRANCH_TRUE {
            Some(ProbeKind::BranchTrue)
        } else if code == BRANCH_FALSE {
            Some(ProbeKind::BranchFalse)
        } else {
            None
        }
    }
}

} // verus!
