//! Compare the solution sets that two solver configurations produce for the
//! same model/instance pair: parse each solver's textual output into a set of
//! solution blocks, diff the two sets, and classify the outcome.
use vstd::prelude::*;

pub mod classify;
pub mod generate;
pub mod hhmmss;
pub mod market_split;
pub mod numfmt;
pub mod render;
pub mod runner;
pub mod single;
pub mod solutions;
pub mod solver_spec;
pub mod text;

verus! {

/// Final classification of one comparison of two solver runs.
#[derive(Clone, Copy, Debug, PartialEq, Eq, Structural)]
pub enum CheckStatus {
    Success,
    Diff,
    CrashLeft,
    CrashRight,
    CrashBoth,
    TimeoutLeft,
    TimeoutRight,
    TimeoutBoth,
}

/// The exit code that encodes a classification: 0 for success, all bits set
/// for a difference, and otherwise a 3-bit code where bit 2 distinguishes
/// timeout from crash, bit 1 marks the right side and bit 0 the left side.
pub open spec fn exit_code_spec(status: CheckStatus) -> u8 {
    match status {
        CheckStatus::Success => 0,
        CheckStatus::Diff => 255,
        CheckStatus::CrashLeft => 1,
        CheckStatus::CrashRight => 2,
        CheckStatus::CrashBoth => 3,
        CheckStatus::TimeoutLeft => 5,
        CheckStatus::TimeoutRight => 6,
        CheckStatus::TimeoutBoth => 7,
    }
}

impl CheckStatus {
    /// The process exit code this classification maps to.
    pub fn exit_code(&self) -> (code: u8)
        ensures
            code == exit_code_spec(*self),
    {
        match self {
            CheckStatus::Success => 0,
            CheckStatus::Diff => 255,
            CheckStatus::CrashLeft => 1,
            CheckStatus::CrashRight => 2,
            CheckStatus::CrashBoth => 3,
            CheckStatus::TimeoutLeft => 5,
            CheckStatus::TimeoutRight => 6,
            CheckStatus::TimeoutBoth => 7,
        }
    }
}

} // verus!
