use vstd::prelude::*;

verus! {

/// Why a function body could not be rewritten; any of these rejects the module.
#[derive(Debug, Clone, Copy, PartialEq, Eq, Structural)]
pub enum RewriteError {
    /// A guest instruction writes the breakpoint cell.
    BreakpointsInvalidGlobalSet,
    /// A guest instruction writes the points-limit or points-used cell.
    MeteringInvalidGlobalSet,
    /// The cost table has no entry for an instruction of this kind.
    MissingOpcodeCost { kind: u64 },
    /// The cost of one straight-line segment does not fit in a 64-bit constant.
    SegmentCostOverflow,
}

impl RewriteError {
    /// The pass that rejected the body.
    pub open spec fn middleware_spec(self) -> Seq<char> {
        match self {
            RewriteError::BreakpointsInvalidGlobalSet => "breakpoints_middleware"@,
            _ => "metering_middleware"@,
        }
    }

    pub open spec fn message_spec(self) -> Seq<char> {
        match self {
            RewriteError::BreakpointsInvalidGlobalSet => "invalid global set"@,
            RewriteError::MeteringInvalidGlobalSet => "invalid global set"@,
            RewriteError::MissingOpcodeCost { .. } => "missing opcode cost"@,
            RewriteError::SegmentCostOverflow => "segment cost overflow"@,
        }
    }

    pub fn middleware(&self) -> (r: &'static str)
        ensures
            r@ == self.middleware_spec(),
    {
        match *self {
            RewriteError::BreakpointsInvalidGlobalSet => "breakpoints_middleware",
            _ => "metering_middleware",
        }
    }

    pub fn message(&self) -> (r: &'static str)
        ensures
            r@ == self.message_spec(),
    {
        match *self {
            RewriteError::BreakpointsInvalidGlobalSet => "invalid global set",
            RewriteError::MeteringInvalidGlobalSet => "invalid global set",
            RewriteError::MissingOpcodeCost { .. } => "missing opcode cost",
            RewriteError::SegmentCostOverflow => "segment cost overflow",
        }
    }
}

} // verus!
