use vstd::prelude::*;

verus! {

/// Why a run of instrumented code stopped, with its stable integer encoding.
#[derive(Debug, Clone, Copy, PartialEq, Eq, Structural)]
pub enum BreakpointValue {
    /// Lack of a breakpoint.
    NoBreakpoint,
    /// Failure indicated by the high-level VM (in the VM hooks).
    ExecutionFailed,
    /// Stopping due to an error signalled by the contract.
    SignalError,
    /// Stopping due to gas being exhausted.
    OutOfGas,
    /// Stopping due to over-allocation of WASM memory.
    MemoryLimit,
}

impl BreakpointValue {
    /// The canonical encoding of a cause.
    pub open spec fn encoding(self) -> u64 {
        match self {
            BreakpointValue::NoBreakpoint => 0,
            BreakpointValue::ExecutionFailed => 1,
            BreakpointValue::SignalError => 2,
            BreakpointValue::OutOfGas => 3,
            BreakpointValue::MemoryLimit => 4,
        }
    }

    /// The cause that a raw value encodes, if any.
    pub open spec fn decoding(value: u64) -> Option<BreakpointValue> {
        if value == 0 {
            Some(BreakpointValue::NoBreakpoint)
        } else if value == 1 {
            Some(BreakpointValue::ExecutionFailed)
        } else if value == 2 {
            Some(BreakpointValue::SignalError)
        } else if value == 3 {
            Some(BreakpointValue::OutOfGas)
        } else if value == 4 {
            Some(BreakpointValue::MemoryLimit)
        } else {
            Option::None
        }
    }

    pub fn as_u64(self) -> (r: u64)
        ensures
            r == self.encoding(),
    {
        match self {
            BreakpointValue::NoBreakpoint => 0,
            BreakpointValue::ExecutionFailed => 1,
            BreakpointValue::SignalError => 2,
            BreakpointValue::OutOfGas => 3,
            BreakpointValue::MemoryLimit => 4,
        }
    }

    /// Decodes a raw cell value; any value outside the five encodings is an error.
    pub fn try_from_u64(value: u64) -> (r: Result<BreakpointValue, String>)
        ensures
            r.is_ok() <==> value <= 4,
            r.is_ok() ==> Some(r.unwrap()) == Self::decoding(value),
            r.is_err() ==> r.unwrap_err()@ == "unknown breakpoint"@,
    {
        match value {
            0 => Ok(BreakpointValue::NoBreakpoint),
            1 => Ok(BreakpointValue::ExecutionFailed),
            2 => Ok(BreakpointValue::SignalError),
            3 => Ok(BreakpointValue::OutOfGas),
            4 => Ok(BreakpointValue::MemoryLimit),
            _ => Err("unknown breakpoint".to_string()),
        }
    }
}

} // verus!
