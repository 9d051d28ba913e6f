use vm_exec_instrument::breakpoint_value::BreakpointValue;

#[test]
fn encodings_are_stable() {
    assert_eq!(BreakpointValue::NoBreakpoint.as_u64(), 0);
    assert_eq!(BreakpointValue::ExecutionFailed.as_u64(), 1);
    assert_eq!(BreakpointValue::SignalError.as_u64(), 2);
    assert_eq!(BreakpointValue::OutOfGas.as_u64(), 3);
    assert_eq!(BreakpointValue::MemoryLimit.as_u64(), 4);
}

#[test]
fn every_cause_round_trips() {
    let causes = [
        BreakpointValue::NoBreakpoint,
        BreakpointValue::ExecutionFailed,
        BreakpointValue::SignalError,
        BreakpointValue::OutOfGas,
        BreakpointValue::MemoryLimit,
    ];
    for cause in causes {
        assert_eq!(BreakpointValue::try_from_u64(cause.as_u64()), Ok(cause));
    }
}

#[test]
fn unknown_values_do_not_decode() {
    for value in [5u64, 6, 100, u64::MAX] {
        assert_eq!(
            BreakpointValue::try_from_u64(value),
            Err("unknown breakpoint".to_string())
        );
    }
}
