use vm_exec_instrument::breakpoint_value::BreakpointValue;
use vm_exec_instrument::breakpoints::{Breakpoints, BREAKPOINT_VALUE};
use vm_exec_instrument::instr::Instr;
use vm_exec_instrument::module_globals::{GlobalCell, ModuleGlobals};
use vm_exec_instrument::rewrite_error::RewriteError;

fn reserved(declared: u32) -> (Breakpoints, ModuleGlobals) {
    let mut module = ModuleGlobals::new(declared);
    let mut breakpoints = Breakpoints::new();
    assert!(!breakpoints.is_ready());
    breakpoints.transform_module_info(&mut module);
    (breakpoints, module)
}

#[test]
fn reservation_appends_breakpoint_cell() {
    let (breakpoints, module) = reserved(4);
    assert!(breakpoints.is_ready());
    assert_eq!(
        breakpoints.global_index.unwrap().breakpoint_value_global_index,
        4
    );
    assert_eq!(
        module.cells,
        vec![GlobalCell { name: BREAKPOINT_VALUE, initial_value: 0 }]
    );
    assert_eq!(module.global_count(), 5);
}

#[test]
fn guarded_set_sequence() {
    let (breakpoints, _) = reserved(2);
    let mut state = vec![Instr::I64Ne];
    breakpoints.inject_breakpoint_condition(&mut state, BreakpointValue::MemoryLimit);
    assert_eq!(
        state,
        vec![
            Instr::I64Ne,
            Instr::If,
            Instr::I64Const { value: 4 },
            Instr::GlobalSet { global_index: 2 },
            Instr::End,
        ]
    );
}

#[test]
fn trap_check_sequence() {
    let (breakpoints, _) = reserved(0);
    let mut state = Vec::new();
    breakpoints.inject_breakpoint_condition_check(&mut state);
    assert_eq!(
        state,
        vec![
            Instr::GlobalGet { global_index: 0 },
            Instr::I64Const { value: 0 },
            Instr::I64Ne,
            Instr::If,
            Instr::Unreachable,
            Instr::End,
        ]
    );
}

#[test]
fn call_sites_get_a_trap_check() {
    let (breakpoints, _) = reserved(1);
    let mut fb = breakpoints.generate_function_middleware();
    let mut state = Vec::new();
    assert_eq!(fb.feed(Instr::CallIndirect, &mut state), Ok(()));
    assert_eq!(state.len(), 7);
    assert_eq!(state[0], Instr::CallIndirect);
    assert_eq!(state[1], Instr::GlobalGet { global_index: 1 });
    assert_eq!(state[5], Instr::Unreachable);
}

#[test]
fn other_instructions_pass_through() {
    let (breakpoints, _) = reserved(1);
    let mut fb = breakpoints.generate_function_middleware();
    let mut state = Vec::new();
    assert_eq!(fb.feed(Instr::Other { opcode: 7 }, &mut state), Ok(()));
    assert_eq!(fb.feed(Instr::GlobalSet { global_index: 0 }, &mut state), Ok(()));
    assert_eq!(
        state,
        vec![Instr::Other { opcode: 7 }, Instr::GlobalSet { global_index: 0 }]
    );
}

#[test]
fn guest_write_of_breakpoint_cell_is_rejected() {
    let (breakpoints, _) = reserved(1);
    let mut fb = breakpoints.generate_function_middleware();
    let mut state = Vec::new();
    let result = fb.feed(Instr::GlobalSet { global_index: 1 }, &mut state);
    assert_eq!(result, Err(RewriteError::BreakpointsInvalidGlobalSet));
    assert!(state.is_empty());
    let err = result.unwrap_err();
    assert_eq!(err.middleware(), "breakpoints_middleware");
    assert_eq!(err.message(), "invalid global set");
}
