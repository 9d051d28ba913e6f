use vstd::prelude::*;

use crate::breakpoint_value::BreakpointValue;
use crate::instr::Instr;
use crate::module_globals::{create_global_index, GlobalCell, ModuleGlobals};
use crate::rewrite_error::RewriteError;

verus! {

/// Export name of the cell that records why execution stopped.
pub const BREAKPOINT_VALUE: &'static str = "breakpoint_value";

/// `if <condition on the stack> { breakpoint_value := cause }`.
pub open spec fn guarded_set_seq(cell: u32, cause: BreakpointValue) -> Seq<Instr> {
    seq![
        Instr::If,
        Instr::I64Const { value: cause.encoding() as i64 },
        Instr::GlobalSet { global_index: cell },
        Instr::End,
    ]
}

/// `if breakpoint_value != no-breakpoint { unreachable }`.
pub open spec fn trap_check_seq(cell: u32) -> Seq<Instr> {
    seq![
        Instr::GlobalGet { global_index: cell },
        Instr::I64Const { value: 0 },
        Instr::I64Ne,
        Instr::If,
        Instr::Unreachable,
        Instr::End,
    ]
}

/// What the breakpoint pass emits for one instruction of a body.
pub open spec fn breakpoints_feed_spec(cell: u32, op: Instr) -> Result<Seq<Instr>, RewriteError> {
    if op.writes_global(cell) {
        Err(RewriteError::BreakpointsInvalidGlobalSet)
    } else if op.is_call() {
        Ok(seq![op] + trap_check_seq(cell))
    } else {
        Ok(seq![op])
    }
}

/// The identity of the breakpoint cell in one module.
#[derive(Debug, Clone, Copy, PartialEq, Eq, Structural)]
pub struct BreakpointsGlobalIndex {
    pub breakpoint_value_global_index: u32,
}

/// The breakpoint-signal pass: owns the breakpoint cell of a module.
#[derive(Debug)]
pub struct Breakpoints {
    pub global_index: Option<BreakpointsGlobalIndex>,
}

impl Breakpoints {
    pub fn new() -> (r: Breakpoints)
        ensures
            r.global_index.is_none(),
    {
        Breakpoints { global_index: None }
    }

    /// The cell has been reserved in the module under transformation.
    pub open spec fn is_reserved(&self) -> bool {
        self.global_index.is_some()
    }

    pub open spec fn cell(&self) -> u32 {
        self.global_index.unwrap().breakpoint_value_global_index
    }

    /// The pass after reserving its cell at global index `index`.
    pub open spec fn reserved_at(self, index: int) -> Breakpoints {
        Breakpoints {
            global_index: Some(BreakpointsGlobalIndex { breakpoint_value_global_index: index as u32 }),
        }
    }

    pub fn is_ready(&self) -> (r: bool)
        ensures
            r == self.is_reserved(),
    {
        self.global_index.is_some()
    }

    /// Reserves the breakpoint cell, initialised to "no breakpoint".
    pub fn transform_module_info(&mut self, module_info: &mut ModuleGlobals)
        requires
            old(module_info).has_room(1),
        ensures
            *final(self) == old(self).reserved_at(old(module_info).next_index()),
            final(module_info).declared == old(module_info).declared,
            final(module_info).cells@ == old(module_info).cells@.push(
                GlobalCell {
                    name: BREAKPOINT_VALUE,
                    initial_value: BreakpointValue::NoBreakpoint.encoding() as i64,
                },
            ),
    {
        let no_breakpoint = BreakpointValue::NoBreakpoint.as_u64() as i64;
        let index = create_global_index(module_info, BREAKPOINT_VALUE, no_breakpoint);
        self.global_index = Some(BreakpointsGlobalIndex { breakpoint_value_global_index: index });
    }

    fn get_breakpoint_value_global_index(&self) -> (r: u32)
        requires
            self.is_reserved(),
        ensures
            r == self.cell(),
    {
        self.global_index.unwrap().breakpoint_value_global_index
    }

    /// Appends the guarded set of the breakpoint cell to `cause`; the caller
    /// has pushed the condition first.
    pub fn inject_breakpoint_condition(&self, state: &mut Vec<Instr>, cause: BreakpointValue)
        requires
            self.is_reserved(),
        ensures
            final(state)@ == old(state)@ + guarded_set_seq(self.cell(), cause),
    {
        let cell = self.get_breakpoint_value_global_index();
        push_guarded_set(state, cell, cause);
    }

    /// Appends the test that traps once any cause has been recorded.
    pub fn inject_breakpoint_condition_check(&self, state: &mut Vec<Instr>)
        requires
            self.is_reserved(),
        ensures
            final(state)@ == old(state)@ + trap_check_seq(self.cell()),
    {
        let cell = self.get_breakpoint_value_global_index();
        push_trap_check(state, cell);
    }

    /// The per-function rewriter, holding a copy of the cell's identity.
    pub fn generate_function_middleware(&self) -> (r: FunctionBreakpoints)
        requires
            self.is_reserved(),
        ensures
            r.global_index == self.global_index.unwrap(),
    {
        FunctionBreakpoints { global_index: self.global_index.unwrap() }
    }
}

pub fn push_guarded_set(state: &mut Vec<Instr>, cell: u32, cause: BreakpointValue)
    ensures
        final(state)@ == old(state)@ + guarded_set_seq(cell, cause),
{
    let encoded = cause.as_u64() as i64;
    state.push(Instr::If);
    state.push(Instr::I64Const { value: encoded });
    state.push(Instr::GlobalSet { global_index: cell });
    state.push(Instr::End);
    assert(final(state)@ =~= old(state)@ + guarded_set_seq(cell, cause));
}

pub fn push_trap_check(state: &mut Vec<Instr>, cell: u32)
    ensures
        final(state)@ == old(state)@ + trap_check_seq(cell),
{
    let no_breakpoint = BreakpointValue::NoBreakpoint.as_u64() as i64;
    state.push(Instr::GlobalGet { global_index: cell });
    state.push(Instr::I64Const { value: no_breakpoint });
    state.push(Instr::I64Ne);
    state.push(Instr::If);
    state.push(Instr::Unreachable);
    state.push(Instr::End);
    assert(final(state)@ =~= old(state)@ + trap_check_seq(cell));
}

/// Rewrites one function body for the breakpoint pass.
#[derive(Debug, Clone, Copy)]
pub struct FunctionBreakpoints {
    pub global_index: BreakpointsGlobalIndex,
}

impl FunctionBreakpoints {
    pub open spec fn cell(&self) -> u32 {
        self.global_index.breakpoint_value_global_index
    }

    /// Rejects a guest write of the breakpoint cell.
    pub fn check_invalid_global_set(&self, operator: &Instr) -> (r: Result<(), RewriteError>)
        ensures
            r.is_err() <==> operator.writes_global(self.cell()),
            r.is_err() ==> r == Err::<(), RewriteError>(RewriteError::BreakpointsInvalidGlobalSet),
    {
        if let Instr::GlobalSet { global_index } = *operator {
            if global_index == self.global_index.breakpoint_value_global_index {
                return Err(RewriteError::BreakpointsInvalidGlobalSet);
            }
        }
        Ok(())
    }

    /// Passes `operator` on, followed by a trap check after every call site.
    pub fn feed(&mut self, operator: Instr, state: &mut Vec<Instr>) -> (r: Result<(), RewriteError>)
        ensures
            *final(self) == *old(self),
            r.is_ok() == breakpoints_feed_spec(old(self).cell(), operator).is_ok(),
            r.is_ok() ==> final(state)@ == old(state)@ + breakpoints_feed_spec(
                old(self).cell(),
                operator,
            ).unwrap(),
            r.is_err() ==> final(state)@ == old(state)@ && Err::<Seq<Instr>, RewriteError>(
                r.unwrap_err(),
            ) == breakpoints_feed_spec(old(self).cell(), operator),
    {
        self.check_invalid_global_set(&operator)?;
        let must_add_breakpoint = operator.is_call_site();
        state.push(operator);
        if must_add_breakpoint {
            push_trap_check(state, self.global_index.breakpoint_value_global_index);
        }
        Ok(())
    }
}

} // verus!
