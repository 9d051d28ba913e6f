use vm_exec_instrument::breakpoints::Breakpoints;
use vm_exec_instrument::instr::{Instr, OpcodeCost, NAMED_KINDS};
use vm_exec_instrument::metering::{
    ConfigError, FunctionMetering, Metering, METERING_POINTS_LIMIT, METERING_POINTS_USED,
};
use vm_exec_instrument::module_globals::{GlobalCell, ModuleGlobals};
use vm_exec_instrument::rewrite_error::RewriteError;

fn table(cost: u32) -> OpcodeCost {
    OpcodeCost::new(vec![cost; NAMED_KINDS as usize + 16])
}

/// Breakpoint cell at 3, points limit at 4, points used at 5.
fn rewriter(costs: OpcodeCost, limit: u64) -> FunctionMetering {
    let mut module = ModuleGlobals::new(3);
    let mut breakpoints = Breakpoints::new();
    breakpoints.transform_module_info(&mut module);
    let mut metering = Metering::new(limit, costs);
    assert_eq!(metering.transform_module_info(&mut module, &breakpoints), Ok(()));
    metering.generate_function_middleware()
}

fn flush(amount: i64) -> Vec<Instr> {
    vec![
        Instr::GlobalGet { global_index: 5 },
        Instr::I64Const { value: amount },
        Instr::I64Add,
        Instr::GlobalSet { global_index: 5 },
        Instr::GlobalGet { global_index: 5 },
        Instr::GlobalGet { global_index: 4 },
        Instr::I64GeU,
        Instr::If,
        Instr::I64Const { value: 3 },
        Instr::GlobalSet { global_index: 3 },
        Instr::End,
        Instr::GlobalGet { global_index: 3 },
        Instr::I64Const { value: 0 },
        Instr::I64Ne,
        Instr::If,
        Instr::Unreachable,
        Instr::End,
    ]
}

#[test]
fn reservation_needs_breakpoint_cell_first() {
    let mut module = ModuleGlobals::new(0);
    let breakpoints = Breakpoints::new();
    let mut metering = Metering::new(10, table(1));
    assert_eq!(
        metering.transform_module_info(&mut module, &breakpoints),
        Err(ConfigError::BreakpointsNotReserved)
    );
    assert!(module.cells.is_empty());
    assert!(metering.global_indexes.is_none());
}

#[test]
fn reservation_appends_limit_and_used_cells() {
    let mut module = ModuleGlobals::new(2);
    let mut breakpoints = Breakpoints::new();
    breakpoints.transform_module_info(&mut module);
    let mut metering = Metering::new(1234, table(1));
    assert_eq!(metering.transform_module_info(&mut module, &breakpoints), Ok(()));
    assert_eq!(module.cells[1], GlobalCell { name: METERING_POINTS_LIMIT, initial_value: 1234 });
    assert_eq!(module.cells[2], GlobalCell { name: METERING_POINTS_USED, initial_value: 0 });
    let indexes = metering.global_indexes.unwrap();
    assert_eq!(indexes.points_limit_global_index, 3);
    assert_eq!(indexes.points_used_global_index, 4);
}

#[test]
fn straight_line_costs_accumulate_without_output() {
    let mut costs = vec![1u32; NAMED_KINDS as usize + 4];
    costs[15] = 7; // I64Add
    costs[NAMED_KINDS as usize + 2] = 11; // Other { opcode: 2 }
    let mut fm = rewriter(OpcodeCost::new(costs), 100);
    let mut state = Vec::new();
    assert_eq!(fm.feed(Instr::I64Const { value: 1 }, &mut state), Ok(()));
    assert_eq!(fm.feed(Instr::I64Add, &mut state), Ok(()));
    assert_eq!(fm.feed(Instr::Other { opcode: 2 }, &mut state), Ok(()));
    assert_eq!(fm.accumulated_cost, 19);
    assert_eq!(
        state,
        vec![Instr::I64Const { value: 1 }, Instr::I64Add, Instr::Other { opcode: 2 }]
    );
}

#[test]
fn join_flushes_segment_cost_including_itself() {
    let mut fm = rewriter(table(2), 100);
    let mut state = Vec::new();
    assert_eq!(fm.feed(Instr::I64Const { value: 9 }, &mut state), Ok(()));
    assert_eq!(fm.feed(Instr::Br { relative_depth: 0 }, &mut state), Ok(()));
    let mut expected = vec![Instr::I64Const { value: 9 }];
    expected.extend(flush(4));
    expected.push(Instr::Br { relative_depth: 0 });
    assert_eq!(state, expected);
    assert_eq!(fm.accumulated_cost, 0);
}

#[test]
fn every_join_kind_flushes() {
    let joins = [
        Instr::Loop,
        Instr::End,
        Instr::Else,
        Instr::Br { relative_depth: 1 },
        Instr::BrIf { relative_depth: 0 },
        Instr::BrTable,
        Instr::Call { function_index: 3 },
        Instr::CallIndirect,
        Instr::Return,
    ];
    for join in joins {
        let mut fm = rewriter(table(1), 100);
        let mut state = Vec::new();
        assert_eq!(fm.feed(join, &mut state), Ok(()));
        let mut expected = flush(1);
        expected.push(join);
        assert_eq!(state, expected);
    }
    let mut fm = rewriter(table(1), 100);
    let mut state = Vec::new();
    assert_eq!(fm.feed(Instr::Block, &mut state), Ok(()));
    assert_eq!(fm.feed(Instr::If, &mut state), Ok(()));
    assert_eq!(state, vec![Instr::Block, Instr::If]);
    assert_eq!(fm.accumulated_cost, 2);
}

#[test]
fn guest_write_of_metering_cells_is_rejected() {
    for cell in [4u32, 5] {
        let mut fm = rewriter(table(1), 100);
        let mut state = Vec::new();
        let result = fm.feed(Instr::GlobalSet { global_index: cell }, &mut state);
        assert_eq!(result, Err(RewriteError::MeteringInvalidGlobalSet));
        assert!(state.is_empty());
        assert_eq!(result.unwrap_err().middleware(), "metering_middleware");
    }
    let mut fm = rewriter(table(1), 100);
    let mut state = Vec::new();
    assert_eq!(fm.feed(Instr::GlobalSet { global_index: 2 }, &mut state), Ok(()));
}

#[test]
fn unpriced_instruction_is_rejected() {
    let mut fm = rewriter(OpcodeCost::new(vec![1; NAMED_KINDS as usize]), 100);
    let mut state = Vec::new();
    let result = fm.feed(Instr::Other { opcode: 0 }, &mut state);
    assert_eq!(result, Err(RewriteError::MissingOpcodeCost { kind: NAMED_KINDS }));
    assert_eq!(result.unwrap_err().message(), "missing opcode cost");
    assert!(state.is_empty());
}

#[test]
fn segment_cost_overflow_is_rejected() {
    let mut fm = rewriter(table(5), 100);
    fm.accumulated_cost = i64::MAX as u64 - 5;
    let mut state = Vec::new();
    assert_eq!(fm.feed(Instr::I64Add, &mut state), Ok(()));
    assert_eq!(fm.accumulated_cost, i64::MAX as u64);
    let result = fm.feed(Instr::I64Add, &mut state);
    assert_eq!(result, Err(RewriteError::SegmentCostOverflow));
    assert_eq!(result.unwrap_err().message(), "segment cost overflow");
    assert_eq!(state, vec![Instr::I64Add]);
    assert_eq!(fm.accumulated_cost, i64::MAX as u64);
}
