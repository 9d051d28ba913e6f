use vstd::prelude::*;

use crate::breakpoint_value::BreakpointValue;
use crate::breakpoints::{guarded_set_seq, trap_check_seq, Breakpoints, BreakpointsGlobalIndex};
use crate::instr::{Instr, OpcodeCost};
use crate::module_globals::{create_global_index, GlobalCell, ModuleGlobals};
use crate::rewrite_error::RewriteError;

verus! {

/// Export name of the cell holding the budget.
pub const METERING_POINTS_LIMIT: &'static str = "metering_points_limit";

/// Export name of the cell holding the points consumed so far.
pub const METERING_POINTS_USED: &'static str = "metering_points_used";

/// The identities of the two metering cells in one module.
#[derive(Debug, Clone, Copy, PartialEq, Eq, Structural)]
pub struct MeteringGlobalIndexes {
    pub points_limit_global_index: u32,
    pub points_used_global_index: u32,
}

/// `points_used := points_used + amount`.
pub open spec fn increment_seq(idx: MeteringGlobalIndexes, amount: int) -> Seq<Instr> {
    seq![
        Instr::GlobalGet { global_index: idx.points_used_global_index },
        Instr::I64Const { value: amount as i64 },
        Instr::I64Add,
        Instr::GlobalSet { global_index: idx.points_used_global_index },
    ]
}

/// `if points_used >= points_limit { breakpoint_value := out-of-gas }`.
pub open spec fn out_of_gas_check_seq(idx: MeteringGlobalIndexes, cell: u32) -> Seq<Instr> {
    seq![
        Instr::GlobalGet { global_index: idx.points_used_global_index },
        Instr::GlobalGet { global_index: idx.points_limit_global_index },
        Instr::I64GeU,
    ] + guarded_set_seq(cell, BreakpointValue::OutOfGas)
}

/// Everything injected at a control-flow join after a segment costing `amount`.
pub open spec fn flush_seq(idx: MeteringGlobalIndexes, cell: u32, amount: int) -> Seq<Instr> {
    increment_seq(idx, amount) + out_of_gas_check_seq(idx, cell) + trap_check_seq(cell)
}

/// The metering pass: owns the points-limit and points-used cells of a module.
#[derive(Debug)]
pub struct Metering {
    pub points_limit: u64,
    pub opcode_cost: OpcodeCost,
    pub breakpoints_global_index: Option<BreakpointsGlobalIndex>,
    pub global_indexes: Option<MeteringGlobalIndexes>,
}

/// Metering asked for its cells before the breakpoint cell existed.
#[derive(Debug, Clone, Copy, PartialEq, Eq, Structural)]
pub enum ConfigError {
    BreakpointsNotReserved,
}

impl Metering {
    pub fn new(points_limit: u64, opcode_cost: OpcodeCost) -> (r: Metering)
        ensures
            r.points_limit == points_limit,
            r.opcode_cost == opcode_cost,
            r.breakpoints_global_index.is_none(),
            r.global_indexes.is_none(),
    {
        Metering { points_limit, opcode_cost, breakpoints_global_index: None, global_indexes: None }
    }

    pub open spec fn is_reserved(&self) -> bool {
        self.global_indexes.is_some() && self.breakpoints_global_index.is_some()
    }

    /// The pass after reserving its cells from global index `first` on,
    /// next to the breakpoint cell `cell`.
    pub open spec fn reserved_at(self, first: int, cell: BreakpointsGlobalIndex) -> Metering {
        Metering {
            breakpoints_global_index: Some(cell),
            global_indexes: Some(
                MeteringGlobalIndexes {
                    points_limit_global_index: first as u32,
                    points_used_global_index: (first + 1) as u32,
                },
            ),
            ..self
        }
    }

    /// The cells this pass appends to a module.
    pub open spec fn cells(self) -> Seq<GlobalCell> {
        seq![
            GlobalCell { name: METERING_POINTS_LIMIT, initial_value: self.points_limit as i64 },
            GlobalCell { name: METERING_POINTS_USED, initial_value: 0 },
        ]
    }

    /// Reserves the points-limit cell (initialised to the configured limit)
    /// and the points-used cell (initialised to zero). The breakpoint cell
    /// must already be reserved: the out-of-gas check writes it.
    pub fn transform_module_info(
        &mut self,
        module_info: &mut ModuleGlobals,
        breakpoints: &Breakpoints,
    ) -> (r: Result<(), ConfigError>)
        requires
            old(module_info).has_room(2),
        ensures
            r.is_ok() == breakpoints.is_reserved(),
            r.is_ok() ==> *final(self) == old(self).reserved_at(
                old(module_info).next_index(),
                breakpoints.global_index.unwrap(),
            ),
            r.is_ok() ==> final(module_info).declared == old(module_info).declared,
            r.is_ok() ==> final(module_info).cells@ == old(module_info).cells@ + old(self).cells(),
            r.is_err() ==> *final(self) == *old(self) && *final(module_info) == *old(module_info),
            r.is_err() ==> r == Err::<(), ConfigError>(ConfigError::BreakpointsNotReserved),
    {
        if !breakpoints.is_ready() {
            return Err(ConfigError::BreakpointsNotReserved);
        }
        let points_limit = self.points_limit as i64;
        let limit_index = create_global_index(module_info, METERING_POINTS_LIMIT, points_limit);
        let used_index = create_global_index(module_info, METERING_POINTS_USED, 0);
        self.breakpoints_global_index = breakpoints.global_index;
        self.global_indexes = Some(
            MeteringGlobalIndexes {
                points_limit_global_index: limit_index,
                points_used_global_index: used_index,
            },
        );
        assert(final(module_info).cells@ =~= old(module_info).cells@ + old(self).cells());
        Ok(())
    }

    /// A fresh per-function rewriter: zero accumulated cost, copies of the
    /// cost table and of the cells' identities.
    pub fn generate_function_middleware(&self) -> (r: FunctionMetering)
        requires
            self.is_reserved(),
        ensures
            r.accumulated_cost == 0,
            r.opcode_cost.costs@ == self.opcode_cost.costs@,
            r.breakpoints_middleware.global_index == self.breakpoints_global_index,
            r.global_indexes == self.global_indexes.unwrap(),
            r.wf(),
    {
        FunctionMetering {
            accumulated_cost: 0,
            opcode_cost: copy_opcode_cost(&self.opcode_cost),
            breakpoints_middleware: Breakpoints { global_index: self.breakpoints_global_index },
            global_indexes: self.global_indexes.unwrap(),
        }
    }
}

fn copy_opcode_cost(table: &OpcodeCost) -> (r: OpcodeCost)
    ensures
        r.costs@ == table.costs@,
{
    let mut costs: Vec<u32> = Vec::with_capacity(table.costs.len());
    let mut i: usize = 0;
    while i < table.costs.len()
        invariant
            i <= table.costs@.len(),
            costs@ == table.costs@.subrange(0, i as int),
        decreases table.costs@.len() - i,
    {
        costs.push(table.costs[i]);
        i += 1;
        assert(costs@ =~= table.costs@.subrange(0, i as int));
    }
    assert(costs@ =~= table.costs@);
    OpcodeCost { costs }
}

/// Rewrites one function body for the metering pass.
#[derive(Debug)]
pub struct FunctionMetering {
    /// Cost of the instructions seen since the last flush.
    pub accumulated_cost: u64,
    pub opcode_cost: OpcodeCost,
    pub breakpoints_middleware: Breakpoints,
    pub global_indexes: MeteringGlobalIndexes,
}

impl FunctionMetering {
    pub open spec fn wf(&self) -> bool {
        &&& self.breakpoints_middleware.is_reserved()
        &&& self.accumulated_cost <= i64::MAX
    }

    pub open spec fn cell(&self) -> u32 {
        self.breakpoints_middleware.cell()
    }

    /// What this rewriter emits for `op` with `acc` accumulated, and the
    /// accumulated cost afterwards.
    pub open spec fn feed_spec(&self, acc: nat, op: Instr) -> Result<(Seq<Instr>, nat), RewriteError> {
        let idx = self.global_indexes;
        if op.writes_global(idx.points_limit_global_index) || op.writes_global(
            idx.points_used_global_index,
        ) {
            Err(RewriteError::MeteringInvalidGlobalSet)
        } else if self.opcode_cost.cost(op).is_none() {
            Err(RewriteError::MissingOpcodeCost { kind: op.kind() as u64 })
        } else {
            let total = acc + self.opcode_cost.cost(op).unwrap();
            if total > i64::MAX {
                Err(RewriteError::SegmentCostOverflow)
            } else if op.is_join() {
                Ok((flush_seq(idx, self.cell(), total as int) + seq![op], 0))
            } else {
                Ok((seq![op], total))
            }
        }
    }

    /// Feeds `ops` in order, starting with `acc` accumulated; stops at the
    /// first error.
    pub open spec fn stream_spec(&self, acc: nat, ops: Seq<Instr>) -> Result<(Seq<Instr>, nat), RewriteError>
        decreases ops.len(),
    {
        if ops.len() == 0 {
            Ok((seq![], acc))
        } else {
            match self.stream_spec(acc, ops.drop_last()) {
                Err(e) => Err(e),
                Ok((out, a)) => match self.feed_spec(a, ops.last()) {
                    Err(e) => Err(e),
                    Ok((more, a2)) => Ok((out + more, a2)),
                },
            }
        }
    }

    /// Same cells, table and breakpoint cell; the accumulated cost may differ.
    pub open spec fn same_config(&self, other: &FunctionMetering) -> bool {
        &&& self.opcode_cost.costs@ == other.opcode_cost.costs@
        &&& self.breakpoints_middleware.global_index == other.breakpoints_middleware.global_index
        &&& self.global_indexes == other.global_indexes
    }

    fn inject_points_used_increment(&self, state: &mut Vec<Instr>)
        ensures
            final(state)@ == old(state)@ + increment_seq(
                self.global_indexes,
                self.accumulated_cost as int,
            ),
    {
        let used = self.global_indexes.points_used_global_index;
        state.push(Instr::GlobalGet { global_index: used });
        state.push(Instr::I64Const { value: self.accumulated_cost as i64 });
        state.push(Instr::I64Add);
        state.push(Instr::GlobalSet { global_index: used });
        assert(final(state)@ =~= old(state)@ + increment_seq(
            self.global_indexes,
            self.accumulated_cost as int,
        ));
    }

    fn inject_out_of_gas_check(&self, state: &mut Vec<Instr>)
        requires
            self.wf(),
        ensures
            final(state)@ == old(state)@ + out_of_gas_check_seq(self.global_indexes, self.cell()),
    {
        state.push(Instr::GlobalGet { global_index: self.global_indexes.points_used_global_index });
        state.push(Instr::GlobalGet { global_index: self.global_indexes.points_limit_global_index });
        state.push(Instr::I64GeU);
        self.breakpoints_middleware.inject_breakpoint_condition(state, BreakpointValue::OutOfGas);
        assert(final(state)@ =~= old(state)@ + out_of_gas_check_seq(self.global_indexes, self.cell()));
    }

    /// Rejects a guest write of either metering cell.
    pub fn check_invalid_global_set(&self, operator: &Instr) -> (r: Result<(), RewriteError>)
        ensures
            r.is_err() <==> (operator.writes_global(self.global_indexes.points_limit_global_index)
                || operator.writes_global(self.global_indexes.points_used_global_index)),
            r.is_err() ==> r == Err::<(), RewriteError>(RewriteError::MeteringInvalidGlobalSet),
    {
        if let Instr::GlobalSet { global_index } = *operator {
            if global_index == self.global_indexes.points_limit_global_index || global_index
                == self.global_indexes.points_used_global_index {
                return Err(RewriteError::MeteringInvalidGlobalSet);
            }
        }
        Ok(())
    }

    /// Adds the cost of `operator` to the accumulator; at a control-flow join
    /// first flushes the accumulator into points-used, checks it against the
    /// limit and traps on any recorded cause; then passes `operator` on.
    pub fn feed(&mut self, operator: Instr, state: &mut Vec<Instr>) -> (r: Result<(), RewriteError>)
        requires
            old(self).wf(),
        ensures
            final(self).wf(),
            final(self).same_config(old(self)),
            r.is_ok() == old(self).feed_spec(old(self).accumulated_cost as nat, operator).is_ok(),
            r.is_ok() ==> ({
                let (more, acc) = old(self).feed_spec(
                    old(self).accumulated_cost as nat,
                    operator,
                ).unwrap();
                final(state)@ == old(state)@ + more && final(self).accumulated_cost == acc
            }),
            r.is_err() ==> final(state)@ == old(state)@ && *final(self) == *old(self)
                && Err::<(Seq<Instr>, nat), RewriteError>(r.unwrap_err()) == old(self).feed_spec(
                old(self).accumulated_cost as nat,
                operator,
            ),
    {
        self.check_invalid_global_set(&operator)?;
        let cost = match self.opcode_cost.cost_of(&operator) {
            Some(c) => c,
            None => {
                return Err(RewriteError::MissingOpcodeCost { kind: operator.cost_kind() });
            },
        };
        // The operator's own cost is counted before any flush, so that a call
        // or branch cannot leave the segment unpaid.
        let total = self.accumulated_cost + cost as u64;
        if total > i64::MAX as u64 {
            return Err(RewriteError::SegmentCostOverflow);
        }
        self.accumulated_cost = total;
        if operator.is_control_join() {
            self.inject_points_used_increment(state);
            self.inject_out_of_gas_check(state);
            self.breakpoints_middleware.inject_breakpoint_condition_check(state);
            self.accumulated_cost = 0;
        }
        state.push(operator);
        proof {
            let idx = old(self).global_indexes;
            if operator.is_join() {
                assert(final(state)@ =~= old(state)@ + (flush_seq(idx, old(self).cell(), total as int)
                    + seq![operator]));
            } else {
                assert(final(state)@ =~= old(state)@ + seq![operator]);
            }
        }
        Ok(())
    }
}

} // verus!
