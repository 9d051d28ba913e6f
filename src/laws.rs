use vstd::prelude::*;

use crate::breakpoint_value::BreakpointValue;
use crate::breakpoints::breakpoints_feed_spec;
use crate::instr::{Instr, OpcodeCost};
use crate::rewrite_error::RewriteError;
use crate::metering::{flush_seq, FunctionMetering, Metering};
use crate::module_globals::ModuleGlobals;
use crate::pipeline::{
    function_breakpoints_at, function_metering_at, instrument_spec, lemma_pipeline_err_prefix,
    lemma_rewrite_all_err_prefix, lemma_same_config_rewrite_all, pipeline_cells, pipeline_feed_spec,
    pipeline_stream_spec, rewrite_all_spec,
};

verus! {

/// Sum of the table's costs over `ops` (an unpriced instruction adds nothing).
pub open spec fn segment_cost(table: OpcodeCost, ops: Seq<Instr>) -> int
    decreases ops.len(),
{
    if ops.len() == 0 {
        0
    } else {
        segment_cost(table, ops.drop_last()) + match table.cost(ops.last()) {
            Some(c) => c as int,
            None => 0,
        }
    }
}

proof fn lemma_segment_cost_nonneg(table: OpcodeCost, ops: Seq<Instr>)
    ensures
        segment_cost(table, ops) >= 0,
    decreases ops.len(),
{
    if ops.len() > 0 {
        lemma_segment_cost_nonneg(table, ops.drop_last());
    }
}

/// `op` is priced by the table and writes neither metering cell.
pub open spec fn meterable(fm: FunctionMetering, op: Instr) -> bool {
    &&& fm.opcode_cost.cost(op).is_some()
    &&& !op.writes_global(fm.global_indexes.points_limit_global_index)
    &&& !op.writes_global(fm.global_indexes.points_used_global_index)
}

/// A straight-line segment passes through metering unchanged and only adds
/// its cost to the accumulator.
proof fn lemma_straight_line(fm: FunctionMetering, prefix: Seq<Instr>, out: Seq<Instr>, seg: Seq<Instr>)
    requires
        fm.stream_spec(0, prefix) == Ok::<(Seq<Instr>, nat), RewriteError>((out, 0)),
        forall|i: int| 0 <= i < seg.len() ==> !(#[trigger] seg[i]).is_join() && meterable(fm, seg[i]),
        segment_cost(fm.opcode_cost, seg) <= i64::MAX,
    ensures
        fm.stream_spec(0, prefix + seg) == Ok::<(Seq<Instr>, nat), RewriteError>(
            (out + seg, segment_cost(fm.opcode_cost, seg) as nat),
        ),
    decreases seg.len(),
{
    if seg.len() == 0 {
        assert(prefix + seg =~= prefix);
        assert(out + seg =~= out);
    } else {
        let init = seg.drop_last();
        assert forall|i: int| 0 <= i < init.len() implies !(#[trigger] init[i]).is_join() && meterable(
            fm,
            init[i],
        ) by {
            assert(init[i] == seg[i]);
        }
        let last = seg.last();
        assert(last == seg[seg.len() - 1]);
        assert(!last.is_join() && meterable(fm, last));
        lemma_segment_cost_nonneg(fm.opcode_cost, init);
        assert(segment_cost(fm.opcode_cost, init) <= segment_cost(fm.opcode_cost, seg));
        lemma_straight_line(fm, prefix, out, init);
        assert(fm.feed_spec(segment_cost(fm.opcode_cost, init) as nat, last) == Ok::<
            (Seq<Instr>, nat),
            RewriteError,
        >((seq![last], segment_cost(fm.opcode_cost, seg) as nat)));
        assert((prefix + seg).drop_last() =~= prefix + init);
        assert((prefix + seg).last() == seg.last());
        assert(out + init + seq![seg.last()] =~= out + seg);
    }
}

/// The value flushed into points-used at a control-flow join is exactly the
/// sum of the costs of the instructions since the previous flush (here: the
/// straight-line `seg` and the join itself), and the accumulator restarts at
/// zero.
pub proof fn lemma_segment_cost_flushed(
    fm: FunctionMetering,
    prefix: Seq<Instr>,
    out: Seq<Instr>,
    seg: Seq<Instr>,
    join: Instr,
)
    requires
        fm.stream_spec(0, prefix) == Ok::<(Seq<Instr>, nat), RewriteError>((out, 0)),
        forall|i: int| 0 <= i < seg.len() ==> !(#[trigger] seg[i]).is_join() && meterable(fm, seg[i]),
        join.is_join(),
        meterable(fm, join),
        segment_cost(fm.opcode_cost, seg.push(join)) <= i64::MAX,
    ensures
        fm.stream_spec(0, prefix + seg.push(join)) == Ok::<(Seq<Instr>, nat), RewriteError>(
            (
                out + seg + flush_seq(
                    fm.global_indexes,
                    fm.cell(),
                    segment_cost(fm.opcode_cost, seg.push(join)),
                ) + seq![join],
                0,
            ),
        ),
{
    assert(seg.push(join).drop_last() =~= seg);
    assert(seg.push(join).last() == join);
    lemma_segment_cost_nonneg(fm.opcode_cost, seg);
    assert(segment_cost(fm.opcode_cost, seg) <= segment_cost(fm.opcode_cost, seg.push(join)));
    lemma_straight_line(fm, prefix, out, seg);
    assert(fm.feed_spec(segment_cost(fm.opcode_cost, seg) as nat, join) == Ok::<
        (Seq<Instr>, nat),
        RewriteError,
    >(
        (
            flush_seq(fm.global_indexes, fm.cell(), segment_cost(fm.opcode_cost, seg.push(join)))
                + seq![join],
            0,
        ),
    ));
    assert((prefix + seg.push(join)).drop_last() =~= prefix + seg);
    assert((prefix + seg.push(join)).last() == join);
    assert(out + seg + (flush_seq(
        fm.global_indexes,
        fm.cell(),
        segment_cost(fm.opcode_cost, seg.push(join)),
    ) + seq![join]) =~= out + seg + flush_seq(
        fm.global_indexes,
        fm.cell(),
        segment_cost(fm.opcode_cost, seg.push(join)),
    ) + seq![join]);
}

/// A body made of one call: the call's own cost is flushed, and checked
/// against the limit, before the call is made.
pub proof fn lemma_call_cost_flushed_before_call(fm: FunctionMetering, call: Instr)
    requires
        call.is_call(),
        fm.opcode_cost.cost(call).is_some(),
    ensures
        fm.stream_spec(0, seq![call]) == Ok::<(Seq<Instr>, nat), RewriteError>(
            (
                flush_seq(fm.global_indexes, fm.cell(), fm.opcode_cost.cost(call).unwrap() as int)
                    + seq![call],
                0,
            ),
        ),
{
    assert(seq![call].drop_last() =~= Seq::<Instr>::empty());
    assert(seq![call].last() == call);
    assert(fm.opcode_cost.cost(call).unwrap() <= u32::MAX);
    assert(fm.stream_spec(0, Seq::<Instr>::empty()) == Ok::<(Seq<Instr>, nat), RewriteError>((Seq::<Instr>::empty(), 0)));
    assert(!call.writes_global(fm.global_indexes.points_limit_global_index));
    assert(call.is_join());
    assert(fm.feed_spec(0, call) == Ok::<(Seq<Instr>, nat), RewriteError>((flush_seq(fm.global_indexes, fm.cell(), fm.opcode_cost.cost(call).unwrap() as int)
        + seq![call], 0)));
    let flushed = flush_seq(fm.global_indexes, fm.cell(), fm.opcode_cost.cost(call).unwrap() as int)
        + seq![call];
    assert(Seq::<Instr>::empty() + flushed =~= flushed);
}

/// An instruction that writes one of the three cells makes its function
/// body, and with it the whole module, fail transformation.
pub proof fn lemma_tamper_rejected(
    me: Metering,
    module_info: ModuleGlobals,
    functions: Seq<Seq<Instr>>,
    f: int,
    k: int,
)
    requires
        module_info.has_room(3),
        0 <= f < functions.len(),
        0 <= k < functions[f].len(),
        functions[f][k].writes_global(module_info.next_index() as u32)
            || functions[f][k].writes_global((module_info.next_index() + 1) as u32)
            || functions[f][k].writes_global((module_info.next_index() + 2) as u32),
    ensures
        instrument_spec(me, module_info, functions).is_err(),
{
    let first = module_info.next_index();
    let fb = function_breakpoints_at(first);
    let fm = function_metering_at(me, first);
    let body = functions[f];
    let op = body[k];
    assert forall|acc: nat| (#[trigger] pipeline_feed_spec(fb, fm, acc, op)).is_err() by {
        if !op.writes_global(fb.cell()) {
            assert(breakpoints_feed_spec(fb.cell(), op) == Ok::<Seq<Instr>, RewriteError>(seq![op]));
            assert(seq![op].drop_last() =~= Seq::<Instr>::empty());
            assert(seq![op].last() == op);
        }
    }
    assert(body.take(k + 1).drop_last() =~= body.take(k));
    assert(body.take(k + 1).last() == op);
    assert(pipeline_stream_spec(fb, fm, 0, body.take(k + 1)).is_err());
    lemma_pipeline_err_prefix(fb, fm, 0, body, k + 1);
    assert(functions.take(f + 1).drop_last() =~= functions.take(f));
    assert(functions.take(f + 1).last() == body);
    assert(rewrite_all_spec(fb, fm, functions.take(f + 1)).is_err());
    lemma_rewrite_all_err_prefix(fb, fm, functions, f + 1);
}

/// Transforming the same unmodified module again through the same passes
/// (whose limit and cost table a transformation leaves as they were) gives
/// the same cells and the same rewritten bodies.
pub proof fn lemma_idempotent_registration(
    me1: Metering,
    me2: Metering,
    module_info: ModuleGlobals,
    functions: Seq<Seq<Instr>>,
)
    requires
        me1.points_limit == me2.points_limit,
        me1.opcode_cost.costs@ == me2.opcode_cost.costs@,
    ensures
        pipeline_cells(me1) == pipeline_cells(me2),
        instrument_spec(me1, module_info, functions) == instrument_spec(me2, module_info, functions),
{
    let first = module_info.next_index();
    lemma_same_config_rewrite_all(
        function_breakpoints_at(first),
        function_metering_at(me1, first),
        function_metering_at(me2, first),
        functions,
    );
}

/// Every cause decodes back from its encoding, and no other value decodes.
pub proof fn lemma_cause_round_trip(cause: BreakpointValue, value: u64)
    ensures
        BreakpointValue::decoding(cause.encoding()) == Some(cause),
        value > 4 ==> BreakpointValue::decoding(value).is_none(),
        BreakpointValue::decoding(value).is_some() ==> BreakpointValue::decoding(value).unwrap().encoding()
            == value,
{
}

} // verus!
