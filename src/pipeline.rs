use vstd::prelude::*;

use crate::breakpoint_value::BreakpointValue;
use crate::breakpoints::{
    breakpoints_feed_spec, Breakpoints, BreakpointsGlobalIndex, FunctionBreakpoints, BREAKPOINT_VALUE,
};
use crate::instr::Instr;
use crate::metering::{FunctionMetering, Metering, MeteringGlobalIndexes};
use crate::module_globals::{GlobalCell, ModuleGlobals};
use crate::rewrite_error::RewriteError;

verus! {

/// One instruction through the breakpoint pass, then each instruction that
/// pass emits through the metering pass.
pub open spec fn pipeline_feed_spec(
    fb: FunctionBreakpoints,
    fm: FunctionMetering,
    acc: nat,
    op: Instr,
) -> Result<(Seq<Instr>, nat), RewriteError> {
    match breakpoints_feed_spec(fb.cell(), op) {
        Err(e) => Err(e),
        Ok(chunk) => fm.stream_spec(acc, chunk),
    }
}

/// A whole body through both passes, starting with `acc` accumulated.
pub open spec fn pipeline_stream_spec(
    fb: FunctionBreakpoints,
    fm: FunctionMetering,
    acc: nat,
    ops: Seq<Instr>,
) -> Result<(Seq<Instr>, nat), RewriteError>
    decreases ops.len(),
{
    if ops.len() == 0 {
        Ok((seq![], acc))
    } else {
        match pipeline_stream_spec(fb, fm, acc, ops.drop_last()) {
            Err(e) => Err(e),
            Ok((out, a)) => match pipeline_feed_spec(fb, fm, a, ops.last()) {
                Err(e) => Err(e),
                Ok((more, a2)) => Ok((out + more, a2)),
            },
        }
    }
}

/// The rewritten bodies, in order; the first error rejects them all.
pub open spec fn rewrite_all_spec(
    fb: FunctionBreakpoints,
    fm: FunctionMetering,
    functions: Seq<Seq<Instr>>,
) -> Result<Seq<Seq<Instr>>, RewriteError>
    decreases functions.len(),
{
    if functions.len() == 0 {
        Ok(seq![])
    } else {
        match rewrite_all_spec(fb, fm, functions.drop_last()) {
            Err(e) => Err(e),
            Ok(done) => match pipeline_stream_spec(fb, fm, 0, functions.last()) {
                Err(e) => Err(e),
                Ok((body, _)) => Ok(done.push(body)),
            },
        }
    }
}

/// The cells the two passes append to a module, in order.
pub open spec fn pipeline_cells(me: Metering) -> Seq<GlobalCell> {
    seq![
        GlobalCell {
            name: BREAKPOINT_VALUE,
            initial_value: BreakpointValue::NoBreakpoint.encoding() as i64,
        },
    ] + me.cells()
}

/// The breakpoint rewriter handed out once the breakpoint cell sits at `first`.
pub open spec fn function_breakpoints_at(first: int) -> FunctionBreakpoints {
    FunctionBreakpoints {
        global_index: BreakpointsGlobalIndex { breakpoint_value_global_index: first as u32 },
    }
}

/// The metering rewriter handed out once the breakpoint cell sits at `first`
/// and the metering cells follow it.
pub open spec fn function_metering_at(me: Metering, first: int) -> FunctionMetering {
    FunctionMetering {
        accumulated_cost: 0,
        opcode_cost: me.opcode_cost,
        breakpoints_middleware: Breakpoints {
            global_index: Some(BreakpointsGlobalIndex { breakpoint_value_global_index: first as u32 }),
        },
        global_indexes: MeteringGlobalIndexes {
            points_limit_global_index: (first + 1) as u32,
            points_used_global_index: (first + 2) as u32,
        },
    }
}

/// Every function body of a module rewritten by the breakpoint and metering
/// passes, both reserving their cells in `module_info`.
pub open spec fn instrument_spec(
    me: Metering,
    module_info: ModuleGlobals,
    functions: Seq<Seq<Instr>>,
) -> Result<Seq<Seq<Instr>>, RewriteError> {
    rewrite_all_spec(
        function_breakpoints_at(module_info.next_index()),
        function_metering_at(me, module_info.next_index()),
        functions,
    )
}

pub open spec fn bodies_view(functions: Seq<Vec<Instr>>) -> Seq<Seq<Instr>> {
    functions.map_values(|f: Vec<Instr>| f@)
}

pub proof fn lemma_same_config_stream(a: FunctionMetering, b: FunctionMetering, acc: nat, ops: Seq<Instr>)
    requires
        a.same_config(&b),
    ensures
        a.stream_spec(acc, ops) == b.stream_spec(acc, ops),
    decreases ops.len(),
{
    if ops.len() > 0 {
        lemma_same_config_stream(a, b, acc, ops.drop_last());
        match a.stream_spec(acc, ops.drop_last()) {
            Err(_) => {},
            Ok((_, x)) => {
                assert(a.feed_spec(x, ops.last()) == b.feed_spec(x, ops.last()));
            },
        }
    }
}

pub proof fn lemma_same_config_pipeline(
    fb: FunctionBreakpoints,
    a: FunctionMetering,
    b: FunctionMetering,
    acc: nat,
    ops: Seq<Instr>,
)
    requires
        a.same_config(&b),
    ensures
        pipeline_stream_spec(fb, a, acc, ops) == pipeline_stream_spec(fb, b, acc, ops),
    decreases ops.len(),
{
    if ops.len() > 0 {
        lemma_same_config_pipeline(fb, a, b, acc, ops.drop_last());
        match pipeline_stream_spec(fb, a, acc, ops.drop_last()) {
            Err(_) => {},
            Ok((_, x)) => {
                match breakpoints_feed_spec(fb.cell(), ops.last()) {
                    Err(_) => {},
                    Ok(chunk) => {
                        lemma_same_config_stream(a, b, x, chunk);
                    },
                }
            },
        }
    }
}

pub proof fn lemma_same_config_rewrite_all(
    fb: FunctionBreakpoints,
    a: FunctionMetering,
    b: FunctionMetering,
    functions: Seq<Seq<Instr>>,
)
    requires
        a.same_config(&b),
    ensures
        rewrite_all_spec(fb, a, functions) == rewrite_all_spec(fb, b, functions),
    decreases functions.len(),
{
    if functions.len() > 0 {
        lemma_same_config_rewrite_all(fb, a, b, functions.drop_last());
        lemma_same_config_pipeline(fb, a, b, 0, functions.last());
    }
}

/// Once a prefix of a body fails in the metering pass, the whole body fails
/// with the same error.
pub proof fn lemma_stream_err_prefix(fm: FunctionMetering, acc: nat, ops: Seq<Instr>, k: int)
    requires
        0 <= k <= ops.len(),
        fm.stream_spec(acc, ops.take(k)).is_err(),
    ensures
        fm.stream_spec(acc, ops) == fm.stream_spec(acc, ops.take(k)),
    decreases ops.len(),
{
    if k == ops.len() {
        assert(ops.take(k) =~= ops);
    } else {
        assert(ops.drop_last().take(k) =~= ops.take(k));
        lemma_stream_err_prefix(fm, acc, ops.drop_last(), k);
    }
}

pub proof fn lemma_pipeline_err_prefix(
    fb: FunctionBreakpoints,
    fm: FunctionMetering,
    acc: nat,
    ops: Seq<Instr>,
    k: int,
)
    requires
        0 <= k <= ops.len(),
        pipeline_stream_spec(fb, fm, acc, ops.take(k)).is_err(),
    ensures
        pipeline_stream_spec(fb, fm, acc, ops) == pipeline_stream_spec(fb, fm, acc, ops.take(k)),
    decreases ops.len(),
{
    if k == ops.len() {
        assert(ops.take(k) =~= ops);
    } else {
        assert(ops.drop_last().take(k) =~= ops.take(k));
        lemma_pipeline_err_prefix(fb, fm, acc, ops.drop_last(), k);
    }
}

pub proof fn lemma_rewrite_all_err_prefix(
    fb: FunctionBreakpoints,
    fm: FunctionMetering,
    functions: Seq<Seq<Instr>>,
    k: int,
)
    requires
        0 <= k <= functions.len(),
        rewrite_all_spec(fb, fm, functions.take(k)).is_err(),
    ensures
        rewrite_all_spec(fb, fm, functions) == rewrite_all_spec(fb, fm, functions.take(k)),
    decreases functions.len(),
{
    if k == functions.len() {
        assert(functions.take(k) =~= functions);
    } else {
        assert(functions.drop_last().take(k) =~= functions.take(k));
        lemma_rewrite_all_err_prefix(fb, fm, functions.drop_last(), k);
    }
}

/// Feeds every instruction of `ops` to the metering rewriter, in order.
pub fn feed_metering(fm: &mut FunctionMetering, ops: &Vec<Instr>, state: &mut Vec<Instr>) -> (r: Result<
    (),
    RewriteError,
>)
    requires
        old(fm).wf(),
    ensures
        final(fm).wf(),
        final(fm).same_config(old(fm)),
        r.is_ok() == old(fm).stream_spec(old(fm).accumulated_cost as nat, ops@).is_ok(),
        r.is_ok() ==> ({
            let (more, acc) = old(fm).stream_spec(old(fm).accumulated_cost as nat, ops@).unwrap();
            final(state)@ == old(state)@ + more && final(fm).accumulated_cost == acc
        }),
        r.is_err() ==> Err::<(Seq<Instr>, nat), RewriteError>(r.unwrap_err()) == old(fm).stream_spec(
            old(fm).accumulated_cost as nat,
            ops@,
        ),
{
    let ghost fm0 = *fm;
    let ghost acc0 = fm.accumulated_cost as nat;
    let ghost state0 = state@;
    let mut i: usize = 0;
    assert(ops@.take(0) =~= Seq::<Instr>::empty());
    assert(state@.subrange(state0.len() as int, state@.len() as int) =~= Seq::<Instr>::empty());
    assert(state@.subrange(0, state0.len() as int) =~= state0);
    while i < ops.len()
        invariant
            i <= ops@.len(),
            fm0 == *old(fm),
            acc0 == old(fm).accumulated_cost as nat,
            state0 == old(state)@,
            fm.wf(),
            fm.same_config(&fm0),
            fm0.stream_spec(acc0, ops@.take(i as int)) == Ok::<(Seq<Instr>, nat), RewriteError>(
                (state@.subrange(state0.len() as int, state@.len() as int), fm.accumulated_cost as nat),
            ),
            state@.subrange(0, state0.len() as int) == state0,
            state0.len() <= state@.len(),
        decreases ops@.len() - i,
    {
        let ghost before = state@;
        let ghost fm_before = *fm;
        let op = ops[i];
        assert(ops@.take(i + 1).drop_last() =~= ops@.take(i as int));
        assert(ops@.take(i + 1).last() == op);
        assert(fm_before.feed_spec(fm_before.accumulated_cost as nat, op) == fm0.feed_spec(
            fm_before.accumulated_cost as nat,
            op,
        ));
        let fed = fm.feed(op, state);
        match fed {
            Err(e) => {
                proof {
                    assert(*fm == fm_before);
                    assert(fm0.stream_spec(acc0, ops@.take(i + 1)) == Err::<(Seq<Instr>, nat), RewriteError>(e));
                    lemma_stream_err_prefix(fm0, acc0, ops@, i + 1);
                }
                return Err(e);
            },
            Ok(()) => {},
        }
        proof {
            let (more, a2) = fm0.feed_spec(fm_before.accumulated_cost as nat, op).unwrap();
            assert(state@ == before + more);
            assert(state@.subrange(before.len() as int, state@.len() as int) =~= more);
            assert(fm0.stream_spec(acc0, ops@.take(i + 1)) == Ok::<(Seq<Instr>, nat), RewriteError>(
                (before.subrange(state0.len() as int, before.len() as int) + more, a2),
            ));
            assert(state@.subrange(state0.len() as int, state@.len() as int) =~= before.subrange(
                state0.len() as int,
                before.len() as int,
            ) + state@.subrange(before.len() as int, state@.len() as int));
            assert(state@.subrange(0, state0.len() as int) =~= before.subrange(0, state0.len() as int));
        }
        i += 1;
    }
    proof {
        assert(ops@.take(i as int) =~= ops@);
        assert(state@ =~= state0 + state@.subrange(state0.len() as int, state@.len() as int));
    }
    Ok(())
}

/// Rewrites one function body through the breakpoint pass and then the
/// metering pass; the first rejected instruction rejects the body.
pub fn rewrite_function(
    fb: &mut FunctionBreakpoints,
    fm: &mut FunctionMetering,
    body: &Vec<Instr>,
) -> (r: Result<Vec<Instr>, RewriteError>)
    requires
        old(fm).wf(),
    ensures
        *final(fb) == *old(fb),
        final(fm).wf(),
        final(fm).same_config(old(fm)),
        r.is_ok() == pipeline_stream_spec(*old(fb), *old(fm), old(fm).accumulated_cost as nat, body@).is_ok(),
        r.is_ok() ==> ({
            let (out, acc) = pipeline_stream_spec(
                *old(fb),
                *old(fm),
                old(fm).accumulated_cost as nat,
                body@,
            ).unwrap();
            r.unwrap()@ == out && final(fm).accumulated_cost == acc
        }),
        r.is_err() ==> Err::<(Seq<Instr>, nat), RewriteError>(r.unwrap_err()) == pipeline_stream_spec(
            *old(fb),
            *old(fm),
            old(fm).accumulated_cost as nat,
            body@,
        ),
{
    let ghost fm0 = *fm;
    let ghost fb0 = *fb;
    let ghost acc0 = fm.accumulated_cost as nat;
    let mut out: Vec<Instr> = Vec::new();
    let mut i: usize = 0;
    assert(body@.take(0) =~= Seq::<Instr>::empty());
    while i < body.len()
        invariant
            i <= body@.len(),
            fm0 == *old(fm),
            fb0 == *old(fb),
            *fb == fb0,
            acc0 == old(fm).accumulated_cost as nat,
            fm.wf(),
            fm.same_config(&fm0),
            pipeline_stream_spec(fb0, fm0, acc0, body@.take(i as int)) == Ok::<
                (Seq<Instr>, nat),
                RewriteError,
            >((out@, fm.accumulated_cost as nat)),
        decreases body@.len() - i,
    {
        let op = body[i];
        let ghost fm_before = *fm;
        let ghost out_before = out@;
        assert(body@.take(i + 1).drop_last() =~= body@.take(i as int));
        assert(body@.take(i + 1).last() == op);
        let mut chunk: Vec<Instr> = Vec::new();
        let fed = fb.feed(op, &mut chunk);
        if let Err(e) = fed {
            proof {
                assert(pipeline_stream_spec(fb0, fm0, acc0, body@.take(i + 1)) == Err::<
                    (Seq<Instr>, nat),
                    RewriteError,
                >(e));
                lemma_pipeline_err_prefix(fb0, fm0, acc0, body@, i + 1);
            }
            return Err(e);
        }
        assert(chunk@ =~= breakpoints_feed_spec(fb0.cell(), op).unwrap());
        proof {
            lemma_same_config_stream(fm_before, fm0, fm_before.accumulated_cost as nat, chunk@);
        }
        let metered = feed_metering(fm, &chunk, &mut out);
        if let Err(e) = metered {
            proof {
                assert(pipeline_stream_spec(fb0, fm0, acc0, body@.take(i + 1)) == Err::<
                    (Seq<Instr>, nat),
                    RewriteError,
                >(e));
                lemma_pipeline_err_prefix(fb0, fm0, acc0, body@, i + 1);
            }
            return Err(e);
        }
        i += 1;
    }
    assert(body@.take(i as int) =~= body@);
    Ok(out)
}

/// Instruments a module: the breakpoint pass reserves its cell, then the
/// metering pass reserves its two cells, then every function body is
/// rewritten by fresh per-function rewriters of both passes.
pub fn instrument_module(
    breakpoints: &mut Breakpoints,
    metering: &mut Metering,
    module_info: &mut ModuleGlobals,
    functions: &Vec<Vec<Instr>>,
) -> (r: Result<Vec<Vec<Instr>>, RewriteError>)
    requires
        old(module_info).has_room(3),
    ensures
        *final(breakpoints) == old(breakpoints).reserved_at(old(module_info).next_index()),
        *final(metering) == old(metering).reserved_at(
            old(module_info).next_index() + 1,
            BreakpointsGlobalIndex {
                breakpoint_value_global_index: old(module_info).next_index() as u32,
            },
        ),
        final(module_info).declared == old(module_info).declared,
        final(module_info).cells@ == old(module_info).cells@ + pipeline_cells(*old(metering)),
        r.is_ok() == instrument_spec(*old(metering), *old(module_info), bodies_view(functions@)).is_ok(),
        r.is_ok() ==> bodies_view(r.unwrap()@) == instrument_spec(
            *old(metering),
            *old(module_info),
            bodies_view(functions@),
        ).unwrap(),
        r.is_err() ==> Err::<Seq<Seq<Instr>>, RewriteError>(r.unwrap_err()) == instrument_spec(
            *old(metering),
            *old(module_info),
            bodies_view(functions@),
        ),
{
    let ghost first = module_info.next_index();
    let ghost me0 = *metering;
    breakpoints.transform_module_info(module_info);
    let reserved = metering.transform_module_info(module_info, breakpoints);
    assert(reserved.is_ok());
    assert(final(module_info).cells@ =~= old(module_info).cells@ + pipeline_cells(me0)) by {
        assert(old(module_info).cells@.push(pipeline_cells(me0)[0]) + me0.cells() =~= old(
            module_info,
        ).cells@ + pipeline_cells(me0));
    }
    let ghost fb0 = function_breakpoints_at(first);
    let ghost fm0 = function_metering_at(me0, first);
    let ghost fs = bodies_view(functions@);
    let mut out: Vec<Vec<Instr>> = Vec::new();
    let mut i: usize = 0;
    assert(fs.take(0) =~= Seq::<Seq<Instr>>::empty());
    assert(bodies_view(out@) =~= Seq::<Seq<Instr>>::empty());
    while i < functions.len()
        invariant
            i <= functions@.len(),
            fs == bodies_view(functions@),
            first == old(module_info).next_index(),
            first + 3 <= u32::MAX,
            me0 == *old(metering),
            fb0 == function_breakpoints_at(first),
            fm0 == function_metering_at(me0, first),
            *breakpoints == old(breakpoints).reserved_at(first),
            *metering == me0.reserved_at(
                first + 1,
                BreakpointsGlobalIndex { breakpoint_value_global_index: first as u32 },
            ),
            module_info.declared == old(module_info).declared,
            module_info.cells@ == old(module_info).cells@ + pipeline_cells(me0),
            breakpoints.is_reserved(),
            breakpoints.global_index == Some(fb0.global_index),
            metering.is_reserved(),
            metering.breakpoints_global_index == Some(fb0.global_index),
            metering.global_indexes == Some(fm0.global_indexes),
            metering.opcode_cost.costs@ == fm0.opcode_cost.costs@,
            fm0.breakpoints_middleware.global_index == Some(fb0.global_index),
            rewrite_all_spec(fb0, fm0, fs.take(i as int)) == Ok::<Seq<Seq<Instr>>, RewriteError>(
                bodies_view(out@),
            ),
        decreases functions@.len() - i,
    {
        let mut fb = breakpoints.generate_function_middleware();
        let mut fm = metering.generate_function_middleware();
        assert(fs.take(i + 1).drop_last() =~= fs.take(i as int));
        assert(fs.take(i + 1).last() == functions@[i as int]@);
        proof {
            lemma_same_config_pipeline(fb0, fm, fm0, 0, functions@[i as int]@);
        }
        let rewritten = rewrite_function(&mut fb, &mut fm, &functions[i]);
        match rewritten {
            Err(e) => {
                proof {
                    assert(rewrite_all_spec(fb0, fm0, fs.take(i + 1)) == Err::<
                        Seq<Seq<Instr>>,
                        RewriteError,
                    >(e));
                    lemma_rewrite_all_err_prefix(fb0, fm0, fs, i + 1);
                }
                return Err(e);
            },
            Ok(body) => {
                let ghost before = out@;
                out.push(body);
                assert(bodies_view(out@) =~= bodies_view(before).push(body@));
            },
        }
        i += 1;
    }
    assert(fs.take(i as int) =~= fs);
    Ok(out)
}

} // verus!
