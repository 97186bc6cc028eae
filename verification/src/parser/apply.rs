//! What each statement does to the context and to the circuit.

use crate::ir::circuit::Circuit;
use crate::ir::circuit::CircuitView;
use crate::ir::operations::Operation;
use crate::ir::operations::OperationView;
use crate::ir::value::Value;
use crate::parser::ast::arg_view;
use crate::parser::ast::arg_views;
use crate::parser::ast::expr_views;
use crate::parser::ast::name_views;
use crate::parser::ast::statement_views;
use crate::parser::ast::Arg;
use crate::parser::ast::ArgView;
use crate::parser::ast::Expr;
use crate::parser::ast::ExprView;
use crate::parser::ast::ParsedStatement;
use crate::parser::ast::StatementView;
use crate::parser::error::ParseError;
use crate::parser::error::ParseErrorView;
use crate::parser::error::MAX_EXPANSION_DEPTH;
use crate::parser::expand::Expansion;
use crate::parser::expand::expand_gate;
use crate::parser::expand::expand_spec;
use crate::parser::expand::resolve_argument;
use crate::parser::expand::resolve_classical;
use crate::parser::expand::resolve_classical_spec;
use crate::parser::expand::resolve_spec;
use crate::parser::rules::lemma_gate_def_view;
use crate::parser::tables::ContextView;
use crate::parser::tables::GateDef;
use crate::parser::tables::GateDefView;
use crate::parser::tables::ParseContext;
use crate::parser::tables::RegisterTable;
use crate::parser::tables::RegisterView;
use crate::parser::tables::Scope;
use crate::parser::tables::extent;
use crate::parser::tables::registers_wf;
use vstd::prelude::*;

verus! {

/// The index lists that the arguments of a top-level call stand for, or the
/// error of the first argument that has one.
pub open spec fn resolve_all_spec(args: Seq<ArgView>, regs: Seq<RegisterView>) -> Result<
    Seq<Seq<usize>>,
    ParseErrorView,
>
    decreases args.len(),
{
    if args.len() == 0 {
        Ok(Seq::empty())
    } else {
        match resolve_all_spec(args.drop_last(), regs) {
            Err(e) => Err(e),
            Ok(lists) => match resolve_spec(args.last(), regs, Seq::empty()) {
                Err(e) => Err(e),
                Ok(list) => Ok(lists.push(list)),
            },
        }
    }
}

/// The length of the longest list, and 1 where none is longer.
pub open spec fn widest(lists: Seq<Seq<usize>>) -> nat
    decreases lists.len(),
{
    if lists.len() == 0 {
        1
    } else {
        let w = widest(lists.drop_last());
        if lists.last().len() > w {
            lists.last().len()
        } else {
            w
        }
    }
}

/// Whether the lists can be applied side by side: each has one element or
/// as many as the longest.
pub open spec fn broadcastable(lists: Seq<Seq<usize>>) -> bool {
    forall|a: int|
        0 <= a < lists.len() ==> (#[trigger] lists[a]).len() == 1 || lists[a].len() == widest(
            lists,
        )
}

/// The qubits of round `i` of a broadcast: the one element of a list of
/// one, element `i` of any other.
pub open spec fn pick(lists: Seq<Seq<usize>>, i: int) -> Seq<usize> {
    Seq::new(
        lists.len(),
        |a: int|
            if lists[a].len() == 1 {
                lists[a][0]
            } else {
                lists[a][i]
            },
    )
}

/// What the rounds of a broadcast expand to from round `from` on, in
/// ascending order, until one stops with an error.
pub open spec fn broadcast_spec(
    ctx: ContextView,
    name: Seq<char>,
    params: Seq<ExprView>,
    lists: Seq<Seq<usize>>,
    from: nat,
) -> Expansion
    decreases widest(lists) - from,
{
    if from >= widest(lists) {
        Expansion::nothing()
    } else {
        let first = expand_spec(
            ctx.gate_defs,
            ctx.qregs,
            name,
            params,
            pick(lists, from as int),
            Seq::empty(),
            Seq::empty(),
            MAX_EXPANSION_DEPTH as nat,
        );
        if first.error is Some {
            first
        } else {
            broadcast_spec(ctx, name, params, lists, from + 1).after(first.ops)
        }
    }
}

/// What a top-level gate call does: its arguments are resolved against the
/// quantum registers, checked to be broadcastable, and the call is expanded
/// once for each round.
pub open spec fn call_spec(
    ctx: ContextView,
    name: Seq<char>,
    args: Seq<ArgView>,
    params: Seq<ExprView>,
) -> Expansion {
    match resolve_all_spec(args, ctx.qregs) {
        Err(e) => Expansion::stop(e),
        Ok(lists) => if !broadcastable(lists) {
            Expansion::stop(ParseErrorView::BroadcastMismatch)
        } else {
            broadcast_spec(ctx, name, params, lists, 0)
        },
    }
}

/// One measurement for each pair of a qubit and the classical bit at the
/// same place.
pub open spec fn measure_ops(qubits: Seq<usize>, cbits: Seq<usize>) -> Seq<OperationView> {
    Seq::new(qubits.len(), |k: int| OperationView::Measure { qubit: qubits[k], cbit: cbits[k] })
}

/// What a measurement does: both sides are resolved, the qubit side first,
/// and must be of one length.
pub open spec fn measurement_spec(ctx: ContextView, qubit: ArgView, cbit: ArgView) -> Expansion {
    match resolve_spec(qubit, ctx.qregs, Seq::empty()) {
        Err(e) => Expansion::stop(e),
        Ok(qubits) => match resolve_classical_spec(cbit, ctx.cregs) {
            Err(e) => Expansion::stop(e),
            Ok(cbits) => if qubits.len() != cbits.len() {
                Expansion::stop(ParseErrorView::MeasureBroadcastMismatch)
            } else {
                Expansion { ops: measure_ops(qubits, cbits), error: None }
            },
        },
    }
}

/// What a statement leaves behind: the context after it, the operations it
/// emitted, and the error that stopped it, if any.
pub struct Outcome {
    pub ctx: ContextView,
    pub ops: Seq<OperationView>,
    pub error: Option<ParseErrorView>,
}

/// A register list with one more declaration, or the error where the total
/// would no longer fit the index type.
pub open spec fn declare_spec(regs: Seq<RegisterView>, name: Seq<char>, size: usize) -> Result<
    Seq<RegisterView>,
    ParseErrorView,
> {
    if extent(regs) + size > usize::MAX {
        Err(ParseErrorView::RegisterSpaceExhausted)
    } else {
        Ok(regs.push(RegisterView { name, start: extent(regs) as usize, size }))
    }
}

/// What a statement does in a context.
#[verifier::opaque]
pub open spec fn step_spec(ctx: ContextView, stmt: StatementView) -> Outcome {
    match stmt {
        StatementView::Ignore => Outcome { ctx, ops: Seq::empty(), error: None },
        StatementView::Barrier(_) => Outcome { ctx, ops: Seq::empty(), error: None },
        StatementView::Include(file) => Outcome {
            ctx,
            ops: Seq::empty(),
            error: Some(ParseErrorView::UnsupportedInclude(file)),
        },
        StatementView::If(_, _, _) => Outcome {
            ctx,
            ops: Seq::empty(),
            error: Some(ParseErrorView::UnsupportedConditional),
        },
        StatementView::QReg(name, size) => match declare_spec(ctx.qregs, name, size) {
            Ok(qregs) => Outcome { ctx: ContextView { qregs, ..ctx }, ops: Seq::empty(), error: None },
            Err(e) => Outcome { ctx, ops: Seq::empty(), error: Some(e) },
        },
        StatementView::CReg(name, size) => match declare_spec(ctx.cregs, name, size) {
            Ok(cregs) => Outcome { ctx: ContextView { cregs, ..ctx }, ops: Seq::empty(), error: None },
            Err(e) => Outcome { ctx, ops: Seq::empty(), error: Some(e) },
        },
        StatementView::GateDef(name, params, qubits, body) => Outcome {
            ctx: ContextView {
                gate_defs: ctx.gate_defs.push(GateDefView { name, params, qubits, body }),
                ..ctx
            },
            ops: Seq::empty(),
            error: None,
        },
        StatementView::Gate(name, args, params) => {
            let x = call_spec(ctx, name, args, params);
            Outcome { ctx, ops: x.ops, error: x.error }
        },
        StatementView::Measure(qubit, cbit) => {
            let x = measurement_spec(ctx, qubit, cbit);
            Outcome { ctx, ops: x.ops, error: x.error }
        },
    }
}

/// The views of index lists, in order.
pub open spec fn list_views(lists: Seq<Vec<usize>>) -> Seq<Seq<usize>> {
    lists.map_values(|l: Vec<usize>| l@)
}

proof fn lemma_resolve_all_error(args: Seq<ArgView>, regs: Seq<RegisterView>, k: int)
    requires
        0 <= k <= args.len(),
        resolve_all_spec(args.take(k), regs) is Err,
    ensures
        resolve_all_spec(args, regs) == resolve_all_spec(args.take(k), regs),
    decreases args.len() - k,
{
    if k == args.len() {
        assert(args.take(k) =~= args);
    } else {
        assert(args.take(k + 1).drop_last() =~= args.take(k));
        lemma_resolve_all_error(args, regs, k + 1);
    }
}

proof fn lemma_widest_bounds(lists: Seq<Seq<usize>>, a: int)
    requires
        0 <= a < lists.len(),
    ensures
        lists[a].len() <= widest(lists),
        widest(lists) >= 1,
    decreases lists.len(),
{
    if a < lists.len() - 1 {
        lemma_widest_bounds(lists.drop_last(), a);
    } else if lists.len() > 1 {
        lemma_widest_bounds(lists.drop_last(), 0);
    }
}

/// Resolves the arguments of a top-level call: the index list of each, and
/// the length of the longest.
fn resolve_all(args: &Vec<Arg>, qregs: &RegisterTable) -> (r: Result<
    (Vec<Vec<usize>>, usize),
    ParseError,
>)
    requires
        qregs.wf(),
    ensures
        match r {
            Ok((lists, max_len)) => resolve_all_spec(arg_views(args@), qregs@) == Ok::<
                Seq<Seq<usize>>,
                ParseErrorView,
            >(list_views(lists@)) && max_len == widest(list_views(lists@)),
            Err(e) => resolve_all_spec(arg_views(args@), qregs@) == Err::<
                Seq<Seq<usize>>,
                ParseErrorView,
            >(e@),
        },
{
    let scope: Scope<usize> = Scope::new();
    let mut lists: Vec<Vec<usize>> = Vec::new();
    let mut max_len: usize = 1;
    let ghost all = arg_views(args@);
    assert(list_views(lists@) =~= Seq::empty());
    let mut j: usize = 0;
    while j < args.len()
        invariant
            j <= args.len(),
            qregs.wf(),
            scope@ == Seq::<(Seq<char>, usize)>::empty(),
            all == arg_views(args@),
            resolve_all_spec(all.take(j as int), qregs@) == Ok::<Seq<Seq<usize>>, ParseErrorView>(
                list_views(lists@),
            ),
            max_len == widest(list_views(lists@)),
        decreases args.len() - j,
    {
        proof {
            assert(all.take(j + 1).drop_last() =~= all.take(j as int));
            assert(all.take(j + 1).last() == arg_view(args@[j as int]));
        }
        match resolve_argument(&args[j], qregs, &scope) {
            Err(e) => {
                proof {
                    lemma_resolve_all_error(all, qregs@, j + 1);
                }
                return Err(e);
            },
            Ok(indices) => {
                let ghost before = list_views(lists@);
                if indices.len() > max_len {
                    max_len = indices.len();
                }
                let ghost iv = indices@;
                lists.push(indices);
                proof {
                    assert(list_views(lists@) =~= before.push(iv));
                    assert(list_views(lists@).drop_last() =~= before);
                }
            },
        }
        j += 1;
    }
    assert(all.take(j as int) =~= all);
    Ok((lists, max_len))
}

/// Whether index lists can be applied side by side.
fn check_broadcast(lists: &Vec<Vec<usize>>, max_len: usize) -> (ok: bool)
    requires
        max_len == widest(list_views(lists@)),
    ensures
        ok == broadcastable(list_views(lists@)),
{
    let mut a: usize = 0;
    while a < lists.len()
        invariant
            a <= lists.len(),
            max_len == widest(list_views(lists@)),
            forall|b: int|
                0 <= b < a ==> (#[trigger] list_views(lists@)[b]).len() == 1 || list_views(
                    lists@,
                )[b].len() == max_len,
        decreases lists.len() - a,
    {
        assert(list_views(lists@)[a as int] == lists@[a as int]@);
        if lists[a].len() != 1 && lists[a].len() != max_len {
            return false;
        }
        a += 1;
    }
    true
}

/// The qubits of one round of a broadcast.
fn pick_round(lists: &Vec<Vec<usize>>, i: usize) -> (r: Vec<usize>)
    requires
        broadcastable(list_views(lists@)),
        i < widest(list_views(lists@)),
    ensures
        r@ == pick(list_views(lists@), i as int),
{
    let mut current: Vec<usize> = Vec::new();
    let mut a: usize = 0;
    while a < lists.len()
        invariant
            a <= lists.len(),
            broadcastable(list_views(lists@)),
            i < widest(list_views(lists@)),
            current@.len() == a,
            forall|b: int| 0 <= b < a ==> current@[b] == pick(list_views(lists@), i as int)[b],
        decreases lists.len() - a,
    {
        assert(list_views(lists@)[a as int] == lists@[a as int]@);
        if lists[a].len() == 1 {
            current.push(lists[a][0]);
        } else {
            current.push(lists[a][i]);
        }
        a += 1;
    }
    assert(current@ =~= pick(list_views(lists@), i as int));
    current
}

/// Expands a call once for each round of its broadcast, in ascending
/// order: appends what [`broadcast_spec`] says the rounds emit and returns
/// the error that it says stopped them, if any.
fn broadcast(
    circuit: &mut Circuit,
    ctx: &ParseContext,
    name: &str,
    params: &Vec<Expr>,
    lists: &Vec<Vec<usize>>,
    max_len: usize,
) -> (r: Result<(), ParseError>)
    requires
        ctx.wf(),
        max_len == widest(list_views(lists@)),
        broadcastable(list_views(lists@)),
    ensures
        ({
            let x = broadcast_spec(ctx@, name@, expr_views(params@), list_views(lists@), 0);
            &&& final(circuit)@ == (CircuitView {
                operations: old(circuit)@.operations + x.ops,
                ..old(circuit)@
            })
            &&& match r {
                Ok(_) => x.error is None,
                Err(e) => x.error == Some(e@),
            }
        }),
{
    let ghost ops0 = circuit@.operations;
    let ghost c0 = circuit@;
    assert(ops0 + Seq::<OperationView>::empty() =~= ops0);
    let no_params: Scope<Value> = Scope::new();
    let no_qubits: Scope<usize> = Scope::new();
    let ghost views = list_views(lists@);
    let ghost total = broadcast_spec(ctx@, name@, expr_views(params@), views, 0);
    let ghost mut emitted: Seq<OperationView> = Seq::empty();
    assert(total.after(emitted) == total) by {
        assert(emitted + total.ops =~= total.ops);
    }
    let mut i: usize = 0;
    while i < max_len
        invariant
            i <= max_len,
            ctx.wf(),
            max_len == widest(views),
            views == list_views(lists@),
            broadcastable(views),
            no_params@ == Seq::<(Seq<char>, Value)>::empty(),
            no_qubits@ == Seq::<(Seq<char>, usize)>::empty(),
            c0 == old(circuit)@,
            ops0 == c0.operations,
            circuit@ == (CircuitView { operations: ops0 + emitted, ..c0 }),
            total == broadcast_spec(ctx@, name@, expr_views(params@), views, 0),
            total == broadcast_spec(ctx@, name@, expr_views(params@), views, i as nat).after(
                emitted,
            ),
        decreases max_len - i,
    {
        let ghost rest = broadcast_spec(ctx@, name@, expr_views(params@), views, (i + 1) as nat);
        let current = pick_round(lists, i);
        let ghost first = expand_spec(
            ctx@.gate_defs,
            ctx@.qregs,
            name@,
            expr_views(params@),
            current@,
            Seq::empty(),
            Seq::empty(),
            MAX_EXPANSION_DEPTH as nat,
        );
        let step = expand_gate(
            circuit,
            ctx,
            name,
            params,
            &current,
            &no_params,
            &no_qubits,
            MAX_EXPANSION_DEPTH,
        );
        assert(circuit@.operations =~= ops0 + (emitted + first.ops));
        match step {
            Err(e) => {
                return Err(e);
            },
            Ok(_) => {
                proof {
                    assert((emitted + first.ops) + rest.ops =~= emitted + (first.ops + rest.ops));
                    emitted = emitted + first.ops;
                }
            },
        }
        i += 1;
    }
    assert(emitted + Seq::<OperationView>::empty() =~= emitted);
    Ok(())
}

/// Applies a top-level gate call: appends what [`call_spec`] says it emits
/// and returns the error that it says stopped it, if any.
pub fn apply_gate_call(
    circuit: &mut Circuit,
    ctx: &ParseContext,
    name: &str,
    args: &Vec<Arg>,
    params: &Vec<Expr>,
) -> (r: Result<(), ParseError>)
    requires
        ctx.wf(),
    ensures
        ({
            let x = call_spec(ctx@, name@, arg_views(args@), expr_views(params@));
            &&& final(circuit)@ == (CircuitView {
                operations: old(circuit)@.operations + x.ops,
                ..old(circuit)@
            })
            &&& match r {
                Ok(_) => x.error is None,
                Err(e) => x.error == Some(e@),
            }
        }),
{
    assert(circuit@.operations + Seq::<OperationView>::empty() =~= circuit@.operations);
    let (lists, max_len) = match resolve_all(args, &ctx.qregs) {
        Ok(x) => x,
        Err(e) => return Err(e),
    };
    if !check_broadcast(&lists, max_len) {
        return Err(ParseError::BroadcastMismatch);
    }
    broadcast(circuit, ctx, name, params, &lists, max_len)
}

/// Applies a measurement: appends what [`measurement_spec`] says it emits
/// and returns the error that it says stopped it, if any.
pub fn apply_measure(circuit: &mut Circuit, ctx: &ParseContext, qubit: &Arg, cbit: &Arg) -> (r:
    Result<(), ParseError>)
    requires
        ctx.wf(),
    ensures
        ({
            let x = measurement_spec(ctx@, arg_view(*qubit), arg_view(*cbit));
            &&& final(circuit)@ == (CircuitView {
                operations: old(circuit)@.operations + x.ops,
                ..old(circuit)@
            })
            &&& match r {
                Ok(_) => x.error is None,
                Err(e) => x.error == Some(e@),
            }
        }),
{
    let ghost ops0 = circuit@.operations;
    let ghost c0 = circuit@;
    assert(ops0 + Seq::<OperationView>::empty() =~= ops0);
    let scope: Scope<usize> = Scope::new();
    let qubits = match resolve_argument(qubit, &ctx.qregs, &scope) {
        Ok(v) => v,
        Err(e) => return Err(e),
    };
    let cbits = match resolve_classical(cbit, &ctx.cregs) {
        Ok(v) => v,
        Err(e) => return Err(e),
    };
    if qubits.len() != cbits.len() {
        return Err(ParseError::MeasureBroadcastMismatch);
    }
    let ghost all = measure_ops(qubits@, cbits@);
    let mut k: usize = 0;
    while k < qubits.len()
        invariant
            k <= qubits.len(),
            qubits@.len() == cbits@.len(),
            all == measure_ops(qubits@, cbits@),
            circuit@ == (CircuitView { operations: ops0 + all.take(k as int), ..c0 }),
        decreases qubits.len() - k,
    {
        circuit.add_op(Operation::Measure { qubit: qubits[k], cbit: cbits[k] });
        assert(ops0 + all.take(k + 1) =~= (ops0 + all.take(k as int)).push(all[k as int]));
        k += 1;
    }
    assert(all.take(k as int) =~= all);
    Ok(())
}

/// A statement without effect leaves everything as it is.
pub proof fn lemma_step_skips(ctx: ContextView, stmt: StatementView)
    requires
        stmt is Ignore || stmt is Barrier,
    ensures
        step_spec(ctx, stmt) == (Outcome { ctx, ops: Seq::empty(), error: None }),
{
    reveal(step_spec);
}

/// A file directive and a conditional are rejected, whatever the context.
pub proof fn lemma_step_rejects(ctx: ContextView, stmt: StatementView)
    requires
        stmt is Include || stmt is If,
    ensures
        step_spec(ctx, stmt).ctx == ctx,
        step_spec(ctx, stmt).ops == Seq::<OperationView>::empty(),
        stmt matches StatementView::Include(file) ==> step_spec(ctx, stmt).error == Some(
            ParseErrorView::UnsupportedInclude(file),
        ),
        stmt is If ==> step_spec(ctx, stmt).error == Some(ParseErrorView::UnsupportedConditional),
{
    reveal(step_spec);
}

/// A register declaration adds the register behind those of its kind, or
/// fails where the total would not fit.
pub proof fn lemma_step_declares(ctx: ContextView, name: Seq<char>, size: usize)
    ensures
        step_spec(ctx, StatementView::QReg(name, size)) == (match declare_spec(
            ctx.qregs,
            name,
            size,
        ) {
            Ok(qregs) => Outcome {
                ctx: ContextView { qregs, ..ctx },
                ops: Seq::empty(),
                error: None,
            },
            Err(e) => Outcome { ctx, ops: Seq::empty(), error: Some(e) },
        }),
        step_spec(ctx, StatementView::CReg(name, size)) == (match declare_spec(
            ctx.cregs,
            name,
            size,
        ) {
            Ok(cregs) => Outcome {
                ctx: ContextView { cregs, ..ctx },
                ops: Seq::empty(),
                error: None,
            },
            Err(e) => Outcome { ctx, ops: Seq::empty(), error: Some(e) },
        }),
{
    reveal(step_spec);
}

/// A gate definition is added behind those that are there.
pub proof fn lemma_step_defines(
    ctx: ContextView,
    name: Seq<char>,
    params: Seq<Seq<char>>,
    qubits: Seq<Seq<char>>,
    body: Seq<StatementView>,
)
    ensures
        step_spec(ctx, StatementView::GateDef(name, params, qubits, body)) == (Outcome {
            ctx: ContextView {
                gate_defs: ctx.gate_defs.push(GateDefView { name, params, qubits, body }),
                ..ctx
            },
            ops: Seq::empty(),
            error: None,
        }),
{
    reveal(step_spec);
}

/// A gate call and a measurement leave the context as it is and emit what
/// [`call_spec`] and [`measurement_spec`] say.
pub proof fn lemma_step_emits(ctx: ContextView, stmt: StatementView)
    requires
        stmt is Gate || stmt is Measure,
    ensures
        step_spec(ctx, stmt).ctx == ctx,
        stmt matches StatementView::Gate(name, args, params) ==> step_spec(ctx, stmt).ops
            == call_spec(ctx, name, args, params).ops && step_spec(ctx, stmt).error == call_spec(
            ctx,
            name,
            args,
            params,
        ).error,
        stmt matches StatementView::Measure(qubit, cbit) ==> step_spec(ctx, stmt).ops
            == measurement_spec(ctx, qubit, cbit).ops && step_spec(ctx, stmt).error
            == measurement_spec(ctx, qubit, cbit).error,
{
    reveal(step_spec);
}

/// A declaration that fits puts the new register right behind the others,
/// and leaves the others where they are.
pub proof fn lemma_declare_keeps_order(regs: Seq<RegisterView>, name: Seq<char>, size: usize)
    requires
        registers_wf(regs),
        extent(regs) + size <= usize::MAX,
    ensures
        declare_spec(regs, name, size) is Ok,
        registers_wf(declare_spec(regs, name, size)->Ok_0),
        extent(declare_spec(regs, name, size)->Ok_0) == extent(regs) + size,
{
    let after = declare_spec(regs, name, size)->Ok_0;
    assert(after.drop_last() =~= regs);
    assert forall|k: int| 0 <= k < after.len() implies (#[trigger] after[k]).start == extent(
        after.take(k),
    ) by {
        if k < regs.len() {
            assert(after.take(k) =~= regs.take(k));
            assert(after[k] == regs[k]);
        } else {
            assert(after.take(k) =~= regs);
        }
    }
}

/// Whatever statement is applied, the registers of both kinds stay in
/// consecutive, disjoint ranges in the order of their declaration.
pub proof fn lemma_step_keeps_registers_in_order(ctx: ContextView, stmt: StatementView)
    requires
        ctx.wf(),
    ensures
        step_spec(ctx, stmt).ctx.wf(),
{
    reveal(step_spec);
    match stmt {
        StatementView::QReg(name, size) => {
            if extent(ctx.qregs) + size <= usize::MAX {
                lemma_declare_keeps_order(ctx.qregs, name, size);
            }
        },
        StatementView::CReg(name, size) => {
            if extent(ctx.cregs) + size <= usize::MAX {
                lemma_declare_keeps_order(ctx.cregs, name, size);
            }
        },
        _ => {},
    }
}

/// Whether a context, a circuit and a result are what a statement's
/// outcome says.
pub open spec fn applied(
    before: CircuitView,
    after: CircuitView,
    ctx_after: ContextView,
    r: Result<(), ParseError>,
    out: Outcome,
) -> bool {
    &&& ctx_after == out.ctx
    &&& after == (CircuitView { operations: before.operations + out.ops, ..before })
    &&& match r {
        Ok(_) => out.error is None,
        Err(e) => out.error == Some(e@),
    }
}

fn apply_qreg(ctx: &mut ParseContext, name: String, size: usize) -> (r: Result<(), ParseError>)
    requires
        old(ctx).wf(),
    ensures
        final(ctx).wf(),
        ({
            let out = step_spec(old(ctx)@, StatementView::QReg(name@, size));
            &&& final(ctx)@ == out.ctx
            &&& out.ops == Seq::<OperationView>::empty()
            &&& match r {
                Ok(_) => out.error is None,
                Err(e) => out.error == Some(e@),
            }
        }),
{
    proof {
        lemma_step_declares(ctx@, name@, size);
    }
    ctx.qregs.declare(name, size)
}

fn apply_creg(ctx: &mut ParseContext, name: String, size: usize) -> (r: Result<(), ParseError>)
    requires
        old(ctx).wf(),
    ensures
        final(ctx).wf(),
        ({
            let out = step_spec(old(ctx)@, StatementView::CReg(name@, size));
            &&& final(ctx)@ == out.ctx
            &&& out.ops == Seq::<OperationView>::empty()
            &&& match r {
                Ok(_) => out.error is None,
                Err(e) => out.error == Some(e@),
            }
        }),
{
    proof {
        lemma_step_declares(ctx@, name@, size);
    }
    ctx.cregs.declare(name, size)
}

fn apply_gate_def(
    ctx: &mut ParseContext,
    name: String,
    params: Vec<String>,
    qubits: Vec<String>,
    body: Vec<ParsedStatement>,
)
    requires
        old(ctx).wf(),
    ensures
        final(ctx).wf(),
        step_spec(old(ctx)@, ParsedStatement::GateDef(name, params, qubits, body)@) == (Outcome {
            ctx: final(ctx)@,
            ops: Seq::empty(),
            error: None,
        }),
{
    proof {
        lemma_gate_def_view(name, params, qubits, body);
        lemma_step_defines(
            ctx@,
            name@,
            name_views(params@),
            name_views(qubits@),
            statement_views(body@),
        );
    }
    ctx.gate_defs.define(GateDef { name, params, qubits, body });
}

/// Applies a statement to the context and the circuit, as [`step_spec`]
/// says.
pub fn apply_statement(circuit: &mut Circuit, ctx: &mut ParseContext, stmt: ParsedStatement) -> (r:
    Result<(), ParseError>)
    requires
        old(ctx).wf(),
    ensures
        final(ctx).wf(),
        applied(old(circuit)@, final(circuit)@, final(ctx)@, r, step_spec(old(ctx)@, stmt@)),
{
    assert(circuit@.operations + Seq::<OperationView>::empty() =~= circuit@.operations);
    match stmt {
        ParsedStatement::Ignore => {
            proof {
                lemma_step_skips(ctx@, stmt@);
            }
            Ok(())
        },
        ParsedStatement::Barrier(_) => {
            proof {
                lemma_step_skips(ctx@, stmt@);
            }
            Ok(())
        },
        ParsedStatement::Include(file) => {
            proof {
                lemma_step_rejects(ctx@, stmt@);
            }
            Err(ParseError::UnsupportedInclude(file))
        },
        ParsedStatement::If(_, _, _) => {
            proof {
                lemma_step_rejects(ctx@, stmt@);
            }
            Err(ParseError::UnsupportedConditional)
        },
        ParsedStatement::QReg(name, size) => apply_qreg(ctx, name, size),
        ParsedStatement::CReg(name, size) => apply_creg(ctx, name, size),
        ParsedStatement::GateDef(name, params, qubits, body) => {
            apply_gate_def(ctx, name, params, qubits, body);
            Ok(())
        },
        ParsedStatement::Gate(name, args, params) => {
            proof {
                lemma_step_emits(ctx@, stmt@);
            }
            apply_gate_call(circuit, ctx, name.as_str(), &args, &params)
        },
        ParsedStatement::Measure(qubit, cbit) => {
            proof {
                lemma_step_emits(ctx@, stmt@);
            }
            apply_measure(circuit, ctx, &qubit, &cbit)
        },
    }
}

} // verus!
