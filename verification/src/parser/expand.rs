use crate::ir::circuit::Circuit;
use crate::ir::circuit::CircuitView;
use crate::ir::gates::GateType;
use crate::ir::gates::GateTypeView;
use crate::ir::operations::clone_indices;
use crate::ir::operations::Operation;
use crate::ir::operations::OperationView;
use crate::ir::value::Value;
use crate::ir::value::FRAC_PI_2_BITS;
use crate::ir::value::PI_BITS;
use crate::ir::value::ZERO_BITS;
use crate::parser::ast::arg_view;
use crate::parser::ast::arg_views;
use crate::parser::ast::expr_views;
use crate::parser::ast::name_views;
use crate::parser::ast::statement_views;
use crate::parser::ast::Arg;
use crate::parser::ast::ArgView;
use crate::parser::ast::Expr;
use crate::parser::ast::ExprView;
use crate::parser::ast::ParsedStatement;
use crate::parser::ast::StatementView;
use crate::parser::error::ParseError;
use crate::parser::error::ParseErrorView;
use crate::parser::tables::find_gate;
use crate::parser::tables::find_register;
use crate::parser::tables::lemma_found_register_in_range;
use crate::parser::tables::lookup;
use crate::parser::tables::registers_wf;
use crate::parser::tables::GateDef;
use crate::parser::tables::GateDefView;
use crate::parser::tables::ParseContext;
use crate::parser::tables::RegisterTable;
use crate::parser::tables::RegisterView;
use crate::parser::tables::Scope;
use crate::parser::text::same_text;
use vstd::prelude::*;
use vstd::string::*;

verus! {

/// Whether what a function returned is what its specification says, the
/// error taken by its view.
pub open spec fn agrees<T>(r: Result<T, ParseError>, s: Result<T, ParseErrorView>) -> bool {
    match r {
        Ok(v) => s == Ok::<T, ParseErrorView>(v),
        Err(e) => s == Err::<T, ParseErrorView>(e@),
    }
}

/// As [`agrees`], for a list taken by its view.
pub open spec fn list_agrees<T>(r: Result<Vec<T>, ParseError>, s: Result<Seq<T>, ParseErrorView>) -> bool {
    match r {
        Ok(v) => s == Ok::<Seq<T>, ParseErrorView>(v@),
        Err(e) => s == Err::<Seq<T>, ParseErrorView>(e@),
    }
}

/// Puts two evaluated operands under an operator; the left operand's error
/// comes first.
pub open spec fn join_operands(
    a: Result<Value, ParseErrorView>,
    b: Result<Value, ParseErrorView>,
    op: spec_fn(Value, Value) -> Value,
) -> Result<Value, ParseErrorView> {
    match a {
        Err(e) => Err(e),
        Ok(x) => match b {
            Err(e) => Err(e),
            Ok(y) => Ok(op(x, y)),
        },
    }
}

/// The number that an expression stands for where its names are bound by
/// `scope`: `pi` is always the constant, whatever the scope says; any other
/// name is what the scope binds it to, and an error where it binds nothing.
pub open spec fn eval_spec(e: ExprView, scope: Seq<(Seq<char>, Value)>) -> Result<
    Value,
    ParseErrorView,
>
    decreases e,
{
    match e {
        ExprView::Float(bits) => Ok(Value::Const(bits)),
        ExprView::Var(name) => if name == "pi"@ {
            Ok(Value::Const(PI_BITS))
        } else {
            match lookup(scope, name) {
                Some(v) => Ok(v),
                None => Err(ParseErrorView::UndefinedParameter(name)),
            }
        },
        ExprView::Add(a, b) => join_operands(
            eval_spec(*a, scope),
            eval_spec(*b, scope),
            |x: Value, y: Value| Value::Add(Box::new(x), Box::new(y)),
        ),
        ExprView::Sub(a, b) => join_operands(
            eval_spec(*a, scope),
            eval_spec(*b, scope),
            |x: Value, y: Value| Value::Sub(Box::new(x), Box::new(y)),
        ),
        ExprView::Mul(a, b) => join_operands(
            eval_spec(*a, scope),
            eval_spec(*b, scope),
            |x: Value, y: Value| Value::Mul(Box::new(x), Box::new(y)),
        ),
        ExprView::Div(a, b) => join_operands(
            eval_spec(*a, scope),
            eval_spec(*b, scope),
            |x: Value, y: Value| Value::Div(Box::new(x), Box::new(y)),
        ),
    }
}

/// Evaluates an expression: resolves its names and keeps its arithmetic.
pub fn evaluate_expr(expr: &Expr, params: &Scope<Value>) -> (r: Result<Value, ParseError>)
    ensures
        agrees(r, eval_spec(expr@, params@)),
    decreases expr,
{
    match expr {
        Expr::Float(bits) => Ok(Value::Const(*bits)),
        Expr::Var(name) => {
            if same_text(name.as_str(), "pi") {
                Ok(Value::Const(PI_BITS))
            } else {
                match params.get(name.as_str()) {
                    Some(v) => Ok(v.clone()),
                    None => Err(ParseError::UndefinedParameter(name.clone())),
                }
            }
        },
        Expr::Add(a, b) => {
            let x = evaluate_expr(a, params)?;
            let y = evaluate_expr(b, params)?;
            Ok(Value::Add(Box::new(x), Box::new(y)))
        },
        Expr::Sub(a, b) => {
            let x = evaluate_expr(a, params)?;
            let y = evaluate_expr(b, params)?;
            Ok(Value::Sub(Box::new(x), Box::new(y)))
        },
        Expr::Mul(a, b) => {
            let x = evaluate_expr(a, params)?;
            let y = evaluate_expr(b, params)?;
            Ok(Value::Mul(Box::new(x), Box::new(y)))
        },
        Expr::Div(a, b) => {
            let x = evaluate_expr(a, params)?;
            let y = evaluate_expr(b, params)?;
            Ok(Value::Div(Box::new(x), Box::new(y)))
        },
    }
}

/// The numbers that a list of expressions stands for, or the error of the
/// first one that has one.
pub open spec fn eval_list_spec(exprs: Seq<ExprView>, scope: Seq<(Seq<char>, Value)>) -> Result<
    Seq<Value>,
    ParseErrorView,
>
    decreases exprs.len(),
{
    if exprs.len() == 0 {
        Ok(Seq::empty())
    } else {
        match eval_list_spec(exprs.drop_last(), scope) {
            Err(e) => Err(e),
            Ok(values) => match eval_spec(exprs.last(), scope) {
                Err(e) => Err(e),
                Ok(v) => Ok(values.push(v)),
            },
        }
    }
}

/// Evaluates the parameters of a call, first to last.
pub fn evaluate_params(params: &Vec<Expr>, scope: &Scope<Value>) -> (r: Result<
    Vec<Value>,
    ParseError,
>)
    ensures
        list_agrees(r, eval_list_spec(expr_views(params@), scope@)),
{
    let mut values: Vec<Value> = Vec::new();
    let ghost all = expr_views(params@);
    let mut i: usize = 0;
    while i < params.len()
        invariant
            i <= params.len(),
            all == expr_views(params@),
            eval_list_spec(all.take(i as int), scope@) == Ok::<Seq<Value>, ParseErrorView>(
                values@,
            ),
        decreases params.len() - i,
    {
        proof {
            assert(all.take(i + 1).drop_last() =~= all.take(i as int));
            assert(all.take(i + 1).last() == params@[i as int]@);
        }
        match evaluate_expr(&params[i], scope) {
            Ok(v) => {
                values.push(v);
            },
            Err(e) => {
                proof {
                    lemma_eval_list_error(all, scope@, i + 1);
                }
                return Err(e);
            },
        }
        i += 1;
    }
    assert(all.take(i as int) =~= all);
    Ok(values)
}

proof fn lemma_eval_list_error(exprs: Seq<ExprView>, scope: Seq<(Seq<char>, Value)>, k: int)
    requires
        0 <= k <= exprs.len(),
        eval_list_spec(exprs.take(k), scope) is Err,
    ensures
        eval_list_spec(exprs, scope) == eval_list_spec(exprs.take(k), scope),
    decreases exprs.len() - k,
{
    if k == exprs.len() {
        assert(exprs.take(k) =~= exprs);
    } else {
        assert(exprs.take(k + 1).drop_last() =~= exprs.take(k));
        lemma_eval_list_error(exprs, scope, k + 1);
    }
}

/// The parameter at place `i`, or zero where the call gave fewer.
pub open spec fn param_or_zero(params: Seq<Value>, i: int) -> Value {
    if 0 <= i < params.len() {
        params[i]
    } else {
        Value::Const(ZERO_BITS)
    }
}

/// Which gate a name stands for, given the evaluated parameters of the
/// call; `Custom` for a name outside the catalogue.
#[verifier::opaque]
pub open spec fn gate_type_spec(name: Seq<char>, params: Seq<Value>) -> GateTypeView {
    if name == "h"@ {
        GateTypeView::H
    } else if name == "x"@ {
        GateTypeView::X
    } else if name == "y"@ {
        GateTypeView::Y
    } else if name == "z"@ {
        GateTypeView::Z
    } else if name == "cx"@ {
        GateTypeView::CX
    } else if name == "rx"@ {
        GateTypeView::RX(param_or_zero(params, 0))
    } else if name == "ry"@ {
        GateTypeView::RY(param_or_zero(params, 0))
    } else if name == "rz"@ {
        GateTypeView::RZ(param_or_zero(params, 0))
    } else if name == "u1"@ {
        GateTypeView::RZ(param_or_zero(params, 0))
    } else if name == "u2"@ {
        GateTypeView::U(
            Value::Const(FRAC_PI_2_BITS),
            param_or_zero(params, 0),
            param_or_zero(params, 1),
        )
    } else if name == "u3"@ || name == "U"@ {
        GateTypeView::U(
            param_or_zero(params, 0),
            param_or_zero(params, 1),
            param_or_zero(params, 2),
        )
    } else if name == "id"@ {
        GateTypeView::ID
    } else if name == "s"@ {
        GateTypeView::S
    } else if name == "sdg"@ {
        GateTypeView::Sdg
    } else if name == "t"@ {
        GateTypeView::T
    } else if name == "tdg"@ {
        GateTypeView::Tdg
    } else if name == "swap"@ {
        GateTypeView::SWAP
    } else if name == "ccx"@ {
        GateTypeView::CCX
    } else {
        GateTypeView::Custom(name)
    }
}

fn param_at(params: &Vec<Value>, i: usize) -> (v: Value)
    ensures
        v == param_or_zero(params@, i as int),
{
    if i < params.len() {
        params[i].clone()
    } else {
        Value::Const(ZERO_BITS)
    }
}

/// Maps a gate name to its gate.
pub fn map_gate_type(name: &str, params: &Vec<Value>) -> (g: GateType)
    ensures
        g@ == gate_type_spec(name@, params@),
{
    reveal(gate_type_spec);
    if same_text(name, "h") {
        GateType::H
    } else if same_text(name, "x") {
        GateType::X
    } else if same_text(name, "y") {
        GateType::Y
    } else if same_text(name, "z") {
        GateType::Z
    } else if same_text(name, "cx") {
        GateType::CX
    } else if same_text(name, "rx") {
        GateType::RX(param_at(params, 0))
    } else if same_text(name, "ry") {
        GateType::RY(param_at(params, 0))
    } else if same_text(name, "rz") {
        GateType::RZ(param_at(params, 0))
    } else if same_text(name, "u1") {
        GateType::RZ(param_at(params, 0))
    } else if same_text(name, "u2") {
        GateType::U(Value::Const(FRAC_PI_2_BITS), param_at(params, 0), param_at(params, 1))
    } else if same_text(name, "u3") || same_text(name, "U") {
        GateType::U(param_at(params, 0), param_at(params, 1), param_at(params, 2))
    } else if same_text(name, "id") {
        GateType::ID
    } else if same_text(name, "s") {
        GateType::S
    } else if same_text(name, "sdg") {
        GateType::Sdg
    } else if same_text(name, "t") {
        GateType::T
    } else if same_text(name, "tdg") {
        GateType::Tdg
    } else if same_text(name, "swap") {
        GateType::SWAP
    } else if same_text(name, "ccx") {
        GateType::CCX
    } else {
        GateType::Custom(String::from_str(name))
    }
}

/// The global indices `start`, `start + 1`, ... of a register of `size`
/// elements.
pub open spec fn index_range(start: usize, size: usize) -> Seq<usize> {
    Seq::new(size as nat, |k: int| (start + k) as usize)
}

/// The global indices that a qubit argument stands for.
///
/// A name that `scope` binds is that one qubit, and may not be subscripted.
/// Otherwise the name must be a register: with a subscript below its size it
/// is that element, without a subscript it is the whole register.
pub open spec fn resolve_spec(
    arg: ArgView,
    regs: Seq<RegisterView>,
    scope: Seq<(Seq<char>, usize)>,
) -> Result<Seq<usize>, ParseErrorView> {
    match lookup(scope, arg.0) {
        Some(q) => if arg.1 is Some {
            Err(ParseErrorView::CannotIndexLocalQubit(arg.0))
        } else {
            Ok(seq![q])
        },
        None => match find_register(regs, arg.0) {
            Some((start, size)) => match arg.1 {
                Some(i) => if i < size {
                    Ok(seq![(start + i) as usize])
                } else {
                    Err(ParseErrorView::QubitIndexOutOfBounds(arg.0, i))
                },
                None => Ok(index_range(start, size)),
            },
            None => Err(ParseErrorView::UndefinedRegister(arg.0)),
        },
    }
}

/// A qubit argument whose name is bound nowhere fails as an undefined
/// register, and a subscript at or past the size of its register fails as
/// out of bounds; a subscript below the size gives the one element, and no
/// subscript gives the whole register in ascending order.
pub proof fn lemma_resolve_register(
    name: Seq<char>,
    index: Option<usize>,
    regs: Seq<RegisterView>,
    scope: Seq<(Seq<char>, usize)>,
)
    requires
        registers_wf(regs),
        lookup(scope, name) is None,
    ensures
        find_register(regs, name) is None ==> resolve_spec((name, index), regs, scope) == Err::<
            Seq<usize>,
            ParseErrorView,
        >(ParseErrorView::UndefinedRegister(name)),
        find_register(regs, name) matches Some((start, size)) ==> (match index {
            Some(i) => if i >= size {
                resolve_spec((name, index), regs, scope) == Err::<Seq<usize>, ParseErrorView>(
                    ParseErrorView::QubitIndexOutOfBounds(name, i),
                )
            } else {
                resolve_spec((name, index), regs, scope) == Ok::<Seq<usize>, ParseErrorView>(
                    seq![(start + i) as usize],
                )
            },
            None => {
                let all = resolve_spec((name, index), regs, scope);
                &&& all is Ok
                &&& all->Ok_0.len() == size
                &&& forall|k: int| 0 <= k < size ==> #[trigger] all->Ok_0[k] == start + k
            },
        }),
{
    if find_register(regs, name) is Some {
        lemma_found_register_in_range(regs, name);
    }
}

fn whole_register(start: usize, size: usize) -> (v: Vec<usize>)
    requires
        start + size <= usize::MAX,
    ensures
        v@ == index_range(start, size),
{
    let mut v: Vec<usize> = Vec::new();
    let mut k: usize = 0;
    while k < size
        invariant
            k <= size,
            start + size <= usize::MAX,
            v@.len() == k,
            forall|j: int| 0 <= j < k ==> v@[j] == (start + j) as usize,
        decreases size - k,
    {
        v.push(start + k);
        k += 1;
    }
    assert(v@ =~= index_range(start, size));
    v
}

/// Resolves a qubit argument to global indices.
pub fn resolve_argument(arg: &Arg, qregs: &RegisterTable, scope_qubits: &Scope<usize>) -> (r:
    Result<Vec<usize>, ParseError>)
    requires
        qregs.wf(),
    ensures
        list_agrees(r, resolve_spec(arg_view(*arg), qregs@, scope_qubits@)),
{
    let name = arg.0.as_str();
    match scope_qubits.get(name) {
        Some(q) => {
            if arg.1.is_some() {
                Err(ParseError::CannotIndexLocalQubit(arg.0.clone()))
            } else {
                let mut v: Vec<usize> = Vec::new();
                v.push(*q);
                assert(v@ =~= seq![*q]);
                Ok(v)
            }
        },
        None => match qregs.find(name) {
            Some((start, size)) => {
                proof {
                    lemma_found_register_in_range(qregs@, name@);
                }
                match arg.1 {
                    Some(i) => {
                        if i < size {
                            let mut v: Vec<usize> = Vec::new();
                            v.push(start + i);
                            assert(v@ =~= seq![(start + i) as usize]);
                            Ok(v)
                        } else {
                            Err(ParseError::QubitIndexOutOfBounds(arg.0.clone(), i))
                        }
                    },
                    None => Ok(whole_register(start, size)),
                }
            },
            None => Err(ParseError::UndefinedRegister(arg.0.clone())),
        },
    }
}

/// The global indices that the target of a measurement stands for: a
/// classical register, or one element of it.
pub open spec fn resolve_classical_spec(arg: ArgView, regs: Seq<RegisterView>) -> Result<
    Seq<usize>,
    ParseErrorView,
> {
    match find_register(regs, arg.0) {
        Some((start, size)) => match arg.1 {
            Some(i) => if i < size {
                Ok(seq![(start + i) as usize])
            } else {
                Err(ParseErrorView::ClassicalIndexOutOfBounds(arg.0, i))
            },
            None => Ok(index_range(start, size)),
        },
        None => Err(ParseErrorView::UndefinedClassicalRegister(arg.0)),
    }
}

/// Resolves the target of a measurement to global indices.
pub fn resolve_classical(arg: &Arg, cregs: &RegisterTable) -> (r: Result<Vec<usize>, ParseError>)
    requires
        cregs.wf(),
    ensures
        list_agrees(r, resolve_classical_spec(arg_view(*arg), cregs@)),
{
    let name = arg.0.as_str();
    match cregs.find(name) {
        Some((start, size)) => {
            proof {
                lemma_found_register_in_range(cregs@, name@);
            }
            match arg.1 {
                Some(i) => {
                    if i < size {
                        let mut v: Vec<usize> = Vec::new();
                        v.push(start + i);
                        assert(v@ =~= seq![(start + i) as usize]);
                        Ok(v)
                    } else {
                        Err(ParseError::ClassicalIndexOutOfBounds(arg.0.clone(), i))
                    }
                },
                None => Ok(whole_register(start, size)),
            }
        },
        None => Err(ParseError::UndefinedClassicalRegister(arg.0.clone())),
    }
}

/// The qubits that the arguments of a call inside a gate body stand for:
/// each argument must be exactly one qubit. The first argument at fault
/// gives the error.
pub open spec fn resolve_single_spec(
    args: Seq<ArgView>,
    regs: Seq<RegisterView>,
    scope: Seq<(Seq<char>, usize)>,
) -> Result<Seq<usize>, ParseErrorView>
    decreases args.len(),
{
    if args.len() == 0 {
        Ok(Seq::empty())
    } else {
        match resolve_single_spec(args.drop_last(), regs, scope) {
            Err(e) => Err(e),
            Ok(done) => match resolve_spec(args.last(), regs, scope) {
                Err(e) => Err(e),
                Ok(indices) => if indices.len() != 1 {
                    Err(ParseErrorView::BroadcastInGateBody(args.last().0))
                } else {
                    Ok(done.push(indices[0]))
                },
            },
        }
    }
}

proof fn lemma_resolve_single_error(
    args: Seq<ArgView>,
    regs: Seq<RegisterView>,
    scope: Seq<(Seq<char>, usize)>,
    k: int,
)
    requires
        0 <= k <= args.len(),
        resolve_single_spec(args.take(k), regs, scope) is Err,
    ensures
        resolve_single_spec(args, regs, scope) == resolve_single_spec(args.take(k), regs, scope),
    decreases args.len() - k,
{
    if k == args.len() {
        assert(args.take(k) =~= args);
    } else {
        assert(args.take(k + 1).drop_last() =~= args.take(k));
        lemma_resolve_single_error(args, regs, scope, k + 1);
    }
}

/// Resolves the arguments of a call inside a gate body.
pub fn resolve_single(args: &Vec<Arg>, qregs: &RegisterTable, scope_qubits: &Scope<usize>) -> (r:
    Result<Vec<usize>, ParseError>)
    requires
        qregs.wf(),
    ensures
        list_agrees(r, resolve_single_spec(arg_views(args@), qregs@, scope_qubits@)),
{
    let mut resolved: Vec<usize> = Vec::new();
    let ghost all = arg_views(args@);
    let mut j: usize = 0;
    while j < args.len()
        invariant
            j <= args.len(),
            qregs.wf(),
            all == arg_views(args@),
            resolve_single_spec(all.take(j as int), qregs@, scope_qubits@) == Ok::<
                Seq<usize>,
                ParseErrorView,
            >(resolved@),
        decreases args.len() - j,
    {
        proof {
            assert(all.take(j + 1).drop_last() =~= all.take(j as int));
            assert(all.take(j + 1).last() == arg_view(args@[j as int]));
        }
        match resolve_argument(&args[j], qregs, scope_qubits) {
            Err(e) => {
                proof {
                    lemma_resolve_single_error(all, qregs@, scope_qubits@, j + 1);
                }
                return Err(e);
            },
            Ok(indices) => {
                if indices.len() != 1 {
                    proof {
                        lemma_resolve_single_error(all, qregs@, scope_qubits@, j + 1);
                    }
                    return Err(ParseError::BroadcastInGateBody(args[j].0.clone()));
                }
                resolved.push(indices[0]);
            },
        }
        j += 1;
    }
    assert(all.take(j as int) =~= all);
    Ok(resolved)
}

/// A scope with more bindings on top: each name bound to the value at its
/// place.
pub open spec fn bind<V>(base: Seq<(Seq<char>, V)>, names: Seq<Seq<char>>, values: Seq<V>) -> Seq<
    (Seq<char>, V),
> {
    base + Seq::new(names.len(), |j: int| (names[j], values[j]))
}

/// The scope of a gate body over parameters: the enclosing scope, then the
/// formal parameters bound to the values of the call.
fn bind_params(scope: &Scope<Value>, names: &Vec<String>, values: &Vec<Value>) -> (r: Scope<
    Value,
>)
    requires
        names@.len() == values@.len(),
    ensures
        r@ == bind(scope@, name_views(names@), values@),
{
    let mut out: Scope<Value> = Scope::new();
    let mut i: usize = 0;
    while i < scope.entries.len()
        invariant
            i <= scope.entries.len(),
            out@ == scope@.take(i as int),
        decreases scope.entries.len() - i,
    {
        out.insert(scope.entries[i].0.clone(), scope.entries[i].1.clone());
        assert(scope@.take(i + 1) =~= scope@.take(i as int).push(scope@[i as int]));
        i += 1;
    }
    assert(scope@.take(i as int) =~= scope@);
    let ghost added = Seq::new(names@.len(), |j: int| (name_views(names@)[j], values@[j]));
    let mut j: usize = 0;
    while j < names.len()
        invariant
            j <= names.len(),
            names@.len() == values@.len(),
            added == Seq::new(names@.len(), |j: int| (name_views(names@)[j], values@[j])),
            out@ == scope@ + added.take(j as int),
        decreases names.len() - j,
    {
        out.insert(names[j].clone(), values[j].clone());
        assert(scope@ + added.take(j + 1) =~= (scope@ + added.take(j as int)).push(
            added[j as int],
        ));
        j += 1;
    }
    assert(added.take(j as int) =~= added);
    out
}

/// The scope of a gate body over qubits: the enclosing scope, then the
/// formal qubits bound to the qubits of the call.
fn bind_qubits(scope: &Scope<usize>, names: &Vec<String>, values: &Vec<usize>) -> (r: Scope<
    usize,
>)
    requires
        names@.len() == values@.len(),
    ensures
        r@ == bind(scope@, name_views(names@), values@),
{
    let mut out: Scope<usize> = Scope::new();
    let mut i: usize = 0;
    while i < scope.entries.len()
        invariant
            i <= scope.entries.len(),
            out@ == scope@.take(i as int),
        decreases scope.entries.len() - i,
    {
        out.insert(scope.entries[i].0.clone(), scope.entries[i].1);
        assert(scope@.take(i + 1) =~= scope@.take(i as int).push(scope@[i as int]));
        i += 1;
    }
    assert(scope@.take(i as int) =~= scope@);
    let ghost added = Seq::new(names@.len(), |j: int| (name_views(names@)[j], values@[j]));
    let mut j: usize = 0;
    while j < names.len()
        invariant
            j <= names.len(),
            names@.len() == values@.len(),
            added == Seq::new(names@.len(), |j: int| (name_views(names@)[j], values@[j])),
            out@ == scope@ + added.take(j as int),
        decreases names.len() - j,
    {
        out.insert(names[j].clone(), values[j]);
        assert(scope@ + added.take(j + 1) =~= (scope@ + added.take(j as int)).push(
            added[j as int],
        ));
        j += 1;
    }
    assert(added.take(j as int) =~= added);
    out
}

/// What expanding a call gives: the operations that it emits and, where it
/// stops early, the error that stopped it.
pub struct Expansion {
    pub ops: Seq<OperationView>,
    pub error: Option<ParseErrorView>,
}

impl Expansion {
    /// Nothing emitted, no error.
    pub open spec fn nothing() -> Expansion {
        Expansion { ops: Seq::empty(), error: None }
    }

    /// Nothing emitted, stopped by `e`.
    pub open spec fn stop(e: ParseErrorView) -> Expansion {
        Expansion { ops: Seq::empty(), error: Some(e) }
    }

    /// This expansion behind operations that were emitted before it.
    pub open spec fn after(self, before: Seq<OperationView>) -> Expansion {
        Expansion { ops: before + self.ops, error: self.error }
    }
}

/// What a call of gate `name` expands to.
///
/// The parameters are evaluated in `pscope`. A primitive gate is emitted as
/// it is. Any other name must be defined, with as many parameters and qubits
/// as the call gives; its body is then expanded with the formals bound on
/// top of the enclosing scopes, one level deeper. `depth` is how many levels
/// may still be entered.
#[verifier::opaque]
pub open spec fn expand_spec(
    defs: Seq<GateDefView>,
    regs: Seq<RegisterView>,
    name: Seq<char>,
    params: Seq<ExprView>,
    qubits: Seq<usize>,
    pscope: Seq<(Seq<char>, Value)>,
    qscope: Seq<(Seq<char>, usize)>,
    depth: nat,
) -> Expansion
    decreases depth, 0nat, 0nat,
{
    match eval_list_spec(params, pscope) {
        Err(e) => Expansion::stop(e),
        Ok(values) => {
            let gate = gate_type_spec(name, values);
            if !(gate is Custom) {
                Expansion {
                    ops: seq![OperationView::Gate { name: gate, qubits, params: values }],
                    error: None,
                }
            } else {
                match find_gate(defs, name) {
                    None => Expansion::stop(ParseErrorView::UnknownGate(name)),
                    Some(def) => match admission_error(def, values.len(), qubits.len(), depth) {
                        Some(e) => Expansion::stop(e),
                        None => expand_body_spec(
                            defs,
                            regs,
                            def.body,
                            0,
                            bind(pscope, def.params, values),
                            bind(qscope, def.qubits, qubits),
                            (depth - 1) as nat,
                        ),
                    },
                }
            }
        },
    }
}

/// What the statements of a gate body expand to, from statement `from` on:
/// each gate call in turn, until one stops with an error. Statements of any
/// other form emit nothing.
#[verifier::opaque]
pub open spec fn expand_body_spec(
    defs: Seq<GateDefView>,
    regs: Seq<RegisterView>,
    body: Seq<StatementView>,
    from: nat,
    pscope: Seq<(Seq<char>, Value)>,
    qscope: Seq<(Seq<char>, usize)>,
    depth: nat,
) -> Expansion
    decreases depth, 1nat, body.len() - from,
{
    if from >= body.len() {
        Expansion::nothing()
    } else {
        let first = match body[from as int] {
            StatementView::Gate(gate, args, params) => match resolve_single_spec(
                args,
                regs,
                qscope,
            ) {
                Err(e) => Expansion::stop(e),
                Ok(qubits) => expand_spec(defs, regs, gate, params, qubits, pscope, qscope, depth),
            },
            _ => Expansion::nothing(),
        };
        if first.error is Some {
            first
        } else {
            expand_body_spec(defs, regs, body, from + 1, pscope, qscope, depth).after(first.ops)
        }
    }
}

/// Where a parameter of the call has an error, the call stops with it.
pub proof fn lemma_expand_bad_params(
    defs: Seq<GateDefView>,
    regs: Seq<RegisterView>,
    name: Seq<char>,
    params: Seq<ExprView>,
    qubits: Seq<usize>,
    pscope: Seq<(Seq<char>, Value)>,
    qscope: Seq<(Seq<char>, usize)>,
    depth: nat,
)
    requires
        eval_list_spec(params, pscope) is Err,
    ensures
        expand_spec(defs, regs, name, params, qubits, pscope, qscope, depth) == Expansion::stop(
            eval_list_spec(params, pscope)->Err_0,
        ),
{
    reveal(expand_spec);
}

/// A call of a primitive gate emits that gate on the qubits of the call,
/// with the evaluated parameters, whatever is defined and however deep the
/// call stands.
pub proof fn lemma_expand_primitive(
    defs: Seq<GateDefView>,
    regs: Seq<RegisterView>,
    name: Seq<char>,
    params: Seq<ExprView>,
    qubits: Seq<usize>,
    pscope: Seq<(Seq<char>, Value)>,
    qscope: Seq<(Seq<char>, usize)>,
    depth: nat,
)
    requires
        eval_list_spec(params, pscope) is Ok,
        !(gate_type_spec(name, eval_list_spec(params, pscope)->Ok_0) is Custom),
    ensures
        ({
            let values = eval_list_spec(params, pscope)->Ok_0;
            expand_spec(defs, regs, name, params, qubits, pscope, qscope, depth) == (Expansion {
                ops: seq![
                    OperationView::Gate {
                        name: gate_type_spec(name, values),
                        qubits,
                        params: values,
                    },
                ],
                error: None,
            })
        }),
{
    reveal(expand_spec);
}

/// What a call of a name outside the catalogue expands to, once its
/// parameters are evaluated.
pub open spec fn expand_custom_spec(
    defs: Seq<GateDefView>,
    regs: Seq<RegisterView>,
    name: Seq<char>,
    values: Seq<Value>,
    qubits: Seq<usize>,
    pscope: Seq<(Seq<char>, Value)>,
    qscope: Seq<(Seq<char>, usize)>,
    depth: nat,
) -> Expansion {
    match find_gate(defs, name) {
        None => Expansion::stop(ParseErrorView::UnknownGate(name)),
        Some(def) => match admission_error(def, values.len(), qubits.len(), depth) {
            Some(e) => Expansion::stop(e),
            None => expand_body_spec(
                defs,
                regs,
                def.body,
                0,
                bind(pscope, def.params, values),
                bind(qscope, def.qubits, qubits),
                (depth - 1) as nat,
            ),
        },
    }
}

/// A call of a name outside the catalogue expands as
/// [`expand_custom_spec`] says.
pub proof fn lemma_expand_custom(
    defs: Seq<GateDefView>,
    regs: Seq<RegisterView>,
    name: Seq<char>,
    params: Seq<ExprView>,
    qubits: Seq<usize>,
    pscope: Seq<(Seq<char>, Value)>,
    qscope: Seq<(Seq<char>, usize)>,
    depth: nat,
)
    requires
        eval_list_spec(params, pscope) is Ok,
        gate_type_spec(name, eval_list_spec(params, pscope)->Ok_0) is Custom,
    ensures
        expand_spec(defs, regs, name, params, qubits, pscope, qscope, depth) == expand_custom_spec(
            defs,
            regs,
            name,
            eval_list_spec(params, pscope)->Ok_0,
            qubits,
            pscope,
            qscope,
            depth,
        ),
{
    reveal(expand_spec);
    reveal(expand_body_spec);
}

/// Whether a circuit and a result are what an expansion says: its
/// operations behind those that were there, and its error, if any.
pub open spec fn expanded(
    before: CircuitView,
    after: CircuitView,
    r: Result<(), ParseError>,
    x: Expansion,
) -> bool {
    &&& after == (CircuitView { operations: before.operations + x.ops, ..before })
    &&& match r {
        Ok(_) => x.error is None,
        Err(e) => x.error == Some(e@),
    }
}

/// Expands a gate call into the circuit: appends what [`expand_spec`] says
/// the call emits, and returns the error that it says stopped it, if any.
pub fn expand_gate(
    circuit: &mut Circuit,
    ctx: &ParseContext,
    name: &str,
    params: &Vec<Expr>,
    qubits: &Vec<usize>,
    scope_params: &Scope<Value>,
    scope_qubits: &Scope<usize>,
    depth: usize,
) -> (r: Result<(), ParseError>)
    requires
        ctx.wf(),
    ensures
        expanded(
            old(circuit)@,
            final(circuit)@,
            r,
            expand_spec(
                ctx@.gate_defs,
                ctx@.qregs,
                name@,
                expr_views(params@),
                qubits@,
                scope_params@,
                scope_qubits@,
                depth as nat,
            ),
        ),
    decreases depth, 1nat,
{
    let ghost ops0 = circuit@.operations;
    // 1. Evaluate parameters
    let eval_params = match evaluate_params(params, scope_params) {
        Ok(values) => values,
        Err(e) => {
            proof {
                lemma_expand_bad_params(
                    ctx@.gate_defs,
                    ctx@.qregs,
                    name@,
                    expr_views(params@),
                    qubits@,
                    scope_params@,
                    scope_qubits@,
                    depth as nat,
                );
                assert(ops0 + Seq::<OperationView>::empty() =~= ops0);
            }
            return Err(e);
        },
    };

    // 2. A primitive gate is emitted as it is
    let gate_type = map_gate_type(name, &eval_params);
    if gate_type.is_primitive() {
        proof {
            lemma_expand_primitive(
                ctx@.gate_defs,
                ctx@.qregs,
                name@,
                expr_views(params@),
                qubits@,
                scope_params@,
                scope_qubits@,
                depth as nat,
            );
        }
        let ghost op_view = OperationView::Gate {
            name: gate_type@,
            qubits: qubits@,
            params: eval_params@,
        };
        circuit.add_op(
            Operation::Gate { name: gate_type, qubits: clone_indices(qubits), params: eval_params },
        );
        assert(circuit@.operations =~= ops0 + seq![op_view]);
        return Ok(());
    }
    // 3. Any other gate is expanded from its definition

    proof {
        lemma_expand_custom(
            ctx@.gate_defs,
            ctx@.qregs,
            name@,
            expr_views(params@),
            qubits@,
            scope_params@,
            scope_qubits@,
            depth as nat,
        );
    }
    expand_custom(circuit, ctx, name, &eval_params, qubits, scope_params, scope_qubits, depth)
}

/// The error of a call that its definition does not admit, if there is
/// one: a wrong number of parameters, then a wrong number of qubits, then a
/// nesting that is too deep.
pub open spec fn admission_error(def: GateDefView, values: nat, qubits: nat, depth: nat) -> Option<
    ParseErrorView,
> {
    if values != def.params.len() {
        Some(
            ParseErrorView::ParamArityMismatch {
                gate: def.name,
                expected: def.params.len() as usize,
                found: values as usize,
            },
        )
    } else if qubits != def.qubits.len() {
        Some(
            ParseErrorView::QubitArityMismatch {
                gate: def.name,
                expected: def.qubits.len() as usize,
                found: qubits as usize,
            },
        )
    } else if depth == 0 {
        Some(ParseErrorView::RecursionLimitExceeded(def.name))
    } else {
        None
    }
}

/// Checks a call against the definition of its gate.
fn admit_call(def: &GateDef, values: usize, qubits: usize, depth: usize) -> (r: Result<
    (),
    ParseError,
>)
    ensures
        match r {
            Ok(_) => admission_error(def@, values as nat, qubits as nat, depth as nat) is None,
            Err(e) => admission_error(def@, values as nat, qubits as nat, depth as nat) == Some(
                e@,
            ),
        },
{
    if values != def.params.len() {
        return Err(
            ParseError::ParamArityMismatch {
                gate: def.name.clone(),
                expected: def.params.len(),
                found: values,
            },
        );
    }
    if qubits != def.qubits.len() {
        return Err(
            ParseError::QubitArityMismatch {
                gate: def.name.clone(),
                expected: def.qubits.len(),
                found: qubits,
            },
        );
    }
    if depth == 0 {
        return Err(ParseError::RecursionLimitExceeded(def.name.clone()));
    }
    Ok(())
}

/// A definition that is found under a name has that name.
pub proof fn lemma_found_gate_name(defs: Seq<GateDefView>, name: Seq<char>)
    requires
        find_gate(defs, name) is Some,
    ensures
        find_gate(defs, name)->0.name == name,
    decreases defs.len(),
{
    if defs.last().name != name {
        lemma_found_gate_name(defs.drop_last(), name);
    }
}

/// Expands a call of a name outside the catalogue from its definition, as
/// [`expand_custom_spec`] says.
pub fn expand_custom(
    circuit: &mut Circuit,
    ctx: &ParseContext,
    name: &str,
    values: &Vec<Value>,
    qubits: &Vec<usize>,
    scope_params: &Scope<Value>,
    scope_qubits: &Scope<usize>,
    depth: usize,
) -> (r: Result<(), ParseError>)
    requires
        ctx.wf(),
    ensures
        expanded(
            old(circuit)@,
            final(circuit)@,
            r,
            expand_custom_spec(
                ctx@.gate_defs,
                ctx@.qregs,
                name@,
                values@,
                qubits@,
                scope_params@,
                scope_qubits@,
                depth as nat,
            ),
        ),
    decreases depth, 0nat,
{
    assert(circuit@.operations + Seq::<OperationView>::empty() =~= circuit@.operations);
    let def = match ctx.gate_defs.find(name) {
        Some(def) => def,
        None => {
            return Err(ParseError::UnknownGate(String::from_str(name)));
        },
    };
    proof {
        lemma_found_gate_name(ctx@.gate_defs, name@);
    }
    match admit_call(def, values.len(), qubits.len(), depth) {
        Err(e) => Err(e),
        Ok(_) => {
            let new_scope_params = bind_params(scope_params, &def.params, values);
            let new_scope_qubits = bind_qubits(scope_qubits, &def.qubits, qubits);
            expand_body(circuit, ctx, &def.body, &new_scope_params, &new_scope_qubits, depth - 1)
        },
    }
}

/// Expands the statements of a gate body into the circuit, in order:
/// appends what [`expand_body_spec`] says they emit, and returns the error
/// that it says stopped them, if any.
pub fn expand_body(
    circuit: &mut Circuit,
    ctx: &ParseContext,
    body: &Vec<ParsedStatement>,
    scope_params: &Scope<Value>,
    scope_qubits: &Scope<usize>,
    depth: usize,
) -> (r: Result<(), ParseError>)
    requires
        ctx.wf(),
    ensures
        expanded(
            old(circuit)@,
            final(circuit)@,
            r,
            expand_body_spec(
                ctx@.gate_defs,
                ctx@.qregs,
                statement_views(body@),
                0,
                scope_params@,
                scope_qubits@,
                depth as nat,
            ),
        ),
    decreases depth, 2nat,
{
    let ghost ops0 = circuit@.operations;
    let ghost c0 = circuit@;
    let ghost stmts = statement_views(body@);
    let ghost total = expand_body_spec(
        ctx@.gate_defs,
        ctx@.qregs,
        stmts,
        0,
        scope_params@,
        scope_qubits@,
        depth as nat,
    );
    let ghost mut emitted: Seq<OperationView> = Seq::empty();
    assert(total.after(emitted) == total) by {
        assert(emitted + total.ops =~= total.ops);
    }
    assert(ops0 + emitted =~= ops0);
    let mut k: usize = 0;
    proof {
        reveal(expand_body_spec);
    }
    while k < body.len()
        invariant
            k <= body.len(),
            ctx.wf(),
            stmts == statement_views(body@),
            c0 == old(circuit)@,
            ops0 == c0.operations,
            circuit@ == (CircuitView { operations: ops0 + emitted, ..c0 }),
            total == expand_body_spec(
                ctx@.gate_defs,
                ctx@.qregs,
                stmts,
                0,
                scope_params@,
                scope_qubits@,
                depth as nat,
            ),
            total == expand_body_spec(
                ctx@.gate_defs,
                ctx@.qregs,
                stmts,
                k as nat,
                scope_params@,
                scope_qubits@,
                depth as nat,
            ).after(emitted),
        decreases body.len() - k,
    {
        let ghost rest = expand_body_spec(
            ctx@.gate_defs,
            ctx@.qregs,
            stmts,
            (k + 1) as nat,
            scope_params@,
            scope_qubits@,
            depth as nat,
        );
        reveal(expand_spec);
        reveal(expand_body_spec);
        assert(stmts[k as int] == body@[k as int]@);
        match &body[k] {
            ParsedStatement::Gate(g_name, g_qubits, g_params) => {
                match resolve_single(g_qubits, &ctx.qregs, scope_qubits) {
                    Err(e) => {
                        assert(circuit@.operations =~= ops0 + (emitted + Seq::<
                            OperationView,
                        >::empty()));
                        return Err(e);
                    },
                    Ok(g_resolved_qubits) => {
                        let ghost first = expand_spec(
                            ctx@.gate_defs,
                            ctx@.qregs,
                            g_name@,
                            expr_views(g_params@),
                            g_resolved_qubits@,
                            scope_params@,
                            scope_qubits@,
                            depth as nat,
                        );
                        let step = expand_gate(
                            circuit,
                            ctx,
                            g_name.as_str(),
                            g_params,
                            &g_resolved_qubits,
                            scope_params,
                            scope_qubits,
                            depth,
                        );
                        assert(circuit@.operations =~= ops0 + (emitted + first.ops));
                        match step {
                            Err(e) => {
                                return Err(e);
                            },
                            Ok(_) => {
                                proof {
                                    assert((emitted + first.ops) + rest.ops =~= emitted + (first.ops
                                        + rest.ops));
                                    emitted = emitted + first.ops;
                                }
                            },
                        }
                    },
                }
            },
            _ => {
                proof {
                    assert(Seq::<OperationView>::empty() + rest.ops =~= rest.ops);
                }
            },
        }
        k += 1;
    }
    assert(emitted + Seq::<OperationView>::empty() =~= emitted);
    Ok(())
}

} // verus!
