use q_rust::ir::value::PI_BITS;
use q_rust::ir::{GateType, Value};
use q_rust::parser::ast::{Expr, Reject};
use q_rust::parser::error::ParseError;
use q_rust::parser::expand::{
    evaluate_expr, evaluate_params, map_gate_type, resolve_argument, resolve_classical,
    resolve_single,
};
use q_rust::parser::rules::expr;
use q_rust::parser::tables::{RegisterTable, Scope};
use q_rust::parser::text::{decimal, same_text};

fn number(v: &Value) -> f64 {
    match v {
        Value::Const(bits) => f64::from_bits(*bits),
        Value::Add(a, b) => number(a) + number(b),
        Value::Sub(a, b) => number(a) - number(b),
        Value::Mul(a, b) => number(a) * number(b),
        Value::Div(a, b) => number(a) / number(b),
    }
}

fn float(x: f64) -> Expr {
    Expr::Float(x.to_bits())
}

fn var(name: &str) -> Expr {
    Expr::Var(name.to_string())
}

fn value_of(e: &Expr) -> f64 {
    number(&evaluate_expr(e, &Scope::new()).unwrap())
}

#[test]
fn literal_evaluates_to_itself() {
    assert_eq!(
        evaluate_expr(&float(3.14), &Scope::new()),
        Ok(Value::Const(3.14f64.to_bits()))
    );
    assert_eq!(value_of(&float(3.14)), 3.14);
}

#[test]
fn pi_is_always_the_constant() {
    assert_eq!(
        evaluate_expr(&var("pi"), &Scope::new()),
        Ok(Value::Const(PI_BITS))
    );
    assert_eq!(value_of(&var("pi")), std::f64::consts::PI);
    let mut scope: Scope<Value> = Scope::new();
    scope.insert("pi".to_string(), Value::Const(3.0f64.to_bits()));
    assert_eq!(evaluate_expr(&var("pi"), &scope), Ok(Value::Const(PI_BITS)));
}

#[test]
fn unbound_name_is_an_error() {
    assert_eq!(
        evaluate_expr(&var("theta"), &Scope::new()),
        Err(ParseError::UndefinedParameter("theta".to_string()))
    );
    // names are told apart by case
    let mut scope: Scope<Value> = Scope::new();
    scope.insert("theta".to_string(), Value::Const(1));
    assert_eq!(
        evaluate_expr(&var("Theta"), &scope),
        Err(ParseError::UndefinedParameter("Theta".to_string()))
    );
}

#[test]
fn bound_name_evaluates_to_its_value() {
    let mut scope: Scope<Value> = Scope::new();
    scope.insert("a".to_string(), Value::Const(1f64.to_bits()));
    scope.insert("b".to_string(), Value::Const(2f64.to_bits()));
    scope.insert("a".to_string(), Value::Const(3f64.to_bits()));
    assert_eq!(
        evaluate_expr(&var("a"), &scope),
        Ok(Value::Const(3f64.to_bits()))
    );
    assert_eq!(
        evaluate_expr(&var("b"), &scope),
        Ok(Value::Const(2f64.to_bits()))
    );
    assert_eq!(scope.get("a"), Some(&Value::Const(3f64.to_bits())));
    assert_eq!(scope.get("c"), None);
}

#[test]
fn four_operations() {
    let add = Expr::Add(Box::new(float(2.0)), Box::new(float(3.0)));
    assert_eq!(value_of(&add), 5.0);
    let sub = Expr::Sub(Box::new(float(5.0)), Box::new(float(3.0)));
    assert_eq!(value_of(&sub), 2.0);
    let mul = Expr::Mul(Box::new(float(4.0)), Box::new(float(2.5)));
    assert_eq!(value_of(&mul), 10.0);
    let div = Expr::Div(Box::new(float(10.0)), Box::new(float(2.0)));
    assert_eq!(value_of(&div), 5.0);
    assert_eq!(
        evaluate_expr(&div, &Scope::new()),
        Ok(Value::Div(
            Box::new(Value::Const(10f64.to_bits())),
            Box::new(Value::Const(2f64.to_bits()))
        ))
    );
}

#[test]
fn nested_expression() {
    // (pi / 2) + 1
    let e = Expr::Add(
        Box::new(Expr::Div(Box::new(var("pi")), Box::new(float(2.0)))),
        Box::new(float(1.0)),
    );
    let expected = std::f64::consts::PI / 2.0 + 1.0;
    assert!((value_of(&e) - expected).abs() < 1e-10);
}

#[test]
fn division_by_zero_is_left_to_the_arithmetic() {
    let e = Expr::Div(Box::new(float(10.0)), Box::new(float(0.0)));
    assert_eq!(value_of(&e), f64::INFINITY);
}

#[test]
fn left_operand_fails_first() {
    let e = Expr::Add(Box::new(var("l")), Box::new(var("r")));
    assert_eq!(
        evaluate_expr(&e, &Scope::new()),
        Err(ParseError::UndefinedParameter("l".to_string()))
    );
    let e = Expr::Mul(Box::new(float(1.0)), Box::new(var("r")));
    assert_eq!(
        evaluate_expr(&e, &Scope::new()),
        Err(ParseError::UndefinedParameter("r".to_string()))
    );
}

#[test]
fn parameters_are_evaluated_in_order() {
    let mut scope: Scope<Value> = Scope::new();
    scope.insert("a".to_string(), Value::Const(7));
    assert_eq!(
        evaluate_params(&vec![float(1.0), var("a"), var("pi")], &scope),
        Ok(vec![
            Value::Const(1f64.to_bits()),
            Value::Const(7),
            Value::Const(PI_BITS)
        ])
    );
    assert_eq!(evaluate_params(&vec![], &scope), Ok(vec![]));
    assert_eq!(
        evaluate_params(&vec![var("x"), var("y")], &scope),
        Err(ParseError::UndefinedParameter("x".to_string()))
    );
    assert_eq!(
        evaluate_params(&vec![var("a"), var("y")], &scope),
        Err(ParseError::UndefinedParameter("y".to_string()))
    );
}

#[test]
fn numbers_are_read_as_doubles() {
    assert_eq!(expr("1.57"), Ok(("", float(1.57))));
    assert_eq!(expr("0"), Ok(("", float(0.0))));
    assert_eq!(expr("-2.5e3x"), Ok(("x", float(-2500.0))));
    assert_eq!(expr(".5"), Ok(("", float(0.5))));
    assert_eq!(expr("5."), Ok(("", float(5.0))));
    assert_eq!(expr("+7"), Ok(("", float(7.0))));
    assert_eq!(expr("1E2"), Ok(("", float(100.0))));
    assert_eq!(expr("inf"), Ok(("", float(f64::INFINITY))));
    assert_eq!(expr("infinity"), Ok(("inity", float(f64::INFINITY))));
    assert_eq!(expr("0.1"), Ok(("", Expr::Float(0x3FB999999999999A))));
    match expr("NaN") {
        Ok(("", Expr::Float(bits))) => assert!(f64::from_bits(bits).is_nan()),
        other => panic!("{:?}", other),
    }
}

#[test]
fn number_that_breaks_off_in_its_exponent_fails_for_good() {
    assert_eq!(expr("1e"), Err(Reject::Failure));
    assert_eq!(expr("1e+"), Err(Reject::Failure));
    assert_eq!(expr("2 * (3 + 4E-)"), Err(Reject::Failure));
    assert_eq!(expr("e1"), Ok(("", var("e1"))));
    assert_eq!(expr(""), Err(Reject::Error));
    assert_eq!(expr("*2"), Err(Reject::Error));
}

#[test]
fn operators_group_to_the_left_and_products_bind_tighter() {
    let one = || Box::new(float(1.0));
    let two = || Box::new(float(2.0));
    let three = || Box::new(float(3.0));
    assert_eq!(
        expr("1-2-3"),
        Ok(("", Expr::Sub(Box::new(Expr::Sub(one(), two())), three())))
    );
    assert_eq!(
        expr("1/2/3"),
        Ok(("", Expr::Div(Box::new(Expr::Div(one(), two())), three())))
    );
    assert_eq!(
        expr("1+2*3"),
        Ok(("", Expr::Add(one(), Box::new(Expr::Mul(two(), three())))))
    );
    assert_eq!(
        expr("(1+2)*3"),
        Ok(("", Expr::Mul(Box::new(Expr::Add(one(), two())), three())))
    );
    // an operator that nothing follows is left where it is
    assert_eq!(expr("1 + "), Ok((" + ", float(1.0))));
    assert_eq!(expr("1 +2 )"), Ok((" )", Expr::Add(one(), two()))));
}

#[test]
fn gate_names() {
    let none: Vec<Value> = vec![];
    assert_eq!(map_gate_type("h", &none), GateType::H);
    assert_eq!(map_gate_type("x", &none), GateType::X);
    assert_eq!(map_gate_type("y", &none), GateType::Y);
    assert_eq!(map_gate_type("z", &none), GateType::Z);
    assert_eq!(map_gate_type("cx", &none), GateType::CX);
    assert_eq!(map_gate_type("id", &none), GateType::ID);
    assert_eq!(map_gate_type("s", &none), GateType::S);
    assert_eq!(map_gate_type("sdg", &none), GateType::Sdg);
    assert_eq!(map_gate_type("t", &none), GateType::T);
    assert_eq!(map_gate_type("tdg", &none), GateType::Tdg);
    assert_eq!(map_gate_type("swap", &none), GateType::SWAP);
    assert_eq!(map_gate_type("ccx", &none), GateType::CCX);
    assert_eq!(
        map_gate_type("H", &none),
        GateType::Custom("H".to_string())
    );
    assert_eq!(
        map_gate_type("u", &none),
        GateType::Custom("u".to_string())
    );
    assert_eq!(map_gate_type("", &none), GateType::Custom(String::new()));
    assert!(map_gate_type("h", &none).is_primitive());
    assert!(!map_gate_type("hh", &none).is_primitive());

    let p = vec![Value::Const(1), Value::Const(2), Value::Const(3)];
    let zero = Value::Const(0);
    assert_eq!(map_gate_type("rx", &p), GateType::RX(Value::Const(1)));
    assert_eq!(map_gate_type("ry", &p), GateType::RY(Value::Const(1)));
    assert_eq!(map_gate_type("rz", &p), GateType::RZ(Value::Const(1)));
    assert_eq!(map_gate_type("u1", &p), GateType::RZ(Value::Const(1)));
    assert_eq!(
        map_gate_type("u2", &p),
        GateType::U(
            Value::Const(0x3FF921FB54442D18),
            Value::Const(1),
            Value::Const(2)
        )
    );
    assert_eq!(
        map_gate_type("u3", &p),
        GateType::U(Value::Const(1), Value::Const(2), Value::Const(3))
    );
    assert_eq!(
        map_gate_type("U", &p),
        GateType::U(Value::Const(1), Value::Const(2), Value::Const(3))
    );
    assert_eq!(map_gate_type("rx", &none), GateType::RX(zero.clone()));
    assert_eq!(
        map_gate_type("U", &vec![Value::Const(9)]),
        GateType::U(Value::Const(9), zero.clone(), zero)
    );
}

fn registers() -> RegisterTable {
    let mut table = RegisterTable::new();
    table.declare("a".to_string(), 2).unwrap();
    table.declare("b".to_string(), 3).unwrap();
    table.declare("empty".to_string(), 0).unwrap();
    table.declare("c".to_string(), 1).unwrap();
    table
}

#[test]
fn register_table_keeps_running_totals() {
    let table = registers();
    assert_eq!(table.total(), 6);
    assert_eq!(table.find("a"), Some((0, 2)));
    assert_eq!(table.find("b"), Some((2, 3)));
    assert_eq!(table.find("empty"), Some((5, 0)));
    assert_eq!(table.find("c"), Some((5, 1)));
    assert_eq!(table.find("d"), None);
    let mut table = table;
    assert_eq!(
        table.declare("huge".to_string(), usize::MAX),
        Err(ParseError::RegisterSpaceExhausted)
    );
    assert_eq!(table.total(), 6);
    assert_eq!(table.find("huge"), None);
    assert_eq!(table.declare("rest".to_string(), usize::MAX - 6), Ok(()));
    assert_eq!(table.total(), usize::MAX);
    assert_eq!(table.find("rest"), Some((6, usize::MAX - 6)));
}

#[test]
fn arguments_resolve_against_scope_then_registers() {
    let table = registers();
    let mut scope: Scope<usize> = Scope::new();
    scope.insert("x".to_string(), 4);
    scope.insert("a".to_string(), 1);
    let arg = |name: &str, index: Option<usize>| (name.to_string(), index);

    assert_eq!(resolve_argument(&arg("x", None), &table, &scope), Ok(vec![4]));
    assert_eq!(resolve_argument(&arg("a", None), &table, &scope), Ok(vec![1]));
    assert_eq!(
        resolve_argument(&arg("a", Some(0)), &table, &scope),
        Err(ParseError::CannotIndexLocalQubit("a".to_string()))
    );
    assert_eq!(
        resolve_argument(&arg("b", None), &table, &scope),
        Ok(vec![2, 3, 4])
    );
    assert_eq!(
        resolve_argument(&arg("b", Some(2)), &table, &scope),
        Ok(vec![4])
    );
    assert_eq!(
        resolve_argument(&arg("b", Some(3)), &table, &scope),
        Err(ParseError::QubitIndexOutOfBounds("b".to_string(), 3))
    );
    assert_eq!(
        resolve_argument(&arg("empty", None), &table, &scope),
        Ok(vec![])
    );
    assert_eq!(
        resolve_argument(&arg("empty", Some(0)), &table, &scope),
        Err(ParseError::QubitIndexOutOfBounds("empty".to_string(), 0))
    );
    assert_eq!(
        resolve_argument(&arg("r", Some(0)), &table, &scope),
        Err(ParseError::UndefinedRegister("r".to_string()))
    );
    let nothing: Scope<usize> = Scope::new();
    assert_eq!(
        resolve_argument(&arg("a", Some(1)), &table, &nothing),
        Ok(vec![1])
    );
    assert_eq!(
        resolve_argument(&arg("a", None), &table, &nothing),
        Ok(vec![0, 1])
    );
}

#[test]
fn measurement_targets_resolve_against_classical_registers() {
    let table = registers();
    let arg = |name: &str, index: Option<usize>| (name.to_string(), index);
    assert_eq!(resolve_classical(&arg("b", None), &table), Ok(vec![2, 3, 4]));
    assert_eq!(resolve_classical(&arg("b", Some(1)), &table), Ok(vec![3]));
    assert_eq!(
        resolve_classical(&arg("b", Some(9)), &table),
        Err(ParseError::ClassicalIndexOutOfBounds("b".to_string(), 9))
    );
    assert_eq!(
        resolve_classical(&arg("z", None), &table),
        Err(ParseError::UndefinedClassicalRegister("z".to_string()))
    );
}

#[test]
fn body_arguments_must_each_be_one_qubit() {
    let table = registers();
    let mut scope: Scope<usize> = Scope::new();
    scope.insert("x".to_string(), 9);
    let arg = |name: &str, index: Option<usize>| (name.to_string(), index);
    assert_eq!(
        resolve_single(&vec![arg("x", None), arg("c", None), arg("b", Some(1))], &table, &scope),
        Ok(vec![9, 5, 3])
    );
    assert_eq!(resolve_single(&vec![], &table, &scope), Ok(vec![]));
    assert_eq!(
        resolve_single(&vec![arg("x", None), arg("b", None)], &table, &scope),
        Err(ParseError::BroadcastInGateBody("b".to_string()))
    );
    assert_eq!(
        resolve_single(&vec![arg("empty", None), arg("nowhere", None)], &table, &scope),
        Err(ParseError::BroadcastInGateBody("empty".to_string()))
    );
    assert_eq!(
        resolve_single(&vec![arg("nowhere", None), arg("b", None)], &table, &scope),
        Err(ParseError::UndefinedRegister("nowhere".to_string()))
    );
}

#[test]
fn numbers_in_decimal() {
    assert_eq!(decimal(0), "0");
    assert_eq!(decimal(7), "7");
    assert_eq!(decimal(10), "10");
    assert_eq!(decimal(1234567890), "1234567890");
    assert_eq!(decimal(usize::MAX), usize::MAX.to_string());
}

#[test]
fn texts_are_compared_by_their_characters() {
    assert!(same_text("", ""));
    assert!(same_text("pi", "pi"));
    assert!(!same_text("pi", "Pi"));
    assert!(!same_text("pi", "pi "));
    assert!(!same_text("é", "e"));
    assert!(same_text("é", "é"));
}
