use q_rust::parser::error::{ErrorKind, ParseError, MAX_EXPANSION_DEPTH};
use q_rust::parser::{parse_program, parse_qasm};

fn error_of(source: &str) -> ParseError {
    parse_program(source).unwrap_err()
}

#[test]
fn empty_text_is_a_header_error() {
    assert_eq!(error_of(""), ParseError::EmptyInput);
    assert_eq!(error_of("  \n\t// only a comment"), ParseError::EmptyInput);
    assert_eq!(error_of("// one\n// two\n"), ParseError::EmptyInput);
    assert_eq!(ParseError::EmptyInput.kind(), ErrorKind::HeaderError);
    assert_eq!(
        parse_qasm("").unwrap_err(),
        "Empty file or missing OPENQASM header"
    );
}

#[test]
fn text_without_version_statement_is_a_header_error() {
    assert_eq!(error_of("qreg q[1];"), ParseError::InvalidHeader);
    assert_eq!(error_of("OPENQASM;"), ParseError::InvalidHeader);
    assert_eq!(error_of("OPENQASM 2.0"), ParseError::InvalidHeader);
    assert_eq!(error_of("openqasm 2.0;"), ParseError::InvalidHeader);
    assert_eq!(ParseError::InvalidHeader.kind(), ErrorKind::HeaderError);
    assert_eq!(
        parse_qasm("qreg q[1];").unwrap_err(),
        "Missing or invalid OPENQASM header. File must start with 'OPENQASM 2.0;'"
    );
}

#[test]
fn other_versions_are_header_errors() {
    let e = error_of("OPENQASM 3.0; qreg q[1];");
    assert_eq!(e, ParseError::UnsupportedVersion("3.0".to_string()));
    assert_eq!(e.kind(), ErrorKind::HeaderError);
    assert_eq!(
        e.message(),
        "Unsupported OpenQASM version: '3.0'. Only '2.0' is supported."
    );
    // the version is everything up to the semicolon
    assert_eq!(
        error_of("OPENQASM 2.0 ;"),
        ParseError::UnsupportedVersion("2.0 ".to_string())
    );
}

#[test]
fn spaces_before_the_version_do_not_belong_to_it() {
    assert!(parse_program("OPENQASM  \t 2.0;").is_ok());
}

#[test]
fn unmatched_text_is_reported_from_where_it_starts() {
    let source = "OPENQASM 2.0;\n qreg q[1]\n x q[0];";
    let e = error_of(source);
    assert_eq!(e, ParseError::Syntax("qreg q[1]\n x q[0];".to_string()));
    assert_eq!(e.kind(), ErrorKind::SyntaxError);
    assert_eq!(e.message(), "Parse error at: qreg q[1]\n x q[0];");
    assert_eq!(
        error_of("OPENQASM 2.0; qreg q[1]; é"),
        ParseError::Syntax("é".to_string())
    );
}

#[test]
fn file_directive_is_unsupported() {
    let e = error_of("OPENQASM 2.0;\ninclude \"qelib1.inc\";");
    assert_eq!(e, ParseError::UnsupportedInclude("qelib1.inc".to_string()));
    assert_eq!(e.kind(), ErrorKind::UnsupportedFeature);
    assert_eq!(
        e.message(),
        "Includes are not supported. Please resolve all imports before parsing. Found: 'include \"qelib1.inc\"'"
    );
}

#[test]
fn conditional_is_unsupported() {
    let e = error_of("OPENQASM 2.0; qreg q[1]; creg c[1]; if (c == 1) x q[0];");
    assert_eq!(e, ParseError::UnsupportedConditional);
    assert_eq!(e.kind(), ErrorKind::UnsupportedFeature);
    assert_eq!(e.message(), "Conditional operations not yet supported");
    // the statement under the condition is not looked at any further
    assert_eq!(
        error_of("OPENQASM 2.0; if(nowhere==7)measure a->b;"),
        ParseError::UnsupportedConditional
    );
}

#[test]
fn undefined_registers() {
    let e = error_of("OPENQASM 2.0; qreg q[1]; x r[0];");
    assert_eq!(e, ParseError::UndefinedRegister("r".to_string()));
    assert_eq!(e.kind(), ErrorKind::UndefinedRegister);
    assert_eq!(e.message(), "Undefined quantum register or argument: r");

    let e = error_of("OPENQASM 2.0; qreg q[1]; measure q[0] -> d[0];");
    assert_eq!(e, ParseError::UndefinedClassicalRegister("d".to_string()));
    assert_eq!(e.kind(), ErrorKind::UndefinedRegister);
    assert_eq!(e.message(), "Undefined creg");

    // a register is known only from its declaration on
    assert_eq!(
        error_of("OPENQASM 2.0; x q[0]; qreg q[1];"),
        ParseError::UndefinedRegister("q".to_string())
    );
    // a classical register is no quantum register
    assert_eq!(
        error_of("OPENQASM 2.0; creg c[1]; x c[0];"),
        ParseError::UndefinedRegister("c".to_string())
    );
}

#[test]
fn subscripts_out_of_bounds() {
    let e = error_of("OPENQASM 2.0; qreg q[1]; x q[10];");
    assert_eq!(e, ParseError::QubitIndexOutOfBounds("q".to_string(), 10));
    assert_eq!(e.kind(), ErrorKind::IndexOutOfBounds);
    assert_eq!(e.message(), "Qubit index out of bounds: q[10]");
    assert_eq!(
        error_of("OPENQASM 2.0; qreg q[4]; x q[4];"),
        ParseError::QubitIndexOutOfBounds("q".to_string(), 4)
    );
    assert!(parse_program("OPENQASM 2.0; qreg q[4]; x q[3];").is_ok());

    let e = error_of("OPENQASM 2.0; qreg q[1]; creg c[2]; measure q[0] -> c[5];");
    assert_eq!(e, ParseError::ClassicalIndexOutOfBounds("c".to_string(), 5));
    assert_eq!(e.kind(), ErrorKind::IndexOutOfBounds);
    assert_eq!(e.message(), "Index out of bounds");
}

#[test]
fn formal_qubit_cannot_be_subscripted() {
    let e = error_of("OPENQASM 2.0; qreg q[1]; gate g a { h a[0]; } g q[0];");
    assert_eq!(e, ParseError::CannotIndexLocalQubit("a".to_string()));
    assert_eq!(e.kind(), ErrorKind::CannotIndexLocalQubit);
    assert_eq!(e.message(), "Cannot index a qubit argument: a");
}

#[test]
fn unbound_parameter() {
    let e = error_of("OPENQASM 2.0; qreg q[1]; rx(theta) q[0];");
    assert_eq!(e, ParseError::UndefinedParameter("theta".to_string()));
    assert_eq!(e.kind(), ErrorKind::UndefinedParameter);
    assert_eq!(e.message(), "Undefined parameter: theta");
    // the first unbound name of the first parameter at fault
    assert_eq!(
        error_of("OPENQASM 2.0; qreg q[1]; u3(1, b + a, c) q[0];"),
        ParseError::UndefinedParameter("b".to_string())
    );
}

#[test]
fn wrong_number_of_parameters_or_qubits() {
    let e = error_of("OPENQASM 2.0; qreg q[2]; gate g(a) x { rx(a) x; } g q[0];");
    assert_eq!(
        e,
        ParseError::ParamArityMismatch {
            gate: "g".to_string(),
            expected: 1,
            found: 0
        }
    );
    assert_eq!(e.kind(), ErrorKind::ParamArityMismatch);
    assert_eq!(e.message(), "Gate g expects 1 params, got 0");

    let e = error_of("OPENQASM 2.0; qreg q[2]; gate g a, b { cx a, b; } g q[0];");
    assert_eq!(
        e,
        ParseError::QubitArityMismatch {
            gate: "g".to_string(),
            expected: 2,
            found: 1
        }
    );
    assert_eq!(e.kind(), ErrorKind::QubitArityMismatch);
    assert_eq!(e.message(), "Gate g expects 2 qubits, got 1");

    // parameters are counted before qubits
    assert_eq!(
        error_of("OPENQASM 2.0; qreg q[2]; gate g(a) x { rx(a) x; } g(1, 2) q[0], q[1];"),
        ParseError::ParamArityMismatch {
            gate: "g".to_string(),
            expected: 1,
            found: 2
        }
    );
}

#[test]
fn registers_of_different_sizes_do_not_broadcast() {
    let e = error_of("OPENQASM 2.0; qreg a[2]; qreg b[3]; cx a, b;");
    assert_eq!(e, ParseError::BroadcastMismatch);
    assert_eq!(e.kind(), ErrorKind::BroadcastMismatch);
    assert_eq!(e.message(), "Register size mismatch in gate call");
    // a register without elements is neither of size one nor of the largest size
    assert_eq!(
        error_of("OPENQASM 2.0; qreg a[0]; h a;"),
        ParseError::BroadcastMismatch
    );

    let e = error_of("OPENQASM 2.0; qreg q[2]; creg c[3]; measure q -> c;");
    assert_eq!(e, ParseError::MeasureBroadcastMismatch);
    assert_eq!(e.kind(), ErrorKind::MeasureBroadcastMismatch);
    assert_eq!(e.message(), "Measure register size mismatch");
    assert_eq!(
        error_of("OPENQASM 2.0; qreg q[2]; creg c[2]; measure q[0] -> c;"),
        ParseError::MeasureBroadcastMismatch
    );
}

#[test]
fn whole_register_inside_a_gate_body() {
    let e = error_of("OPENQASM 2.0; qreg q[2]; gate g a { h q; } g q[0];");
    assert_eq!(e, ParseError::BroadcastInGateBody("q".to_string()));
    assert_eq!(e.kind(), ErrorKind::BroadcastMismatch);
    assert_eq!(
        e.message(),
        "Broadcasting not allowed in gate definition body for argument (\"q\", None)"
    );
    // a register of one element stands for its element
    let ok = parse_program("OPENQASM 2.0; qreg q[1]; gate g a { h q; } g q[0];").unwrap();
    assert_eq!(ok.operations.len(), 1);
}

#[test]
fn unknown_gate() {
    let e = error_of("OPENQASM 2.0; qreg q[1]; foo q[0];");
    assert_eq!(e, ParseError::UnknownGate("foo".to_string()));
    assert_eq!(e.kind(), ErrorKind::UnknownGate);
    assert_eq!(e.message(), "Unknown gate: foo");
    // a gate is known only from its definition on
    assert_eq!(
        error_of("OPENQASM 2.0; qreg q[1]; g q[0]; gate g a { h a; }"),
        ParseError::UnknownGate("g".to_string())
    );
}

#[test]
fn definition_that_leads_back_to_itself() {
    let e = error_of("OPENQASM 2.0; qreg q[1]; gate a x { a x; } a q[0];");
    assert_eq!(e, ParseError::RecursionLimitExceeded("a".to_string()));
    assert_eq!(e.kind(), ErrorKind::RecursionLimitExceeded);
    assert_eq!(e.message(), "Gate definitions nest too deeply at gate: a");
    let e = error_of(
        "OPENQASM 2.0; qreg q[1]; gate a x { b x; } gate b x { h x; a x; } a q[0];",
    );
    assert!(matches!(e, ParseError::RecursionLimitExceeded(_)));
}

fn chain_of_definitions(levels: usize) -> String {
    let mut source = String::from("OPENQASM 2.0; qreg q[1]; gate g0 x { h x; } ");
    for level in 1..levels {
        source.push_str(&format!("gate g{} x {{ g{} x; }} ", level, level - 1));
    }
    source.push_str(&format!("g{} q[0];", levels - 1));
    source
}

#[test]
fn nesting_up_to_the_limit_is_expanded() {
    // the call stands at no depth; the body of definition k is entered at depth k
    let deepest = chain_of_definitions(MAX_EXPANSION_DEPTH);
    assert_eq!(parse_program(&deepest).unwrap().operations.len(), 1);
    let too_deep = chain_of_definitions(MAX_EXPANSION_DEPTH + 1);
    assert_eq!(
        error_of(&too_deep),
        ParseError::RecursionLimitExceeded("g0".to_string())
    );
}

#[test]
fn registers_beyond_the_index_type() {
    let source = format!("OPENQASM 2.0; qreg a[{}]; qreg b[1];", usize::MAX);
    let e = error_of(&source);
    assert_eq!(e, ParseError::RegisterSpaceExhausted);
    assert_eq!(e.kind(), ErrorKind::RegisterSpaceExhausted);
    assert_eq!(e.message(), "Too many register elements to index");
    let fits = format!("OPENQASM 2.0; qreg a[{}]; creg b[1];", usize::MAX);
    let circuit = parse_program(&fits).unwrap();
    assert_eq!(circuit.num_qubits, usize::MAX);
    assert_eq!(circuit.num_cbits, 1);
}

#[test]
fn number_too_large_for_a_size_is_no_size() {
    let source = "OPENQASM 2.0; qreg a[340282366920938463463374607431768211456];";
    assert_eq!(
        error_of(source),
        ParseError::Syntax("qreg a[340282366920938463463374607431768211456];".to_string())
    );
}

#[test]
fn parsing_stops_at_the_first_error() {
    assert_eq!(
        error_of("OPENQASM 2.0; qreg q[1]; x r[0]; include \"a\"; foo q[0];"),
        ParseError::UndefinedRegister("r".to_string())
    );
    // an error of resolution comes before one of broadcasting
    assert_eq!(
        error_of("OPENQASM 2.0; qreg a[2]; qreg b[3]; ccx a, b, c;"),
        ParseError::UndefinedRegister("c".to_string())
    );
}
