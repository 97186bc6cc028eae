use q_rust::ir::{Circuit, GateType, Operation};

#[test]
fn test_circuit_creation() {
    let circuit = Circuit::new(2, 2);
    assert_eq!(circuit.num_qubits, 2);
    assert_eq!(circuit.num_cbits, 2);
    assert!(circuit.operations.is_empty());
}

#[test]
fn test_add_op() {
    let mut circuit = Circuit::new(1, 0);
    let op = Operation::Gate {
        name: GateType::H,
        qubits: vec![0],
        params: vec![],
    };
    circuit.add_op(op.clone());
    assert_eq!(circuit.operations.len(), 1);
    assert_eq!(circuit.operations[0], op);
}

#[test]
fn test_validation_no_measurements() {
    let mut circuit = Circuit::new(1, 0);
    circuit.add_op(Operation::Gate {
        name: GateType::H,
        qubits: vec![0],
        params: vec![],
    });
    let warnings = circuit.validate();
    assert_eq!(warnings.len(), 1);
    assert!(warnings[0].contains("No measurements found"));
}

#[test]
fn test_validation_with_measurements() {
    let mut circuit = Circuit::new(1, 1);
    circuit.add_op(Operation::Measure { qubit: 0, cbit: 0 });
    let warnings = circuit.validate();
    assert!(warnings.is_empty());
}

#[test]
fn default_circuit_is_empty() {
    let circuit = Circuit::default();
    assert_eq!(circuit.num_qubits, 0);
    assert_eq!(circuit.num_cbits, 0);
    assert!(circuit.operations.is_empty());
}

#[test]
fn clone_keeps_counts_and_operations() {
    let mut circuit = Circuit::new(2, 1);
    circuit.add_op(Operation::Gate {
        name: GateType::Custom("mine".to_string()),
        qubits: vec![1, 0],
        params: vec![],
    });
    circuit.add_op(Operation::Barrier { qubits: vec![0, 1] });
    circuit.add_op(Operation::Reset { qubit: 1 });
    circuit.add_op(Operation::Measure { qubit: 1, cbit: 0 });
    let copy = circuit.clone();
    assert_eq!(copy.num_qubits, 2);
    assert_eq!(copy.num_cbits, 1);
    assert_eq!(copy.operations, circuit.operations);
}

#[test]
fn warning_is_given_in_full() {
    let circuit = Circuit::new(0, 0);
    assert_eq!(
        circuit.validate(),
        vec!["Warning: No measurements found. The circuit will not produce classical output on hardware.".to_string()]
    );
}

#[test]
fn measurement_anywhere_silences_the_warning() {
    let mut circuit = Circuit::new(2, 2);
    circuit.add_op(Operation::Reset { qubit: 0 });
    circuit.add_op(Operation::Measure { qubit: 1, cbit: 1 });
    circuit.add_op(Operation::Barrier { qubits: vec![0] });
    assert!(circuit.validate().is_empty());
}
