use q_rust::ir::{Circuit, GateType, Operation};
use q_rust::transpiler::pass::{Pass, PassManager};

struct MockPass;

impl Pass for MockPass {
    fn name(&self) -> &str {
        "MockPass"
    }

    fn run(&self, circuit: &Circuit) -> Circuit {
        let mut new_circuit = circuit.clone();
        // Add a dummy gate to verify the pass ran
        new_circuit.add_op(Operation::Gate {
            name: GateType::ID,
            qubits: vec![0],
            params: vec![],
        });
        new_circuit
    }
}

struct Label(usize);

impl Pass for Label {
    fn name(&self) -> &str {
        "Label"
    }

    fn run(&self, circuit: &Circuit) -> Circuit {
        let mut new_circuit = circuit.clone();
        new_circuit.add_op(Operation::Reset { qubit: self.0 });
        new_circuit
    }
}

#[test]
fn test_pass_manager() {
    let circuit = Circuit::new(1, 0);
    let mut pm = PassManager::new();
    pm.add_pass(Box::new(MockPass));

    let new_circuit = pm.run(&circuit);
    assert_eq!(new_circuit.operations.len(), 1);
    match &new_circuit.operations[0] {
        Operation::Gate { name, .. } => assert_eq!(*name, GateType::ID),
        _ => panic!("Expected ID gate"),
    }
}

#[test]
fn passes_run_in_the_order_they_were_added() {
    let circuit = Circuit::new(3, 0);
    let mut pm = PassManager::new();
    pm.add_pass(Box::new(Label(2)));
    pm.add_pass(Box::new(Label(0)));
    pm.add_pass(Box::new(Label(1)));
    let out = pm.run(&circuit);
    assert_eq!(
        out.operations,
        vec![
            Operation::Reset { qubit: 2 },
            Operation::Reset { qubit: 0 },
            Operation::Reset { qubit: 1 }
        ]
    );
    assert!(circuit.operations.is_empty());
}

#[test]
fn no_passes_give_back_an_equal_circuit() {
    let mut circuit = Circuit::new(1, 1);
    circuit.add_op(Operation::Measure { qubit: 0, cbit: 0 });
    let out = PassManager::new().run(&circuit);
    assert_eq!(out.num_qubits, 1);
    assert_eq!(out.num_cbits, 1);
    assert_eq!(out.operations, circuit.operations);
}
