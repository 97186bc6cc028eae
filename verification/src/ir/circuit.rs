use crate::ir::operations::Operation;
use crate::ir::operations::OperationView;
use vstd::prelude::*;
use vstd::string::*;

verus! {

/// A quantum circuit: how many qubits and classical bits it needs, and its
/// operations in the order in which they are applied.
#[derive(Debug)]
pub struct Circuit {
    /// Total number of qubits in the circuit.
    pub num_qubits: usize,
    /// Total number of classical bits in the circuit.
    pub num_cbits: usize,
    /// The operations, first to last.
    pub operations: Vec<Operation>,
}

/// What a [`Circuit`] stands for in contracts.
pub struct CircuitView {
    pub num_qubits: usize,
    pub num_cbits: usize,
    pub operations: Seq<OperationView>,
}

/// The views of a list of operations, in order.
pub open spec fn operation_views(ops: Seq<Operation>) -> Seq<OperationView> {
    ops.map_values(|op: Operation| op@)
}

/// Whether a list of operations holds a measurement.
pub open spec fn has_measurement(ops: Seq<OperationView>) -> bool {
    exists|i: int| 0 <= i < ops.len() && #[trigger] ops[i] is Measure
}

impl View for Circuit {
    type V = CircuitView;

    open spec fn view(&self) -> CircuitView {
        CircuitView {
            num_qubits: self.num_qubits,
            num_cbits: self.num_cbits,
            operations: operation_views(self.operations@),
        }
    }
}

impl Circuit {
    /// An empty circuit over the given numbers of qubits and classical bits.
    pub fn new(num_qubits: usize, num_cbits: usize) -> (c: Self)
        ensures
            c@ == (CircuitView { num_qubits, num_cbits, operations: Seq::empty() }),
    {
        let c = Circuit { num_qubits, num_cbits, operations: Vec::new() };
        assert(operation_views(c.operations@) =~= Seq::empty());
        c
    }

    /// Appends an operation.
    pub fn add_op(&mut self, op: Operation)
        ensures
            final(self)@ == (CircuitView { operations: old(self)@.operations.push(op@), ..old(self)@ }),
    {
        self.operations.push(op);
        assert(operation_views(self.operations@) =~= operation_views(old(self).operations@).push(
            op@,
        ));
    }

    /// The text of the one warning that [`Circuit::validate`] gives.
    pub open spec fn no_measurement_warning() -> Seq<char> {
        "Warning: No measurements found. The circuit will not produce classical output on hardware."@
    }

    /// Advice on the finished circuit, which never stands in the way of its
    /// use: one warning where the circuit measures nothing, none otherwise.
    pub fn validate(&self) -> (warnings: Vec<String>)
        ensures
            has_measurement(self@.operations) ==> warnings@.len() == 0,
            !has_measurement(self@.operations) ==> warnings@.len() == 1 && warnings@[0]@
                == Self::no_measurement_warning(),
    {
        let mut warnings: Vec<String> = Vec::new();
        let mut found = false;
        let mut i: usize = 0;
        while i < self.operations.len()
            invariant
                i <= self.operations.len(),
                found == exists|k: int|
                    0 <= k < i && #[trigger] operation_views(self.operations@)[k] is Measure,
            decreases self.operations.len() - i,
        {
            match &self.operations[i] {
                Operation::Measure { .. } => {
                    assert(operation_views(self.operations@)[i as int] is Measure);
                    found = true;
                },
                _ => {
                    assert(!(operation_views(self.operations@)[i as int] is Measure));
                },
            }
            i += 1;
        }
        if !found {
            warnings.push(
                String::from_str(
                    "Warning: No measurements found. The circuit will not produce classical output on hardware.",
                ),
            );
        }
        warnings
    }
}

impl Default for Circuit {
    fn default() -> (c: Self)
        ensures
            c@ == (CircuitView { num_qubits: 0, num_cbits: 0, operations: Seq::empty() }),
    {
        Circuit::new(0, 0)
    }
}

impl Clone for Circuit {
    fn clone(&self) -> (c: Self)
        ensures
            c@ == self@,
    {
        let mut operations: Vec<Operation> = Vec::new();
        let mut i: usize = 0;
        while i < self.operations.len()
            invariant
                i <= self.operations.len(),
                operations@.len() == i,
                forall|k: int| 0 <= k < i ==> (#[trigger] operations@[k])@ == self.operations@[k]@,
            decreases self.operations.len() - i,
        {
            operations.push(self.operations[i].clone());
            i += 1;
        }
        assert(operation_views(operations@) =~= operation_views(self.operations@));
        Circuit { num_qubits: self.num_qubits, num_cbits: self.num_cbits, operations }
    }
}

} // verus!
