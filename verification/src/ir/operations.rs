use crate::ir::gates::GateType;
use crate::ir::gates::GateTypeView;
use crate::ir::value::clone_values;
use crate::ir::value::Value;
use vstd::prelude::*;

verus! {

/// One operation of a circuit.
#[derive(Debug, PartialEq)]
pub enum Operation {
    /// A gate applied to qubits.
    Gate {
        /// Which gate.
        name: GateType,
        /// Indices of the qubits it acts on.
        qubits: Vec<usize>,
        /// Its parameters, if any.
        params: Vec<Value>,
    },
    /// A measurement of one qubit into one classical bit.
    Measure {
        /// Index of the qubit that is measured.
        qubit: usize,
        /// Index of the classical bit that takes the result.
        cbit: usize,
    },
    /// Puts a qubit back into the zero state.
    Reset {
        /// Index of the qubit.
        qubit: usize,
    },
    /// A boundary that scheduling does not cross.
    Barrier {
        /// Indices of the qubits that it spans.
        qubits: Vec<usize>,
    },
}

/// What an [`Operation`] stands for in contracts.
pub enum OperationView {
    Gate { name: GateTypeView, qubits: Seq<usize>, params: Seq<Value> },
    Measure { qubit: usize, cbit: usize },
    Reset { qubit: usize },
    Barrier { qubits: Seq<usize> },
}

impl View for Operation {
    type V = OperationView;

    open spec fn view(&self) -> OperationView {
        match self {
            Operation::Gate { name, qubits, params } => OperationView::Gate {
                name: name@,
                qubits: qubits@,
                params: params@,
            },
            Operation::Measure { qubit, cbit } => OperationView::Measure {
                qubit: *qubit,
                cbit: *cbit,
            },
            Operation::Reset { qubit } => OperationView::Reset { qubit: *qubit },
            Operation::Barrier { qubits } => OperationView::Barrier { qubits: qubits@ },
        }
    }
}

/// Copies a list of indices.
pub fn clone_indices(v: &Vec<usize>) -> (r: Vec<usize>)
    ensures
        r@ == v@,
{
    let mut out: Vec<usize> = Vec::new();
    let mut i: usize = 0;
    while i < v.len()
        invariant
            i <= v.len(),
            out@ == v@.subrange(0, i as int),
        decreases v.len() - i,
    {
        out.push(v[i]);
        assert(out@ == v@.subrange(0, i + 1));
        i += 1;
    }
    assert(v@.subrange(0, v.len() as int) == v@);
    out
}

impl Clone for Operation {
    fn clone(&self) -> (r: Self)
        ensures
            r@ == self@,
    {
        match self {
            Operation::Gate { name, qubits, params } => Operation::Gate {
                name: name.clone(),
                qubits: clone_indices(qubits),
                params: clone_values(params),
            },
            Operation::Measure { qubit, cbit } => Operation::Measure { qubit: *qubit, cbit: *cbit },
            Operation::Reset { qubit } => Operation::Reset { qubit: *qubit },
            Operation::Barrier { qubits } => Operation::Barrier { qubits: clone_indices(qubits) },
        }
    }
}

} // verus!
