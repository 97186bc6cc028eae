use crate::ir::circuit::Circuit;
use crate::ir::circuit::CircuitView;
use vstd::prelude::*;

verus! {

/// A transformation of circuits. Whoever writes a pass says in
/// [`Pass::transform`] what it makes of a circuit, and [`Pass::run`] must
/// return that.
pub trait Pass {
    /// What the pass makes of a circuit. A pass that does not say
    /// otherwise leaves the circuit as it is.
    open spec fn transform(&self, circuit: CircuitView) -> CircuitView {
        circuit
    }

    /// The name of the pass.
    fn name(&self) -> &str;

    /// Runs the pass on a circuit.
    fn run(&self, circuit: &Circuit) -> (r: Circuit)
        ensures
            r@ == self.transform(circuit@),
    ;
}

/// What passes make of a circuit when each is given what the one before it
/// returned.
pub open spec fn run_all(passes: Seq<Box<dyn Pass>>, circuit: CircuitView) -> CircuitView
    decreases passes.len(),
{
    if passes.len() == 0 {
        circuit
    } else {
        passes.last().transform(run_all(passes.drop_last(), circuit))
    }
}

/// An ordered list of passes.
pub struct PassManager {
    pub passes: Vec<Box<dyn Pass>>,
}

impl PassManager {
    /// A manager without passes.
    pub fn new() -> (m: Self)
        ensures
            m.passes@ == Seq::<Box<dyn Pass>>::empty(),
    {
        PassManager { passes: Vec::new() }
    }

    /// Adds a pass behind those that are there.
    pub fn add_pass(&mut self, pass: Box<dyn Pass>)
        ensures
            final(self).passes@ == old(self).passes@.push(pass),
    {
        self.passes.push(pass);
    }

    /// Runs the passes in order, the first on a copy of `circuit`, each
    /// other on what the one before it returned.
    pub fn run(&self, circuit: &Circuit) -> (r: Circuit)
        ensures
            r@ == run_all(self.passes@, circuit@),
    {
        let mut current = circuit.clone();
        let mut i: usize = 0;
        while i < self.passes.len()
            invariant
                i <= self.passes.len(),
                current@ == run_all(self.passes@.take(i as int), circuit@),
            decreases self.passes.len() - i,
        {
            proof {
                assert(self.passes@.take(i + 1).drop_last() =~= self.passes@.take(i as int));
                assert(self.passes@.take(i + 1).last() == self.passes@[i as int]);
            }
            current = self.passes[i].run(&current);
            i += 1;
        }
        assert(self.passes@.take(i as int) =~= self.passes@);
        current
    }
}

} // verus!
