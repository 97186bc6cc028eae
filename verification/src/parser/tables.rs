use crate::parser::ast::statement_views;
use crate::parser::ast::name_views;
use crate::parser::ast::ParsedStatement;
use crate::parser::ast::StatementView;
use crate::parser::error::ParseError;
use crate::parser::text::same_text;
use vstd::prelude::*;
use vstd::string::*;

verus! {

/// What a name is bound to in a list of bindings: the binding made last
/// hides the earlier ones of the same name.
pub open spec fn lookup<V>(bindings: Seq<(Seq<char>, V)>, name: Seq<char>) -> Option<V>
    decreases bindings.len(),
{
    if bindings.len() == 0 {
        None
    } else if bindings.last().0 == name {
        Some(bindings.last().1)
    } else {
        lookup(bindings.drop_last(), name)
    }
}

/// Names bound to values, innermost binding last.
pub struct Scope<V> {
    pub entries: Vec<(String, V)>,
}

impl<V> View for Scope<V> {
    type V = Seq<(Seq<char>, V)>;

    open spec fn view(&self) -> Seq<(Seq<char>, V)> {
        self.entries@.map_values(|e: (String, V)| (e.0@, e.1))
    }
}

impl<V> Scope<V> {
    /// A scope that binds nothing.
    pub fn new() -> (s: Self)
        ensures
            s@ == Seq::<(Seq<char>, V)>::empty(),
    {
        let s = Scope { entries: Vec::new() };
        assert(s@ =~= Seq::<(Seq<char>, V)>::empty());
        s
    }

    /// Binds a name, hiding what it was bound to before.
    pub fn insert(&mut self, name: String, value: V)
        ensures
            final(self)@ == old(self)@.push((name@, value)),
    {
        self.entries.push((name, value));
        assert(self@ =~= old(self)@.push((name@, value)));
    }

    /// What a name is bound to, if to anything.
    pub fn get(&self, name: &str) -> (r: Option<&V>)
        ensures
            match r {
                Some(v) => lookup(self@, name@) == Some(*v),
                None => lookup(self@, name@) is None,
            },
    {
        let mut i: usize = self.entries.len();
        assert(self@.take(i as int) =~= self@);
        while i > 0
            invariant
                i <= self.entries.len(),
                lookup(self@, name@) == lookup(self@.take(i as int), name@),
            decreases i,
        {
            let ghost prefix = self@.take(i as int);
            assert(prefix.last() == self@[i - 1]);
            assert(prefix.drop_last() =~= self@.take(i - 1));
            if same_text(self.entries[i - 1].0.as_str(), name) {
                return Some(&self.entries[i - 1].1);
            }
            i -= 1;
        }
        assert(self@.take(0).len() == 0);
        None
    }
}

/// A register as it was declared: its name, the global index of its first
/// element, and how many elements it has.
pub struct Register {
    pub name: String,
    pub start: usize,
    pub size: usize,
}

/// What a [`Register`] stands for in contracts.
pub struct RegisterView {
    pub name: Seq<char>,
    pub start: usize,
    pub size: usize,
}

impl View for Register {
    type V = RegisterView;

    open spec fn view(&self) -> RegisterView {
        RegisterView { name: self.name@, start: self.start, size: self.size }
    }
}

/// How many elements a list of declarations has in all.
pub open spec fn extent(regs: Seq<RegisterView>) -> nat
    decreases regs.len(),
{
    if regs.len() == 0 {
        0
    } else {
        extent(regs.drop_last()) + regs.last().size as nat
    }
}

/// Each register starts where the ones declared before it end, and the
/// whole fits the index type.
pub open spec fn registers_wf(regs: Seq<RegisterView>) -> bool {
    &&& extent(regs) <= usize::MAX
    &&& forall|k: int| 0 <= k < regs.len() ==> (#[trigger] regs[k]).start == extent(regs.take(k))
}

/// Where the register of a name starts and how large it is: the
/// declaration made last counts.
pub open spec fn find_register(regs: Seq<RegisterView>, name: Seq<char>) -> Option<(usize, usize)>
    decreases regs.len(),
{
    if regs.len() == 0 {
        None
    } else if regs.last().name == name {
        Some((regs.last().start, regs.last().size))
    } else {
        find_register(regs.drop_last(), name)
    }
}

pub proof fn lemma_extent_monotone(regs: Seq<RegisterView>, k: int)
    requires
        0 <= k <= regs.len(),
    ensures
        extent(regs.take(k)) <= extent(regs),
        k < regs.len() ==> extent(regs.take(k)) + regs[k].size <= extent(regs),
    decreases regs.len() - k,
{
    if k == regs.len() {
        assert(regs.take(k) =~= regs);
    } else {
        lemma_extent_monotone(regs, k + 1);
        assert(regs.take(k + 1).drop_last() =~= regs.take(k));
        assert(regs.take(k + 1).last() == regs[k]);
    }
}

/// The registers lie one after the other from index zero, in the order of
/// their declaration, and none reaches past the total: the register
/// declared at place `k` has exactly the indices from the sum of the sizes
/// declared before it up to, not including, that sum plus its own size.
pub proof fn lemma_registers_contiguous(regs: Seq<RegisterView>, j: int, k: int)
    requires
        registers_wf(regs),
        0 <= j < k < regs.len(),
    ensures
        regs[0].start == 0,
        regs[j].start + regs[j].size <= regs[k].start,
        k == j + 1 ==> regs[j].start + regs[j].size == regs[k].start,
        regs[k].start + regs[k].size <= extent(regs),
{
    assert(regs.take(0).len() == 0);
    lemma_extent_monotone(regs, k);
    lemma_extent_monotone(regs.take(k), j);
    assert(regs.take(k).take(j) =~= regs.take(j));
    assert(regs.take(k)[j] == regs[j]);
    if k == j + 1 {
        assert(regs.take(k).drop_last() =~= regs.take(j));
        assert(regs.take(k).last() == regs[j]);
    }
}

/// What [`find_register`] finds is a register of the list, and lies within
/// the total.
pub proof fn lemma_found_register_in_range(regs: Seq<RegisterView>, name: Seq<char>)
    requires
        registers_wf(regs),
        find_register(regs, name) is Some,
    ensures
        ({
            let found = find_register(regs, name).unwrap();
            found.0 + found.1 <= extent(regs)
        }),
    decreases regs.len(),
{
    if regs.last().name == name {
        let k = regs.len() - 1;
        lemma_extent_monotone(regs, k);
    } else {
        let shorter = regs.drop_last();
        assert forall|k: int| 0 <= k < shorter.len() implies (#[trigger] shorter[k]).start
            == extent(shorter.take(k)) by {
            assert(shorter[k] == regs[k]);
            assert(shorter.take(k) =~= regs.take(k));
        }
        lemma_found_register_in_range(shorter, name);
    }
}

/// The registers of one kind, in the order of their declaration.
pub struct RegisterTable {
    pub regs: Vec<Register>,
    pub total: usize,
}

impl View for RegisterTable {
    type V = Seq<RegisterView>;

    open spec fn view(&self) -> Seq<RegisterView> {
        self.regs@.map_values(|r: Register| r@)
    }
}

impl RegisterTable {
    /// The ranges are consecutive and the running total is their sum.
    pub open spec fn wf(&self) -> bool {
        &&& registers_wf(self@)
        &&& self.total == extent(self@)
    }

    /// A table without registers.
    pub fn new() -> (t: Self)
        ensures
            t.wf(),
            t@ == Seq::<RegisterView>::empty(),
    {
        let t = RegisterTable { regs: Vec::new(), total: 0 };
        assert(t@ =~= Seq::<RegisterView>::empty());
        t
    }

    /// How many elements the registers have in all.
    pub fn total(&self) -> (n: usize)
        requires
            self.wf(),
        ensures
            n == extent(self@),
    {
        self.total
    }

    /// Declares a register behind those that are there. Where the total
    /// would pass `usize::MAX` the table stays as it is.
    pub fn declare(&mut self, name: String, size: usize) -> (r: Result<(), ParseError>)
        requires
            old(self).wf(),
        ensures
            final(self).wf(),
            extent(old(self)@) + size <= usize::MAX ==> r is Ok && final(self)@ == old(self)@.push(
                RegisterView { name: name@, start: extent(old(self)@) as usize, size },
            ),
            extent(old(self)@) + size > usize::MAX ==> r == Err::<(), ParseError>(
                ParseError::RegisterSpaceExhausted,
            ) && final(self)@ == old(self)@,
    {
        if size > usize::MAX - self.total {
            return Err(ParseError::RegisterSpaceExhausted);
        }
        let start = self.total;
        let ghost before = self@;
        self.regs.push(Register { name, start, size });
        self.total = start + size;
        proof {
            let after = self@;
            assert(after =~= before.push(RegisterView { name: name@, start, size }));
            assert(after.drop_last() =~= before);
            assert forall|k: int| 0 <= k < after.len() implies (#[trigger] after[k]).start
                == extent(after.take(k)) by {
                if k < before.len() {
                    assert(after.take(k) =~= before.take(k));
                    assert(after[k] == before[k]);
                } else {
                    assert(after.take(k) =~= before);
                }
            }
        }
        Ok(())
    }

    /// Where the register of a name starts and how large it is.
    pub fn find(&self, name: &str) -> (r: Option<(usize, usize)>)
        ensures
            r == find_register(self@, name@),
    {
        let mut i: usize = self.regs.len();
        assert(self@.take(i as int) =~= self@);
        while i > 0
            invariant
                i <= self.regs.len(),
                find_register(self@, name@) == find_register(self@.take(i as int), name@),
            decreases i,
        {
            let ghost prefix = self@.take(i as int);
            assert(prefix.last() == self@[i - 1]);
            assert(prefix.drop_last() =~= self@.take(i - 1));
            if same_text(self.regs[i - 1].name.as_str(), name) {
                return Some((self.regs[i - 1].start, self.regs[i - 1].size));
            }
            i -= 1;
        }
        assert(self@.take(0).len() == 0);
        None
    }
}

/// A gate definition: its name, the names of its parameters and of its
/// qubits, and its body.
pub struct GateDef {
    pub name: String,
    pub params: Vec<String>,
    pub qubits: Vec<String>,
    pub body: Vec<ParsedStatement>,
}

/// What a [`GateDef`] stands for in contracts.
pub struct GateDefView {
    pub name: Seq<char>,
    pub params: Seq<Seq<char>>,
    pub qubits: Seq<Seq<char>>,
    pub body: Seq<StatementView>,
}

impl View for GateDef {
    type V = GateDefView;

    open spec fn view(&self) -> GateDefView {
        GateDefView {
            name: self.name@,
            params: name_views(self.params@),
            qubits: name_views(self.qubits@),
            body: statement_views(self.body@),
        }
    }
}

/// The definition of a gate name: the one made last counts.
pub open spec fn find_gate(defs: Seq<GateDefView>, name: Seq<char>) -> Option<GateDefView>
    decreases defs.len(),
{
    if defs.len() == 0 {
        None
    } else if defs.last().name == name {
        Some(defs.last())
    } else {
        find_gate(defs.drop_last(), name)
    }
}

/// All gate definitions, in the order in which they were made.
pub struct GateTable {
    pub defs: Vec<GateDef>,
}

impl View for GateTable {
    type V = Seq<GateDefView>;

    open spec fn view(&self) -> Seq<GateDefView> {
        self.defs@.map_values(|d: GateDef| d@)
    }
}

impl GateTable {
    /// A table without definitions.
    pub fn new() -> (t: Self)
        ensures
            t@ == Seq::<GateDefView>::empty(),
    {
        let t = GateTable { defs: Vec::new() };
        assert(t@ =~= Seq::<GateDefView>::empty());
        t
    }

    /// Adds a definition, which hides an earlier one of the same name.
    pub fn define(&mut self, def: GateDef)
        ensures
            final(self)@ == old(self)@.push(def@),
    {
        self.defs.push(def);
        assert(self@ =~= old(self)@.push(def@));
    }

    /// The definition of a gate name, if it has one.
    pub fn find(&self, name: &str) -> (r: Option<&GateDef>)
        ensures
            match r {
                Some(d) => find_gate(self@, name@) == Some(d@),
                None => find_gate(self@, name@) is None,
            },
    {
        let mut i: usize = self.defs.len();
        assert(self@.take(i as int) =~= self@);
        while i > 0
            invariant
                i <= self.defs.len(),
                find_gate(self@, name@) == find_gate(self@.take(i as int), name@),
            decreases i,
        {
            let ghost prefix = self@.take(i as int);
            assert(prefix.last() == self@[i - 1]);
            assert(prefix.drop_last() =~= self@.take(i - 1));
            if same_text(self.defs[i - 1].name.as_str(), name) {
                return Some(&self.defs[i - 1]);
            }
            i -= 1;
        }
        assert(self@.take(0).len() == 0);
        None
    }
}

/// What one parse has declared so far.
pub struct ParseContext {
    pub qregs: RegisterTable,
    pub cregs: RegisterTable,
    pub gate_defs: GateTable,
}

/// What a [`ParseContext`] stands for in contracts.
pub struct ContextView {
    pub qregs: Seq<RegisterView>,
    pub cregs: Seq<RegisterView>,
    pub gate_defs: Seq<GateDefView>,
}

impl View for ParseContext {
    type V = ContextView;

    open spec fn view(&self) -> ContextView {
        ContextView { qregs: self.qregs@, cregs: self.cregs@, gate_defs: self.gate_defs@ }
    }
}

impl ContextView {
    /// Both register lists are well formed.
    pub open spec fn wf(self) -> bool {
        registers_wf(self.qregs) && registers_wf(self.cregs)
    }

    /// The context in which nothing is declared.
    pub open spec fn empty() -> ContextView {
        ContextView { qregs: Seq::empty(), cregs: Seq::empty(), gate_defs: Seq::empty() }
    }
}

impl ParseContext {
    /// Both register tables are well formed.
    pub open spec fn wf(&self) -> bool {
        self.qregs.wf() && self.cregs.wf()
    }

    /// A context in which nothing is declared.
    pub fn new() -> (c: Self)
        ensures
            c.wf(),
            c@ == ContextView::empty(),
    {
        ParseContext {
            qregs: RegisterTable::new(),
            cregs: RegisterTable::new(),
            gate_defs: GateTable::new(),
        }
    }
}

} // verus!
