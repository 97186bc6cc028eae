use vstd::prelude::*;

verus! {

/// A parameter expression as it is written: constants, names and the four
/// operators. A constant is carried as its binary64 bit pattern.
#[derive(Debug, PartialEq)]
pub enum Expr {
    Float(u64),
    Var(String),
    Add(Box<Expr>, Box<Expr>),
    Sub(Box<Expr>, Box<Expr>),
    Mul(Box<Expr>, Box<Expr>),
    Div(Box<Expr>, Box<Expr>),
}

/// What an [`Expr`] stands for in contracts.
pub enum ExprView {
    Float(u64),
    Var(Seq<char>),
    Add(Box<ExprView>, Box<ExprView>),
    Sub(Box<ExprView>, Box<ExprView>),
    Mul(Box<ExprView>, Box<ExprView>),
    Div(Box<ExprView>, Box<ExprView>),
}

impl View for Expr {
    type V = ExprView;

    open spec fn view(&self) -> ExprView
        decreases self,
    {
        match self {
            Expr::Float(bits) => ExprView::Float(*bits),
            Expr::Var(name) => ExprView::Var(name@),
            Expr::Add(a, b) => ExprView::Add(Box::new((**a).view()), Box::new((**b).view())),
            Expr::Sub(a, b) => ExprView::Sub(Box::new((**a).view()), Box::new((**b).view())),
            Expr::Mul(a, b) => ExprView::Mul(Box::new((**a).view()), Box::new((**b).view())),
            Expr::Div(a, b) => ExprView::Div(Box::new((**a).view()), Box::new((**b).view())),
        }
    }
}

/// A register or a formal qubit by name, with the subscript where one is
/// written.
pub type Arg = (String, Option<usize>);

/// What an [`Arg`] stands for in contracts.
pub type ArgView = (Seq<char>, Option<usize>);

/// The view of one argument.
pub open spec fn arg_view(arg: Arg) -> ArgView {
    (arg.0@, arg.1)
}

/// The views of a list of arguments, in order.
pub open spec fn arg_views(args: Seq<Arg>) -> Seq<ArgView> {
    args.map_values(|a: Arg| arg_view(a))
}

/// The views of a list of expressions, in order.
pub open spec fn expr_views(exprs: Seq<Expr>) -> Seq<ExprView> {
    exprs.map_values(|e: Expr| e@)
}

/// The views of a list of names, in order.
pub open spec fn name_views(names: Seq<String>) -> Seq<Seq<char>> {
    names.map_values(|n: String| n@)
}

/// One statement as it is written, before any name in it is looked up.
#[derive(Debug, PartialEq)]
pub enum ParsedStatement {
    /// `qreg name[size];`
    QReg(String, usize),
    /// `creg name[size];`
    CReg(String, usize),
    /// A gate call: its name, its qubit arguments, its parameters.
    Gate(String, Vec<Arg>, Vec<Expr>),
    /// `measure qubit -> cbit;`
    Measure(Arg, Arg),
    /// A directive that names a file.
    Include(String),
    /// `barrier args;`
    Barrier(Vec<Arg>),
    /// A gate definition: name, formal parameters, formal qubits, body.
    GateDef(String, Vec<String>, Vec<String>, Vec<ParsedStatement>),
    /// A conditional: classical register, the value compared with, the
    /// statement under the condition.
    If(String, usize, Box<ParsedStatement>),
    /// Nothing to act on.
    Ignore,
}

/// What a [`ParsedStatement`] stands for in contracts.
pub enum StatementView {
    QReg(Seq<char>, usize),
    CReg(Seq<char>, usize),
    Gate(Seq<char>, Seq<ArgView>, Seq<ExprView>),
    Measure(ArgView, ArgView),
    Include(Seq<char>),
    Barrier(Seq<ArgView>),
    GateDef(Seq<char>, Seq<Seq<char>>, Seq<Seq<char>>, Seq<StatementView>),
    If(Seq<char>, usize, Box<StatementView>),
    Ignore,
}

/// The view of a statement.
pub open spec fn statement_view(stmt: ParsedStatement) -> StatementView
    decreases stmt,
{
    match stmt {
        ParsedStatement::QReg(name, size) => StatementView::QReg(name@, size),
        ParsedStatement::CReg(name, size) => StatementView::CReg(name@, size),
        ParsedStatement::Gate(name, args, params) => StatementView::Gate(
            name@,
            arg_views(args@),
            expr_views(params@),
        ),
        ParsedStatement::Measure(q, c) => StatementView::Measure(arg_view(q), arg_view(c)),
        ParsedStatement::Include(file) => StatementView::Include(file@),
        ParsedStatement::Barrier(args) => StatementView::Barrier(arg_views(args@)),
        ParsedStatement::GateDef(name, params, qubits, body) => StatementView::GateDef(
            name@,
            name_views(params@),
            name_views(qubits@),
            Seq::new(
                body@.len(),
                |i: int|
                    if 0 <= i < body@.len() {
                        statement_view(body@[i])
                    } else {
                        StatementView::Ignore
                    },
            ),
        ),
        ParsedStatement::If(creg, value, inner) => StatementView::If(
            creg@,
            value,
            Box::new(statement_view(*inner)),
        ),
        ParsedStatement::Ignore => StatementView::Ignore,
    }
}

impl View for ParsedStatement {
    type V = StatementView;

    open spec fn view(&self) -> StatementView {
        statement_view(*self)
    }
}

/// The views of a list of statements, in order.
pub open spec fn statement_views(stmts: Seq<ParsedStatement>) -> Seq<StatementView> {
    Seq::new(
        stmts.len(),
        |i: int|
            if 0 <= i < stmts.len() {
                stmts[i]@
            } else {
                StatementView::Ignore
            },
    )
}

/// Why a rule of the grammar did not produce a value.
#[derive(Debug, PartialEq, Eq, Clone, Copy, Structural)]
pub enum Reject {
    /// The text is not of this form; another form may still be tried.
    Error,
    /// The text began a number and broke off inside its exponent: no other
    /// form is tried.
    Failure,
}

} // verus!
