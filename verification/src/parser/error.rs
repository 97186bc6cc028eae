use crate::parser::text::decimal;
use crate::parser::text::decimal_text;
use vstd::prelude::*;
use vstd::string::*;

verus! {

/// Why a source text was not compiled. Parsing stops at the first error.
#[derive(Debug, PartialEq)]
pub enum ParseError {
    /// Nothing but blanks and comments.
    EmptyInput,
    /// The text does not begin with a version statement.
    InvalidHeader,
    /// The version statement names a version other than 2.0.
    UnsupportedVersion(String),
    /// No statement form matches; holds the text that was left.
    Syntax(String),
    /// A directive to read another file; holds the file's name.
    UnsupportedInclude(String),
    /// A statement under a classical condition.
    UnsupportedConditional,
    /// A qubit argument names neither a formal qubit nor a quantum register.
    UndefinedRegister(String),
    /// The target of a measurement names no classical register.
    UndefinedClassicalRegister(String),
    /// A subscript at or past the size of its quantum register.
    QubitIndexOutOfBounds(String, usize),
    /// A subscript at or past the size of its classical register.
    ClassicalIndexOutOfBounds(String, usize),
    /// A subscript on a formal qubit of a gate definition.
    CannotIndexLocalQubit(String),
    /// An expression uses a name that is not `pi` and is not bound.
    UndefinedParameter(String),
    /// A call gives a defined gate the wrong number of parameters.
    ParamArityMismatch { gate: String, expected: usize, found: usize },
    /// A call gives a defined gate the wrong number of qubits.
    QubitArityMismatch { gate: String, expected: usize, found: usize },
    /// Whole-register arguments of one gate call differ in size.
    BroadcastMismatch,
    /// The two sides of a measurement differ in size.
    MeasureBroadcastMismatch,
    /// Inside a gate definition an argument stands for a whole register
    /// that is not one qubit wide.
    BroadcastInGateBody(String),
    /// A gate that is neither primitive nor defined.
    UnknownGate(String),
    /// Gate definitions nest deeper than [`MAX_EXPANSION_DEPTH`]; holds the
    /// gate whose body was not entered.
    RecursionLimitExceeded(String),
    /// The registers declared so far cannot be indexed by `usize`.
    RegisterSpaceExhausted,
}

/// How many gate definitions may be open at once while a call is expanded.
/// A definition that leads back to itself runs into this limit.
pub const MAX_EXPANSION_DEPTH: usize = 128;

/// What a [`ParseError`] stands for in contracts.
pub enum ParseErrorView {
    EmptyInput,
    InvalidHeader,
    UnsupportedVersion(Seq<char>),
    Syntax(Seq<char>),
    UnsupportedInclude(Seq<char>),
    UnsupportedConditional,
    UndefinedRegister(Seq<char>),
    UndefinedClassicalRegister(Seq<char>),
    QubitIndexOutOfBounds(Seq<char>, usize),
    ClassicalIndexOutOfBounds(Seq<char>, usize),
    CannotIndexLocalQubit(Seq<char>),
    UndefinedParameter(Seq<char>),
    ParamArityMismatch { gate: Seq<char>, expected: usize, found: usize },
    QubitArityMismatch { gate: Seq<char>, expected: usize, found: usize },
    BroadcastMismatch,
    MeasureBroadcastMismatch,
    BroadcastInGateBody(Seq<char>),
    UnknownGate(Seq<char>),
    RecursionLimitExceeded(Seq<char>),
    RegisterSpaceExhausted,
}

/// The families into which the errors fall.
#[derive(Debug, PartialEq, Eq, Clone, Copy, Structural)]
pub enum ErrorKind {
    HeaderError,
    SyntaxError,
    UndefinedRegister,
    IndexOutOfBounds,
    UndefinedParameter,
    ParamArityMismatch,
    QubitArityMismatch,
    BroadcastMismatch,
    MeasureBroadcastMismatch,
    UnknownGate,
    CannotIndexLocalQubit,
    UnsupportedFeature,
    RecursionLimitExceeded,
    RegisterSpaceExhausted,
}

impl ParseErrorView {
    /// The family of the error.
    pub open spec fn kind(self) -> ErrorKind {
        match self {
            ParseErrorView::EmptyInput => ErrorKind::HeaderError,
            ParseErrorView::InvalidHeader => ErrorKind::HeaderError,
            ParseErrorView::UnsupportedVersion(_) => ErrorKind::HeaderError,
            ParseErrorView::Syntax(_) => ErrorKind::SyntaxError,
            ParseErrorView::UnsupportedInclude(_) => ErrorKind::UnsupportedFeature,
            ParseErrorView::UnsupportedConditional => ErrorKind::UnsupportedFeature,
            ParseErrorView::UndefinedRegister(_) => ErrorKind::UndefinedRegister,
            ParseErrorView::UndefinedClassicalRegister(_) => ErrorKind::UndefinedRegister,
            ParseErrorView::QubitIndexOutOfBounds(_, _) => ErrorKind::IndexOutOfBounds,
            ParseErrorView::ClassicalIndexOutOfBounds(_, _) => ErrorKind::IndexOutOfBounds,
            ParseErrorView::CannotIndexLocalQubit(_) => ErrorKind::CannotIndexLocalQubit,
            ParseErrorView::UndefinedParameter(_) => ErrorKind::UndefinedParameter,
            ParseErrorView::ParamArityMismatch { .. } => ErrorKind::ParamArityMismatch,
            ParseErrorView::QubitArityMismatch { .. } => ErrorKind::QubitArityMismatch,
            ParseErrorView::BroadcastMismatch => ErrorKind::BroadcastMismatch,
            ParseErrorView::MeasureBroadcastMismatch => ErrorKind::MeasureBroadcastMismatch,
            ParseErrorView::BroadcastInGateBody(_) => ErrorKind::BroadcastMismatch,
            ParseErrorView::UnknownGate(_) => ErrorKind::UnknownGate,
            ParseErrorView::RecursionLimitExceeded(_) => ErrorKind::RecursionLimitExceeded,
            ParseErrorView::RegisterSpaceExhausted => ErrorKind::RegisterSpaceExhausted,
        }
    }

    /// The message that describes the error.
    pub open spec fn message(self) -> Seq<char> {
        match self {
            ParseErrorView::EmptyInput => "Empty file or missing OPENQASM header"@,
            ParseErrorView::InvalidHeader => "Missing or invalid OPENQASM header. File must start with 'OPENQASM 2.0;'"@,
            ParseErrorView::UnsupportedVersion(version) => "Unsupported OpenQASM version: '"@
                + version + "'. Only '2.0' is supported."@,
            ParseErrorView::Syntax(rest) => "Parse error at: "@ + rest,
            ParseErrorView::UnsupportedInclude(file) => "Includes are not supported. Please resolve all imports before parsing. Found: 'include \""@
                + file + "\"'"@,
            ParseErrorView::UnsupportedConditional => "Conditional operations not yet supported"@,
            ParseErrorView::UndefinedRegister(name) => "Undefined quantum register or argument: "@
                + name,
            ParseErrorView::UndefinedClassicalRegister(_) => "Undefined creg"@,
            ParseErrorView::QubitIndexOutOfBounds(name, index) => "Qubit index out of bounds: "@
                + name + "["@ + decimal_text(index as nat) + "]"@,
            ParseErrorView::ClassicalIndexOutOfBounds(_, _) => "Index out of bounds"@,
            ParseErrorView::CannotIndexLocalQubit(name) => "Cannot index a qubit argument: "@
                + name,
            ParseErrorView::UndefinedParameter(name) => "Undefined parameter: "@ + name,
            ParseErrorView::ParamArityMismatch { gate, expected, found } => "Gate "@ + gate
                + " expects "@ + decimal_text(expected as nat) + " params, got "@ + decimal_text(
                found as nat,
            ),
            ParseErrorView::QubitArityMismatch { gate, expected, found } => "Gate "@ + gate
                + " expects "@ + decimal_text(expected as nat) + " qubits, got "@ + decimal_text(
                found as nat,
            ),
            ParseErrorView::BroadcastMismatch => "Register size mismatch in gate call"@,
            ParseErrorView::MeasureBroadcastMismatch => "Measure register size mismatch"@,
            ParseErrorView::BroadcastInGateBody(name) => "Broadcasting not allowed in gate definition body for argument (\""@
                + name + "\", None)"@,
            ParseErrorView::UnknownGate(name) => "Unknown gate: "@ + name,
            ParseErrorView::RecursionLimitExceeded(name) => "Gate definitions nest too deeply at gate: "@
                + name,
            ParseErrorView::RegisterSpaceExhausted => "Too many register elements to index"@,
        }
    }
}

impl View for ParseError {
    type V = ParseErrorView;

    open spec fn view(&self) -> ParseErrorView {
        match self {
            ParseError::EmptyInput => ParseErrorView::EmptyInput,
            ParseError::InvalidHeader => ParseErrorView::InvalidHeader,
            ParseError::UnsupportedVersion(v) => ParseErrorView::UnsupportedVersion(v@),
            ParseError::Syntax(rest) => ParseErrorView::Syntax(rest@),
            ParseError::UnsupportedInclude(file) => ParseErrorView::UnsupportedInclude(file@),
            ParseError::UnsupportedConditional => ParseErrorView::UnsupportedConditional,
            ParseError::UndefinedRegister(name) => ParseErrorView::UndefinedRegister(name@),
            ParseError::UndefinedClassicalRegister(name) => ParseErrorView::UndefinedClassicalRegister(
                name@,
            ),
            ParseError::QubitIndexOutOfBounds(name, index) => ParseErrorView::QubitIndexOutOfBounds(
                name@,
                *index,
            ),
            ParseError::ClassicalIndexOutOfBounds(name, index) => ParseErrorView::ClassicalIndexOutOfBounds(
                name@,
                *index,
            ),
            ParseError::CannotIndexLocalQubit(name) => ParseErrorView::CannotIndexLocalQubit(name@),
            ParseError::UndefinedParameter(name) => ParseErrorView::UndefinedParameter(name@),
            ParseError::ParamArityMismatch { gate, expected, found } => ParseErrorView::ParamArityMismatch {
                gate: gate@,
                expected: *expected,
                found: *found,
            },
            ParseError::QubitArityMismatch { gate, expected, found } => ParseErrorView::QubitArityMismatch {
                gate: gate@,
                expected: *expected,
                found: *found,
            },
            ParseError::BroadcastMismatch => ParseErrorView::BroadcastMismatch,
            ParseError::MeasureBroadcastMismatch => ParseErrorView::MeasureBroadcastMismatch,
            ParseError::BroadcastInGateBody(name) => ParseErrorView::BroadcastInGateBody(name@),
            ParseError::UnknownGate(name) => ParseErrorView::UnknownGate(name@),
            ParseError::RecursionLimitExceeded(name) => ParseErrorView::RecursionLimitExceeded(
                name@,
            ),
            ParseError::RegisterSpaceExhausted => ParseErrorView::RegisterSpaceExhausted,
        }
    }
}

fn join3(a: &str, b: &str, c: &str) -> (r: String)
    ensures
        r@ == a@ + b@ + c@,
{
    String::from_str(a).concat(b).concat(c)
}

fn arity_message(gate: &str, expected: usize, found: usize, what: &str) -> (r: String)
    ensures
        r@ == "Gate "@ + gate@ + " expects "@ + decimal_text(expected as nat) + what@
            + decimal_text(found as nat),
{
    let e = decimal(expected);
    let f = decimal(found);
    String::from_str("Gate ").concat(gate).concat(" expects ").concat(e.as_str()).concat(
        what,
    ).concat(f.as_str())
}

impl ParseError {
    /// The family of the error.
    pub fn kind(&self) -> (k: ErrorKind)
        ensures
            k == self@.kind(),
    {
        match self {
            ParseError::EmptyInput => ErrorKind::HeaderError,
            ParseError::InvalidHeader => ErrorKind::HeaderError,
            ParseError::UnsupportedVersion(_) => ErrorKind::HeaderError,
            ParseError::Syntax(_) => ErrorKind::SyntaxError,
            ParseError::UnsupportedInclude(_) => ErrorKind::UnsupportedFeature,
            ParseError::UnsupportedConditional => ErrorKind::UnsupportedFeature,
            ParseError::UndefinedRegister(_) => ErrorKind::UndefinedRegister,
            ParseError::UndefinedClassicalRegister(_) => ErrorKind::UndefinedRegister,
            ParseError::QubitIndexOutOfBounds(_, _) => ErrorKind::IndexOutOfBounds,
            ParseError::ClassicalIndexOutOfBounds(_, _) => ErrorKind::IndexOutOfBounds,
            ParseError::CannotIndexLocalQubit(_) => ErrorKind::CannotIndexLocalQubit,
            ParseError::UndefinedParameter(_) => ErrorKind::UndefinedParameter,
            ParseError::ParamArityMismatch { .. } => ErrorKind::ParamArityMismatch,
            ParseError::QubitArityMismatch { .. } => ErrorKind::QubitArityMismatch,
            ParseError::BroadcastMismatch => ErrorKind::BroadcastMismatch,
            ParseError::MeasureBroadcastMismatch => ErrorKind::MeasureBroadcastMismatch,
            ParseError::BroadcastInGateBody(_) => ErrorKind::BroadcastMismatch,
            ParseError::UnknownGate(_) => ErrorKind::UnknownGate,
            ParseError::RecursionLimitExceeded(_) => ErrorKind::RecursionLimitExceeded,
            ParseError::RegisterSpaceExhausted => ErrorKind::RegisterSpaceExhausted,
        }
    }

    /// The message that describes the error.
    pub fn message(&self) -> (m: String)
        ensures
            m@ == self@.message(),
    {
        match self {
            ParseError::EmptyInput => String::from_str("Empty file or missing OPENQASM header"),
            ParseError::InvalidHeader => String::from_str(
                "Missing or invalid OPENQASM header. File must start with 'OPENQASM 2.0;'",
            ),
            ParseError::UnsupportedVersion(version) => join3(
                "Unsupported OpenQASM version: '",
                version.as_str(),
                "'. Only '2.0' is supported.",
            ),
            ParseError::Syntax(rest) => String::from_str("Parse error at: ").concat(rest.as_str()),
            ParseError::UnsupportedInclude(file) => join3(
                "Includes are not supported. Please resolve all imports before parsing. Found: 'include \"",
                file.as_str(),
                "\"'",
            ),
            ParseError::UnsupportedConditional => String::from_str(
                "Conditional operations not yet supported",
            ),
            ParseError::UndefinedRegister(name) => String::from_str(
                "Undefined quantum register or argument: ",
            ).concat(name.as_str()),
            ParseError::UndefinedClassicalRegister(_) => String::from_str("Undefined creg"),
            ParseError::QubitIndexOutOfBounds(name, index) => {
                let digits = decimal(*index);
                String::from_str("Qubit index out of bounds: ").concat(name.as_str()).concat(
                    "[",
                ).concat(digits.as_str()).concat("]")
            },
            ParseError::ClassicalIndexOutOfBounds(_, _) => String::from_str("Index out of bounds"),
            ParseError::CannotIndexLocalQubit(name) => String::from_str(
                "Cannot index a qubit argument: ",
            ).concat(name.as_str()),
            ParseError::UndefinedParameter(name) => String::from_str("Undefined parameter: ").concat(
                name.as_str(),
            ),
            ParseError::ParamArityMismatch { gate, expected, found } => arity_message(
                gate.as_str(),
                *expected,
                *found,
                " params, got ",
            ),
            ParseError::QubitArityMismatch { gate, expected, found } => arity_message(
                gate.as_str(),
                *expected,
                *found,
                " qubits, got ",
            ),
            ParseError::BroadcastMismatch => String::from_str(
                "Register size mismatch in gate call",
            ),
            ParseError::MeasureBroadcastMismatch => String::from_str(
                "Measure register size mismatch",
            ),
            ParseError::BroadcastInGateBody(name) => join3(
                "Broadcasting not allowed in gate definition body for argument (\"",
                name.as_str(),
                "\", None)",
            ),
            ParseError::UnknownGate(name) => String::from_str("Unknown gate: ").concat(
                name.as_str(),
            ),
            ParseError::RecursionLimitExceeded(name) => String::from_str(
                "Gate definitions nest too deeply at gate: ",
            ).concat(name.as_str()),
            ParseError::RegisterSpaceExhausted => String::from_str(
                "Too many register elements to index",
            ),
        }
    }
}

} // verus!
