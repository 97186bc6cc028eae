//! From source text to a circuit.
//!
//! [`parse_qasm`] reads the version statement and then one statement after
//! the other, applying each to the context and the circuit before it reads
//! the next. What it returns is [`parse_spec`] of the text's bytes.

pub mod apply;
pub mod ast;
pub mod error;
pub mod expand;
pub mod grammar;
pub mod lexer;
pub mod number;
pub mod rules;
pub mod tables;
pub mod text;

use crate::ir::circuit::Circuit;
use crate::ir::circuit::CircuitView;
use crate::ir::operations::OperationView;
use crate::parser::apply::apply_statement;
use crate::parser::apply::lemma_step_rejects;
use crate::parser::ast::Reject;
use crate::parser::ast::StatementView;
use crate::parser::error::ErrorKind;
use crate::parser::grammar::include_spec;
use crate::parser::apply::step_spec;
use crate::parser::error::ParseError;
use crate::parser::error::ParseErrorView;
use crate::parser::grammar::skip_blank;
use crate::parser::grammar::statement_spec;
use crate::parser::grammar::version_spec;
use crate::parser::lexer::advances;
use crate::parser::lexer::take_text;
use crate::parser::rules::skip_blanks;
use crate::parser::rules::statement_at;
use crate::parser::rules::version_at;
use crate::parser::tables::extent;
use crate::parser::tables::ContextView;
use crate::parser::tables::ParseContext;
use crate::parser::text::same_text;
use crate::parser::text::text_of;
use crate::parser::text::Source;
use vstd::prelude::*;
use vstd::string::*;

verus! {

/// The circuit of a text that has been read to its end: the counts are the
/// totals of the declared registers, whatever indices the operations use.
pub open spec fn finish(ctx: ContextView, ops: Seq<OperationView>) -> CircuitView {
    CircuitView {
        num_qubits: extent(ctx.qregs) as usize,
        num_cbits: extent(ctx.cregs) as usize,
        operations: ops,
    }
}

/// What the statements from `i` on make of the context and the operations
/// gathered so far.
///
/// Blanks and comments are skipped. At the end of the text the circuit is
/// finished. Otherwise a statement must stand there, or the rest of the
/// text is reported; the statement is applied, and its error ends the
/// parse.
pub open spec fn run_spec(s: Seq<u8>, i: int, ctx: ContextView, ops: Seq<OperationView>) -> Result<
    CircuitView,
    ParseErrorView,
>
    decreases s.len() - i,
{
    let j = skip_blank(s, i);
    if j >= s.len() {
        Ok(finish(ctx, ops))
    } else {
        match statement_spec(s, j) {
            Err(_) => Err(ParseErrorView::Syntax(text_of(s, j, s.len() as int))),
            Ok((stmt, next)) => {
                let out = step_spec(ctx, stmt);
                match out.error {
                    Some(e) => Err(e),
                    None => if i <= j < next <= s.len() {
                        run_spec(s, next, out.ctx, ops + out.ops)
                    } else {
                        Err(ParseErrorView::Syntax(text_of(s, j, s.len() as int)))
                    },
                }
            },
        }
    }
}

/// What a source text compiles to.
///
/// Behind blanks and comments the text must begin with the version
/// statement, and the version must be `2.0`; the statements that follow are
/// applied to an empty context and an empty circuit.
pub open spec fn parse_spec(s: Seq<u8>) -> Result<CircuitView, ParseErrorView> {
    let start = skip_blank(s, 0);
    if start >= s.len() {
        Err(ParseErrorView::EmptyInput)
    } else {
        match version_spec(s, start) {
            None => Err(ParseErrorView::InvalidHeader),
            Some((version, next)) => if version != "2.0"@ {
                Err(ParseErrorView::UnsupportedVersion(version))
            } else {
                run_spec(s, next, ContextView::empty(), Seq::empty())
            },
        }
    }
}

/// A text that is empty but for blanks and comments, a text that begins
/// with anything but a version statement, and a text whose version is not
/// `2.0` all fail with a header error.
pub proof fn lemma_header_is_required(s: Seq<u8>)
    ensures
        ({
            let start = skip_blank(s, 0);
            let header = version_spec(s, start);
            (start >= s.len() || header is None || header.unwrap().0 != "2.0"@) ==> parse_spec(s)
                is Err && parse_spec(s)->Err_0.kind() == ErrorKind::HeaderError
        }),
        ({
            let start = skip_blank(s, 0);
            let header = version_spec(s, start);
            start < s.len() && header is Some && header.unwrap().0 != "2.0"@ ==> parse_spec(s)
                == Err::<CircuitView, ParseErrorView>(
                ParseErrorView::UnsupportedVersion(header.unwrap().0),
            )
        }),
{
}

/// Wherever a file directive stands as the next statement, the parse fails
/// as unsupported and names the file, whatever the name is and whatever was
/// declared and emitted before.
pub proof fn lemma_file_directive_is_rejected(
    s: Seq<u8>,
    i: int,
    ctx: ContextView,
    ops: Seq<OperationView>,
)
    requires
        skip_blank(s, i) < s.len(),
        include_spec(s, skip_blank(s, i)) is Some,
    ensures
        run_spec(s, i, ctx, ops) == Err::<CircuitView, ParseErrorView>(
            ParseErrorView::UnsupportedInclude(include_spec(s, skip_blank(s, i)).unwrap().0),
        ),
        run_spec(s, i, ctx, ops)->Err_0.kind() == ErrorKind::UnsupportedFeature,
{
    let j = skip_blank(s, i);
    let (file, next) = include_spec(s, j).unwrap();
    reveal(statement_spec);
    assert(statement_spec(s, j) == Ok::<(StatementView, int), Reject>(
        (StatementView::Include(file), next),
    ));
    lemma_step_rejects(ctx, StatementView::Include(file));
}

/// Parsing a text twice gives the same outcome: circuits with the same
/// counts and the same operations, or the same message. Nothing outside the
/// text has a part in it.
pub proof fn lemma_parse_is_repeatable(
    input: &str,
    first: Result<Circuit, String>,
    second: Result<Circuit, String>,
)
    requires
        parse_outcome(input, first),
        parse_outcome(input, second),
    ensures
        first is Ok <==> second is Ok,
        first is Ok ==> first->Ok_0@ == second->Ok_0@,
        first is Err ==> first->Err_0@ == second->Err_0@,
{
}

/// Whether a result is what [`parse_spec`] says of the text.
pub open spec fn parse_result(input: &str, r: Result<Circuit, ParseError>) -> bool {
    match r {
        Ok(c) => parse_spec(input.spec_bytes()) == Ok::<CircuitView, ParseErrorView>(c@),
        Err(e) => parse_spec(input.spec_bytes()) == Err::<CircuitView, ParseErrorView>(e@),
    }
}

/// Reads and applies the statements from `i` on, and finishes the circuit
/// at the end of the text.
fn run(src: &Source, from: usize) -> (r: Result<Circuit, ParseError>)
    requires
        src.wf(),
        advances(src@, 0, from as int),
    ensures
        match r {
            Ok(c) => run_spec(src@, from as int, ContextView::empty(), Seq::empty()) == Ok::<
                CircuitView,
                ParseErrorView,
            >(c@),
            Err(e) => run_spec(src@, from as int, ContextView::empty(), Seq::empty()) == Err::<
                CircuitView,
                ParseErrorView,
            >(e@),
        },
{
    let mut circuit = Circuit::new(0, 0);
    let mut ctx = ParseContext::new();
    let mut i: usize = from;
    let ghost mut ops: Seq<OperationView> = Seq::empty();
    loop
        invariant
            src.wf(),
            ctx.wf(),
            advances(src@, 0, i as int),
            circuit@ == (CircuitView { num_qubits: 0, num_cbits: 0, operations: ops }),
            run_spec(src@, from as int, ContextView::empty(), Seq::empty()) == run_spec(
                src@,
                i as int,
                ctx@,
                ops,
            ),
        decreases src@.len() - i,
    {
        let j = skip_blanks(src, i);
        if j >= src.len() {
            circuit.num_qubits = ctx.qregs.total();
            circuit.num_cbits = ctx.cregs.total();
            return Ok(circuit);
        }
        let (stmt, next) = match statement_at(src, j) {
            Ok(x) => x,
            Err(_) => {
                let rest = take_text(src, j, src.len());
                return Err(ParseError::Syntax(rest));
            },
        };
        let ghost out = step_spec(ctx@, stmt@);
        assert(ops + Seq::<OperationView>::empty() =~= ops);
        match apply_statement(&mut circuit, &mut ctx, stmt) {
            Err(e) => {
                return Err(e);
            },
            Ok(_) => {
                proof {
                    ops = ops + out.ops;
                }
            },
        }
        i = next;
    }
}

/// Compiles a source text into a circuit, or says why it cannot.
pub fn parse_program(input: &str) -> (r: Result<Circuit, ParseError>)
    ensures
        parse_result(input, r),
{
    let src = Source::new(input);
    let start = skip_blanks(&src, 0);
    if start >= src.len() {
        return Err(ParseError::EmptyInput);
    }
    let (version, after_header) = match version_at(&src, start) {
        Some(x) => x,
        None => return Err(ParseError::InvalidHeader),
    };
    if !same_text(version.as_str(), "2.0") {
        return Err(ParseError::UnsupportedVersion(version));
    }
    run(&src, after_header)
}

/// Whether a result is what [`parse_spec`] says of the text, an error
/// given as its message.
pub open spec fn parse_outcome(input: &str, r: Result<Circuit, String>) -> bool {
    match r {
        Ok(c) => parse_spec(input.spec_bytes()) == Ok::<CircuitView, ParseErrorView>(c@),
        Err(m) => match parse_spec(input.spec_bytes()) {
            Ok(_) => false,
            Err(e) => m@ == e.message(),
        },
    }
}

/// Compiles a source text into a circuit, or describes why it cannot.
pub fn parse_qasm(input: &str) -> (r: Result<Circuit, String>)
    ensures
        parse_outcome(input, r),
{
    match parse_program(input) {
        Ok(circuit) => Ok(circuit),
        Err(e) => Err(e.message()),
    }
}

} // verus!
