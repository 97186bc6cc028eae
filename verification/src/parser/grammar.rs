//! The grammar, as functions from a text and a position in it to what
//! stands there and where it ends.
//!
//! A rule that fails does so in one of two ways (see
//! [`Reject`](crate::parser::ast::Reject)): most failures let the next
//! alternative be tried, but a number that breaks off inside its exponent
//! ends every alternative and every repetition around it.
//!
//! Where a rule repeats, the definition goes on only from a position that
//! lies ahead of the one it came from. Every rule does end ahead of where
//! it began, so the comparison never decides anything; it is what shows
//! that the definition ends.

use crate::parser::ast::ArgView;
use crate::parser::ast::ExprView;
use crate::parser::ast::Reject;
use crate::parser::ast::StatementView;
use crate::parser::lexer::byte;
use crate::parser::lexer::name_end;
use crate::parser::lexer::padded;
use crate::parser::lexer::run1;
use crate::parser::lexer::spaces1;
use crate::parser::lexer::span;
use crate::parser::lexer::uint;
use crate::parser::lexer::word;
use crate::parser::lexer::Class;
use crate::parser::lexer::COMMA;
use crate::parser::lexer::LEFT_BRACE;
use crate::parser::lexer::LEFT_BRACKET;
use crate::parser::lexer::LEFT_PAREN;
use crate::parser::lexer::MINUS;
use crate::parser::lexer::PLUS;
use crate::parser::lexer::QUOTE;
use crate::parser::lexer::RIGHT_BRACE;
use crate::parser::lexer::RIGHT_BRACKET;
use crate::parser::lexer::RIGHT_PAREN;
use crate::parser::lexer::SEMICOLON;
use crate::parser::lexer::SLASH;
use crate::parser::lexer::STAR;
use crate::parser::number::number;
use crate::parser::text::text_of;
use vstd::prelude::*;

verus! {

/// What a rule gives at a position: a value and the position behind it, or
/// the reason why not.
pub type Step<T> = Result<(T, int), Reject>;

/// A rule that either matches or does not, as a [`Step`].
pub open spec fn soft<T>(o: Option<(T, int)>) -> Step<T> {
    match o {
        Some(x) => Ok(x),
        None => Err(Reject::Error),
    }
}

/// The first of two alternatives that matches; the second is not tried
/// where the first fails for good.
pub open spec fn or_else<T>(first: Step<T>, second: Step<T>) -> Step<T> {
    match first {
        Err(Reject::Error) => second,
        _ => first,
    }
}

/// A comment: two slashes and the rest of the line, without the line feed.
pub open spec fn comment_spec(s: Seq<u8>, i: int) -> Option<int> {
    match word(s, i, "//") {
        Some(a) => Some(span(s, a, Class::NotNewline)),
        None => None,
    }
}

/// Where the text that counts begins, from `i` on: behind blanks and
/// comments.
pub open spec fn skip_blank(s: Seq<u8>, i: int) -> int
    decreases s.len() - i,
{
    let j = span(s, i, Class::Blank);
    match comment_spec(s, j) {
        Some(k) => if i <= j < k <= s.len() {
            skip_blank(s, k)
        } else {
            j
        },
        None => j,
    }
}

/// The version statement: `OPENQASM`, spaces, the version, `;`. The version
/// is everything up to the semicolon, trailing spaces included.
pub open spec fn version_spec(s: Seq<u8>, i: int) -> Option<(Seq<char>, int)> {
    match word(s, i, "OPENQASM") {
        None => None,
        Some(a) => match spaces1(s, a) {
            None => None,
            Some(b) => match run1(s, b, Class::NotSemicolon) {
                None => None,
                Some(c) => match byte(s, c, SEMICOLON) {
                    None => None,
                    Some(d) => Some((text_of(s, b, c), d)),
                },
            },
        },
    }
}

/// The directive that names a file: the keyword, spaces, the name in double
/// quotes, `;`.
pub open spec fn include_spec(s: Seq<u8>, i: int) -> Option<(Seq<char>, int)> {
    match word(s, i, "include") {
        None => None,
        Some(a) => match spaces1(s, a) {
            None => None,
            Some(b) => match byte(s, b, QUOTE) {
                None => None,
                Some(c) => match run1(s, c, Class::NotQuote) {
                    None => None,
                    Some(d) => match byte(s, d, QUOTE) {
                        None => None,
                        Some(e) => match byte(s, span(s, e, Class::Space), SEMICOLON) {
                            None => None,
                            Some(f) => Some((text_of(s, c, d), f)),
                        },
                    },
                },
            },
        },
    }
}

/// A register declaration under the keyword `kw`: keyword, spaces, name,
/// `[size]`, `;`.
pub open spec fn register_spec(s: Seq<u8>, i: int, kw: &str) -> Option<((Seq<char>, usize), int)> {
    match word(s, i, kw) {
        None => None,
        Some(a) => match spaces1(s, a) {
            None => None,
            Some(b) => match name_end(s, b) {
                None => None,
                Some(c) => match byte(s, span(s, c, Class::Space), LEFT_BRACKET) {
                    None => None,
                    Some(d) => match uint(s, d) {
                        None => None,
                        Some((size, e)) => match byte(s, e, RIGHT_BRACKET) {
                            None => None,
                            Some(f) => match byte(s, span(s, f, Class::Space), SEMICOLON) {
                                None => None,
                                Some(g) => Some(((text_of(s, b, c), size), g)),
                            },
                        },
                    },
                },
            },
        },
    }
}

/// `qreg name[size];`
pub open spec fn qreg_spec(s: Seq<u8>, i: int) -> Option<(StatementView, int)> {
    match register_spec(s, i, "qreg") {
        Some(((name, size), j)) => Some((StatementView::QReg(name, size), j)),
        None => None,
    }
}

/// `creg name[size];`
pub open spec fn creg_spec(s: Seq<u8>, i: int) -> Option<(StatementView, int)> {
    match register_spec(s, i, "creg") {
        Some(((name, size), j)) => Some((StatementView::CReg(name, size), j)),
        None => None,
    }
}

/// A subscript: `[`, a number, `]`, with spaces allowed around each.
pub open spec fn subscript_spec(s: Seq<u8>, i: int) -> Option<(usize, int)> {
    match padded(s, i, LEFT_BRACKET) {
        None => None,
        Some(a) => match uint(s, a) {
            None => None,
            Some((n, b)) => match padded(s, b, RIGHT_BRACKET) {
                None => None,
                Some(c) => Some((n, c)),
            },
        },
    }
}

/// A qubit or bit argument: a name, then a subscript or nothing.
pub open spec fn qubit_ref_spec(s: Seq<u8>, i: int) -> Option<(ArgView, int)> {
    match name_end(s, i) {
        None => None,
        Some(e) => match subscript_spec(s, e) {
            Some((n, j)) => Some(((text_of(s, i, e), Some(n)), j)),
            None => Some(((text_of(s, i, e), None), e)),
        },
    }
}

/// More arguments behind `acc`, each behind a comma. A comma that no
/// argument follows is not taken.
pub open spec fn args_tail(s: Seq<u8>, i: int, acc: Seq<ArgView>) -> (Seq<ArgView>, int)
    decreases s.len() - i,
{
    match padded(s, i, COMMA) {
        None => (acc, i),
        Some(a) => match qubit_ref_spec(s, a) {
            None => (acc, i),
            Some((arg, j)) => if 0 <= i < j <= s.len() {
                args_tail(s, j, acc.push(arg))
            } else {
                (acc, i)
            },
        },
    }
}

/// Arguments separated by commas; there may be none.
pub open spec fn args_spec(s: Seq<u8>, i: int) -> (Seq<ArgView>, int) {
    match qubit_ref_spec(s, i) {
        None => (Seq::empty(), i),
        Some((arg, j)) => args_tail(s, j, seq![arg]),
    }
}

/// More names behind `acc`, each behind a comma.
pub open spec fn names_tail(s: Seq<u8>, i: int, acc: Seq<Seq<char>>) -> (Seq<Seq<char>>, int)
    decreases s.len() - i,
{
    match padded(s, i, COMMA) {
        None => (acc, i),
        Some(a) => match name_end(s, a) {
            None => (acc, i),
            Some(j) => if 0 <= i < j <= s.len() {
                names_tail(s, j, acc.push(text_of(s, a, j)))
            } else {
                (acc, i)
            },
        },
    }
}

/// Names separated by commas; there may be none.
pub open spec fn names_spec(s: Seq<u8>, i: int) -> (Seq<Seq<char>>, int) {
    match name_end(s, i) {
        None => (Seq::empty(), i),
        Some(j) => names_tail(s, j, seq![text_of(s, i, j)]),
    }
}

/// A number or a name.
pub open spec fn atom_spec(s: Seq<u8>, i: int) -> Step<ExprView> {
    match number(s, i) {
        Ok((bits, j)) => Ok((ExprView::Float(bits), j)),
        Err(Reject::Failure) => Err(Reject::Failure),
        Err(Reject::Error) => match name_end(s, i) {
            Some(j) => Ok((ExprView::Var(text_of(s, i, j)), j)),
            None => Err(Reject::Error),
        },
    }
}

/// `factor := '(' expr ')' | number | name`, the parentheses with spaces
/// allowed around them.
pub open spec fn factor_spec(s: Seq<u8>, i: int) -> Step<ExprView>
    decreases s.len() - i, 0nat,
{
    match padded(s, i, LEFT_PAREN) {
        None => atom_spec(s, i),
        Some(a) => if 0 <= i < a <= s.len() {
            match expr_spec(s, a) {
                Err(Reject::Failure) => Err(Reject::Failure),
                Err(Reject::Error) => atom_spec(s, i),
                Ok((e, b)) => match padded(s, b, RIGHT_PAREN) {
                    Some(c) => Ok((e, c)),
                    None => atom_spec(s, i),
                },
            }
        } else {
            atom_spec(s, i)
        },
    }
}

/// One of two operator bytes with spaces allowed around it: which of the
/// two it is (`true` for the first) and where the operand begins.
pub open spec fn operator_spec(s: Seq<u8>, i: int, first: u8, second: u8) -> Option<(bool, int)> {
    match padded(s, i, first) {
        Some(a) => Some((true, a)),
        None => match padded(s, i, second) {
            Some(a) => Some((false, a)),
            None => None,
        },
    }
}

/// More factors behind `acc`, each behind `*` or `/`; they group to the
/// left. An operator that no factor follows is not taken.
pub open spec fn term_tail(s: Seq<u8>, i: int, acc: ExprView) -> Step<ExprView>
    decreases s.len() - i, 1nat,
{
    match operator_spec(s, i, STAR, SLASH) {
        None => Ok((acc, i)),
        Some((times, a)) => if 0 <= i < a <= s.len() {
            match factor_spec(s, a) {
                Err(Reject::Failure) => Err(Reject::Failure),
                Err(Reject::Error) => Ok((acc, i)),
                Ok((f, j)) => if a <= j <= s.len() {
                    term_tail(
                        s,
                        j,
                        if times {
                            ExprView::Mul(Box::new(acc), Box::new(f))
                        } else {
                            ExprView::Div(Box::new(acc), Box::new(f))
                        },
                    )
                } else {
                    Ok((acc, i))
                },
            }
        } else {
            Ok((acc, i))
        },
    }
}

/// `term := factor (('*'|'/') factor)*`
pub open spec fn term_spec(s: Seq<u8>, i: int) -> Step<ExprView>
    decreases s.len() - i, 2nat,
{
    match factor_spec(s, i) {
        Err(r) => Err(r),
        Ok((f, j)) => if 0 <= i <= j <= s.len() {
            term_tail(s, j, f)
        } else {
            Err(Reject::Error)
        },
    }
}

/// More terms behind `acc`, each behind `+` or `-`; they group to the left.
pub open spec fn expr_tail(s: Seq<u8>, i: int, acc: ExprView) -> Step<ExprView>
    decreases s.len() - i, 3nat,
{
    match operator_spec(s, i, PLUS, MINUS) {
        None => Ok((acc, i)),
        Some((plus, a)) => if 0 <= i < a <= s.len() {
            match term_spec(s, a) {
                Err(Reject::Failure) => Err(Reject::Failure),
                Err(Reject::Error) => Ok((acc, i)),
                Ok((t, j)) => if a <= j <= s.len() {
                    expr_tail(
                        s,
                        j,
                        if plus {
                            ExprView::Add(Box::new(acc), Box::new(t))
                        } else {
                            ExprView::Sub(Box::new(acc), Box::new(t))
                        },
                    )
                } else {
                    Ok((acc, i))
                },
            }
        } else {
            Ok((acc, i))
        },
    }
}

/// `expr := term (('+'|'-') term)*`
pub open spec fn expr_spec(s: Seq<u8>, i: int) -> Step<ExprView>
    decreases s.len() - i, 4nat,
{
    match term_spec(s, i) {
        Err(r) => Err(r),
        Ok((t, j)) => if 0 <= i <= j <= s.len() {
            expr_tail(s, j, t)
        } else {
            Err(Reject::Error)
        },
    }
}

/// More expressions behind `acc`, each behind a comma.
pub open spec fn params_tail(s: Seq<u8>, i: int, acc: Seq<ExprView>) -> Step<Seq<ExprView>>
    decreases s.len() - i,
{
    match padded(s, i, COMMA) {
        None => Ok((acc, i)),
        Some(a) => match expr_spec(s, a) {
            Err(Reject::Failure) => Err(Reject::Failure),
            Err(Reject::Error) => Ok((acc, i)),
            Ok((e, j)) => if 0 <= i < j <= s.len() {
                params_tail(s, j, acc.push(e))
            } else {
                Ok((acc, i))
            },
        },
    }
}

/// Expressions separated by commas; there may be none.
pub open spec fn params_spec(s: Seq<u8>, i: int) -> Step<Seq<ExprView>> {
    match expr_spec(s, i) {
        Err(Reject::Failure) => Err(Reject::Failure),
        Err(Reject::Error) => Ok((Seq::empty(), i)),
        Ok((e, j)) => params_tail(s, j, seq![e]),
    }
}

/// The parameters of a call in parentheses, or `None` where the text at
/// `i` is not of that form.
pub open spec fn call_params_spec(s: Seq<u8>, i: int) -> Result<
    Option<(Seq<ExprView>, int)>,
    Reject,
> {
    match padded(s, i, LEFT_PAREN) {
        None => Ok(None),
        Some(a) => match params_spec(s, a) {
            Err(Reject::Failure) => Err(Reject::Failure),
            Err(Reject::Error) => Ok(None),
            Ok((params, b)) => match padded(s, b, RIGHT_PAREN) {
                None => Ok(None),
                Some(c) => Ok(Some((params, c))),
            },
        },
    }
}

/// The arguments of a statement and the semicolon that ends it.
pub open spec fn args_then_semicolon(s: Seq<u8>, i: int) -> Option<(Seq<ArgView>, int)> {
    let (args, j) = args_spec(s, i);
    match byte(s, span(s, j, Class::Space), SEMICOLON) {
        Some(k) => Some((args, k)),
        None => None,
    }
}

/// A gate call: its name, parameters in parentheses or at least one
/// space, the qubit arguments, `;`.
pub open spec fn gate_call_spec(s: Seq<u8>, i: int) -> Step<StatementView> {
    match name_end(s, i) {
        None => Err(Reject::Error),
        Some(e) => match call_params_spec(s, e) {
            Err(r) => Err(r),
            Ok(Some((params, c))) => match args_then_semicolon(s, span(s, c, Class::Space)) {
                Some((args, k)) => Ok((StatementView::Gate(text_of(s, i, e), args, params), k)),
                None => Err(Reject::Error),
            },
            Ok(None) => match spaces1(s, e) {
                None => Err(Reject::Error),
                Some(c) => match args_then_semicolon(s, c) {
                    Some((args, k)) => Ok(
                        (StatementView::Gate(text_of(s, i, e), args, Seq::empty()), k),
                    ),
                    None => Err(Reject::Error),
                },
            },
        },
    }
}

/// `measure qubit -> bit;`
pub open spec fn measure_spec(s: Seq<u8>, i: int) -> Option<(StatementView, int)> {
    match word(s, i, "measure") {
        None => None,
        Some(a) => match spaces1(s, a) {
            None => None,
            Some(b) => match qubit_ref_spec(s, b) {
                None => None,
                Some((q, c)) => match word(s, span(s, c, Class::Space), "->") {
                    None => None,
                    Some(d) => match qubit_ref_spec(s, span(s, d, Class::Space)) {
                        None => None,
                        Some((t, e)) => match byte(s, span(s, e, Class::Space), SEMICOLON) {
                            None => None,
                            Some(f) => Some((StatementView::Measure(q, t), f)),
                        },
                    },
                },
            },
        },
    }
}

/// `barrier args;`
pub open spec fn barrier_spec(s: Seq<u8>, i: int) -> Option<(StatementView, int)> {
    match word(s, i, "barrier") {
        None => None,
        Some(a) => match spaces1(s, a) {
            None => None,
            Some(b) => match args_then_semicolon(s, b) {
                Some((args, k)) => Some((StatementView::Barrier(args), k)),
                None => None,
            },
        },
    }
}

/// The statement under a condition: a measurement, a gate call or a
/// barrier, tried in this order.
pub open spec fn conditioned_spec(s: Seq<u8>, i: int) -> Step<StatementView> {
    or_else(soft(measure_spec(s, i)), or_else(gate_call_spec(s, i), soft(barrier_spec(s, i))))
}

/// The head of a conditional, `if (creg == value)`: the register, the value
/// and where the statement under the condition begins.
pub open spec fn condition_spec(s: Seq<u8>, i: int) -> Option<((Seq<char>, usize), int)> {
    match word(s, i, "if") {
        None => None,
        Some(a) => match byte(s, span(s, a, Class::Space), LEFT_PAREN) {
            None => None,
            Some(b) => {
                let c = span(s, b, Class::Space);
                match name_end(s, c) {
                    None => None,
                    Some(d) => match word(s, span(s, d, Class::Space), "==") {
                        None => None,
                        Some(e) => match uint(s, span(s, e, Class::Space)) {
                            None => None,
                            Some((value, f)) => match byte(
                                s,
                                span(s, f, Class::Space),
                                RIGHT_PAREN,
                            ) {
                                None => None,
                                Some(g) => Some(
                                    ((text_of(s, c, d), value), span(s, g, Class::Space)),
                                ),
                            },
                        },
                    },
                }
            },
        },
    }
}

/// A conditional: its head and the statement under it.
pub open spec fn if_spec(s: Seq<u8>, i: int) -> Step<StatementView> {
    match condition_spec(s, i) {
        None => Err(Reject::Error),
        Some(((creg, value), a)) => match conditioned_spec(s, a) {
            Err(r) => Err(r),
            Ok((inner, j)) => Ok((StatementView::If(creg, value, Box::new(inner)), j)),
        },
    }
}

/// One statement of a gate body, a barrier or a gate call, with spaces
/// allowed on both sides.
pub open spec fn body_item_spec(s: Seq<u8>, i: int) -> Step<StatementView> {
    let a = span(s, i, Class::Space);
    match or_else(soft(barrier_spec(s, a)), gate_call_spec(s, a)) {
        Err(r) => Err(r),
        Ok((stmt, b)) => Ok((stmt, span(s, b, Class::Space))),
    }
}

/// More body statements behind `acc`, as many as there are.
pub open spec fn body_tail(s: Seq<u8>, i: int, acc: Seq<StatementView>) -> Step<
    Seq<StatementView>,
>
    decreases s.len() - i,
{
    match body_item_spec(s, i) {
        Err(Reject::Failure) => Err(Reject::Failure),
        Err(Reject::Error) => Ok((acc, i)),
        Ok((stmt, j)) => if 0 <= i < j <= s.len() {
            body_tail(s, j, acc.push(stmt))
        } else {
            Err(Reject::Error)
        },
    }
}

/// The formal parameters of a gate definition in parentheses, or `None`
/// where the text at `i` is not of that form.
pub open spec fn formal_params_spec(s: Seq<u8>, i: int) -> Option<(Seq<Seq<char>>, int)> {
    match padded(s, i, LEFT_PAREN) {
        None => None,
        Some(a) => {
            let (names, b) = names_spec(s, a);
            match padded(s, b, RIGHT_PAREN) {
                None => None,
                Some(c) => Some((names, c)),
            }
        },
    }
}

/// The head of a gate definition, up to and including the opening brace:
/// name, formal parameters, formal qubits, and where the body begins.
pub open spec fn gate_head_spec(s: Seq<u8>, i: int) -> Option<
    ((Seq<char>, Seq<Seq<char>>, Seq<Seq<char>>), int),
> {
    match word(s, i, "gate") {
        None => None,
        Some(a) => match spaces1(s, a) {
            None => None,
            Some(b) => match name_end(s, b) {
                None => None,
                Some(c) => {
                    let (params, d) = match formal_params_spec(s, c) {
                        Some((params, d)) => (params, d),
                        None => (Seq::empty(), c),
                    };
                    let (qubits, e) = names_spec(s, span(s, d, Class::Space));
                    match padded(s, e, LEFT_BRACE) {
                        None => None,
                        Some(f) => Some(((text_of(s, b, c), params, qubits), f)),
                    }
                },
            },
        },
    }
}

/// A gate definition: `gate name(params) qubits { body }`.
pub open spec fn gate_def_spec(s: Seq<u8>, i: int) -> Step<StatementView> {
    match gate_head_spec(s, i) {
        None => Err(Reject::Error),
        Some(((name, params, qubits), a)) => match body_tail(s, a, Seq::empty()) {
            Err(r) => Err(r),
            Ok((body, b)) => match padded(s, b, RIGHT_BRACE) {
                None => Err(Reject::Error),
                Some(c) => Ok((StatementView::GateDef(name, params, qubits, body), c)),
            },
        },
    }
}

/// The directive that names a file, as a statement.
pub open spec fn include_statement_spec(s: Seq<u8>, i: int) -> Option<(StatementView, int)> {
    match include_spec(s, i) {
        Some((file, j)) => Some((StatementView::Include(file), j)),
        None => None,
    }
}

/// The statement at `i`: the first form that matches, of the file
/// directive, `qreg`, `creg`, `measure`, `barrier`, a gate definition, a
/// conditional and a gate call, in this order.
#[verifier::opaque]
pub open spec fn statement_spec(s: Seq<u8>, i: int) -> Step<StatementView> {
    or_else(
        soft(include_statement_spec(s, i)),
        or_else(
            soft(qreg_spec(s, i)),
            or_else(
                soft(creg_spec(s, i)),
                or_else(
                    soft(measure_spec(s, i)),
                    or_else(
                        soft(barrier_spec(s, i)),
                        or_else(gate_def_spec(s, i), or_else(if_spec(s, i), gate_call_spec(s, i))),
                    ),
                ),
            ),
        ),
    )
}

} // verus!
