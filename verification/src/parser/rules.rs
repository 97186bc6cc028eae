//! The grammar, executable: each function reads one form at a position of
//! the source and returns what the specification of that form says.

use crate::parser::ast::arg_view;
use crate::parser::ast::arg_views;
use crate::parser::ast::expr_views;
use crate::parser::ast::name_views;
use crate::parser::ast::statement_views;
use crate::parser::ast::Arg;
use crate::parser::ast::Expr;
use crate::parser::ast::ExprView;
use crate::parser::ast::ParsedStatement;
use crate::parser::ast::Reject;
use crate::parser::ast::StatementView;
use crate::parser::grammar::Step;
use crate::parser::grammar::args_spec;
use crate::parser::grammar::args_tail;
use crate::parser::grammar::args_then_semicolon;
use crate::parser::grammar::atom_spec;
use crate::parser::grammar::barrier_spec;
use crate::parser::grammar::body_item_spec;
use crate::parser::grammar::body_tail;
use crate::parser::grammar::call_params_spec;
use crate::parser::grammar::comment_spec;
use crate::parser::grammar::condition_spec;
use crate::parser::grammar::conditioned_spec;
use crate::parser::grammar::creg_spec;
use crate::parser::grammar::expr_spec;
use crate::parser::grammar::expr_tail;
use crate::parser::grammar::factor_spec;
use crate::parser::grammar::formal_params_spec;
use crate::parser::grammar::gate_call_spec;
use crate::parser::grammar::gate_def_spec;
use crate::parser::grammar::gate_head_spec;
use crate::parser::grammar::if_spec;
use crate::parser::grammar::include_spec;
use crate::parser::grammar::include_statement_spec;
use crate::parser::grammar::measure_spec;
use crate::parser::grammar::names_spec;
use crate::parser::grammar::names_tail;
use crate::parser::grammar::operator_spec;
use crate::parser::grammar::params_spec;
use crate::parser::grammar::params_tail;
use crate::parser::grammar::qreg_spec;
use crate::parser::grammar::qubit_ref_spec;
use crate::parser::grammar::register_spec;
use crate::parser::grammar::skip_blank;
use crate::parser::grammar::soft;
use crate::parser::grammar::statement_spec;
use crate::parser::grammar::subscript_spec;
use crate::parser::grammar::term_spec;
use crate::parser::grammar::term_tail;
use crate::parser::grammar::version_spec;
use crate::parser::lexer::COMMA;
use crate::parser::lexer::Class;
use crate::parser::lexer::LEFT_BRACE;
use crate::parser::lexer::LEFT_BRACKET;
use crate::parser::lexer::LEFT_PAREN;
use crate::parser::lexer::MINUS;
use crate::parser::lexer::NEWLINE;
use crate::parser::lexer::PLUS;
use crate::parser::lexer::QUOTE;
use crate::parser::lexer::RIGHT_BRACE;
use crate::parser::lexer::RIGHT_BRACKET;
use crate::parser::lexer::RIGHT_PAREN;
use crate::parser::lexer::SEMICOLON;
use crate::parser::lexer::SLASH;
use crate::parser::lexer::STAR;
use crate::parser::lexer::advances;
use crate::parser::lexer::in_class;
use crate::parser::lexer::lemma_span;
use crate::parser::lexer::skip;
use crate::parser::lexer::skip_spaces;
use crate::parser::lexer::span;
use crate::parser::lexer::take_byte;
use crate::parser::lexer::take_name;
use crate::parser::lexer::take_padded;
use crate::parser::lexer::take_spaces1;
use crate::parser::lexer::take_text;
use crate::parser::lexer::take_uint;
use crate::parser::lexer::take_word;
use crate::parser::lexer::word;
use crate::parser::number::number;
use crate::parser::number::take_number;
use crate::parser::text::text_of;
use crate::parser::text::Source;
use vstd::prelude::*;
use vstd::string::*;

verus! {

/// The word that begins a comment is two bytes long.
pub proof fn lemma_comment_word()
    ensures
        "//".spec_bytes().len() == 2,
{
    reveal_strlit("//");
    vstd::utf8::is_ascii_chars_encode_utf8("//"@);
}

/// Reads a comment at `i`.
pub fn comment_at(src: &Source, i: usize) -> (r: Option<usize>)
    requires
        i <= src@.len(),
    ensures
        r matches Some(j) ==> comment_spec(src@, i as int) == Some(j as int) && i < j <= src@.len()
            && (j == src@.len() || src@[j as int] == NEWLINE),
        r is None ==> comment_spec(src@, i as int) is None,
{
    match take_word(src, i, "//") {
        Some(a) => {
            proof {
                lemma_comment_word();
                lemma_span(src@, a as int, Class::NotNewline);
            }
            Some(skip(src, a, Class::NotNewline))
        },
        None => None,
    }
}

/// Skips blanks and comments from `i` on.
pub fn skip_blanks(src: &Source, i: usize) -> (j: usize)
    requires
        i <= src@.len(),
    ensures
        j == skip_blank(src@, i as int),
        i <= j <= src@.len(),
        j == i || j == src@.len() || src@[j - 1] < 128,
{
    let mut j: usize = i;
    loop
        invariant
            i <= j <= src@.len(),
            skip_blank(src@, i as int) == skip_blank(src@, j as int),
            j == i || j == src@.len() || src@[j - 1] < 128,
        decreases src@.len() - j,
    {
        let a = skip(src, j, Class::Blank);
        proof {
            lemma_span(src@, j as int, Class::Blank);
            if a > j {
                assert(in_class(Class::Blank, src@[a - 1]));
            }
        }
        match comment_at(src, a) {
            Some(k) => {
                if k >= src.len() {
                    proof {
                        lemma_skip_blank_at_end(src@);
                    }
                    return k;
                }
                // The comment ends at a line feed, which the next round takes.
                proof {
                    lemma_skip_blank_over_newline(src@, k as int);
                }
                j = k + 1;
            },
            None => {
                return a;
            },
        }
    }
}

proof fn lemma_skip_blank_at_end(s: Seq<u8>)
    ensures
        skip_blank(s, s.len() as int) == s.len(),
{
    lemma_comment_word();
    assert(span(s, s.len() as int, Class::Blank) == s.len());
}

proof fn lemma_skip_blank_over_newline(s: Seq<u8>, k: int)
    requires
        0 <= k < s.len(),
        s[k] == NEWLINE,
    ensures
        skip_blank(s, k) == skip_blank(s, k + 1),
{
    lemma_span(s, k + 1, Class::Blank);
    assert(span(s, k, Class::Blank) == span(s, k + 1, Class::Blank));
}

/// Reads the version statement at `i`: the version and where the statement
/// ends.
pub fn version_at(src: &Source, i: usize) -> (r: Option<(String, usize)>)
    requires
        src.wf(),
        i <= src@.len(),
    ensures
        r matches Some((v, j)) ==> version_spec(src@, i as int) == Some((v@, j as int))
            && advances(src@, i as int, j as int),
        r is None ==> version_spec(src@, i as int) is None,
{
    let a = match take_word(src, i, "OPENQASM") {
        Some(a) => a,
        None => return None,
    };
    let b = match take_spaces1(src, a) {
        Some(b) => b,
        None => return None,
    };
    let c = skip(src, b, Class::NotSemicolon);
    if c == b {
        return None;
    }
    let d = match take_byte(src, c, SEMICOLON) {
        Some(d) => d,
        None => return None,
    };
    Some((take_text(src, b, c), d))
}

/// Reads the directive that names a file at `i`: the name and where the
/// statement ends.
pub fn include_at(src: &Source, i: usize) -> (r: Option<(String, usize)>)
    requires
        src.wf(),
        i <= src@.len(),
    ensures
        r matches Some((f, j)) ==> include_spec(src@, i as int) == Some((f@, j as int))
            && advances(src@, i as int, j as int),
        r is None ==> include_spec(src@, i as int) is None,
{
    let a = match take_word(src, i, "include") {
        Some(a) => a,
        None => return None,
    };
    let b = match take_spaces1(src, a) {
        Some(b) => b,
        None => return None,
    };
    let c = match take_byte(src, b, QUOTE) {
        Some(c) => c,
        None => return None,
    };
    let d = skip(src, c, Class::NotQuote);
    if d == c {
        return None;
    }
    let e = match take_byte(src, d, QUOTE) {
        Some(e) => e,
        None => return None,
    };
    let f = match take_byte(src, skip_spaces(src, e), SEMICOLON) {
        Some(f) => f,
        None => return None,
    };
    Some((take_text(src, c, d), f))
}

/// Reads a register declaration under the keyword `kw` at `i`.
pub fn register_at(src: &Source, i: usize, kw: &str) -> (r: Option<((String, usize), usize)>)
    requires
        src.wf(),
        i <= src@.len(),
    ensures
        r matches Some(((name, size), j)) ==> register_spec(src@, i as int, kw) == Some(
            ((name@, size), j as int),
        ) && advances(src@, i as int, j as int),
        r is None ==> register_spec(src@, i as int, kw) is None,
{
    let a = match take_word(src, i, kw) {
        Some(a) => a,
        None => return None,
    };
    let b = match take_spaces1(src, a) {
        Some(b) => b,
        None => return None,
    };
    let c = match take_name(src, b) {
        Some(c) => c,
        None => return None,
    };
    let d = match take_byte(src, skip_spaces(src, c), LEFT_BRACKET) {
        Some(d) => d,
        None => return None,
    };
    let (size, e) = match take_uint(src, d) {
        Some(x) => x,
        None => return None,
    };
    let f = match take_byte(src, e, RIGHT_BRACKET) {
        Some(f) => f,
        None => return None,
    };
    let g = match take_byte(src, skip_spaces(src, f), SEMICOLON) {
        Some(g) => g,
        None => return None,
    };
    Some(((take_text(src, b, c), size), g))
}

/// Reads a subscript at `i`.
pub fn subscript_at(src: &Source, i: usize) -> (r: Option<(usize, usize)>)
    requires
        i <= src@.len(),
    ensures
        r matches Some((n, j)) ==> subscript_spec(src@, i as int) == Some((n, j as int))
            && advances(src@, i as int, j as int),
        r is None ==> subscript_spec(src@, i as int) is None,
{
    let a = match take_padded(src, i, LEFT_BRACKET) {
        Some(a) => a,
        None => return None,
    };
    let (n, b) = match take_uint(src, a) {
        Some(x) => x,
        None => return None,
    };
    match take_padded(src, b, RIGHT_BRACKET) {
        Some(c) => Some((n, c)),
        None => None,
    }
}

/// Reads a qubit or bit argument at `i`.
pub fn qubit_ref_at(src: &Source, i: usize) -> (r: Option<(Arg, usize)>)
    requires
        src.wf(),
        i <= src@.len(),
    ensures
        r matches Some((arg, j)) ==> qubit_ref_spec(src@, i as int) == Some(
            (arg_view(arg), j as int),
        ) && advances(src@, i as int, j as int),
        r is None ==> qubit_ref_spec(src@, i as int) is None,
{
    let e = match take_name(src, i) {
        Some(e) => e,
        None => return None,
    };
    let name = take_text(src, i, e);
    match subscript_at(src, e) {
        Some((n, j)) => Some(((name, Some(n)), j)),
        None => Some(((name, None), e)),
    }
}

/// Reads arguments separated by commas at `i`.
pub fn args_at(src: &Source, i: usize) -> (r: (Vec<Arg>, usize))
    requires
        src.wf(),
        i <= src@.len(),
    ensures
        args_spec(src@, i as int) == (arg_views(r.0@), r.1 as int),
        i <= r.1 <= src@.len(),
        r.1 > i ==> advances(src@, i as int, r.1 as int),
{
    let mut args: Vec<Arg> = Vec::new();
    let mut j: usize = match qubit_ref_at(src, i) {
        Some((arg, j)) => {
            args.push(arg);
            j
        },
        None => {
            assert(arg_views(args@) =~= Seq::empty());
            return (args, i);
        },
    };
    assert(arg_views(args@) =~= seq![arg_view(args@[0])]);
    loop
        invariant
            src.wf(),
            i < j <= src@.len(),
            advances(src@, i as int, j as int),
            args_spec(src@, i as int) == args_tail(src@, j as int, arg_views(args@)),
        decreases src@.len() - j,
    {
        let a = match take_padded(src, j, COMMA) {
            Some(a) => a,
            None => return (args, j),
        };
        match qubit_ref_at(src, a) {
            Some((arg, k)) => {
                let ghost before = arg_views(args@);
                args.push(arg);
                assert(arg_views(args@) =~= before.push(arg_view(arg)));
                j = k;
            },
            None => return (args, j),
        }
    }
}

/// Reads names separated by commas at `i`.
pub fn names_at(src: &Source, i: usize) -> (r: (Vec<String>, usize))
    requires
        src.wf(),
        i <= src@.len(),
    ensures
        names_spec(src@, i as int) == (name_views(r.0@), r.1 as int),
        i <= r.1 <= src@.len(),
        r.1 > i ==> advances(src@, i as int, r.1 as int),
{
    let mut names: Vec<String> = Vec::new();
    let mut j: usize = match take_name(src, i) {
        Some(j) => {
            names.push(take_text(src, i, j));
            j
        },
        None => {
            assert(name_views(names@) =~= Seq::empty());
            return (names, i);
        },
    };
    assert(name_views(names@) =~= seq![names@[0]@]);
    loop
        invariant
            src.wf(),
            i < j <= src@.len(),
            advances(src@, i as int, j as int),
            names_spec(src@, i as int) == names_tail(src@, j as int, name_views(names@)),
        decreases src@.len() - j,
    {
        let a = match take_padded(src, j, COMMA) {
            Some(a) => a,
            None => return (names, j),
        };
        match take_name(src, a) {
            Some(k) => {
                let ghost before = name_views(names@);
                let name = take_text(src, a, k);
                names.push(name);
                assert(name_views(names@) =~= before.push(name@));
                j = k;
            },
            None => return (names, j),
        }
    }
}

/// Whether what a rule returned at `i` is what its specification says: the
/// value by its view, the end as it is, and an end that lies ahead.
pub open spec fn reads<T: View>(
    r: Result<(T, usize), Reject>,
    spec: Step<T::V>,
    s: Seq<u8>,
    i: int,
) -> bool {
    match r {
        Ok((v, j)) => spec == Ok::<(T::V, int), Reject>((v@, j as int)) && advances(s, i, j as int),
        Err(e) => spec == Err::<(T::V, int), Reject>(e),
    }
}

/// As [`reads`], for a rule that either matches or does not.
pub open spec fn finds<T: View>(
    r: Option<(T, usize)>,
    spec: Option<(T::V, int)>,
    s: Seq<u8>,
    i: int,
) -> bool {
    match r {
        Some((v, j)) => spec == Some((v@, j as int)) && advances(s, i, j as int),
        None => spec is None,
    }
}

/// Reads a number or a name at `i`.
pub fn atom_at(src: &Source, i: usize) -> (r: Result<(Expr, usize), Reject>)
    requires
        src.wf(),
        i <= src@.len(),
    ensures
        reads(r, atom_spec(src@, i as int), src@, i as int),
{
    match take_number(src, i) {
        Ok((bits, j)) => Ok((Expr::Float(bits), j)),
        Err(Reject::Failure) => Err(Reject::Failure),
        Err(Reject::Error) => match take_name(src, i) {
            Some(j) => Ok((Expr::Var(take_text(src, i, j)), j)),
            None => Err(Reject::Error),
        },
    }
}

/// Reads one of two operator bytes at `i`.
pub fn operator_at(src: &Source, i: usize, first: u8, second: u8) -> (r: Option<(bool, usize)>)
    requires
        i <= src@.len(),
        first < 128,
        second < 128,
    ensures
        r matches Some((which, j)) ==> operator_spec(src@, i as int, first, second) == Some(
            (which, j as int),
        ) && advances(src@, i as int, j as int),
        r is None ==> operator_spec(src@, i as int, first, second) is None,
{
    match take_padded(src, i, first) {
        Some(a) => Some((true, a)),
        None => match take_padded(src, i, second) {
            Some(a) => Some((false, a)),
            None => None,
        },
    }
}

/// Reads a factor at `i`.
pub fn factor_at(src: &Source, i: usize) -> (r: Result<(Expr, usize), Reject>)
    requires
        src.wf(),
        i <= src@.len(),
    ensures
        reads(r, factor_spec(src@, i as int), src@, i as int),
    decreases src@.len() - i, 0nat,
{
    match take_padded(src, i, LEFT_PAREN) {
        None => atom_at(src, i),
        Some(a) => match expr_at(src, a) {
            Err(Reject::Failure) => Err(Reject::Failure),
            Err(Reject::Error) => atom_at(src, i),
            Ok((e, b)) => match take_padded(src, b, RIGHT_PAREN) {
                Some(c) => Ok((e, c)),
                None => atom_at(src, i),
            },
        },
    }
}

/// Reads a term at `i`.
pub fn term_at(src: &Source, i: usize) -> (r: Result<(Expr, usize), Reject>)
    requires
        src.wf(),
        i <= src@.len(),
    ensures
        reads(r, term_spec(src@, i as int), src@, i as int),
    decreases src@.len() - i, 2nat,
{
    let (first, start) = match factor_at(src, i) {
        Ok(x) => x,
        Err(e) => return Err(e),
    };
    let mut acc = first;
    let mut j = start;
    loop
        invariant
            src.wf(),
            advances(src@, i as int, j as int),
            term_spec(src@, i as int) == term_tail(src@, j as int, acc@),
        decreases src@.len() - j,
    {
        let (times, a) = match operator_at(src, j, STAR, SLASH) {
            Some(x) => x,
            None => return Ok((acc, j)),
        };
        match factor_at(src, a) {
            Err(Reject::Failure) => return Err(Reject::Failure),
            Err(Reject::Error) => return Ok((acc, j)),
            Ok((f, k)) => {
                acc = if times {
                    Expr::Mul(Box::new(acc), Box::new(f))
                } else {
                    Expr::Div(Box::new(acc), Box::new(f))
                };
                j = k;
            },
        }
    }
}

/// Reads an expression at `i`.
pub fn expr_at(src: &Source, i: usize) -> (r: Result<(Expr, usize), Reject>)
    requires
        src.wf(),
        i <= src@.len(),
    ensures
        reads(r, expr_spec(src@, i as int), src@, i as int),
    decreases src@.len() - i, 4nat,
{
    let (first, start) = match term_at(src, i) {
        Ok(x) => x,
        Err(e) => return Err(e),
    };
    let mut acc = first;
    let mut j = start;
    loop
        invariant
            src.wf(),
            advances(src@, i as int, j as int),
            expr_spec(src@, i as int) == expr_tail(src@, j as int, acc@),
        decreases src@.len() - j,
    {
        let (plus, a) = match operator_at(src, j, PLUS, MINUS) {
            Some(x) => x,
            None => return Ok((acc, j)),
        };
        match term_at(src, a) {
            Err(Reject::Failure) => return Err(Reject::Failure),
            Err(Reject::Error) => return Ok((acc, j)),
            Ok((t, k)) => {
                acc = if plus {
                    Expr::Add(Box::new(acc), Box::new(t))
                } else {
                    Expr::Sub(Box::new(acc), Box::new(t))
                };
                j = k;
            },
        }
    }
}

/// Reads expressions separated by commas at `i`.
pub fn params_at(src: &Source, i: usize) -> (r: Result<(Vec<Expr>, usize), Reject>)
    requires
        src.wf(),
        i <= src@.len(),
    ensures
        match r {
            Ok((params, j)) => params_spec(src@, i as int) == Ok::<(Seq<ExprView>, int), Reject>(
                (expr_views(params@), j as int),
            ) && i <= j <= src@.len() && (j > i ==> advances(src@, i as int, j as int)),
            Err(e) => params_spec(src@, i as int) == Err::<(Seq<ExprView>, int), Reject>(e),
        },
{
    let mut params: Vec<Expr> = Vec::new();
    let mut j: usize = match expr_at(src, i) {
        Ok((e, j)) => {
            params.push(e);
            j
        },
        Err(Reject::Failure) => return Err(Reject::Failure),
        Err(Reject::Error) => {
            assert(expr_views(params@) =~= Seq::empty());
            return Ok((params, i));
        },
    };
    assert(expr_views(params@) =~= seq![params@[0]@]);
    loop
        invariant
            src.wf(),
            advances(src@, i as int, j as int),
            params_spec(src@, i as int) == params_tail(src@, j as int, expr_views(params@)),
        decreases src@.len() - j,
    {
        let a = match take_padded(src, j, COMMA) {
            Some(a) => a,
            None => return Ok((params, j)),
        };
        match expr_at(src, a) {
            Err(Reject::Failure) => return Err(Reject::Failure),
            Err(Reject::Error) => return Ok((params, j)),
            Ok((e, k)) => {
                let ghost before = expr_views(params@);
                let ghost ev = e@;
                params.push(e);
                assert(expr_views(params@) =~= before.push(ev));
                j = k;
            },
        }
    }
}

/// Reads the parameters of a call in parentheses at `i`, if they are there.
pub fn call_params_at(src: &Source, i: usize) -> (r: Result<Option<(Vec<Expr>, usize)>, Reject>)
    requires
        src.wf(),
        i <= src@.len(),
    ensures
        match r {
            Ok(Some((params, j))) => call_params_spec(src@, i as int) == Ok::<
                Option<(Seq<ExprView>, int)>,
                Reject,
            >(Some((expr_views(params@), j as int))) && advances(src@, i as int, j as int),
            Ok(None) => call_params_spec(src@, i as int) == Ok::<
                Option<(Seq<ExprView>, int)>,
                Reject,
            >(None),
            Err(e) => call_params_spec(src@, i as int) == Err::<
                Option<(Seq<ExprView>, int)>,
                Reject,
            >(e),
        },
{
    let a = match take_padded(src, i, LEFT_PAREN) {
        Some(a) => a,
        None => return Ok(None),
    };
    match params_at(src, a) {
        Err(Reject::Failure) => Err(Reject::Failure),
        Err(Reject::Error) => Ok(None),
        Ok((params, b)) => match take_padded(src, b, RIGHT_PAREN) {
            Some(c) => Ok(Some((params, c))),
            None => Ok(None),
        },
    }
}

/// Reads the arguments of a statement and the semicolon that ends it.
pub fn args_then_semicolon_at(src: &Source, i: usize) -> (r: Option<(Vec<Arg>, usize)>)
    requires
        src.wf(),
        i <= src@.len(),
    ensures
        r matches Some((args, j)) ==> args_then_semicolon(src@, i as int) == Some(
            (arg_views(args@), j as int),
        ) && advances(src@, i as int, j as int),
        r is None ==> args_then_semicolon(src@, i as int) is None,
{
    let (args, j) = args_at(src, i);
    match take_byte(src, skip_spaces(src, j), SEMICOLON) {
        Some(k) => Some((args, k)),
        None => None,
    }
}

/// Reads a gate call at `i`.
pub fn gate_call_at(src: &Source, i: usize) -> (r: Result<(ParsedStatement, usize), Reject>)
    requires
        src.wf(),
        i <= src@.len(),
    ensures
        reads(r, gate_call_spec(src@, i as int), src@, i as int),
{
    let e = match take_name(src, i) {
        Some(e) => e,
        None => return Err(Reject::Error),
    };
    let name = take_text(src, i, e);
    match call_params_at(src, e) {
        Err(r) => Err(r),
        Ok(Some((params, c))) => match args_then_semicolon_at(src, skip_spaces(src, c)) {
            Some((args, k)) => Ok((ParsedStatement::Gate(name, args, params), k)),
            None => Err(Reject::Error),
        },
        Ok(None) => {
            let c = match take_spaces1(src, e) {
                Some(c) => c,
                None => return Err(Reject::Error),
            };
            match args_then_semicolon_at(src, c) {
                Some((args, k)) => {
                    let params: Vec<Expr> = Vec::new();
                    assert(expr_views(params@) =~= Seq::empty());
                    Ok((ParsedStatement::Gate(name, args, params), k))
                },
                None => Err(Reject::Error),
            }
        },
    }
}

/// Reads a measurement at `i`.
pub fn measure_at(src: &Source, i: usize) -> (r: Option<(ParsedStatement, usize)>)
    requires
        src.wf(),
        i <= src@.len(),
    ensures
        finds(r, measure_spec(src@, i as int), src@, i as int),
{
    let a = match take_word(src, i, "measure") {
        Some(a) => a,
        None => return None,
    };
    let b = match take_spaces1(src, a) {
        Some(b) => b,
        None => return None,
    };
    let (q, c) = match qubit_ref_at(src, b) {
        Some(x) => x,
        None => return None,
    };
    let d = match take_word(src, skip_spaces(src, c), "->") {
        Some(d) => d,
        None => return None,
    };
    let (t, e) = match qubit_ref_at(src, skip_spaces(src, d)) {
        Some(x) => x,
        None => return None,
    };
    match take_byte(src, skip_spaces(src, e), SEMICOLON) {
        Some(f) => Some((ParsedStatement::Measure(q, t), f)),
        None => None,
    }
}

/// Reads a barrier at `i`.
pub fn barrier_at(src: &Source, i: usize) -> (r: Option<(ParsedStatement, usize)>)
    requires
        src.wf(),
        i <= src@.len(),
    ensures
        finds(r, barrier_spec(src@, i as int), src@, i as int),
{
    let a = match take_word(src, i, "barrier") {
        Some(a) => a,
        None => return None,
    };
    let b = match take_spaces1(src, a) {
        Some(b) => b,
        None => return None,
    };
    match args_then_semicolon_at(src, b) {
        Some((args, k)) => Some((ParsedStatement::Barrier(args), k)),
        None => None,
    }
}

/// Reads the statement under a condition at `i`.
pub fn conditioned_at(src: &Source, i: usize) -> (r: Result<(ParsedStatement, usize), Reject>)
    requires
        src.wf(),
        i <= src@.len(),
    ensures
        reads(r, conditioned_spec(src@, i as int), src@, i as int),
{
    match measure_at(src, i) {
        Some(x) => Ok(x),
        None => match gate_call_at(src, i) {
            Ok(x) => Ok(x),
            Err(Reject::Failure) => Err(Reject::Failure),
            Err(Reject::Error) => match barrier_at(src, i) {
                Some(x) => Ok(x),
                None => Err(Reject::Error),
            },
        },
    }
}

/// Reads the head of a conditional at `i`.
pub fn condition_at(src: &Source, i: usize) -> (r: Option<((String, usize), usize)>)
    requires
        src.wf(),
        i <= src@.len(),
    ensures
        r matches Some(((creg, value), j)) ==> condition_spec(src@, i as int) == Some(
            ((creg@, value), j as int),
        ) && advances(src@, i as int, j as int),
        r is None ==> condition_spec(src@, i as int) is None,
{
    let a = match take_word(src, i, "if") {
        Some(a) => a,
        None => return None,
    };
    let b = match take_byte(src, skip_spaces(src, a), LEFT_PAREN) {
        Some(b) => b,
        None => return None,
    };
    let c = skip_spaces(src, b);
    let d = match take_name(src, c) {
        Some(d) => d,
        None => return None,
    };
    let e = match take_word(src, skip_spaces(src, d), "==") {
        Some(e) => e,
        None => return None,
    };
    let (value, f) = match take_uint(src, skip_spaces(src, e)) {
        Some(x) => x,
        None => return None,
    };
    let g = match take_byte(src, skip_spaces(src, f), RIGHT_PAREN) {
        Some(g) => g,
        None => return None,
    };
    Some(((take_text(src, c, d), value), skip_spaces(src, g)))
}

/// Reads a conditional at `i`.
pub fn if_at(src: &Source, i: usize) -> (r: Result<(ParsedStatement, usize), Reject>)
    requires
        src.wf(),
        i <= src@.len(),
    ensures
        reads(r, if_spec(src@, i as int), src@, i as int),
{
    let ((creg, value), a) = match condition_at(src, i) {
        Some(x) => x,
        None => return Err(Reject::Error),
    };
    match conditioned_at(src, a) {
        Err(r) => Err(r),
        Ok((inner, j)) => Ok((ParsedStatement::If(creg, value, Box::new(inner)), j)),
    }
}

/// Reads one statement of a gate body at `i`.
pub fn body_item_at(src: &Source, i: usize) -> (r: Result<(ParsedStatement, usize), Reject>)
    requires
        src.wf(),
        i <= src@.len(),
    ensures
        reads(r, body_item_spec(src@, i as int), src@, i as int),
{
    let a = skip_spaces(src, i);
    let (stmt, b) = match barrier_at(src, a) {
        Some(x) => x,
        None => match gate_call_at(src, a) {
            Ok(x) => x,
            Err(r) => return Err(r),
        },
    };
    Ok((stmt, skip_spaces(src, b)))
}

/// Reads the statements of a gate body from `i` on.
pub fn body_at(src: &Source, i: usize) -> (r: Result<(Vec<ParsedStatement>, usize), Reject>)
    requires
        src.wf(),
        i <= src@.len(),
    ensures
        match r {
            Ok((body, j)) => body_tail(src@, i as int, Seq::empty()) == Ok::<
                (Seq<StatementView>, int),
                Reject,
            >((statement_views(body@), j as int)) && i <= j <= src@.len() && (j > i ==> advances(
                src@,
                i as int,
                j as int,
            )),
            Err(e) => body_tail(src@, i as int, Seq::empty()) == Err::<
                (Seq<StatementView>, int),
                Reject,
            >(e),
        },
{
    let mut body: Vec<ParsedStatement> = Vec::new();
    let mut j: usize = i;
    assert(statement_views(body@) =~= Seq::empty());
    loop
        invariant
            src.wf(),
            i <= j <= src@.len(),
            j > i ==> advances(src@, i as int, j as int),
            body_tail(src@, i as int, Seq::empty()) == body_tail(
                src@,
                j as int,
                statement_views(body@),
            ),
        decreases src@.len() - j,
    {
        match body_item_at(src, j) {
            Err(Reject::Failure) => return Err(Reject::Failure),
            Err(Reject::Error) => return Ok((body, j)),
            Ok((stmt, k)) => {
                let ghost before = statement_views(body@);
                let ghost sv = stmt@;
                body.push(stmt);
                assert(statement_views(body@) =~= before.push(sv));
                j = k;
            },
        }
    }
}

/// Reads the formal parameters of a gate definition at `i`, if they are
/// there.
pub fn formal_params_at(src: &Source, i: usize) -> (r: Option<(Vec<String>, usize)>)
    requires
        src.wf(),
        i <= src@.len(),
    ensures
        r matches Some((names, j)) ==> formal_params_spec(src@, i as int) == Some(
            (name_views(names@), j as int),
        ) && advances(src@, i as int, j as int),
        r is None ==> formal_params_spec(src@, i as int) is None,
{
    let a = match take_padded(src, i, LEFT_PAREN) {
        Some(a) => a,
        None => return None,
    };
    let (names, b) = names_at(src, a);
    match take_padded(src, b, RIGHT_PAREN) {
        Some(c) => Some((names, c)),
        None => None,
    }
}

/// Reads the head of a gate definition at `i`.
pub fn gate_head_at(src: &Source, i: usize) -> (r: Option<
    ((String, Vec<String>, Vec<String>), usize),
>)
    requires
        src.wf(),
        i <= src@.len(),
    ensures
        r matches Some(((name, params, qubits), j)) ==> gate_head_spec(src@, i as int) == Some(
            ((name@, name_views(params@), name_views(qubits@)), j as int),
        ) && advances(src@, i as int, j as int),
        r is None ==> gate_head_spec(src@, i as int) is None,
{
    let a = match take_word(src, i, "gate") {
        Some(a) => a,
        None => return None,
    };
    let b = match take_spaces1(src, a) {
        Some(b) => b,
        None => return None,
    };
    let c = match take_name(src, b) {
        Some(c) => c,
        None => return None,
    };
    let name = take_text(src, b, c);
    let (params, d) = match formal_params_at(src, c) {
        Some(x) => x,
        None => {
            let none: Vec<String> = Vec::new();
            assert(name_views(none@) =~= Seq::empty());
            (none, c)
        },
    };
    let (qubits, e) = names_at(src, skip_spaces(src, d));
    match take_padded(src, e, LEFT_BRACE) {
        Some(f) => Some(((name, params, qubits), f)),
        None => None,
    }
}

/// The view of a gate definition holds the views of its parts.
pub proof fn lemma_gate_def_view(
    name: String,
    params: Vec<String>,
    qubits: Vec<String>,
    body: Vec<ParsedStatement>,
)
    ensures
        ParsedStatement::GateDef(name, params, qubits, body)@ == StatementView::GateDef(
            name@,
            name_views(params@),
            name_views(qubits@),
            statement_views(body@),
        ),
{
    let stmt = ParsedStatement::GateDef(name, params, qubits, body);
    match stmt@ {
        StatementView::GateDef(_, _, _, views) => {
            assert(views.len() == body@.len());
            assert forall|k: int| 0 <= k < views.len() implies views[k] == statement_views(
                body@,
            )[k] by {}
            assert(views =~= statement_views(body@));
        },
        _ => {},
    }
}

/// Reads a gate definition at `i`.
pub fn gate_def_at(src: &Source, i: usize) -> (r: Result<(ParsedStatement, usize), Reject>)
    requires
        src.wf(),
        i <= src@.len(),
    ensures
        reads(r, gate_def_spec(src@, i as int), src@, i as int),
{
    let ((name, params, qubits), a) = match gate_head_at(src, i) {
        Some(x) => x,
        None => return Err(Reject::Error),
    };
    let (body, b) = match body_at(src, a) {
        Ok(x) => x,
        Err(r) => return Err(r),
    };
    match take_padded(src, b, RIGHT_BRACE) {
        Some(c) => {
            let stmt = ParsedStatement::GateDef(name, params, qubits, body);
            proof {
                lemma_gate_def_view(name, params, qubits, body);
            }
            Ok((stmt, c))
        },
        None => Err(Reject::Error),
    }
}

/// Reads the statement at `i`.
pub fn statement_at(src: &Source, i: usize) -> (r: Result<(ParsedStatement, usize), Reject>)
    requires
        src.wf(),
        i <= src@.len(),
    ensures
        reads(r, statement_spec(src@, i as int), src@, i as int),
{
    reveal(statement_spec);
    if let Some((file, j)) = include_at(src, i) {
        return Ok((ParsedStatement::Include(file), j));
    }
    if let Some(((name, size), j)) = register_at(src, i, "qreg") {
        return Ok((ParsedStatement::QReg(name, size), j));
    }
    if let Some(((name, size), j)) = register_at(src, i, "creg") {
        return Ok((ParsedStatement::CReg(name, size), j));
    }
    if let Some(x) = measure_at(src, i) {
        return Ok(x);
    }
    if let Some(x) = barrier_at(src, i) {
        return Ok(x);
    }
    match gate_def_at(src, i) {
        Ok(x) => return Ok(x),
        Err(Reject::Failure) => return Err(Reject::Failure),
        Err(Reject::Error) => {},
    }
    match if_at(src, i) {
        Ok(x) => return Ok(x),
        Err(Reject::Failure) => return Err(Reject::Failure),
        Err(Reject::Error) => {},
    }
    gate_call_at(src, i)
}

/// Whether what a rule returned for a whole text is what its specification
/// says at position 0: the value by its view, and the text that is left.
pub open spec fn yields<T: View>(input: &str, r: Result<(&str, T), Reject>, spec: Step<T::V>) -> bool {
    let s = input.spec_bytes();
    match r {
        Ok((rest, v)) => match spec {
            Ok((sv, j)) => sv == v@ && 0 <= j <= s.len() && rest@ == text_of(s, j, s.len() as int),
            Err(_) => false,
        },
        Err(e) => spec == Err::<(T::V, int), Reject>(e),
    }
}

/// A comment at the start of the text.
pub fn comment<'a>(input: &'a str) -> (r: Result<(&'a str, ()), Reject>)
    ensures
        yields(
            input,
            r,
            match comment_spec(input.spec_bytes(), 0) {
                Some(j) => Ok(((), j)),
                None => Err(Reject::Error),
            },
        ),
{
    let src = Source::new(input);
    match comment_at(&src, 0) {
        Some(j) => Ok((src.slice(j, src.len()), ())),
        None => Err(Reject::Error),
    }
}

/// The version statement at the start of the text: gives the version.
pub fn openqasm_version<'a>(input: &'a str) -> (r: Result<(&'a str, String), Reject>)
    ensures
        yields(input, r, soft(version_spec(input.spec_bytes(), 0))),
{
    let src = Source::new(input);
    match version_at(&src, 0) {
        Some((version, j)) => Ok((src.slice(j, src.len()), version)),
        None => Err(Reject::Error),
    }
}

/// The directive that names a file, at the start of the text.
pub fn include_stmt<'a>(input: &'a str) -> (r: Result<(&'a str, ParsedStatement), Reject>)
    ensures
        yields(input, r, soft(include_statement_spec(input.spec_bytes(), 0))),
{
    let src = Source::new(input);
    match include_at(&src, 0) {
        Some((file, j)) => Ok((src.slice(j, src.len()), ParsedStatement::Include(file))),
        None => Err(Reject::Error),
    }
}

/// A quantum register declaration at the start of the text.
pub fn qreg<'a>(input: &'a str) -> (r: Result<(&'a str, ParsedStatement), Reject>)
    ensures
        yields(input, r, soft(qreg_spec(input.spec_bytes(), 0))),
{
    let src = Source::new(input);
    match register_at(&src, 0, "qreg") {
        Some(((name, size), j)) => Ok((src.slice(j, src.len()), ParsedStatement::QReg(name, size))),
        None => Err(Reject::Error),
    }
}

/// A classical register declaration at the start of the text.
pub fn creg<'a>(input: &'a str) -> (r: Result<(&'a str, ParsedStatement), Reject>)
    ensures
        yields(input, r, soft(creg_spec(input.spec_bytes(), 0))),
{
    let src = Source::new(input);
    match register_at(&src, 0, "creg") {
        Some(((name, size), j)) => Ok((src.slice(j, src.len()), ParsedStatement::CReg(name, size))),
        None => Err(Reject::Error),
    }
}

/// An expression at the start of the text.
pub fn expr<'a>(input: &'a str) -> (r: Result<(&'a str, Expr), Reject>)
    ensures
        yields(input, r, expr_spec(input.spec_bytes(), 0)),
{
    let src = Source::new(input);
    match expr_at(&src, 0) {
        Ok((e, j)) => Ok((src.slice(j, src.len()), e)),
        Err(r) => Err(r),
    }
}

/// A gate call at the start of the text.
pub fn gate_call<'a>(input: &'a str) -> (r: Result<(&'a str, ParsedStatement), Reject>)
    ensures
        yields(input, r, gate_call_spec(input.spec_bytes(), 0)),
{
    let src = Source::new(input);
    match gate_call_at(&src, 0) {
        Ok((stmt, j)) => Ok((src.slice(j, src.len()), stmt)),
        Err(r) => Err(r),
    }
}

/// A measurement at the start of the text.
pub fn measure<'a>(input: &'a str) -> (r: Result<(&'a str, ParsedStatement), Reject>)
    ensures
        yields(input, r, soft(measure_spec(input.spec_bytes(), 0))),
{
    let src = Source::new(input);
    match measure_at(&src, 0) {
        Some((stmt, j)) => Ok((src.slice(j, src.len()), stmt)),
        None => Err(Reject::Error),
    }
}

/// A barrier at the start of the text.
pub fn barrier<'a>(input: &'a str) -> (r: Result<(&'a str, ParsedStatement), Reject>)
    ensures
        yields(input, r, soft(barrier_spec(input.spec_bytes(), 0))),
{
    let src = Source::new(input);
    match barrier_at(&src, 0) {
        Some((stmt, j)) => Ok((src.slice(j, src.len()), stmt)),
        None => Err(Reject::Error),
    }
}

/// A conditional at the start of the text.
pub fn if_stmt<'a>(input: &'a str) -> (r: Result<(&'a str, ParsedStatement), Reject>)
    ensures
        yields(input, r, if_spec(input.spec_bytes(), 0)),
{
    let src = Source::new(input);
    match if_at(&src, 0) {
        Ok((stmt, j)) => Ok((src.slice(j, src.len()), stmt)),
        Err(r) => Err(r),
    }
}

/// A gate definition at the start of the text.
pub fn gate_def<'a>(input: &'a str) -> (r: Result<(&'a str, ParsedStatement), Reject>)
    ensures
        yields(input, r, gate_def_spec(input.spec_bytes(), 0)),
{
    let src = Source::new(input);
    match gate_def_at(&src, 0) {
        Ok((stmt, j)) => Ok((src.slice(j, src.len()), stmt)),
        Err(r) => Err(r),
    }
}

} // verus!
