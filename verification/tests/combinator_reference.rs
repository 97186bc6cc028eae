//! The grammar once more, written with parser combinators. On every text of
//! a large set, both readings must agree: in the value, in the text that is
//! left, and in the kind of failure.

use nom::branch::alt;
use nom::bytes::complete::{tag, take_while, take_while1};
use nom::character::complete::{alpha1, alphanumeric1, char, digit1, space0, space1};
use nom::combinator::{map_res, opt, recognize, value};
use nom::multi::{many0, separated_list0};
use nom::number::complete::double;
use nom::sequence::{delimited, pair, tuple};
use nom::IResult;

use q_rust::parser::ast::{Expr, ParsedStatement, Reject};
use q_rust::parser::rules;
use q_rust::parser::text::Source;

fn identifier(input: &str) -> IResult<&str, String> {
    nom::combinator::map(
        recognize(pair(
            alt((alpha1, tag("_"))),
            many0(alt((alphanumeric1, tag("_")))),
        )),
        |s: &str| s.to_string(),
    )(input)
}

fn usize_parser(input: &str) -> IResult<&str, usize> {
    map_res(digit1, |s: &str| s.parse::<usize>())(input)
}

fn comment(input: &str) -> IResult<&str, ()> {
    value((), pair(tag("//"), take_while(|c| c != '\n')))(input)
}

fn openqasm_version(input: &str) -> IResult<&str, String> {
    nom::combinator::map(
        tuple((
            tag("OPENQASM"),
            space1,
            take_while1(|c: char| c != ';'),
            space0,
            tag(";"),
        )),
        |(_, _, version, _, _): (&str, &str, &str, &str, &str)| version.to_string(),
    )(input)
}

fn file_directive(input: &str) -> IResult<&str, ParsedStatement> {
    nom::combinator::map(
        tuple((
            tag("include"),
            space1::<&str, nom::error::Error<&str>>,
            delimited(char('"'), take_while1(|c| c != '"'), char('"')),
            space0::<&str, nom::error::Error<&str>>,
            tag(";"),
        )),
        |(_, _, filename, _, _)| ParsedStatement::Include(filename.to_string()),
    )(input)
}

fn qreg(input: &str) -> IResult<&str, ParsedStatement> {
    nom::combinator::map(
        tuple((
            tag("qreg"),
            space1,
            identifier,
            space0,
            delimited(char('['), usize_parser, char(']')),
            space0,
            tag(";"),
        )),
        |(_, _, name, _, size, _, _)| ParsedStatement::QReg(name, size),
    )(input)
}

fn creg(input: &str) -> IResult<&str, ParsedStatement> {
    nom::combinator::map(
        tuple((
            tag("creg"),
            space1,
            identifier,
            space0,
            delimited(char('['), usize_parser, char(']')),
            space0,
            tag(";"),
        )),
        |(_, _, name, _, size, _, _)| ParsedStatement::CReg(name, size),
    )(input)
}

fn qubit_ref(input: &str) -> IResult<&str, (String, Option<usize>)> {
    pair(
        identifier,
        opt(delimited(
            tuple((space0, char('['), space0)),
            usize_parser,
            tuple((space0, char(']'), space0)),
        )),
    )(input)
}

fn term(input: &str) -> IResult<&str, Expr> {
    let (input, init) = factor(input)?;
    let (input, res) = many0(pair(
        delimited(space0, alt((char('*'), char('/'))), space0),
        factor,
    ))(input)?;
    Ok((
        input,
        res.into_iter().fold(init, |acc, (op, val)| match op {
            '*' => Expr::Mul(Box::new(acc), Box::new(val)),
            '/' => Expr::Div(Box::new(acc), Box::new(val)),
            _ => unreachable!(),
        }),
    ))
}

fn factor(input: &str) -> IResult<&str, Expr> {
    alt((
        nom::combinator::map(
            delimited(
                tuple((space0, char('('), space0)),
                expr,
                tuple((space0, char(')'), space0)),
            ),
            |e| e,
        ),
        nom::combinator::map(double, |x: f64| Expr::Float(x.to_bits())),
        nom::combinator::map(identifier, Expr::Var),
    ))(input)
}

fn expr(input: &str) -> IResult<&str, Expr> {
    let (input, init) = term(input)?;
    let (input, res) = many0(pair(
        delimited(space0, alt((char('+'), char('-'))), space0),
        term,
    ))(input)?;
    Ok((
        input,
        res.into_iter().fold(init, |acc, (op, val)| match op {
            '+' => Expr::Add(Box::new(acc), Box::new(val)),
            '-' => Expr::Sub(Box::new(acc), Box::new(val)),
            _ => unreachable!(),
        }),
    ))
}

fn gate_call(input: &str) -> IResult<&str, ParsedStatement> {
    let (input, name) = identifier(input)?;
    let (input, params) = opt(delimited(
        tuple((space0, char('('), space0)),
        separated_list0(tuple((space0, char(','), space0)), expr),
        tuple((space0, char(')'), space0)),
    ))(input)?;

    let input = if params.is_some() {
        let (input, _) = space0(input)?;
        input
    } else {
        let (input, _) = space1(input)?;
        input
    };

    let (input, qubits) = separated_list0(tuple((space0, char(','), space0)), qubit_ref)(input)?;
    let (input, _) = space0(input)?;
    let (input, _) = tag(";")(input)?;

    Ok((
        input,
        ParsedStatement::Gate(name, qubits, params.unwrap_or_default()),
    ))
}

fn measure(input: &str) -> IResult<&str, ParsedStatement> {
    nom::combinator::map(
        tuple((
            tag("measure"),
            space1,
            qubit_ref,
            space0,
            tag("->"),
            space0,
            qubit_ref,
            space0,
            tag(";"),
        )),
        |(_, _, q, _, _, _, c, _, _)| ParsedStatement::Measure(q, c),
    )(input)
}

fn barrier(input: &str) -> IResult<&str, ParsedStatement> {
    nom::combinator::map(
        tuple((
            tag("barrier"),
            space1,
            separated_list0(tuple((space0, char(','), space0)), qubit_ref),
            space0,
            tag(";"),
        )),
        |(_, _, qubits, _, _)| ParsedStatement::Barrier(qubits),
    )(input)
}

fn if_stmt(input: &str) -> IResult<&str, ParsedStatement> {
    nom::combinator::map(
        tuple((
            tag("if"),
            space0,
            char('('),
            space0,
            identifier,
            space0,
            tag("=="),
            space0,
            usize_parser,
            space0,
            char(')'),
            space0,
            alt((measure, gate_call, barrier)),
        )),
        |(_, _, _, _, creg, _, _, _, val, _, _, _, op)| {
            ParsedStatement::If(creg, val, Box::new(op))
        },
    )(input)
}

fn gate_body_stmt(input: &str) -> IResult<&str, ParsedStatement> {
    alt((barrier, gate_call))(input)
}

fn gate_def(input: &str) -> IResult<&str, ParsedStatement> {
    let (input, _) = tag("gate")(input)?;
    let (input, _) = space1(input)?;
    let (input, name) = identifier(input)?;
    let (input, params) = opt(delimited(
        tuple((space0, char('('), space0)),
        separated_list0(tuple((space0, char(','), space0)), identifier),
        tuple((space0, char(')'), space0)),
    ))(input)?;

    let (input, _) = space0(input)?;
    let (input, qubits) = separated_list0(tuple((space0, char(','), space0)), identifier)(input)?;
    let (input, _) = space0(input)?;

    let (input, body) = delimited(
        tuple((space0, char('{'), space0)),
        many0(delimited(space0, gate_body_stmt, space0)),
        tuple((space0, char('}'), space0)),
    )(input)?;

    Ok((
        input,
        ParsedStatement::GateDef(name, params.unwrap_or_default(), qubits, body),
    ))
}

fn statement(input: &str) -> IResult<&str, ParsedStatement> {
    alt((
        file_directive,
        qreg,
        creg,
        measure,
        barrier,
        gate_def,
        if_stmt,
        gate_call,
    ))(input)
}

/// What the combinators say, in the library's terms.
fn told<T>(r: IResult<&str, T>) -> Result<(&str, T), Reject> {
    match r {
        Ok(x) => Ok(x),
        Err(nom::Err::Failure(_)) => Err(Reject::Failure),
        Err(_) => Err(Reject::Error),
    }
}

const SEEDS: &[&str] = &[
    "OPENQASM 2.0;",
    "OPENQASM   3.0 beta ;x",
    "// a comment é\nqreg q[1];",
    "//",
    "include \"qelib1.inc\";",
    "include  \"a b\" \t;rest",
    "qreg q[2];",
    "qreg \t_r0 [12] ;tail",
    "creg c[3];",
    "creg c1[0];",
    "h q[0];",
    "h q;",
    "h ;",
    "cx q[0], q[1];",
    "cx q [ 0 ] , r ;",
    "ccx a,b , c;",
    "rx(1.57) q[0];",
    "rx (pi/2) q[0];",
    "u3(0.1, 0.2, 0.3) q[0];",
    "U(theta, 0, pi/2) q;",
    "u2( (1+2)*3 - 4/5 , -1.5e-3 ) q[1];",
    "u1(.5) q;",
    "u1(5.) q;",
    "u1(1e5) q;",
    "u1(1e) q;",
    "u1(2*1E+) q;",
    "u1(nan) q;",
    "u1(inf) q;",
    "u1(infinity) q;",
    "u1(Info) q;",
    "u1(+3) q;",
    "u1(a+-3) q;",
    "u1(a - 3) q;",
    "u1() q;",
    "u1(a,) q;",
    "u1((a) q;",
    "u1(((a))) q[0] ;",
    "g(a*b/c*d, e+f-g+h)x,y;",
    "measure q[0] -> c[0];",
    "measure q -> c;",
    "measure  q[1]->c [ 1 ] ;",
    "measure q[0] - > c[0];",
    "barrier q;",
    "barrier q[0], r, s[2];",
    "barrier ;",
    "barrier q,;",
    "if (c == 1) x q[0];",
    "if(c==12)measure q -> c;",
    "if ( c == 3 ) barrier q;",
    "if (c == 1) rx(1e) q;",
    "if (c == 1) foo;",
    "if (c = 1) x q;",
    "gate mygate q { h q; }",
    "gate u2(phi,lambda) q { U(pi/2,phi,lambda) q; }",
    "gate g(a , b) x , y { cx x,y; barrier x; rz(a+b) y; } tail",
    "gate g x {}",
    "gate g x { }",
    "gate g { h q; }",
    "gate g() x { h x; }",
    "gate g(a) x { rx(1e) x; }",
    "gate g x { h x; measure x -> c; }",
    "gate g x { h x }",
    "gate g x { h x; ",
    "gate g x , { h x; }",
    "gate g(a x { h x; }",
    "gate gate gate { gate gate; }",
    "measure_all q;",
    "barrierx q;",
    "qregs q[1];",
    "iffy q;",
    "x q[99999999999999999999999999];",
    "qreg q[18446744073709551615];",
    "qreg q[18446744073709551616];",
    "qreg q[007];",
    "é q;",
    "x é;",
    "_ _;",
    "a1_b2 c3_[4] , _d;",
    "",
    " ",
    ";",
];

/// The seeds, each of their beginnings, and each seed with one character
/// left out or one character put in.
fn texts() -> Vec<String> {
    let inserted = [
        ' ', '\t', '\n', ';', ',', '(', ')', '[', ']', '{', '}', '+', '-', '*', '/', '.', 'e',
        '1', 'q', '_', '"', '>', '=', 'é',
    ];
    let mut all = Vec::new();
    for seed in SEEDS {
        let chars: Vec<char> = seed.chars().collect();
        all.push(seed.to_string());
        for end in 0..chars.len() {
            all.push(chars[..end].iter().collect());
        }
        for at in 0..chars.len() {
            let mut shorter = chars.clone();
            shorter.remove(at);
            all.push(shorter.into_iter().collect());
        }
        for at in 0..=chars.len() {
            for c in inserted {
                let mut longer = chars.clone();
                longer.insert(at, c);
                all.push(longer.into_iter().collect());
            }
        }
    }
    all
}

#[test]
fn texts_are_many() {
    assert!(texts().len() > 30000);
}

#[test]
fn comments_agree() {
    for text in texts() {
        assert_eq!(rules::comment(&text), told(comment(&text)), "{:?}", text);
    }
}

#[test]
fn version_statements_agree() {
    for text in texts() {
        assert_eq!(
            rules::openqasm_version(&text),
            told(openqasm_version(&text)),
            "{:?}",
            text
        );
    }
}

#[test]
fn file_directives_agree() {
    for text in texts() {
        assert_eq!(
            rules::include_stmt(&text),
            told(file_directive(&text)),
            "{:?}",
            text
        );
    }
}

#[test]
fn register_declarations_agree() {
    for text in texts() {
        assert_eq!(rules::qreg(&text), told(qreg(&text)), "{:?}", text);
        assert_eq!(rules::creg(&text), told(creg(&text)), "{:?}", text);
    }
}

#[test]
fn expressions_agree() {
    for text in texts() {
        assert_eq!(rules::expr(&text), told(expr(&text)), "{:?}", text);
        // also from behind each opening parenthesis, where most expressions stand
        for (at, _) in text.match_indices('(') {
            let inner = &text[at + 1..];
            assert_eq!(rules::expr(inner), told(expr(inner)), "{:?}", inner);
        }
    }
}

#[test]
fn gate_calls_agree() {
    for text in texts() {
        assert_eq!(rules::gate_call(&text), told(gate_call(&text)), "{:?}", text);
    }
}

#[test]
fn measurements_agree() {
    for text in texts() {
        assert_eq!(rules::measure(&text), told(measure(&text)), "{:?}", text);
    }
}

#[test]
fn barriers_agree() {
    for text in texts() {
        assert_eq!(rules::barrier(&text), told(barrier(&text)), "{:?}", text);
    }
}

#[test]
fn conditionals_agree() {
    for text in texts() {
        assert_eq!(rules::if_stmt(&text), told(if_stmt(&text)), "{:?}", text);
    }
}

#[test]
fn gate_definitions_agree() {
    for text in texts() {
        assert_eq!(rules::gate_def(&text), told(gate_def(&text)), "{:?}", text);
    }
}

#[test]
fn statements_agree() {
    for text in texts() {
        let source = Source::new(&text);
        let mine = match rules::statement_at(&source, 0) {
            Ok((stmt, end)) => Ok((&text[end..], stmt)),
            Err(e) => Err(e),
        };
        assert_eq!(mine, told(statement(&text)), "{:?}", text);
    }
}

#[test]
fn statements_agree_from_every_position() {
    for seed in SEEDS {
        let source = Source::new(seed);
        for (at, _) in seed.char_indices() {
            let mine = match rules::statement_at(&source, at) {
                Ok((stmt, end)) => Ok((&seed[end..], stmt)),
                Err(e) => Err(e),
            };
            assert_eq!(mine, told(statement(&seed[at..])), "{:?} from {}", seed, at);
        }
    }
}
