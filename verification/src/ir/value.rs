use vstd::prelude::*;

verus! {

/// Bit pattern of the binary64 constant nearest to pi.
pub const PI_BITS: u64 = 0x4009_21FB_5444_2D18;

/// Bit pattern of the binary64 constant nearest to pi/2.
pub const FRAC_PI_2_BITS: u64 = 0x3FF9_21FB_5444_2D18;

/// Bit pattern of the binary64 constant zero.
pub const ZERO_BITS: u64 = 0;

/// A number written as arithmetic over binary64 constants.
///
/// A constant is carried as its IEEE-754 bit pattern. The operators are
/// applied by whoever needs the number: left operand first, then the right
/// one, each node rounded as binary64 arithmetic rounds.
#[derive(Debug, PartialEq)]
pub enum Value {
    Const(u64),
    Add(Box<Value>, Box<Value>),
    Sub(Box<Value>, Box<Value>),
    Mul(Box<Value>, Box<Value>),
    Div(Box<Value>, Box<Value>),
}

impl Clone for Value {
    fn clone(&self) -> (r: Self)
        ensures
            r == *self,
        decreases self,
    {
        match self {
            Value::Const(bits) => Value::Const(*bits),
            Value::Add(a, b) => Value::Add(Box::new((**a).clone()), Box::new((**b).clone())),
            Value::Sub(a, b) => Value::Sub(Box::new((**a).clone()), Box::new((**b).clone())),
            Value::Mul(a, b) => Value::Mul(Box::new((**a).clone()), Box::new((**b).clone())),
            Value::Div(a, b) => Value::Div(Box::new((**a).clone()), Box::new((**b).clone())),
        }
    }
}

/// Copies a list of terms.
pub fn clone_values(v: &Vec<Value>) -> (r: Vec<Value>)
    ensures
        r@ == v@,
{
    let mut out: Vec<Value> = Vec::new();
    let mut i: usize = 0;
    while i < v.len()
        invariant
            i <= v.len(),
            out@ == v@.subrange(0, i as int),
        decreases v.len() - i,
    {
        out.push(v[i].clone());
        assert(out@ == v@.subrange(0, i + 1));
        i += 1;
    }
    assert(v@.subrange(0, v.len() as int) == v@);
    out
}

} // verus!
