use vstd::prelude::*;
use vstd::string::*;
use vstd::utf8::*;

verus! {

/// The characters that bytes `a..b` of `s` encode.
pub open spec fn text_of(s: Seq<u8>, a: int, b: int) -> Seq<char> {
    decode_utf8(s.subrange(a, b))
}

/// Whether position `i` of `s` is an end of `s` or has an ASCII byte on one
/// side. In UTF-8 such a position never lies inside a character.
pub open spec fn beside_ascii(s: Seq<u8>, i: int) -> bool {
    &&& 0 <= i <= s.len()
    &&& (i == 0 || i == s.len() || s[i - 1] < 128 || s[i] < 128)
}

proof fn lemma_boundary_after_ascii(s: Seq<u8>, j: int)
    requires
        valid_utf8(s),
        0 <= j < s.len(),
        is_char_boundary(s, j),
        s[j] < 128,
    ensures
        is_char_boundary(s, j + 1),
    decreases s.len(),
{
    reveal_with_fuel(is_char_boundary, 2);
    reveal_with_fuel(valid_utf8, 2);
    if j == 0 {
        assert(length_of_first_scalar(s) == 1);
        assert(pop_first_scalar(s).len() == s.len() - 1);
        assert(is_char_boundary(pop_first_scalar(s), 0));
    } else {
        let width = length_of_first_scalar(s);
        let rest = pop_first_scalar(s);
        assert(1 <= width <= 4);
        assert(width <= s.len());
        assert(rest.len() == s.len() - width);
        assert(is_char_boundary(rest, j - width));
        assert(0 <= j - width < rest.len());
        assert(rest[j - width] == s[j]);
        lemma_boundary_after_ascii(rest, j - width);
        assert(is_char_boundary(rest, j + 1 - width));
    }
}

/// In well-formed UTF-8 a position beside an ASCII byte is a character
/// boundary.
pub proof fn lemma_beside_ascii_is_boundary(s: Seq<u8>, i: int)
    requires
        valid_utf8(s),
        beside_ascii(s, i),
    ensures
        is_char_boundary(s, i),
{
    is_char_boundary_start_end_of_seq(s);
    if i == 0 || i == s.len() {
    } else if s[i] < 128 {
        is_char_boundary_iff_not_is_continuation_byte(s, i);
    } else {
        is_char_boundary_iff_not_is_continuation_byte(s, i - 1);
        lemma_boundary_after_ascii(s, i - 1);
    }
}

/// Two texts with the same encoding are the same text.
pub proof fn lemma_same_bytes_same_text(a: Seq<char>, b: Seq<char>)
    requires
        encode_utf8(a) == encode_utf8(b),
    ensures
        a == b,
{
    encode_utf8_decode_utf8(a);
    encode_utf8_decode_utf8(b);
}

/// A text together with its bytes.
pub struct Source<'a> {
    pub text: &'a str,
    pub bytes: &'a [u8],
}

impl<'a> View for Source<'a> {
    type V = Seq<u8>;

    open spec fn view(&self) -> Seq<u8> {
        self.bytes@
    }
}

impl<'a> Source<'a> {
    /// The bytes are those of the text.
    pub open spec fn wf(&self) -> bool {
        self.bytes@ == self.text.spec_bytes()
    }

    pub fn new(text: &'a str) -> (r: Self)
        ensures
            r.wf(),
            r.text == text,
            r@ == text.spec_bytes(),
    {
        Source { text, bytes: text.as_bytes() }
    }

    pub fn len(&self) -> (n: usize)
        ensures
            n == self@.len(),
    {
        self.bytes.len()
    }

    /// The byte at `i`.
    pub fn at(&self, i: usize) -> (b: u8)
        requires
            i < self@.len(),
        ensures
            b == self@[i as int],
    {
        self.bytes[i]
    }

    /// The text between two positions that do not lie inside a character.
    pub fn slice(&self, a: usize, b: usize) -> (r: &'a str)
        requires
            self.wf(),
            a <= b <= self@.len(),
            beside_ascii(self@, a as int),
            beside_ascii(self@, b as int),
        ensures
            r@ == text_of(self@, a as int, b as int),
            r.spec_bytes() == self@.subrange(a as int, b as int),
    {
        proof {
            encode_utf8_valid_utf8(self.text@);
            lemma_beside_ascii_is_boundary(self@, b as int);
        }
        let (head, _) = self.text.split_at(b);
        proof {
            encode_utf8_valid_utf8(head@);
            assert(head.spec_bytes() == self@.subrange(0, b as int));
            assert(beside_ascii(head.spec_bytes(), a as int));
            lemma_beside_ascii_is_boundary(head.spec_bytes(), a as int);
        }
        let (_, r) = head.split_at(a);
        proof {
            assert(r.spec_bytes() =~= self@.subrange(a as int, b as int));
            encode_utf8_decode_utf8(r@);
        }
        r
    }
}

/// Whether two texts are the same.
pub fn same_text(a: &str, b: &str) -> (r: bool)
    ensures
        r == (a@ == b@),
{
    let x = a.as_bytes();
    let y = b.as_bytes();
    if x.len() != y.len() {
        return false;
    }
    let mut i: usize = 0;
    while i < x.len()
        invariant
            x@.len() == y@.len(),
            i <= x@.len(),
            x@ == a.spec_bytes(),
            y@ == b.spec_bytes(),
            forall|k: int| 0 <= k < i ==> x@[k] == y@[k],
        decreases x.len() - i,
    {
        if x[i] != y[i] {
            return false;
        }
        i += 1;
    }
    proof {
        assert(x@ =~= y@);
        lemma_same_bytes_same_text(a@, b@);
    }
    true
}

/// The character that writes a digit.
pub open spec fn digit_char(d: nat) -> char {
    if d == 0 {
        '0'
    } else if d == 1 {
        '1'
    } else if d == 2 {
        '2'
    } else if d == 3 {
        '3'
    } else if d == 4 {
        '4'
    } else if d == 5 {
        '5'
    } else if d == 6 {
        '6'
    } else if d == 7 {
        '7'
    } else if d == 8 {
        '8'
    } else {
        '9'
    }
}

/// A number in decimal, without leading zeros.
pub open spec fn decimal_text(n: nat) -> Seq<char>
    decreases n,
{
    if n < 10 {
        seq![digit_char(n)]
    } else {
        decimal_text(n / 10).push(digit_char(n % 10))
    }
}

fn digit_text(d: usize) -> (r: &'static str)
    requires
        d < 10,
    ensures
        r@ == seq![digit_char(d as nat)],
{
    proof {
        reveal_strlit("0");
        reveal_strlit("1");
        reveal_strlit("2");
        reveal_strlit("3");
        reveal_strlit("4");
        reveal_strlit("5");
        reveal_strlit("6");
        reveal_strlit("7");
        reveal_strlit("8");
        reveal_strlit("9");
    }
    let r = if d == 0 {
        "0"
    } else if d == 1 {
        "1"
    } else if d == 2 {
        "2"
    } else if d == 3 {
        "3"
    } else if d == 4 {
        "4"
    } else if d == 5 {
        "5"
    } else if d == 6 {
        "6"
    } else if d == 7 {
        "7"
    } else if d == 8 {
        "8"
    } else {
        "9"
    };
    assert(r@ =~= seq![digit_char(d as nat)]);
    r
}

/// Writes a number in decimal.
pub fn decimal(n: usize) -> (r: String)
    ensures
        r@ == decimal_text(n as nat),
    decreases n,
{
    if n < 10 {
        String::from_str(digit_text(n))
    } else {
        let head = decimal(n / 10);
        let r = head.concat(digit_text(n % 10));
        assert(r@ =~= decimal_text(n as nat));
        r
    }
}

} // verus!
