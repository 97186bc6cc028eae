use crate::parser::text::beside_ascii;
use crate::parser::text::text_of;
use crate::parser::text::Source;
use vstd::prelude::*;
use vstd::string::*;

verus! {

pub const TAB: u8 = 9;

pub const NEWLINE: u8 = 10;

pub const CARRIAGE_RETURN: u8 = 13;

pub const SPACE: u8 = 32;

pub const QUOTE: u8 = 34;

pub const LEFT_PAREN: u8 = 40;

pub const RIGHT_PAREN: u8 = 41;

pub const STAR: u8 = 42;

pub const PLUS: u8 = 43;

pub const COMMA: u8 = 44;

pub const MINUS: u8 = 45;

pub const SLASH: u8 = 47;

pub const SEMICOLON: u8 = 59;

pub const LEFT_BRACKET: u8 = 91;

pub const RIGHT_BRACKET: u8 = 93;

pub const UNDERSCORE: u8 = 95;

pub const LEFT_BRACE: u8 = 123;

pub const RIGHT_BRACE: u8 = 125;

/// The sets of bytes that the grammar takes runs of.
#[derive(Debug, PartialEq, Eq, Clone, Copy, Structural)]
pub enum Class {
    /// Space and tab.
    Space,
    /// Space, tab, carriage return and line feed.
    Blank,
    /// The decimal digits.
    Digit,
    /// What a name may hold after its first byte: ASCII letters, digits
    /// and the underscore.
    NameByte,
    /// Anything but a line feed.
    NotNewline,
    /// Anything but a semicolon.
    NotSemicolon,
    /// Anything but a double quote.
    NotQuote,
}

pub open spec fn is_digit(b: u8) -> bool {
    48 <= b <= 57
}

pub open spec fn is_alpha(b: u8) -> bool {
    (65 <= b <= 90) || (97 <= b <= 122)
}

/// Whether a byte may begin a name: an ASCII letter or the underscore.
pub open spec fn is_name_start(b: u8) -> bool {
    is_alpha(b) || b == UNDERSCORE
}

/// Whether a byte belongs to a class.
pub open spec fn in_class(c: Class, b: u8) -> bool {
    match c {
        Class::Space => b == SPACE || b == TAB,
        Class::Blank => b == SPACE || b == TAB || b == CARRIAGE_RETURN || b == NEWLINE,
        Class::Digit => is_digit(b),
        Class::NameByte => is_alpha(b) || is_digit(b) || b == UNDERSCORE,
        Class::NotNewline => b != NEWLINE,
        Class::NotSemicolon => b != SEMICOLON,
        Class::NotQuote => b != QUOTE,
    }
}

/// Where the longest run of bytes of a class that begins at `i` ends.
pub open spec fn span(s: Seq<u8>, i: int, c: Class) -> int
    decreases s.len() - i,
{
    if 0 <= i < s.len() && in_class(c, s[i]) {
        span(s, i + 1, c)
    } else {
        i
    }
}

/// A run ends inside the text, holds only bytes of its class, and cannot be
/// made longer.
pub proof fn lemma_span(s: Seq<u8>, i: int, c: Class)
    requires
        0 <= i <= s.len(),
    ensures
        i <= span(s, i, c) <= s.len(),
        forall|k: int| i <= k < span(s, i, c) ==> in_class(c, #[trigger] s[k]),
        span(s, i, c) < s.len() ==> !in_class(c, s[span(s, i, c)]),
    decreases s.len() - i,
{
    if i < s.len() && in_class(c, s[i]) {
        lemma_span(s, i + 1, c);
    }
}

/// Whether the bytes `w` stand in `s` at `i`.
pub open spec fn has_bytes(s: Seq<u8>, i: int, w: Seq<u8>) -> bool {
    &&& 0 <= i
    &&& i + w.len() <= s.len()
    &&& s.subrange(i, i + w.len()) == w
}

/// Whether the word `w` stands in `s` at `i`.
pub open spec fn has_word(s: Seq<u8>, i: int, w: &str) -> bool {
    has_bytes(s, i, w.spec_bytes())
}

/// The end of the word `w` where it stands at `i`.
pub open spec fn word(s: Seq<u8>, i: int, w: &str) -> Option<int> {
    if has_word(s, i, w) {
        Some(i + w.spec_bytes().len())
    } else {
        None
    }
}

/// The end of the byte `b` where it stands at `i`.
pub open spec fn byte(s: Seq<u8>, i: int, b: u8) -> Option<int> {
    if 0 <= i < s.len() && s[i] == b {
        Some(i + 1)
    } else {
        None
    }
}

/// The end of a non-empty run of spaces and tabs at `i`.
pub open spec fn spaces1(s: Seq<u8>, i: int) -> Option<int> {
    if span(s, i, Class::Space) > i {
        Some(span(s, i, Class::Space))
    } else {
        None
    }
}

/// The end of a non-empty run of a class at `i`.
pub open spec fn run1(s: Seq<u8>, i: int, c: Class) -> Option<int> {
    if span(s, i, c) > i {
        Some(span(s, i, c))
    } else {
        None
    }
}

/// The end of the byte `b` with spaces and tabs allowed on both sides.
pub open spec fn padded(s: Seq<u8>, i: int, b: u8) -> Option<int> {
    match byte(s, span(s, i, Class::Space), b) {
        Some(a) => Some(span(s, a, Class::Space)),
        None => None,
    }
}

/// The end of the name that begins at `i`: a letter or underscore, then
/// letters, digits and underscores.
pub open spec fn name_end(s: Seq<u8>, i: int) -> Option<int> {
    if 0 <= i < s.len() && is_name_start(s[i]) {
        Some(span(s, i + 1, Class::NameByte))
    } else {
        None
    }
}

/// The number that decimal digits write.
pub open spec fn decimal_value(digits: Seq<u8>) -> nat
    decreases digits.len(),
{
    if digits.len() == 0 {
        0
    } else {
        decimal_value(digits.drop_last()) * 10 + (digits.last() - 48) as nat
    }
}

/// The unsigned number written at `i` and where it ends: a non-empty run of
/// digits whose value fits `usize`.
pub open spec fn uint(s: Seq<u8>, i: int) -> Option<(usize, int)> {
    let j = span(s, i, Class::Digit);
    if j > i && decimal_value(s.subrange(i, j)) <= usize::MAX {
        Some((decimal_value(s.subrange(i, j)) as usize, j))
    } else {
        None
    }
}

/// Whether a rule that began at `i` and ended at `j` has moved forward,
/// stayed inside the text and ended behind an ASCII byte.
pub open spec fn advances(s: Seq<u8>, i: int, j: int) -> bool {
    &&& 0 <= i < j <= s.len()
    &&& s[j - 1] < 128
}

pub fn class_has(c: Class, b: u8) -> (r: bool)
    ensures
        r == in_class(c, b),
{
    match c {
        Class::Space => b == SPACE || b == TAB,
        Class::Blank => b == SPACE || b == TAB || b == CARRIAGE_RETURN || b == NEWLINE,
        Class::Digit => 48 <= b && b <= 57,
        Class::NameByte => (65 <= b && b <= 90) || (97 <= b && b <= 122) || (48 <= b && b <= 57)
            || b == UNDERSCORE,
        Class::NotNewline => b != NEWLINE,
        Class::NotSemicolon => b != SEMICOLON,
        Class::NotQuote => b != QUOTE,
    }
}

/// Skips the run of a class at `i`.
pub fn skip(src: &Source, i: usize, c: Class) -> (j: usize)
    requires
        i <= src@.len(),
    ensures
        j == span(src@, i as int, c),
        i <= j <= src@.len(),
{
    let mut j: usize = i;
    while j < src.len() && class_has(c, src.at(j))
        invariant
            i <= j <= src@.len(),
            span(src@, i as int, c) == span(src@, j as int, c),
        decreases src@.len() - j,
    {
        j += 1;
    }
    j
}

/// Skips spaces and tabs at `i`.
pub fn skip_spaces(src: &Source, i: usize) -> (j: usize)
    requires
        i <= src@.len(),
    ensures
        j == span(src@, i as int, Class::Space),
        i <= j <= src@.len(),
        j > i ==> advances(src@, i as int, j as int),
{
    let j = skip(src, i, Class::Space);
    proof {
        lemma_span(src@, i as int, Class::Space);
        if j > i {
            assert(in_class(Class::Space, src@[j - 1]));
        }
    }
    j
}

/// Takes at least one space or tab at `i`.
pub fn take_spaces1(src: &Source, i: usize) -> (r: Option<usize>)
    requires
        i <= src@.len(),
    ensures
        r matches Some(j) ==> spaces1(src@, i as int) == Some(j as int) && advances(
            src@,
            i as int,
            j as int,
        ),
        r is None ==> spaces1(src@, i as int) is None,
{
    let j = skip_spaces(src, i);
    if j > i {
        Some(j)
    } else {
        None
    }
}

/// Takes the byte `b` at `i`.
pub fn take_byte(src: &Source, i: usize, b: u8) -> (r: Option<usize>)
    requires
        i <= src@.len(),
        b < 128,
    ensures
        r matches Some(j) ==> byte(src@, i as int, b) == Some(j as int) && advances(
            src@,
            i as int,
            j as int,
        ),
        r is None ==> byte(src@, i as int, b) is None,
{
    if i < src.len() && src.at(i) == b {
        Some(i + 1)
    } else {
        None
    }
}

/// Takes the byte `b` at `i`, with spaces and tabs allowed on both sides.
pub fn take_padded(src: &Source, i: usize, b: u8) -> (r: Option<usize>)
    requires
        i <= src@.len(),
        b < 128,
    ensures
        r matches Some(j) ==> padded(src@, i as int, b) == Some(j as int) && advances(
            src@,
            i as int,
            j as int,
        ),
        r is None ==> padded(src@, i as int, b) is None,
{
    let a = skip_spaces(src, i);
    match take_byte(src, a, b) {
        Some(k) => Some(skip_spaces(src, k)),
        None => None,
    }
}

/// Takes the word `w` at `i`.
pub fn take_word(src: &Source, i: usize, w: &str) -> (r: Option<usize>)
    requires
        i <= src@.len(),
    ensures
        r matches Some(j) ==> word(src@, i as int, w) == Some(j as int) && i <= j <= src@.len(),
        r is None ==> word(src@, i as int, w) is None,
{
    let wb = w.as_bytes();
    let n = wb.len();
    if n > src.len() - i {
        return None;
    }
    let mut k: usize = 0;
    while k < n
        invariant
            k <= n,
            n == wb@.len(),
            wb@ == w.spec_bytes(),
            i + n <= src@.len(),
            src@.len() <= usize::MAX,
            forall|m: int| 0 <= m < k ==> src@[i + m] == wb@[m],
        decreases n - k,
    {
        if src.at(i + k) != wb[k] {
            assert(src@.subrange(i as int, i + n)[k as int] != wb@[k as int]);
            return None;
        }
        k += 1;
    }
    assert(src@.subrange(i as int, i + n) =~= wb@);
    Some(i + n)
}

/// Takes a name at `i` and returns where it ends.
pub fn take_name(src: &Source, i: usize) -> (r: Option<usize>)
    requires
        i <= src@.len(),
    ensures
        r matches Some(j) ==> name_end(src@, i as int) == Some(j as int) && advances(
            src@,
            i as int,
            j as int,
        ) && src@[i as int] < 128,
        r is None ==> name_end(src@, i as int) is None,
{
    if i >= src.len() {
        return None;
    }
    let b = src.at(i);
    if (65 <= b && b <= 90) || (97 <= b && b <= 122) || b == UNDERSCORE {
        let j = skip(src, i + 1, Class::NameByte);
        proof {
            lemma_span(src@, i + 1, Class::NameByte);
            if j > i + 1 {
                assert(in_class(Class::NameByte, src@[j - 1]));
            }
        }
        Some(j)
    } else {
        None
    }
}

proof fn lemma_decimal_value_grows(digits: Seq<u8>, k: int)
    requires
        0 <= k <= digits.len(),
        forall|m: int| 0 <= m < digits.len() ==> is_digit(#[trigger] digits[m]),
    ensures
        decimal_value(digits.take(k)) <= decimal_value(digits),
    decreases digits.len() - k,
{
    if k == digits.len() {
        assert(digits.take(k) =~= digits);
    } else {
        assert(digits.take(k + 1).drop_last() =~= digits.take(k));
        lemma_decimal_value_grows(digits, k + 1);
    }
}

/// Takes an unsigned number at `i`.
pub fn take_uint(src: &Source, i: usize) -> (r: Option<(usize, usize)>)
    requires
        i <= src@.len(),
    ensures
        r matches Some((n, j)) ==> uint(src@, i as int) == Some((n, j as int)) && advances(
            src@,
            i as int,
            j as int,
        ),
        r is None ==> uint(src@, i as int) is None,
{
    let end = skip(src, i, Class::Digit);
    if end == i {
        return None;
    }
    let ghost digits = src@.subrange(i as int, end as int);
    proof {
        lemma_span(src@, i as int, Class::Digit);
        assert(in_class(Class::Digit, src@[end - 1]));
        assert forall|m: int| 0 <= m < digits.len() implies is_digit(#[trigger] digits[m]) by {
            assert(in_class(Class::Digit, src@[i + m]));
        }
    }
    let mut value: usize = 0;
    let mut k: usize = i;
    while k < end
        invariant
            i <= k <= end <= src@.len(),
            i < end,
            end == span(src@, i as int, Class::Digit),
            digits == src@.subrange(i as int, end as int),
            forall|m: int| 0 <= m < digits.len() ==> is_digit(#[trigger] digits[m]),
            value == decimal_value(digits.take(k - i)),
        decreases end - k,
    {
        proof {
            assert(is_digit(digits[k - i]));
            assert(digits.take(k - i + 1).drop_last() =~= digits.take(k - i));
            assert(digits.take(k - i + 1).last() == src@[k as int]);
        }
        let d = (src.at(k) - 48) as usize;
        if value > (usize::MAX - d) / 10 {
            proof {
                assert(decimal_value(digits.take(k - i + 1)) > usize::MAX);
                lemma_decimal_value_grows(digits, k - i + 1);
            }
            return None;
        }
        value = value * 10 + d;
        k += 1;
    }
    assert(digits.take(end - i) =~= digits);
    Some((value, end))
}

/// The name or other text between `a` and `b`, owned.
pub fn take_text(src: &Source, a: usize, b: usize) -> (r: String)
    requires
        src.wf(),
        a <= b <= src@.len(),
        beside_ascii(src@, a as int),
        beside_ascii(src@, b as int),
    ensures
        r@ == text_of(src@, a as int, b as int),
{
    src.slice(a, b).to_owned()
}

} // verus!
