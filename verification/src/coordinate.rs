//! Layout coordinates, kept as the decimal numerals they were written with.
//!
//! The model never computes with a coordinate: it reads one from text and
//! writes it back. A [`Coordinate`] therefore holds the numeral itself, and
//! only text that is a well-formed numeral can become one.

use vstd::prelude::*;
use vstd::string::*;
use crate::text::chars_of;

verus! {

/// `c` is an ASCII decimal digit.
pub open spec fn is_digit(c: char) -> bool {
    '0' <= c <= '9'
}

/// The end of the longest run of digits of `s` that starts at `pos`.
pub open spec fn digits_end(s: Seq<char>, pos: int) -> int
    decreases s.len() - pos,
{
    if 0 <= pos < s.len() && is_digit(s[pos]) {
        digits_end(s, pos + 1)
    } else {
        pos
    }
}

/// A run of digits ends at or behind its start, within the text, and holds
/// digits only.
pub proof fn lemma_digits_end(s: Seq<char>, pos: int)
    requires
        0 <= pos <= s.len(),
    ensures
        pos <= digits_end(s, pos) <= s.len(),
        forall|i: int| pos <= i < digits_end(s, pos) ==> is_digit(#[trigger] s[i]),
    decreases s.len() - pos,
{
    if pos < s.len() && is_digit(s[pos]) {
        lemma_digits_end(s, pos + 1);
    }
}

/// `c` is the letter `lower`, in either case.
pub open spec fn is_letter(c: char, lower: char, upper: char) -> bool {
    c == lower || c == upper
}

/// `s` spells `inf`, `infinity` or `nan`, in any mix of cases.
pub open spec fn is_special_numeral(s: Seq<char>) -> bool {
    ||| (s.len() == 3 && is_letter(s[0], 'i', 'I') && is_letter(s[1], 'n', 'N') && is_letter(
        s[2],
        'f',
        'F',
    ))
    ||| (s.len() == 3 && is_letter(s[0], 'n', 'N') && is_letter(s[1], 'a', 'A') && is_letter(
        s[2],
        'n',
        'N',
    ))
    ||| (s.len() == 8 && is_letter(s[0], 'i', 'I') && is_letter(s[1], 'n', 'N') && is_letter(
        s[2],
        'f',
        'F',
    ) && is_letter(s[3], 'i', 'I') && is_letter(s[4], 'n', 'N') && is_letter(s[5], 'i', 'I')
        && is_letter(s[6], 't', 'T') && is_letter(s[7], 'y', 'Y'))
}

/// Where the exponent digits of `s` begin, given that its mantissa ends at
/// `pos`: behind the exponent letter and an optional sign.
pub open spec fn exponent_start(s: Seq<char>, pos: int) -> int {
    if pos + 1 < s.len() && (s[pos + 1] == '+' || s[pos + 1] == '-') {
        pos + 2
    } else {
        pos + 1
    }
}

/// `s` is an unsigned decimal number: digits with at most one point among
/// them and at least one digit in all, then optionally an exponent, which is
/// `e` or `E`, an optional sign and at least one digit.
pub open spec fn is_decimal_number(s: Seq<char>) -> bool {
    let int_end = digits_end(s, 0);
    let mantissa_end = if int_end < s.len() && s[int_end] == '.' {
        digits_end(s, int_end + 1)
    } else {
        int_end
    };
    let has_digit = int_end > 0 || mantissa_end > int_end + 1;
    has_digit && (mantissa_end == s.len() || ((s[mantissa_end] == 'e' || s[mantissa_end] == 'E')
        && exponent_start(s, mantissa_end) < s.len() && digits_end(
        s,
        exponent_start(s, mantissa_end),
    ) == s.len()))
}

/// `s` without its leading sign, if it has one.
pub open spec fn without_sign(s: Seq<char>) -> Seq<char> {
    if s.len() > 0 && (s[0] == '+' || s[0] == '-') {
        s.skip(1)
    } else {
        s
    }
}

/// `s` is a numeral: an optional sign, then a decimal number, `inf`,
/// `infinity` or `nan`.
pub open spec fn is_numeral(s: Seq<char>) -> bool {
    is_decimal_number(without_sign(s)) || is_special_numeral(without_sign(s))
}

/// The numeral of the origin: the digit zero.
pub open spec fn zero_numeral() -> Seq<char> {
    seq!['0']
}

/// What `s` stands for as a coordinate: itself if it is a numeral, zero if not.
pub open spec fn numeral_or_zero(s: Seq<char>) -> Seq<char> {
    if is_numeral(s) {
        s
    } else {
        zero_numeral()
    }
}

/// Zero is a numeral.
pub proof fn lemma_zero_is_numeral()
    ensures
        is_numeral(zero_numeral()),
{
    reveal_with_fuel(digits_end, 3);
}

fn digit(c: char) -> (r: bool)
    ensures
        r == is_digit(c),
{
    '0' <= c && c <= '9'
}

fn letter(c: char, lower: char, upper: char) -> (r: bool)
    ensures
        r == is_letter(c, lower, upper),
{
    c == lower || c == upper
}

/// The end of the run of digits of `chars[from..to]` that starts at `pos`.
fn scan_digits(chars: &Vec<char>, from: usize, to: usize, pos: usize) -> (r: usize)
    requires
        from <= pos <= to <= chars.len(),
    ensures
        pos <= r <= to,
        r - from == digits_end(chars@.subrange(from as int, to as int), pos - from),
{
    let ghost s = chars@.subrange(from as int, to as int);
    let mut i = pos;
    while i < to && digit(chars[i])
        invariant
            from <= pos <= i <= to <= chars.len(),
            s == chars@.subrange(from as int, to as int),
            digits_end(s, pos - from) == digits_end(s, i - from),
        decreases to - i,
    {
        i += 1;
    }
    i
}

fn special_numeral(chars: &Vec<char>, from: usize) -> (r: bool)
    requires
        from <= chars.len(),
    ensures
        r == is_special_numeral(chars@.skip(from as int)),
{
    let n = chars.len() - from;
    if n == 3 {
        (letter(chars[from], 'i', 'I') && letter(chars[from + 1], 'n', 'N') && letter(
            chars[from + 2],
            'f',
            'F',
        )) || (letter(chars[from], 'n', 'N') && letter(chars[from + 1], 'a', 'A') && letter(
            chars[from + 2],
            'n',
            'N',
        ))
    } else if n == 8 {
        letter(chars[from], 'i', 'I') && letter(chars[from + 1], 'n', 'N') && letter(
            chars[from + 2],
            'f',
            'F',
        ) && letter(chars[from + 3], 'i', 'I') && letter(chars[from + 4], 'n', 'N') && letter(
            chars[from + 5],
            'i',
            'I',
        ) && letter(chars[from + 6], 't', 'T') && letter(chars[from + 7], 'y', 'Y')
    } else {
        false
    }
}

fn decimal_number(chars: &Vec<char>, from: usize) -> (r: bool)
    requires
        from <= chars.len(),
    ensures
        r == is_decimal_number(chars@.skip(from as int)),
{
    let len = chars.len();
    let int_end = scan_digits(chars, from, len, from);
    let mantissa_end = if int_end < len && chars[int_end] == '.' {
        scan_digits(chars, from, len, int_end + 1)
    } else {
        int_end
    };
    let has_digit = int_end > from || mantissa_end - int_end > 1;
    if !has_digit {
        false
    } else if mantissa_end == len {
        true
    } else if chars[mantissa_end] == 'e' || chars[mantissa_end] == 'E' {
        let start = if mantissa_end + 1 < len && (chars[mantissa_end + 1] == '+'
            || chars[mantissa_end + 1] == '-') {
            mantissa_end + 2
        } else {
            mantissa_end + 1
        };
        start < len && scan_digits(chars, from, len, start) == len
    } else {
        false
    }
}

/// Tells whether `text` is a numeral.
pub fn is_numeral_text(text: &str) -> (r: bool)
    ensures
        r == is_numeral(text@),
{
    let chars = chars_of(text);
    let from: usize = if chars.len() > 0 && (chars[0] == '+' || chars[0] == '-') {
        1
    } else {
        0
    };
    assert(chars@.skip(from as int) == without_sign(text@));
    decimal_number(&chars, from) || special_numeral(&chars, from)
}

/// A layout coordinate: a numeral, as written.
#[derive(Debug)]
pub struct Coordinate {
    numeral: String,
}

impl View for Coordinate {
    type V = Seq<char>;

    closed spec fn view(&self) -> Seq<char> {
        numeral_or_zero(self.numeral@)
    }
}

impl Coordinate {
    #[verifier::type_invariant]
    spec fn holds_numeral(self) -> bool {
        is_numeral(self.numeral@)
    }

    /// Every coordinate holds a numeral.
    pub proof fn lemma_is_numeral(&self)
        ensures
            is_numeral(self@),
    {
        lemma_zero_is_numeral();
    }

    /// The coordinate of the origin.
    pub fn zero() -> (r: Self)
        ensures
            r@ == zero_numeral(),
    {
        let numeral = String::from_str("0");
        proof {
            reveal_strlit("0");
            lemma_zero_is_numeral();
            assert(numeral@ =~= zero_numeral());
        }
        Coordinate { numeral }
    }

    /// Reads a coordinate: `text` itself where it is a numeral, and nothing
    /// where it is not.
    pub fn parse(text: &str) -> (r: Option<Self>)
        ensures
            r is Some <==> is_numeral(text@),
            r is Some ==> r->0@ == text@,
    {
        if is_numeral_text(text) {
            Some(Coordinate { numeral: String::from_str(text) })
        } else {
            None
        }
    }

    /// Reads a coordinate leniently: text that is no numeral stands for zero.
    pub fn parse_or_zero(text: &str) -> (r: Self)
        ensures
            r@ == numeral_or_zero(text@),
    {
        match Self::parse(text) {
            Some(c) => c,
            None => Self::zero(),
        }
    }

    /// The numeral of this coordinate.
    pub fn as_str(&self) -> (r: &str)
        ensures
            r@ == self@,
    {
        proof {
            use_type_invariant(self);
        }
        self.numeral.as_str()
    }
}

impl Clone for Coordinate {
    fn clone(&self) -> (r: Self)
        ensures
            r@ == self@,
    {
        proof {
            use_type_invariant(self);
        }
        Coordinate { numeral: self.numeral.clone() }
    }
}

} // verus!
