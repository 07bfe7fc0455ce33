//! Character-level helpers over string slices.

use vstd::prelude::*;
use vstd::string::*;

verus! {

/// Collects the characters of `text`, in order.
pub fn chars_of(text: &str) -> (r: Vec<char>)
    ensures
        r@ == text@,
{
    let mut out: Vec<char> = Vec::new();
    for c in it: text.chars()
        invariant
            out@ == text@.take(it.index() as int),
            it.seq() == text@,
    {
        out.push(c);
    }
    out
}

/// Tells whether two string slices hold the same characters.
pub fn str_equal(a: &str, b: &str) -> (r: bool)
    ensures
        r == (a@ == b@),
{
    let left = a.to_owned();
    let right = b.to_owned();
    left == right
}

/// A text together with its characters, for reading by position.
pub struct Source<'a> {
    text: &'a str,
    chars: Vec<char>,
    ascii: bool,
}

impl<'a> View for Source<'a> {
    type V = Seq<char>;

    closed spec fn view(&self) -> Seq<char> {
        self.text@
    }
}

impl<'a> Source<'a> {
    #[verifier::type_invariant]
    spec fn consistent(self) -> bool {
        self.chars@ == self.text@ && (self.ascii ==> is_ascii(self.text))
    }

    /// Prepares `text` for reading.
    pub fn new(text: &'a str) -> (r: Self)
        ensures
            r@ == text@,
    {
        Source { text, chars: chars_of(text), ascii: text.is_ascii() }
    }

    /// The text itself.
    pub fn text(&self) -> (r: &'a str)
        ensures
            r@ == self@,
    {
        self.text
    }

    /// The number of characters.
    pub fn len(&self) -> (r: usize)
        ensures
            r == self@.len(),
    {
        proof {
            use_type_invariant(self);
        }
        self.chars.len()
    }

    /// The character at `pos`.
    pub fn char_at(&self, pos: usize) -> (r: char)
        requires
            pos < self@.len(),
        ensures
            r == self@[pos as int],
    {
        proof {
            use_type_invariant(self);
        }
        self.chars[pos]
    }

    /// The part of the text from `from` up to `to`.
    pub fn slice(&self, from: usize, to: usize) -> (r: &'a str)
        requires
            from <= to <= self@.len(),
        ensures
            r@ == self@.subrange(from as int, to as int),
    {
        proof {
            use_type_invariant(self);
        }
        if self.ascii {
            self.text.substring_ascii(from, to)
        } else {
            self.text.substring_char(from, to)
        }
    }
}

} // verus!
