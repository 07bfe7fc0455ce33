//! Tokens in context: what the functions of the notation read at a position
//! where a known piece of text stands.

use vstd::prelude::*;
use crate::coordinate::{
    digits_end, exponent_start, is_decimal_number, is_numeral, lemma_digits_end, without_sign,
};
use crate::grammar::{
    edge_op_at, has_char, id_end, in_class, is_name_start, is_space, is_word_char, lemma_run_end,
    run_end, skip_spaces, starts_word, word_end, CharClass, ParseErrorKind,
};

verus! {

/// The text `t` holds `piece` at position `p`.
pub open spec fn has_piece(t: Seq<char>, p: int, piece: Seq<char>) -> bool {
    0 <= p && p + piece.len() <= t.len() && forall|i: int|
        0 <= i < piece.len() ==> #[trigger] piece[i] == t[p + i]
}

/// A text that holds two pieces one behind the other holds both.
pub proof fn lemma_piece_split(t: Seq<char>, p: int, first: Seq<char>, second: Seq<char>)
    requires
        has_piece(t, p, first + second),
    ensures
        has_piece(t, p, first),
        has_piece(t, p + first.len(), second),
{
    let whole = first + second;
    assert forall|i: int| 0 <= i < first.len() implies #[trigger] first[i] == t[p + i] by {
        assert(whole[i] == first[i]);
    }
    assert forall|i: int| 0 <= i < second.len() implies #[trigger] second[i] == t[p + first.len()
        + i] by {
        assert(whole[first.len() + i] == second[i]);
    }
}

/// A run whose characters are known ends where they end.
pub proof fn lemma_run_over(t: Seq<char>, class: CharClass, p: int, q: int)
    requires
        0 <= p <= q <= t.len(),
        forall|i: int| p <= i < q ==> in_class(#[trigger] t[i], class),
        q == t.len() || !in_class(t[q], class),
    ensures
        run_end(t, class, p) == q,
    decreases q - p,
{
    if p < q {
        lemma_run_over(t, class, p + 1, q);
    }
}

/// The whole of `id` is one identifier.
pub open spec fn is_identifier(id: Seq<char>) -> bool {
    id_end(id, 0) == Ok::<int, ParseErrorKind>(id.len() as int)
}

/// The whole of `w` is one bare word.
pub open spec fn is_bare_word(w: Seq<char>) -> bool {
    w.len() > 0 && forall|i: int| 0 <= i < w.len() ==> is_word_char(#[trigger] w[i])
}

/// An identifier that is followed by a space is read as it stands.
pub proof fn lemma_identifier_in_context(t: Seq<char>, p: int, id: Seq<char>)
    requires
        has_piece(t, p, id),
        is_identifier(id),
        p + id.len() < t.len(),
        is_space(t[p + id.len()]),
    ensures
        id_end(t, p) == Ok::<int, ParseErrorKind>(p + id.len()),
{
    let n = id.len() as int;
    if id[0] == '"' {
        let close = run_end(id, CharClass::Unquoted, 1);
        lemma_run_end(id, CharClass::Unquoted, 1);
        assert forall|i: int| p + 1 <= i < p + close implies in_class(
            #[trigger] t[i],
            CharClass::Unquoted,
        ) by {
            assert(id[i - p] == t[p + (i - p)]);
        }
        lemma_run_over(t, CharClass::Unquoted, p + 1, p + close);
    } else if is_name_start(id[0]) {
        lemma_run_end(id, CharClass::Name, 1);
        assert forall|i: int| p + 1 <= i < p + n implies in_class(
            #[trigger] t[i],
            CharClass::Name,
        ) by {
            assert(id[i - p] == t[p + (i - p)]);
        }
        lemma_run_over(t, CharClass::Name, p + 1, p + n);
    } else {
        let start: int = if has_char(id, 0, '-') {
            1
        } else {
            0
        };
        let int_end = run_end(id, CharClass::Digit, start);
        lemma_run_end(id, CharClass::Digit, start);
        assert forall|i: int| p + start <= i < p + int_end implies in_class(
            #[trigger] t[i],
            CharClass::Digit,
        ) by {
            assert(id[i - p] == t[p + (i - p)]);
        }
        lemma_run_over(t, CharClass::Digit, p + start, p + int_end);
        if has_char(id, int_end, '.') {
            let end = run_end(id, CharClass::Digit, int_end + 1);
            lemma_run_end(id, CharClass::Digit, int_end + 1);
            assert forall|i: int| p + int_end + 1 <= i < p + end implies in_class(
                #[trigger] t[i],
                CharClass::Digit,
            ) by {
                assert(id[i - p] == t[p + (i - p)]);
            }
            lemma_run_over(t, CharClass::Digit, p + int_end + 1, p + end);
        }
    }
}

/// What an identifier is read from is an identifier by itself.
pub proof fn lemma_identifier_alone(t: Seq<char>, p: int)
    requires
        0 <= p,
        id_end(t, p) is Ok,
    ensures
        p < id_end(t, p)->Ok_0 <= t.len(),
        is_identifier(t.subrange(p, id_end(t, p)->Ok_0)),
{
    crate::grammar::lemma_id_end(t, p);
    let e = id_end(t, p)->Ok_0;
    let id = t.subrange(p, e);
    let n = e - p;
    if t[p] == '"' {
        lemma_run_end(t, CharClass::Unquoted, p + 1);
        lemma_run_over(id, CharClass::Unquoted, 1, n - 1);
    } else if is_name_start(t[p]) {
        lemma_run_end(t, CharClass::Name, p + 1);
        lemma_run_over(id, CharClass::Name, 1, n);
    } else {
        let start: int = if has_char(t, p, '-') {
            p + 1
        } else {
            p
        };
        let int_end = run_end(t, CharClass::Digit, start);
        lemma_run_end(t, CharClass::Digit, start);
        if has_char(t, int_end, '.') {
            lemma_run_end(t, CharClass::Digit, int_end + 1);
        }
        if has_char(t, int_end, '.') {
            lemma_run_over(id, CharClass::Digit, start - p, int_end - p);
            lemma_run_over(id, CharClass::Digit, int_end + 1 - p, n);
        } else {
            lemma_run_over(id, CharClass::Digit, start - p, n);
        }
    }
}

/// A bare word that is followed by something that cannot stand in a word is
/// read as it stands.
pub proof fn lemma_word_in_context(t: Seq<char>, p: int, w: Seq<char>)
    requires
        has_piece(t, p, w),
        is_bare_word(w),
        p + w.len() < t.len(),
        !is_word_char(t[p + w.len()]),
    ensures
        starts_word(t, p),
        word_end(t, p) == Ok::<int, ParseErrorKind>(p + w.len()),
{
    assert(w[0] == t[p + 0]);
    assert forall|i: int| p + 1 <= i < p + w.len() implies in_class(
        #[trigger] t[i],
        CharClass::Word,
    ) by {
        assert(w[i - p] == t[p + (i - p)]);
    }
    lemma_run_over(t, CharClass::Word, p + 1, p + w.len());
}

/// A string whose inside holds no quote is read as it stands.
pub proof fn lemma_string_in_context(t: Seq<char>, p: int, inside: Seq<char>)
    requires
        has_char(t, p, '"'),
        has_piece(t, p + 1, inside),
        forall|i: int| 0 <= i < inside.len() ==> #[trigger] inside[i] != '"',
        has_char(t, p + 1 + inside.len(), '"'),
    ensures
        starts_word(t, p),
        word_end(t, p) == Ok::<int, ParseErrorKind>(p + inside.len() + 2),
{
    assert forall|i: int| p + 1 <= i < p + 1 + inside.len() implies in_class(
        #[trigger] t[i],
        CharClass::Unquoted,
    ) by {
        assert(inside[i - p - 1] == t[p + 1 + (i - p - 1)]);
    }
    lemma_run_over(t, CharClass::Unquoted, p + 1, p + 1 + inside.len());
}

/// No space stands at `p`: there is nothing to skip.
pub proof fn lemma_no_space(t: Seq<char>, p: int)
    requires
        !(0 <= p < t.len()) || !is_space(t[p]),
    ensures
        skip_spaces(t, p) == p,
{
}

/// One space stands at `p`, and none behind it.
pub proof fn lemma_one_space(t: Seq<char>, p: int)
    requires
        0 <= p < t.len(),
        is_space(t[p]),
        !(p + 1 < t.len()) || !is_space(t[p + 1]),
    ensures
        skip_spaces(t, p) == p + 1,
{
    lemma_no_space(t, p + 1);
}

/// A numeral is a bare word: it is not empty, and holds neither blanks nor
/// quotes nor any of `,;=[]`.
pub proof fn lemma_numeral_is_bare_word(s: Seq<char>)
    requires
        is_numeral(s),
    ensures
        is_bare_word(s),
{
    let t = without_sign(s);
    let shift = s.len() - t.len();
    if is_decimal_number(t) {
        let int_end = digits_end(t, 0);
        lemma_digits_end(t, 0);
        let mantissa_end = if int_end < t.len() && t[int_end] == '.' {
            digits_end(t, int_end + 1)
        } else {
            int_end
        };
        if int_end < t.len() && t[int_end] == '.' {
            lemma_digits_end(t, int_end + 1);
        }
        if mantissa_end < t.len() {
            lemma_digits_end(t, exponent_start(t, mantissa_end));
        }
    }
    assert forall|i: int| 0 <= i < s.len() implies is_word_char(#[trigger] s[i]) by {
        if i >= shift {
            assert(t[i - shift] == s[i]);
        }
    }
}

/// A statement can begin at `q`, or the statements end there: what stands
/// at `q` is no space, no `[`, no `;` and no edge operator.
pub open spec fn is_boundary(t: Seq<char>, q: int) -> bool {
    &&& 0 <= q < t.len()
    &&& !is_space(t[q])
    &&& t[q] != '['
    &&& t[q] != ';'
    &&& edge_op_at(t, q) is None
}

/// Where an identifier stands, a statement can begin, and the statements
/// do not end.
pub proof fn lemma_identifier_is_boundary(t: Seq<char>, q: int, id: Seq<char>)
    requires
        has_piece(t, q, id),
        is_identifier(id),
    ensures
        is_boundary(t, q),
        t[q] != '}',
{
    if id[0] == '-' {
        let int_end = run_end(id, CharClass::Digit, 1);
        lemma_run_end(id, CharClass::Digit, 1);
        if has_char(id, int_end, '.') {
            lemma_run_end(id, CharClass::Digit, int_end + 1);
        }
    } else if id[0] != '"' && !is_name_start(id[0]) {
        let int_end = run_end(id, CharClass::Digit, 0);
        lemma_run_end(id, CharClass::Digit, 0);
    }
}

/// Where the closing brace stands, the statements end.
pub proof fn lemma_brace_is_boundary(t: Seq<char>, q: int)
    requires
        has_char(t, q, '}'),
    ensures
        is_boundary(t, q),
{
}

/// The text `t` holds `piece` at `p`, as a part of it.
pub proof fn lemma_piece_is_subrange(t: Seq<char>, p: int, piece: Seq<char>)
    requires
        has_piece(t, p, piece),
    ensures
        t.subrange(p, p + piece.len()) == piece,
{
}

} // verus!
