//! The dagitty notation, as functions on a sequence of characters.
//!
//! ```text
//! document   = [ "strict" ] graphtype [ id ] "{" { statement [ ";" ] } "}"
//! graphtype  = "digraph" | "dag" | "graph" | "mag" | "pdag" | "pag"
//! statement  = id ( hop { hop } [ attr_list ] | [ attr_list ] )
//! hop        = edgeop id
//! edgeop     = "->" | "@->" | "<-" | "<-@" | "--" | "--@" | "<->" | "@-@" | "@--"
//! attr_list  = "[" a_list "]" { "[" a_list "]" }
//! a_list     = { word [ "=" word ] [ "," | ";" ] }
//! id         = name | number | string
//! word       = bare | string
//! ```
//!
//! Spaces, tabs and line ends may stand between any two tokens. A `name` is a
//! letter or `_` followed by letters, digits and `_`; a `number` is an
//! optional `-`, then digits with at most one point among them; a `string`
//! runs from one double quote to the next and keeps both; a `bare` word is a
//! run of characters other than blanks, quotes and `,;=[]`. Each function
//! here reads one construct at a position and gives what it read and where it
//! stopped, or the error with its position.

use vstd::prelude::*;

verus! {

/// Why a text is not a document of the notation.
#[derive(Clone, Copy, Debug, PartialEq, Eq, Structural)]
pub enum ParseErrorKind {
    /// The text does not begin with a graph keyword.
    MissingGraphType,
    /// The leading keyword names no kind of graph that is supported.
    UnsupportedGraphType,
    /// A `{` was expected.
    MissingOpenBrace,
    /// The text ended before the `}` that closes the statements.
    MissingCloseBrace,
    /// A `]` was expected.
    MissingCloseBracket,
    /// An identifier was expected.
    MissingIdentifier,
    /// A value was expected behind `=`.
    MissingValue,
    /// A string has no closing quote.
    UnterminatedString,
    /// Something follows the closing `}`.
    TrailingText,
}

/// What an error of the given kind says, in words.
pub open spec fn kind_text(kind: ParseErrorKind) -> Seq<char> {
    match kind {
        ParseErrorKind::MissingGraphType => "expected a graph keyword"@,
        ParseErrorKind::UnsupportedGraphType => "unsupported kind of graph"@,
        ParseErrorKind::MissingOpenBrace => "expected `{`"@,
        ParseErrorKind::MissingCloseBrace => "expected `}`"@,
        ParseErrorKind::MissingCloseBracket => "expected `]`"@,
        ParseErrorKind::MissingIdentifier => "expected an identifier"@,
        ParseErrorKind::MissingValue => "expected a value"@,
        ParseErrorKind::UnterminatedString => "unterminated string"@,
        ParseErrorKind::TrailingText => "unexpected text after `}`"@,
    }
}

impl ParseErrorKind {
    /// What an error of this kind says, in words.
    pub fn description(&self) -> (r: &'static str)
        ensures
            r@ == kind_text(*self),
    {
        match self {
            ParseErrorKind::MissingGraphType => "expected a graph keyword",
            ParseErrorKind::UnsupportedGraphType => "unsupported kind of graph",
            ParseErrorKind::MissingOpenBrace => "expected `{`",
            ParseErrorKind::MissingCloseBrace => "expected `}`",
            ParseErrorKind::MissingCloseBracket => "expected `]`",
            ParseErrorKind::MissingIdentifier => "expected an identifier",
            ParseErrorKind::MissingValue => "expected a value",
            ParseErrorKind::UnterminatedString => "unterminated string",
            ParseErrorKind::TrailingText => "unexpected text after `}`",
        }
    }
}

/// A violation of the notation: what was wrong, and at which character.
#[derive(Clone, Copy, Debug, PartialEq, Eq, Structural)]
pub struct ParseError {
    /// The index of the character at which the text stopped being a document.
    pub position: usize,
    /// What was wrong there.
    pub kind: ParseErrorKind,
}

/// The error of kind `kind` at `pos`.
pub open spec fn error_at(pos: int, kind: ParseErrorKind) -> ParseError {
    ParseError { position: pos as usize, kind }
}

/// Classes of characters that tokens are made of.
#[derive(Clone, Copy, Debug, PartialEq, Eq, Structural)]
pub enum CharClass {
    /// Blank, tab, line feed, carriage return.
    Space,
    /// `0` to `9`.
    Digit,
    /// Letters, digits and `_`.
    Name,
    /// Anything but spaces, double quotes and `,;=[]`.
    Word,
    /// Anything but a double quote.
    Unquoted,
    /// Anything but a comma.
    Field,
}

/// `c` is a blank, a tab or a line end.
pub open spec fn is_space(c: char) -> bool {
    c == ' ' || c == '\t' || c == '\n' || c == '\r'
}

/// `c` is an ASCII digit.
pub open spec fn is_digit(c: char) -> bool {
    '0' <= c <= '9'
}

/// `c` can begin a name.
pub open spec fn is_name_start(c: char) -> bool {
    ('a' <= c <= 'z') || ('A' <= c <= 'Z') || c == '_'
}

/// `c` can stand in a bare word.
pub open spec fn is_word_char(c: char) -> bool {
    !is_space(c) && c != '"' && c != ',' && c != ';' && c != '=' && c != '[' && c != ']'
}

/// `c` belongs to `class`.
pub open spec fn in_class(c: char, class: CharClass) -> bool {
    match class {
        CharClass::Space => is_space(c),
        CharClass::Digit => is_digit(c),
        CharClass::Name => is_name_start(c) || is_digit(c),
        CharClass::Word => is_word_char(c),
        CharClass::Unquoted => c != '"',
        CharClass::Field => c != ',',
    }
}

/// The end of the longest run of characters of `class` that starts at `pos`.
pub open spec fn run_end(s: Seq<char>, class: CharClass, pos: int) -> int
    decreases s.len() - pos,
{
    if 0 <= pos < s.len() && in_class(s[pos], class) {
        run_end(s, class, pos + 1)
    } else {
        pos
    }
}

/// The first position at or behind `pos` that holds no space.
pub open spec fn skip_spaces(s: Seq<char>, pos: int) -> int {
    run_end(s, CharClass::Space, pos)
}

/// A run ends at or behind its start, within the text, and holds only
/// characters of its class.
pub proof fn lemma_run_end(s: Seq<char>, class: CharClass, pos: int)
    requires
        0 <= pos <= s.len(),
    ensures
        pos <= run_end(s, class, pos) <= s.len(),
        forall|i: int| pos <= i < run_end(s, class, pos) ==> in_class(#[trigger] s[i], class),
        run_end(s, class, pos) < s.len() ==> !in_class(s[run_end(s, class, pos)], class),
    decreases s.len() - pos,
{
    if pos < s.len() && in_class(s[pos], class) {
        lemma_run_end(s, class, pos + 1);
    }
}

/// The character `c` stands at `pos`.
pub open spec fn has_char(s: Seq<char>, pos: int, c: char) -> bool {
    0 <= pos < s.len() && s[pos] == c
}

/// Where the string that opens at `pos` ends: behind its closing quote.
pub open spec fn string_end(s: Seq<char>, pos: int) -> Option<int> {
    let close = run_end(s, CharClass::Unquoted, pos + 1);
    if close < s.len() {
        Some(close + 1)
    } else {
        None
    }
}

/// Where the number at `pos` ends, if one stands there: an optional `-`,
/// then digits with at most one point among them, and one digit at least.
pub open spec fn number_end(s: Seq<char>, pos: int) -> Option<int> {
    let start = if has_char(s, pos, '-') {
        pos + 1
    } else {
        pos
    };
    let int_end = run_end(s, CharClass::Digit, start);
    let end = if has_char(s, int_end, '.') {
        run_end(s, CharClass::Digit, int_end + 1)
    } else {
        int_end
    };
    if int_end > start || end > int_end + 1 {
        Some(end)
    } else {
        None
    }
}

/// Where the identifier at `pos` ends: a string, a name or a number.
pub open spec fn id_end(s: Seq<char>, pos: int) -> Result<int, ParseErrorKind> {
    if !(0 <= pos < s.len()) {
        Err(ParseErrorKind::MissingIdentifier)
    } else if s[pos] == '"' {
        match string_end(s, pos) {
            Some(end) => Ok(end),
            None => Err(ParseErrorKind::UnterminatedString),
        }
    } else if is_name_start(s[pos]) {
        Ok(run_end(s, CharClass::Name, pos + 1))
    } else {
        match number_end(s, pos) {
            Some(end) => Ok(end),
            None => Err(ParseErrorKind::MissingIdentifier),
        }
    }
}

/// Where the attribute word at `pos` ends: a string or a bare word.
pub open spec fn word_end(s: Seq<char>, pos: int) -> Result<int, ParseErrorKind> {
    if !(0 <= pos < s.len()) {
        Err(ParseErrorKind::MissingIdentifier)
    } else if s[pos] == '"' {
        match string_end(s, pos) {
            Some(end) => Ok(end),
            None => Err(ParseErrorKind::UnterminatedString),
        }
    } else if is_word_char(s[pos]) {
        Ok(run_end(s, CharClass::Word, pos + 1))
    } else {
        Err(ParseErrorKind::MissingIdentifier)
    }
}

/// A word can begin at `pos`.
pub open spec fn starts_word(s: Seq<char>, pos: int) -> bool {
    0 <= pos < s.len() && (s[pos] == '"' || is_word_char(s[pos]))
}

/// An identifier, where there is one, is not empty and ends within the text.
pub proof fn lemma_id_end(s: Seq<char>, pos: int)
    requires
        0 <= pos,
    ensures
        id_end(s, pos) is Ok ==> pos < id_end(s, pos)->Ok_0 <= s.len(),
{
    if pos < s.len() {
        lemma_run_end(s, CharClass::Unquoted, pos + 1);
        lemma_run_end(s, CharClass::Name, pos + 1);
        let start = if has_char(s, pos, '-') {
            pos + 1
        } else {
            pos
        };
        lemma_run_end(s, CharClass::Digit, start);
        let int_end = run_end(s, CharClass::Digit, start);
        if has_char(s, int_end, '.') {
            lemma_run_end(s, CharClass::Digit, int_end + 1);
        }
    }
}

/// A word, where there is one, is not empty and ends within the text.
pub proof fn lemma_word_end(s: Seq<char>, pos: int)
    requires
        0 <= pos,
    ensures
        word_end(s, pos) is Ok ==> pos < word_end(s, pos)->Ok_0 <= s.len(),
{
    if pos < s.len() {
        lemma_run_end(s, CharClass::Unquoted, pos + 1);
        lemma_run_end(s, CharClass::Word, pos + 1);
    }
}

/// What an edge operator says of the two identifiers around it.
#[derive(Clone, Copy, Debug, PartialEq, Eq, Structural)]
pub enum EdgeOp {
    /// A directed edge from the left identifier to the right one.
    Forward,
    /// A directed edge from the right identifier to the left one.
    Backward,
    /// An undirected edge.
    Undirected,
}

/// The characters `a`, `b` stand at `pos`.
pub open spec fn has_pair(s: Seq<char>, pos: int, a: char, b: char) -> bool {
    has_char(s, pos, a) && has_char(s, pos + 1, b)
}

/// The characters `a`, `b`, `c` stand at `pos`.
pub open spec fn has_triple(s: Seq<char>, pos: int, a: char, b: char, c: char) -> bool {
    has_char(s, pos, a) && has_char(s, pos + 1, b) && has_char(s, pos + 2, c)
}

/// The edge operator at `pos`, if one stands there, and its length. Of two
/// operators that match, the longer is meant.
pub open spec fn edge_op_at(s: Seq<char>, pos: int) -> Option<(EdgeOp, int)> {
    if has_triple(s, pos, '<', '-', '>') {
        Some((EdgeOp::Undirected, 3))
    } else if has_triple(s, pos, '<', '-', '@') {
        Some((EdgeOp::Backward, 3))
    } else if has_pair(s, pos, '<', '-') {
        Some((EdgeOp::Backward, 2))
    } else if has_triple(s, pos, '-', '-', '@') {
        Some((EdgeOp::Undirected, 3))
    } else if has_pair(s, pos, '-', '-') {
        Some((EdgeOp::Undirected, 2))
    } else if has_pair(s, pos, '-', '>') {
        Some((EdgeOp::Forward, 2))
    } else if has_triple(s, pos, '@', '-', '>') {
        Some((EdgeOp::Forward, 3))
    } else if has_triple(s, pos, '@', '-', '@') {
        Some((EdgeOp::Undirected, 3))
    } else if has_triple(s, pos, '@', '-', '-') {
        Some((EdgeOp::Undirected, 3))
    } else {
        None
    }
}

/// One attribute: a key and, behind `=`, a value. A key that stands alone
/// has the empty value.
pub open spec fn parse_attr(s: Seq<char>, pos: int) -> Result<
    ((Seq<char>, Seq<char>), int),
    ParseError,
> {
    match word_end(s, pos) {
        Err(kind) => Err(error_at(pos, kind)),
        Ok(key_end) => {
            let eq = skip_spaces(s, key_end);
            if has_char(s, eq, '=') {
                let start = skip_spaces(s, eq + 1);
                match word_end(s, start) {
                    Err(ParseErrorKind::UnterminatedString) => Err(
                        error_at(start, ParseErrorKind::UnterminatedString),
                    ),
                    Err(_) => Err(error_at(start, ParseErrorKind::MissingValue)),
                    Ok(end) => Ok(((s.subrange(pos, key_end), s.subrange(start, end)), end)),
                }
            } else {
                Ok(((s.subrange(pos, key_end), Seq::<char>::empty()), key_end))
            }
        },
    }
}

/// The position behind the separator at `pos`, if one of `first`, `second`
/// stands there, and behind the spaces that follow it; else `pos`.
pub open spec fn skip_separator(s: Seq<char>, pos: int, first: char, second: char) -> int {
    if has_char(s, pos, first) || has_char(s, pos, second) {
        skip_spaces(s, pos + 1)
    } else {
        pos
    }
}

/// The attributes from `pos` on, appended to `acc`: one after the other for
/// as long as a word begins, each followed by spaces and at most one `,` or
/// `;`. Returns them and the position at which no word begins.
pub open spec fn parse_a_list_from(
    s: Seq<char>,
    pos: int,
    acc: Seq<(Seq<char>, Seq<char>)>,
) -> Result<(Seq<(Seq<char>, Seq<char>)>, int), ParseError>
    decreases s.len() - pos,
{
    if starts_word(s, pos) {
        match parse_attr(s, pos) {
            Err(e) => Err(e),
            Ok((attr, end)) => {
                let next = skip_separator(s, skip_spaces(s, end), ',', ';');
                proof {
                    lemma_attr_advances(s, pos);
                }
                parse_a_list_from(s, next, acc.push(attr))
            },
        }
    } else {
        Ok((acc, pos))
    }
}

/// A separator is skipped forwards, within the text.
pub proof fn lemma_skip_separator(s: Seq<char>, pos: int, first: char, second: char)
    requires
        0 <= pos <= s.len(),
    ensures
        pos <= skip_separator(s, pos, first, second) <= s.len(),
{
    if has_char(s, pos, first) || has_char(s, pos, second) {
        lemma_run_end(s, CharClass::Space, pos + 1);
    }
}

/// An attribute is not empty: what follows it begins behind its start.
pub proof fn lemma_attr_advances(s: Seq<char>, pos: int)
    requires
        0 <= pos,
    ensures
        parse_attr(s, pos) is Ok ==> pos < parse_attr(s, pos)->Ok_0.1 <= skip_separator(
            s,
            skip_spaces(s, parse_attr(s, pos)->Ok_0.1),
            ',',
            ';',
        ) <= s.len(),
{
    lemma_word_end(s, pos);
    if word_end(s, pos) is Ok {
        let key_end = word_end(s, pos)->Ok_0;
        lemma_run_end(s, CharClass::Space, key_end);
        let eq = skip_spaces(s, key_end);
        if has_char(s, eq, '=') {
            lemma_run_end(s, CharClass::Space, eq + 1);
            lemma_word_end(s, skip_spaces(s, eq + 1));
        }
        if parse_attr(s, pos) is Ok {
            let end = parse_attr(s, pos)->Ok_0.1;
            lemma_run_end(s, CharClass::Space, end);
            lemma_skip_separator(s, skip_spaces(s, end), ',', ';');
        }
    }
}

/// The attribute lists from the `[` at `pos` on, appended to `acc`: each is
/// `[`, attributes and `]`, and the next may follow behind spaces. Returns
/// them and the position behind the last `]`.
pub open spec fn parse_attr_list_from(
    s: Seq<char>,
    pos: int,
    acc: Seq<Seq<(Seq<char>, Seq<char>)>>,
) -> Result<(Seq<Seq<(Seq<char>, Seq<char>)>>, int), ParseError>
    decreases s.len() - pos,
{
    if !has_char(s, pos, '[') {
        Err(error_at(pos, ParseErrorKind::MissingCloseBracket))
    } else {
        match parse_a_list_from(s, skip_spaces(s, pos + 1), Seq::empty()) {
            Err(e) => Err(e),
            Ok((a_list, close)) => {
                if has_char(s, close, ']') {
                    let next = skip_spaces(s, close + 1);
                    if has_char(s, next, '[') {
                        proof {
                            lemma_run_end(s, CharClass::Space, pos + 1);
                            lemma_a_list_advances(s, skip_spaces(s, pos + 1), Seq::empty());
                            lemma_run_end(s, CharClass::Space, close + 1);
                        }
                        parse_attr_list_from(s, next, acc.push(a_list))
                    } else {
                        Ok((acc.push(a_list), close + 1))
                    }
                } else {
                    Err(error_at(close, ParseErrorKind::MissingCloseBracket))
                }
            },
        }
    }
}

/// Attributes are read forwards: they end at or behind their start, within
/// the text, and all of `acc` is kept in front of them.
pub proof fn lemma_a_list_advances(s: Seq<char>, pos: int, acc: Seq<(Seq<char>, Seq<char>)>)
    requires
        0 <= pos <= s.len(),
    ensures
        parse_a_list_from(s, pos, acc) is Ok ==> pos <= parse_a_list_from(s, pos, acc)->Ok_0.1
            <= s.len(),
    decreases s.len() - pos,
{
    if starts_word(s, pos) {
        lemma_attr_advances(s, pos);
        if parse_attr(s, pos) is Ok {
            let (attr, end) = parse_attr(s, pos)->Ok_0;
            let next = skip_separator(s, skip_spaces(s, end), ',', ';');
            lemma_a_list_advances(s, next, acc.push(attr));
        }
    }
}

/// One step of an edge statement: the operator and the identifier behind it.
pub struct HopModel {
    pub op: EdgeOp,
    pub node_id: Seq<char>,
}

/// A statement of a document.
pub enum StmtModel {
    /// The declaration of a node.
    Node { id: Seq<char>, attrs: Option<Seq<Seq<(Seq<char>, Seq<char>)>>> },
    /// A chain of edges that starts at `id`.
    Edge { id: Seq<char>, hops: Seq<HopModel>, attrs: Option<Seq<Seq<(Seq<char>, Seq<char>)>>> },
}

/// A document: the graph keyword with what stands around it, and the
/// statements in order.
pub struct DocumentModel {
    pub strict: bool,
    pub graph_type: Seq<char>,
    pub directed: bool,
    pub name: Option<Seq<char>>,
    pub stmts: Seq<StmtModel>,
}

/// The hops from the operator at `pos` on, appended to `acc`: operator and
/// identifier, for as long as an operator follows. Returns them and the
/// position behind the last identifier.
pub open spec fn parse_hops_from(s: Seq<char>, pos: int, acc: Seq<HopModel>) -> Result<
    (Seq<HopModel>, int),
    ParseError,
>
    decreases s.len() - pos,
{
    match edge_op_at(s, pos) {
        None => Err(error_at(pos, ParseErrorKind::MissingIdentifier)),
        Some((op, len)) => {
            let start = skip_spaces(s, pos + len);
            match id_end(s, start) {
                Err(kind) => Err(error_at(start, kind)),
                Ok(end) => {
                    let hop = HopModel { op, node_id: s.subrange(start, end) };
                    let next = skip_spaces(s, end);
                    if edge_op_at(s, next) is Some {
                        proof {
                            lemma_run_end(s, CharClass::Space, pos + len);
                            lemma_id_end(s, start);
                            lemma_run_end(s, CharClass::Space, end);
                        }
                        parse_hops_from(s, next, acc.push(hop))
                    } else {
                        Ok((acc.push(hop), end))
                    }
                },
            }
        },
    }
}

/// The attribute lists at `pos`, if a `[` stands there, and where they end;
/// else none, and `fallback`.
pub open spec fn parse_optional_attrs(s: Seq<char>, pos: int, fallback: int) -> Result<
    (Option<Seq<Seq<(Seq<char>, Seq<char>)>>>, int),
    ParseError,
> {
    if has_char(s, pos, '[') {
        match parse_attr_list_from(s, pos, Seq::empty()) {
            Err(e) => Err(e),
            Ok((attrs, end)) => Ok((Some(attrs), end)),
        }
    } else {
        Ok((None, fallback))
    }
}

/// The statement at `pos`: an identifier, then either hops, which make it an
/// edge statement, or not, which makes it a node statement; then, behind
/// spaces, attribute lists if there are any.
pub open spec fn parse_stmt(s: Seq<char>, pos: int) -> Result<(StmtModel, int), ParseError> {
    match id_end(s, pos) {
        Err(kind) => Err(error_at(pos, kind)),
        Ok(id_end) => {
            let id = s.subrange(pos, id_end);
            let next = skip_spaces(s, id_end);
            if edge_op_at(s, next) is Some {
                match parse_hops_from(s, next, Seq::empty()) {
                    Err(e) => Err(e),
                    Ok((hops, hops_end)) => match parse_optional_attrs(
                        s,
                        skip_spaces(s, hops_end),
                        hops_end,
                    ) {
                        Err(e) => Err(e),
                        Ok((attrs, end)) => Ok((StmtModel::Edge { id, hops, attrs }, end)),
                    },
                }
            } else {
                match parse_optional_attrs(s, next, id_end) {
                    Err(e) => Err(e),
                    Ok((attrs, end)) => Ok((StmtModel::Node { id, attrs }, end)),
                }
            }
        },
    }
}

/// The statements from `pos` on, appended to `acc`, up to the closing `}`:
/// each may be followed by spaces and one `;`. Returns them and the position
/// behind the `}`.
pub open spec fn parse_stmts_from(s: Seq<char>, pos: int, acc: Seq<StmtModel>) -> Result<
    (Seq<StmtModel>, int),
    ParseError,
>
    decreases s.len() - pos,
{
    if !(0 <= pos < s.len()) {
        Err(error_at(pos, ParseErrorKind::MissingCloseBrace))
    } else if s[pos] == '}' {
        Ok((acc, pos + 1))
    } else {
        match parse_stmt(s, pos) {
            Err(e) => Err(e),
            Ok((stmt, end)) => {
                let next = skip_separator(s, skip_spaces(s, end), ';', ';');
                proof {
                    lemma_stmt_advances(s, pos);
                }
                parse_stmts_from(s, next, acc.push(stmt))
            },
        }
    }
}

/// Hops are read forwards and end within the text.
pub proof fn lemma_hops_advance(s: Seq<char>, pos: int, acc: Seq<HopModel>)
    requires
        0 <= pos <= s.len(),
    ensures
        parse_hops_from(s, pos, acc) is Ok ==> pos < parse_hops_from(s, pos, acc)->Ok_0.1
            <= s.len(),
    decreases s.len() - pos,
{
    match edge_op_at(s, pos) {
        None => {},
        Some((op, len)) => {
            lemma_run_end(s, CharClass::Space, pos + len);
            let start = skip_spaces(s, pos + len);
            lemma_id_end(s, start);
            if id_end(s, start) is Ok {
                let end = id_end(s, start)->Ok_0;
                lemma_run_end(s, CharClass::Space, end);
                let next = skip_spaces(s, end);
                if edge_op_at(s, next) is Some {
                    lemma_hops_advance(
                        s,
                        next,
                        acc.push(HopModel { op, node_id: s.subrange(start, end) }),
                    );
                }
            }
        },
    }
}

/// Attribute lists are read forwards and end within the text.
pub proof fn lemma_attr_list_advances(
    s: Seq<char>,
    pos: int,
    acc: Seq<Seq<(Seq<char>, Seq<char>)>>,
)
    requires
        0 <= pos <= s.len(),
    ensures
        parse_attr_list_from(s, pos, acc) is Ok ==> pos < parse_attr_list_from(s, pos, acc)->Ok_0.1
            <= s.len(),
    decreases s.len() - pos,
{
    if has_char(s, pos, '[') {
        lemma_run_end(s, CharClass::Space, pos + 1);
        let start = skip_spaces(s, pos + 1);
        lemma_a_list_advances(s, start, Seq::empty());
        if parse_a_list_from(s, start, Seq::empty()) is Ok {
            let (a_list, close) = parse_a_list_from(s, start, Seq::empty())->Ok_0;
            if has_char(s, close, ']') {
                lemma_run_end(s, CharClass::Space, close + 1);
                let next = skip_spaces(s, close + 1);
                if has_char(s, next, '[') {
                    lemma_attr_list_advances(s, next, acc.push(a_list));
                }
            }
        }
    }
}

/// A statement is not empty: what follows it begins behind its start.
pub proof fn lemma_stmt_advances(s: Seq<char>, pos: int)
    requires
        0 <= pos,
    ensures
        parse_stmt(s, pos) is Ok ==> pos < parse_stmt(s, pos)->Ok_0.1 <= skip_separator(
            s,
            skip_spaces(s, parse_stmt(s, pos)->Ok_0.1),
            ';',
            ';',
        ) <= s.len(),
{
    lemma_id_end(s, pos);
    if id_end(s, pos) is Ok {
        let id_end = id_end(s, pos)->Ok_0;
        lemma_run_end(s, CharClass::Space, id_end);
        let next = skip_spaces(s, id_end);
        if edge_op_at(s, next) is Some {
            lemma_hops_advance(s, next, Seq::empty());
            if parse_hops_from(s, next, Seq::empty()) is Ok {
                let hops_end = parse_hops_from(s, next, Seq::empty())->Ok_0.1;
                lemma_run_end(s, CharClass::Space, hops_end);
                lemma_attr_list_advances(s, skip_spaces(s, hops_end), Seq::empty());
            }
        } else {
            lemma_attr_list_advances(s, next, Seq::empty());
        }
        if parse_stmt(s, pos) is Ok {
            let end = parse_stmt(s, pos)->Ok_0.1;
            lemma_run_end(s, CharClass::Space, end);
            lemma_skip_separator(s, skip_spaces(s, end), ';', ';');
        }
    }
}

/// Where the keyword at `pos` ends; `pos` itself where none begins.
pub open spec fn keyword_end(s: Seq<char>, pos: int) -> int {
    if 0 <= pos < s.len() && is_name_start(s[pos]) {
        run_end(s, CharClass::Name, pos + 1)
    } else {
        pos
    }
}

/// Whether `word` names a directed kind of graph, if it names a kind at all.
pub open spec fn graph_kind(word: Seq<char>) -> Option<bool> {
    if word == "digraph"@ || word == "dag"@ {
        Some(true)
    } else if word == "graph"@ || word == "mag"@ || word == "pdag"@ || word == "pag"@ {
        Some(false)
    } else {
        None
    }
}

/// Where the graph keyword begins: at the first word, or at the second if
/// the first is `strict`.
pub open spec fn graph_type_start(s: Seq<char>) -> int {
    let first = skip_spaces(s, 0);
    let first_end = keyword_end(s, first);
    if s.subrange(first, first_end) == "strict"@ {
        skip_spaces(s, first_end)
    } else {
        first
    }
}

/// The name of the graph, if one stands at `pos`, and the position of the
/// `{` behind it.
pub open spec fn parse_graph_name(s: Seq<char>, pos: int) -> Result<
    (Option<Seq<char>>, int),
    ParseError,
> {
    if has_char(s, pos, '{') {
        Ok((None, pos))
    } else {
        match id_end(s, pos) {
            Err(ParseErrorKind::UnterminatedString) => Err(
                error_at(pos, ParseErrorKind::UnterminatedString),
            ),
            Err(_) => Err(error_at(pos, ParseErrorKind::MissingOpenBrace)),
            Ok(end) => {
                let brace = skip_spaces(s, end);
                if has_char(s, brace, '{') {
                    Ok((Some(s.subrange(pos, end)), brace))
                } else {
                    Err(error_at(brace, ParseErrorKind::MissingOpenBrace))
                }
            },
        }
    }
}

/// The document that `s` is, or the first violation of the notation in it.
pub open spec fn parse_document(s: Seq<char>) -> Result<DocumentModel, ParseError> {
    let start = graph_type_start(s);
    let end = keyword_end(s, start);
    if end == start {
        Err(error_at(start, ParseErrorKind::MissingGraphType))
    } else {
        match graph_kind(s.subrange(start, end)) {
            None => Err(error_at(start, ParseErrorKind::UnsupportedGraphType)),
            Some(directed) => match parse_graph_name(s, skip_spaces(s, end)) {
                Err(e) => Err(e),
                Ok((name, brace)) => match parse_stmts_from(
                    s,
                    skip_spaces(s, brace + 1),
                    Seq::empty(),
                ) {
                    Err(e) => Err(e),
                    Ok((stmts, close)) => {
                        let rest = skip_spaces(s, close);
                        if rest == s.len() {
                            Ok(
                                DocumentModel {
                                    strict: start != skip_spaces(s, 0),
                                    graph_type: s.subrange(start, end),
                                    directed,
                                    name,
                                    stmts,
                                },
                            )
                        } else {
                            Err(error_at(rest, ParseErrorKind::TrailingText))
                        }
                    },
                },
            },
        }
    }
}

} // verus!
