//! Reading a document of the notation into its statements.

use vstd::prelude::*;
use crate::grammar::{
    edge_op_at, graph_kind, has_char, id_end, in_class, keyword_end, number_end,
    parse_a_list_from, parse_attr, parse_attr_list_from, parse_document, parse_graph_name,
    parse_hops_from, parse_optional_attrs, parse_stmt, parse_stmts_from, run_end, skip_separator,
    starts_word, string_end, word_end, CharClass, DocumentModel, EdgeOp, HopModel, ParseError,
    ParseErrorKind, StmtModel,
};
use crate::text::{str_equal, Source};

verus! {

/// What was read agrees with the notation: the same value and end, or the
/// same error.
pub open spec fn agrees<T: View>(
    r: Result<(T, usize), ParseError>,
    model: Result<(T::V, int), ParseError>,
) -> bool {
    match r {
        Ok((value, end)) => model == Ok::<(T::V, int), ParseError>((value@, end as int)),
        Err(e) => model == Err::<(T::V, int), ParseError>(e),
    }
}

fn class_has(c: char, class: CharClass) -> (r: bool)
    ensures
        r == in_class(c, class),
{
    let space = c == ' ' || c == '\t' || c == '\n' || c == '\r';
    let digit = '0' <= c && c <= '9';
    match class {
        CharClass::Space => space,
        CharClass::Digit => digit,
        CharClass::Name => ('a' <= c && c <= 'z') || ('A' <= c && c <= 'Z') || c == '_' || digit,
        CharClass::Word => !space && c != '"' && c != ',' && c != ';' && c != '=' && c != '['
            && c != ']',
        CharClass::Unquoted => c != '"',
        CharClass::Field => c != ',',
    }
}

/// The end of the run of `class` that starts at `pos`.
pub fn scan(src: &Source, class: CharClass, pos: usize) -> (r: usize)
    requires
        pos <= src@.len(),
    ensures
        r == run_end(src@, class, pos as int),
        pos <= r <= src@.len() <= usize::MAX,
{
    let len = src.len();
    let mut i = pos;
    while i < len && class_has(src.char_at(i), class)
        invariant
            pos <= i <= len == src@.len(),
            run_end(src@, class, pos as int) == run_end(src@, class, i as int),
        decreases len - i,
    {
        i += 1;
    }
    i
}

fn char_is(src: &Source, pos: usize, c: char) -> (r: bool)
    ensures
        r == has_char(src@, pos as int, c),
        r ==> pos < usize::MAX,
{
    pos < src.len() && src.char_at(pos) == c
}

fn scan_string(src: &Source, pos: usize) -> (r: Result<usize, ParseErrorKind>)
    requires
        pos < src@.len(),
    ensures
        match r {
            Ok(end) => string_end(src@, pos as int) == Some(end as int) && pos
                < end <= src@.len(),
            Err(kind) => string_end(src@, pos as int) is None && kind
                == ParseErrorKind::UnterminatedString,
        },
{
    let len = src.len();
    let close = scan(src, CharClass::Unquoted, pos + 1);
    if close < len {
        Ok(close + 1)
    } else {
        Err(ParseErrorKind::UnterminatedString)
    }
}

fn scan_number(src: &Source, pos: usize) -> (r: Option<usize>)
    requires
        pos < src@.len(),
    ensures
        r is Some == number_end(src@, pos as int) is Some,
        r is Some ==> r->0 == number_end(src@, pos as int)->0 && pos < r->0
            <= src@.len(),
{
    let len = src.len();
    let start = if src.char_at(pos) == '-' {
        pos + 1
    } else {
        pos
    };
    let int_end = scan(src, CharClass::Digit, start);
    let end = if char_is(src, int_end, '.') {
        scan(src, CharClass::Digit, int_end + 1)
    } else {
        int_end
    };
    if int_end > start || end - int_end > 1 {
        Some(end)
    } else {
        None
    }
}

/// Where the identifier at `pos` ends.
fn scan_id(src: &Source, pos: usize) -> (r: Result<usize, ParseErrorKind>)
    requires
        pos <= src@.len(),
    ensures
        match r {
            Ok(end) => id_end(src@, pos as int) == Ok::<int, ParseErrorKind>(end as int) && pos
                < end <= src@.len(),
            Err(kind) => id_end(src@, pos as int) == Err::<int, ParseErrorKind>(kind),
        },
{
    if pos >= src.len() {
        return Err(ParseErrorKind::MissingIdentifier);
    }
    let c = src.char_at(pos);
    if c == '"' {
        scan_string(src, pos)
    } else if ('a' <= c && c <= 'z') || ('A' <= c && c <= 'Z') || c == '_' {
        Ok(scan(src, CharClass::Name, pos + 1))
    } else {
        match scan_number(src, pos) {
            Some(end) => Ok(end),
            None => Err(ParseErrorKind::MissingIdentifier),
        }
    }
}

/// Where the attribute word at `pos` ends.
fn scan_word(src: &Source, pos: usize) -> (r: Result<usize, ParseErrorKind>)
    requires
        pos <= src@.len(),
    ensures
        match r {
            Ok(end) => word_end(src@, pos as int) == Ok::<int, ParseErrorKind>(end as int) && pos
                < end <= src@.len(),
            Err(kind) => word_end(src@, pos as int) == Err::<int, ParseErrorKind>(kind),
        },
{
    if pos >= src.len() {
        return Err(ParseErrorKind::MissingIdentifier);
    }
    let c = src.char_at(pos);
    if c == '"' {
        scan_string(src, pos)
    } else if class_has(c, CharClass::Word) {
        Ok(scan(src, CharClass::Word, pos + 1))
    } else {
        Err(ParseErrorKind::MissingIdentifier)
    }
}

fn word_starts(src: &Source, pos: usize) -> (r: bool)
    ensures
        r == starts_word(src@, pos as int),
{
    pos < src.len() && (src.char_at(pos) == '"' || class_has(src.char_at(pos), CharClass::Word))
}

/// The edge operator at `pos` and its length.
fn scan_edge_op(src: &Source, pos: usize) -> (r: Option<(EdgeOp, usize)>)
    requires
        pos <= src@.len(),
    ensures
        match r {
            Some((op, len)) => edge_op_at(src@, pos as int) == Some((op, len as int)) && 2 <= len
                && pos + len <= src@.len() <= usize::MAX,
            None => edge_op_at(src@, pos as int) is None,
        },
{
    let len = src.len();
    if len - pos < 2 {
        return None;
    }
    let a = src.char_at(pos);
    let b = src.char_at(pos + 1);
    let third = len - pos >= 3;
    let c = if third {
        src.char_at(pos + 2)
    } else {
        ' '
    };
    if a == '<' && b == '-' {
        if third && c == '>' {
            Some((EdgeOp::Undirected, 3))
        } else if third && c == '@' {
            Some((EdgeOp::Backward, 3))
        } else {
            Some((EdgeOp::Backward, 2))
        }
    } else if a == '-' && b == '-' {
        if third && c == '@' {
            Some((EdgeOp::Undirected, 3))
        } else {
            Some((EdgeOp::Undirected, 2))
        }
    } else if a == '-' && b == '>' {
        Some((EdgeOp::Forward, 2))
    } else if a == '@' && b == '-' && third {
        if c == '>' {
            Some((EdgeOp::Forward, 3))
        } else if c == '@' || c == '-' {
            Some((EdgeOp::Undirected, 3))
        } else {
            None
        }
    } else {
        None
    }
}

fn skip_sep(src: &Source, pos: usize, first: char, second: char) -> (r: usize)
    requires
        pos <= src@.len(),
    ensures
        r == skip_separator(src@, pos as int, first, second),
        pos <= r <= src@.len(),
{
    if char_is(src, pos, first) || char_is(src, pos, second) {
        scan(src, CharClass::Space, pos + 1)
    } else {
        pos
    }
}

/// The model of an attribute as read: its key and its value.
pub open spec fn attr_model<'a>(attr: (&'a str, &'a str)) -> (Seq<char>, Seq<char>) {
    (attr.0@, attr.1@)
}

/// The models of attributes.
pub open spec fn attr_models<'a>(attrs: Seq<(&'a str, &'a str)>) -> Seq<(Seq<char>, Seq<char>)> {
    attrs.map_values(|a: (&'a str, &'a str)| attr_model(a))
}

/// The attribute at `pos`.
fn read_attr<'a>(src: &Source<'a>, pos: usize) -> (r: Result<
    ((&'a str, &'a str), usize),
    ParseError,
>)
    requires
        pos <= src@.len(),
    ensures
        match r {
            Ok((attr, end)) => parse_attr(src@, pos as int) == Ok::<
                ((Seq<char>, Seq<char>), int),
                ParseError,
            >((attr_model(attr), end as int)) && pos < end <= src@.len(),
            Err(e) => parse_attr(src@, pos as int) == Err::<
                ((Seq<char>, Seq<char>), int),
                ParseError,
            >(e),
        },
{
    match scan_word(src, pos) {
        Err(kind) => Err(ParseError { position: pos, kind }),
        Ok(key_end) => {
            let eq = scan(src, CharClass::Space, key_end);
            if char_is(src, eq, '=') {
                let start = scan(src, CharClass::Space, eq + 1);
                match scan_word(src, start) {
                    Err(ParseErrorKind::UnterminatedString) => Err(
                        ParseError { position: start, kind: ParseErrorKind::UnterminatedString },
                    ),
                    Err(_) => Err(
                        ParseError { position: start, kind: ParseErrorKind::MissingValue },
                    ),
                    Ok(end) => Ok(((src.slice(pos, key_end), src.slice(start, end)), end)),
                }
            } else {
                proof {
                    reveal_strlit("");
                    assert(""@ =~= Seq::<char>::empty());
                }
                Ok(((src.slice(pos, key_end), ""), key_end))
            }
        },
    }
}

/// The attributes between one pair of brackets.
#[derive(Debug, Eq, PartialEq, Clone)]
pub struct AList<'a> {
    /// The attributes in the list.
    pub elems: Vec<(&'a str, &'a str)>,
}

impl<'a> View for AList<'a> {
    type V = Seq<(Seq<char>, Seq<char>)>;

    open spec fn view(&self) -> Seq<(Seq<char>, Seq<char>)> {
        attr_models(self.elems@)
    }
}

impl<'a> AList<'a> {
    /// Reads the attributes that begin at `pos`: `key` or `key=value`, one
    /// after the other, with at most one `,` or `;` behind each. Returns
    /// them in order, and the position at which no further attribute begins.
    pub fn parse(src: &Source<'a>, pos: usize) -> (r: Result<(Self, usize), ParseError>)
        requires
            pos <= src@.len(),
        ensures
            agrees(r, parse_a_list_from(src@, pos as int, Seq::empty())),
            r is Ok ==> pos <= r->Ok_0.1 <= src@.len(),
    {
        let mut elems: Vec<(&'a str, &'a str)> = Vec::new();
        let mut cur = pos;
        let ghost goal = parse_a_list_from(src@, pos as int, Seq::empty());
        assert(attr_models(elems@) =~= Seq::empty());
        loop
            invariant
                pos <= cur <= src@.len(),
                parse_a_list_from(src@, cur as int, attr_models(elems@)) == goal,
                goal == parse_a_list_from(src@, pos as int, Seq::empty()),
            decreases src@.len() - cur,
        {
            if !word_starts(src, cur) {
                return Ok((AList { elems }, cur));
            }
            match read_attr(src, cur) {
                Err(e) => {
                    return Err(e);
                },
                Ok((attr, end)) => {
                    let after = scan(src, CharClass::Space, end);
                    let next = skip_sep(src, after, ',', ';');
                    proof {
                        assert(attr_models(elems@.push(attr)) =~= attr_models(elems@).push(
                            attr_model(attr),
                        ));
                    }
                    elems.push(attr);
                    cur = next;
                },
            }
        }
    }
}

/// The attribute lists of a statement: one list for each pair of brackets.
#[derive(Debug, Eq, PartialEq, Clone)]
pub struct AttrList<'a> {
    /// The list of `AList`s.
    pub elems: Vec<AList<'a>>,
}

impl<'a> View for AttrList<'a> {
    type V = Seq<Seq<(Seq<char>, Seq<char>)>>;

    open spec fn view(&self) -> Seq<Seq<(Seq<char>, Seq<char>)>> {
        self.elems@.map_values(|l: AList<'a>| l@)
    }
}

impl<'a> AttrList<'a> {
    /// Reads the attribute lists that begin with the `[` at `pos`: each is
    /// `[`, attributes and `]`, and the next may follow behind spaces.
    /// Returns them in order, and the position behind the last `]`.
    pub fn parse(src: &Source<'a>, pos: usize) -> (r: Result<(Self, usize), ParseError>)
        requires
            pos <= src@.len(),
        ensures
            agrees(r, parse_attr_list_from(src@, pos as int, Seq::empty())),
            r is Ok ==> pos < r->Ok_0.1 <= src@.len(),
    {
        let mut elems: Vec<AList<'a>> = Vec::new();
        let mut cur = pos;
        let ghost goal = parse_attr_list_from(src@, pos as int, Seq::empty());
        assert(elems@.map_values(|l: AList<'a>| l@) =~= Seq::empty());
        loop
            invariant
                pos <= cur <= src@.len(),
                parse_attr_list_from(src@, cur as int, elems@.map_values(|l: AList<'a>| l@))
                    == goal,
                goal == parse_attr_list_from(src@, pos as int, Seq::empty()),
            decreases src@.len() - cur,
        {
            if !char_is(src, cur, '[') {
                return Err(ParseError { position: cur, kind: ParseErrorKind::MissingCloseBracket });
            }
            let start = scan(src, CharClass::Space, cur + 1);
            match AList::parse(src, start) {
                Err(e) => {
                    return Err(e);
                },
                Ok((a_list, close)) => {
                    if !char_is(src, close, ']') {
                        return Err(
                            ParseError {
                                position: close,
                                kind: ParseErrorKind::MissingCloseBracket,
                            },
                        );
                    }
                    let next = scan(src, CharClass::Space, close + 1);
                    proof {
                        assert(elems@.push(a_list).map_values(|l: AList<'a>| l@)
                            =~= elems@.map_values(|l: AList<'a>| l@).push(a_list@));
                    }
                    elems.push(a_list);
                    if !char_is(src, next, '[') {
                        return Ok((AttrList { elems }, close + 1));
                    }
                    cur = next;
                },
            }
        }
    }
}

/// One step of an edge statement as read.
#[derive(Debug, Eq, PartialEq, Clone)]
pub struct EdgeHop<'a> {
    /// The operator in front of the identifier.
    pub op: EdgeOp,
    /// The identifier that the edge leads to, or comes from.
    pub node_id: &'a str,
}

impl<'a> View for EdgeHop<'a> {
    type V = HopModel;

    open spec fn view(&self) -> HopModel {
        HopModel { op: self.op, node_id: self.node_id@ }
    }
}

/// The model of attribute lists that may be absent.
pub open spec fn attrs_model<'a>(attrs: Option<AttrList<'a>>) -> Option<
    Seq<Seq<(Seq<char>, Seq<char>)>>,
> {
    match attrs {
        Some(lists) => Some(lists@),
        None => None,
    }
}

/// The models of hops.
pub open spec fn hops_model<'a>(hops: Seq<EdgeHop<'a>>) -> Seq<HopModel> {
    hops.map_values(|h: EdgeHop<'a>| h@)
}

/// A statement as read.
#[derive(Debug, Eq, PartialEq, Clone)]
pub enum Stmt<'a> {
    /// The declaration of a node.
    Node { id: &'a str, attrs: Option<AttrList<'a>> },
    /// A chain of edges that starts at `id`.
    Edge { id: &'a str, hops: Vec<EdgeHop<'a>>, attrs: Option<AttrList<'a>> },
}

impl<'a> View for Stmt<'a> {
    type V = StmtModel;

    open spec fn view(&self) -> StmtModel {
        match self {
            Stmt::Node { id, attrs } => StmtModel::Node { id: id@, attrs: attrs_model(*attrs) },
            Stmt::Edge { id, hops, attrs } => StmtModel::Edge {
                id: id@,
                hops: hops_model(hops@),
                attrs: attrs_model(*attrs),
            },
        }
    }
}

/// How many nodes or edges a statement can add: one node, or an edge for
/// each hop.
pub open spec fn stmt_size(stmt: StmtModel) -> nat {
    match stmt {
        StmtModel::Node { .. } => 1,
        StmtModel::Edge { hops, .. } => hops.len(),
    }
}

/// How many nodes and edges the statements can add between them.
pub open spec fn stmts_size(stmts: Seq<StmtModel>) -> nat
    decreases stmts.len(),
{
    if stmts.len() == 0 {
        0
    } else {
        stmts_size(stmts.drop_last()) + stmt_size(stmts.last())
    }
}

/// The hops that begin with the operator at `pos`.
fn read_hops<'a>(src: &Source<'a>, pos: usize) -> (r: Result<(Vec<EdgeHop<'a>>, usize), ParseError>)
    requires
        pos <= src@.len(),
    ensures
        match r {
            Ok((hops, end)) => parse_hops_from(src@, pos as int, Seq::empty()) == Ok::<
                (Seq<HopModel>, int),
                ParseError,
            >((hops_model(hops@), end as int)) && pos < end <= src@.len() && hops.len() <= end
                - pos,
            Err(e) => parse_hops_from(src@, pos as int, Seq::empty()) == Err::<
                (Seq<HopModel>, int),
                ParseError,
            >(e),
        },
{
    let mut hops: Vec<EdgeHop<'a>> = Vec::new();
    let mut cur = pos;
    let ghost goal = parse_hops_from(src@, pos as int, Seq::empty());
    assert(hops_model(hops@) =~= Seq::empty());
    loop
        invariant
            pos <= cur <= src@.len(),
            hops.len() <= cur - pos,
            parse_hops_from(src@, cur as int, hops_model(hops@)) == goal,
            goal == parse_hops_from(src@, pos as int, Seq::empty()),
        decreases src@.len() - cur,
    {
        match scan_edge_op(src, cur) {
            None => {
                return Err(ParseError { position: cur, kind: ParseErrorKind::MissingIdentifier });
            },
            Some((op, len)) => {
                let start = scan(src, CharClass::Space, cur + len);
                match scan_id(src, start) {
                    Err(kind) => {
                        return Err(ParseError { position: start, kind });
                    },
                    Ok(end) => {
                        let hop = EdgeHop { op, node_id: src.slice(start, end) };
                        let next = scan(src, CharClass::Space, end);
                        proof {
                            assert(hops_model(hops@.push(hop)) =~= hops_model(hops@).push(hop@));
                        }
                        hops.push(hop);
                        if scan_edge_op(src, next).is_none() {
                            return Ok((hops, end));
                        }
                        cur = next;
                    },
                }
            },
        }
    }
}

/// The attribute lists at `pos`, if a `[` stands there.
fn read_optional_attrs<'a>(src: &Source<'a>, pos: usize, fallback: usize) -> (r: Result<
    (Option<AttrList<'a>>, usize),
    ParseError,
>)
    requires
        pos <= src@.len(),
        fallback <= pos,
    ensures
        match r {
            Ok((attrs, end)) => parse_optional_attrs(src@, pos as int, fallback as int) == Ok::<
                (Option<Seq<Seq<(Seq<char>, Seq<char>)>>>, int),
                ParseError,
            >((attrs_model(attrs), end as int)) && fallback <= end <= src@.len(),
            Err(e) => parse_optional_attrs(src@, pos as int, fallback as int) == Err::<
                (Option<Seq<Seq<(Seq<char>, Seq<char>)>>>, int),
                ParseError,
            >(e),
        },
{
    if char_is(src, pos, '[') {
        match AttrList::parse(src, pos) {
            Err(e) => Err(e),
            Ok((attrs, end)) => Ok((Some(attrs), end)),
        }
    } else {
        Ok((None, fallback))
    }
}

/// The statement at `pos`.
pub fn read_stmt<'a>(src: &Source<'a>, pos: usize) -> (r: Result<(Stmt<'a>, usize), ParseError>)
    requires
        pos <= src@.len(),
    ensures
        agrees(r, parse_stmt(src@, pos as int)),
        r is Ok ==> pos < r->Ok_0.1 <= src@.len() && stmt_size(r->Ok_0.0@) <= r->Ok_0.1 - pos,
{
    match scan_id(src, pos) {
        Err(kind) => Err(ParseError { position: pos, kind }),
        Ok(id_end) => {
            let id = src.slice(pos, id_end);
            let next = scan(src, CharClass::Space, id_end);
            if scan_edge_op(src, next).is_some() {
                match read_hops(src, next) {
                    Err(e) => Err(e),
                    Ok((hops, hops_end)) => {
                        let after = scan(src, CharClass::Space, hops_end);
                        match read_optional_attrs(src, after, hops_end) {
                            Err(e) => Err(e),
                            Ok((attrs, end)) => Ok((Stmt::Edge { id, hops, attrs }, end)),
                        }
                    },
                }
            } else {
                match read_optional_attrs(src, next, id_end) {
                    Err(e) => Err(e),
                    Ok((attrs, end)) => Ok((Stmt::Node { id, attrs }, end)),
                }
            }
        },
    }
}

/// The models of statements.
pub open spec fn stmts_model<'a>(stmts: Seq<Stmt<'a>>) -> Seq<StmtModel> {
    stmts.map_values(|s: Stmt<'a>| s@)
}

/// The statements from `pos` up to the closing `}`.
fn read_stmts<'a>(src: &Source<'a>, pos: usize) -> (r: Result<(Vec<Stmt<'a>>, usize), ParseError>)
    requires
        pos <= src@.len(),
    ensures
        match r {
            Ok((stmts, end)) => parse_stmts_from(src@, pos as int, Seq::empty()) == Ok::<
                (Seq<StmtModel>, int),
                ParseError,
            >((stmts_model(stmts@), end as int)) && pos < end <= src@.len() && stmts_size(
                stmts_model(stmts@),
            ) <= end - pos,
            Err(e) => parse_stmts_from(src@, pos as int, Seq::empty()) == Err::<
                (Seq<StmtModel>, int),
                ParseError,
            >(e),
        },
{
    let mut stmts: Vec<Stmt<'a>> = Vec::new();
    let mut cur = pos;
    let ghost goal = parse_stmts_from(src@, pos as int, Seq::empty());
    assert(stmts_model(stmts@) =~= Seq::empty());
    loop
        invariant
            pos <= cur <= src@.len(),
            stmts_size(stmts_model(stmts@)) <= cur - pos,
            parse_stmts_from(src@, cur as int, stmts_model(stmts@)) == goal,
            goal == parse_stmts_from(src@, pos as int, Seq::empty()),
        decreases src@.len() - cur,
    {
        if cur >= src.len() {
            return Err(ParseError { position: cur, kind: ParseErrorKind::MissingCloseBrace });
        }
        if src.char_at(cur) == '}' {
            return Ok((stmts, cur + 1));
        }
        match read_stmt(src, cur) {
            Err(e) => {
                return Err(e);
            },
            Ok((stmt, end)) => {
                let after = scan(src, CharClass::Space, end);
                let next = skip_sep(src, after, ';', ';');
                proof {
                    let grown = stmts_model(stmts@.push(stmt));
                    assert(grown =~= stmts_model(stmts@).push(stmt@));
                    assert(grown.drop_last() =~= stmts_model(stmts@));
                }
                stmts.push(stmt);
                cur = next;
            },
        }
    }
}

/// A document as read.
#[derive(Debug, Eq, PartialEq, Clone)]
pub struct Document<'a> {
    /// The document begins with `strict`.
    pub strict: bool,
    /// The graph keyword, as written.
    pub graph_type: &'a str,
    /// The graph keyword asks for directed edges.
    pub directed: bool,
    /// The name of the graph, if it has one.
    pub name: Option<&'a str>,
    /// The statements between the braces, in order.
    pub stmts: Vec<Stmt<'a>>,
}

impl<'a> View for Document<'a> {
    type V = DocumentModel;

    open spec fn view(&self) -> DocumentModel {
        DocumentModel {
            strict: self.strict,
            graph_type: self.graph_type@,
            directed: self.directed,
            name: match self.name {
                Some(n) => Some(n@),
                None => None,
            },
            stmts: stmts_model(self.stmts@),
        }
    }
}

/// Whether `word` names a directed kind of graph, if it names a kind at all.
pub fn graph_kind_of(word: &str) -> (r: Option<bool>)
    ensures
        r == graph_kind(word@),
{
    if str_equal(word, "digraph") || str_equal(word, "dag") {
        Some(true)
    } else if str_equal(word, "graph") || str_equal(word, "mag") || str_equal(word, "pdag")
        || str_equal(word, "pag") {
        Some(false)
    } else {
        None
    }
}

fn scan_keyword(src: &Source, pos: usize) -> (r: usize)
    requires
        pos <= src@.len(),
    ensures
        r == keyword_end(src@, pos as int),
        pos <= r <= src@.len(),
{
    if pos < src.len() {
        let c = src.char_at(pos);
        if ('a' <= c && c <= 'z') || ('A' <= c && c <= 'Z') || c == '_' {
            return scan(src, CharClass::Name, pos + 1);
        }
    }
    pos
}

fn read_graph_name<'a>(src: &Source<'a>, pos: usize) -> (r: Result<
    (Option<&'a str>, usize),
    ParseError,
>)
    requires
        pos <= src@.len(),
    ensures
        match r {
            Ok((name, brace)) => parse_graph_name(src@, pos as int) == Ok::<
                (Option<Seq<char>>, int),
                ParseError,
            >(
                (
                    match name {
                        Some(n) => Some(n@),
                        None => None,
                    },
                    brace as int,
                ),
            ) && pos <= brace < src@.len(),
            Err(e) => parse_graph_name(src@, pos as int) == Err::<
                (Option<Seq<char>>, int),
                ParseError,
            >(e),
        },
{
    if char_is(src, pos, '{') {
        return Ok((None, pos));
    }
    match scan_id(src, pos) {
        Err(ParseErrorKind::UnterminatedString) => Err(
            ParseError { position: pos, kind: ParseErrorKind::UnterminatedString },
        ),
        Err(_) => Err(ParseError { position: pos, kind: ParseErrorKind::MissingOpenBrace }),
        Ok(end) => {
            let brace = scan(src, CharClass::Space, end);
            if char_is(src, brace, '{') {
                Ok((Some(src.slice(pos, end)), brace))
            } else {
                Err(ParseError { position: brace, kind: ParseErrorKind::MissingOpenBrace })
            }
        },
    }
}

impl<'a> Document<'a> {
    /// Reads `src` as a document: the whole text must be one.
    ///
    /// Returns the document that the notation makes of the text, or the
    /// first violation of the notation. A document has no more nodes and
    /// edges to add than its text has characters.
    pub fn parse(src: &Source<'a>) -> (r: Result<Self, ParseError>)
        ensures
            match r {
                Ok(doc) => parse_document(src@) == Ok::<DocumentModel, ParseError>(doc@)
                    && stmts_size(doc@.stmts) <= src@.len(),
                Err(e) => parse_document(src@) == Err::<DocumentModel, ParseError>(e),
            },
    {
        let first = scan(src, CharClass::Space, 0);
        let first_end = scan_keyword(src, first);
        let strict = str_equal(src.slice(first, first_end), "strict");
        let start = if strict {
            scan(src, CharClass::Space, first_end)
        } else {
            first
        };
        let end = scan_keyword(src, start);
        if end == start {
            return Err(ParseError { position: start, kind: ParseErrorKind::MissingGraphType });
        }
        let graph_type = src.slice(start, end);
        let directed = match graph_kind_of(graph_type) {
            None => {
                return Err(
                    ParseError { position: start, kind: ParseErrorKind::UnsupportedGraphType },
                );
            },
            Some(directed) => directed,
        };
        let after = scan(src, CharClass::Space, end);
        let (name, brace) = match read_graph_name(src, after) {
            Err(e) => {
                return Err(e);
            },
            Ok(found) => found,
        };
        let body = scan(src, CharClass::Space, brace + 1);
        let (stmts, close) = match read_stmts(src, body) {
            Err(e) => {
                return Err(e);
            },
            Ok(found) => found,
        };
        let rest = scan(src, CharClass::Space, close);
        if rest != src.len() {
            return Err(ParseError { position: rest, kind: ParseErrorKind::TrailingText });
        }
        proof {
            if strict {
                reveal_strlit("strict");
            }
        }
        Ok(Document { strict, graph_type, directed, name, stmts })
    }
}

} // verus!
