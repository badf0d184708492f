//! Parser: flat token stream to abstract syntax tree.
//!
//! The grammar, informally:
//!
//! ```text
//! Document    := (Ident ',')? ChildItem*
//! ChildItem   := ForLoop | IfChain | Node
//! ForLoop     := 'for' PatTokens 'in' ExprTokens '{' ChildItem* '}'
//! IfChain     := 'if' ExprTokens '{' ChildItem* '}' ('else' (IfChain | '{' ChildItem* '}'))?
//! Node        := '<' Ident ('(' Ident ')')? AttrOrFlag* ('/>' | '>' Body '</' Ident '>')
//! AttrOrFlag  := Ident ('=' ExprTokens)? ','?
//! Body        := ArgumentList | ChildItem*
//! ```
//!
//! Host-language expression fragments (`PatTokens`, `ExprTokens`, arguments)
//! are delimited by scanning to a stopping token at the current delimiter
//! nesting depth; their contents are never interpreted.
//!
//! The whole parser has a functional specification: `p_document` and its
//! helpers are total spec functions that define, for every token sequence,
//! either the resulting tree or the exact error. Each executable parsing
//! function is proved to return precisely what its spec function says.

use vstd::prelude::*;

use crate::token::{Delim, Tok, is_open, is_punct, is_word, str_eq, tok_is_open, tok_is_punct,
    tok_is_word};

verus! {

// ---------------------------------------------------------------------------
// Abstract syntax tree
// ---------------------------------------------------------------------------

/// A parsed document: an optional spawner binding name and the top-level
/// child items in source order.
#[derive(Debug, PartialEq)]
pub struct BtmlInput {
    pub spawner: Option<String>,
    pub nodes: Vec<BtmlChild>,
}

/// One child item: a markup element, a `for` loop, or an `if` chain.
#[derive(Debug, PartialEq)]
pub enum BtmlChild {
    Node(BtmlNode),
    For(BtmlFor),
    If(BtmlIf),
}

/// `for <pat> in <expr> { <body> }` — the pattern and iterable are opaque
/// host-expression token spans.
#[derive(Debug, PartialEq)]
pub struct BtmlFor {
    pub pat: Vec<Tok>,
    pub expr: Vec<Tok>,
    pub body: Vec<BtmlChild>,
}

/// `if <cond> { <then> }` with an optional right-recursive else branch.
#[derive(Debug, PartialEq)]
pub struct BtmlIf {
    pub condition: Vec<Tok>,
    pub then_branch: Vec<BtmlChild>,
    pub else_branch: Option<Box<BtmlElse>>,
}

/// The branch following `else`: either another `if` chain or a plain block.
#[derive(Debug, PartialEq)]
pub enum BtmlElse {
    If(BtmlIf),
    Block(Vec<BtmlChild>),
}

/// A markup element. At most one of `content` and non-empty `children` is
/// populated: an element body is either an expression list or nested items.
#[derive(Debug, PartialEq)]
pub struct BtmlNode {
    pub tag: String,
    pub constructor: Option<String>,
    pub attributes: Vec<BtmlAttr>,
    pub flags: Vec<String>,
    pub children: Vec<BtmlChild>,
    pub content: Option<Content>,
}

/// Element body given as a bare comma-separated expression list.
#[derive(Debug, PartialEq)]
pub enum Content {
    Arguments(Vec<Vec<Tok>>),
}

/// One `key=value` attribute; the value is an opaque host-expression span.
#[derive(Debug, PartialEq)]
pub struct BtmlAttr {
    pub key: String,
    pub value: Vec<Tok>,
}

// ---------------------------------------------------------------------------
// Mathematical model of the tree
// ---------------------------------------------------------------------------

/// Model of `BtmlInput`.
pub ghost struct DocV {
    pub spawner: Option<Seq<char>>,
    pub nodes: Seq<ChildV>,
}

/// Model of `BtmlChild`.
pub ghost enum ChildV {
    Node(NodeV),
    For(ForV),
    If(IfV),
}

/// Model of `BtmlFor`.
pub ghost struct ForV {
    pub pat: Seq<Tok>,
    pub expr: Seq<Tok>,
    pub body: Seq<ChildV>,
}

/// Model of `BtmlIf`.
pub ghost struct IfV {
    pub condition: Seq<Tok>,
    pub then_branch: Seq<ChildV>,
    pub else_branch: Option<Box<ElseV>>,
}

/// Model of `BtmlElse`.
pub ghost enum ElseV {
    If(IfV),
    Block(Seq<ChildV>),
}

/// Model of `BtmlNode`.
pub ghost struct NodeV {
    pub tag: Seq<char>,
    pub constructor: Option<Seq<char>>,
    pub attributes: Seq<AttrV>,
    pub flags: Seq<Seq<char>>,
    pub children: Seq<ChildV>,
    pub content: Option<ContentV>,
}

/// Model of `Content`.
pub ghost enum ContentV {
    Arguments(Seq<Seq<Tok>>),
}

/// Model of `BtmlAttr`.
pub ghost struct AttrV {
    pub key: Seq<char>,
    pub value: Seq<Tok>,
}

/// Model of one attribute.
pub open spec fn attr_dv(a: BtmlAttr) -> AttrV {
    AttrV { key: a.key@, value: a.value@ }
}

/// Model of an attribute list.
pub open spec fn attrs_dv(s: Seq<BtmlAttr>) -> Seq<AttrV> {
    s.map_values(|a: BtmlAttr| attr_dv(a))
}

/// Model of a flag list.
pub open spec fn flags_dv(s: Seq<String>) -> Seq<Seq<char>> {
    s.map_values(|f: String| f@)
}

/// Model of an optional identifier.
pub open spec fn oid_dv(o: Option<String>) -> Option<Seq<char>> {
    match o {
        Some(s) => Some(s@),
        None => None,
    }
}

/// Model of an argument list.
pub open spec fn args_dv(s: Seq<Vec<Tok>>) -> Seq<Seq<Tok>> {
    s.map_values(|v: Vec<Tok>| v@)
}

/// Model of an optional element body content.
pub open spec fn content_dv(o: Option<Content>) -> Option<ContentV> {
    match o {
        Some(Content::Arguments(a)) => Some(ContentV::Arguments(args_dv(a@))),
        None => None,
    }
}

/// Model of one child item.
pub open spec fn child_dv(c: BtmlChild) -> ChildV
    decreases c,
{
    match c {
        BtmlChild::Node(n) => ChildV::Node(node_dv(n)),
        BtmlChild::For(f) => ChildV::For(
            ForV { pat: f.pat@, expr: f.expr@, body: children_dv(f.body@) },
        ),
        BtmlChild::If(i) => ChildV::If(if_dv(i)),
    }
}

/// Model of a child-item list.
pub open spec fn children_dv(s: Seq<BtmlChild>) -> Seq<ChildV>
    decreases s,
{
    if s.len() == 0 {
        Seq::empty()
    } else {
        seq![child_dv(s[0])] + children_dv(s.drop_first())
    }
}

/// Model of a node.
pub open spec fn node_dv(n: BtmlNode) -> NodeV
    decreases n,
{
    NodeV {
        tag: n.tag@,
        constructor: oid_dv(n.constructor),
        attributes: attrs_dv(n.attributes@),
        flags: flags_dv(n.flags@),
        children: children_dv(n.children@),
        content: content_dv(n.content),
    }
}

/// Model of an if chain.
pub open spec fn if_dv(i: BtmlIf) -> IfV
    decreases i,
{
    IfV {
        condition: i.condition@,
        then_branch: children_dv(i.then_branch@),
        else_branch: match i.else_branch {
            None => None,
            Some(b) => Some(Box::new(else_dv(*b))),
        },
    }
}

/// Model of an else branch.
pub open spec fn else_dv(e: BtmlElse) -> ElseV
    decreases e,
{
    match e {
        BtmlElse::If(i) => ElseV::If(if_dv(i)),
        BtmlElse::Block(b) => ElseV::Block(children_dv(b@)),
    }
}

/// Model of a document.
pub open spec fn input_dv(d: BtmlInput) -> DocV {
    DocV { spawner: oid_dv(d.spawner), nodes: children_dv(d.nodes@) }
}

// ---------------------------------------------------------------------------
// Errors
// ---------------------------------------------------------------------------

/// What the parser was looking for when it met the wrong token or the end of
/// the input.
#[derive(Clone, Copy, PartialEq, Eq, Structural, Debug)]
pub enum Wanted {
    /// an opening `<`
    Lt,
    /// a closing `>`
    Gt,
    /// the `/` of a closing tag
    Slash,
    /// an identifier
    Ident,
    /// the `in` keyword of a `for` loop
    KwIn,
    /// the `if` keyword
    KwIf,
    /// a `{`
    OpenBrace,
    /// a `}`
    CloseBrace,
    /// a `)`
    CloseParen,
}

/// A terminal parse failure. `at` is the index of the offending token
/// (the input length when the input ended too early).
#[derive(Debug, PartialEq)]
pub enum ParseError {
    /// the token at `at` is not what the grammar requires there
    Expected { at: usize, what: Wanted },
    /// `key=` immediately followed by a delimiter
    EmptyValue { at: usize },
    /// a `for` loop whose pattern has no tokens before `in`
    EmptyPattern { at: usize },
    /// a `for` iterable or `if` condition with no tokens before `{`
    EmptyExpr { at: usize },
    /// an expression list with an empty element
    EmptyArgument { at: usize },
    /// expression content and nested items mixed in one element body
    MixedBody { at: usize },
    /// closing tag identifier differs from the opening tag identifier
    TagMismatch { at: usize, expected: String, found: String },
}

/// Model of `ParseError`.
pub ghost enum PErrV {
    Expected { at: int, what: Wanted },
    EmptyValue { at: int },
    EmptyPattern { at: int },
    EmptyExpr { at: int },
    EmptyArgument { at: int },
    MixedBody { at: int },
    TagMismatch { at: int, expected: Seq<char>, found: Seq<char> },
}

impl View for ParseError {
    type V = PErrV;

    open spec fn view(&self) -> PErrV {
        match *self {
            ParseError::Expected { at, what } => PErrV::Expected { at: at as int, what },
            ParseError::EmptyValue { at } => PErrV::EmptyValue { at: at as int },
            ParseError::EmptyPattern { at } => PErrV::EmptyPattern { at: at as int },
            ParseError::EmptyExpr { at } => PErrV::EmptyExpr { at: at as int },
            ParseError::EmptyArgument { at } => PErrV::EmptyArgument { at: at as int },
            ParseError::MixedBody { at } => PErrV::MixedBody { at: at as int },
            ParseError::TagMismatch { at, expected, found } => PErrV::TagMismatch {
                at: at as int,
                expected: expected@,
                found: found@,
            },
        }
    }
}

/// Outcome of one specification-level parsing step: the parsed value and the
/// index of the first unconsumed token, or the error.
pub ghost enum PStep<T> {
    Done(T, int),
    Fail(PErrV),
}

// ---------------------------------------------------------------------------
// Span scanning
// ---------------------------------------------------------------------------

/// Which token ends a scanned expression span (at nesting depth zero).
#[derive(Clone, Copy, PartialEq, Eq, Structural, Debug)]
pub enum ScanStop {
    /// `,`, `>` or `/` — ends an attribute value
    AttrDelim,
    /// the `in` keyword — ends a `for` pattern
    KwIn,
    /// `{` — ends a `for` iterable or `if` condition
    BlockOpen,
    /// `<`, `for` or `if` — ends expression-list content
    ChildStart,
    /// `,` — separates expression-list arguments
    Comma,
}

/// Whether `t` is a stopping token for the scan kind `stop`.
pub open spec fn stop_here(t: Tok, stop: ScanStop) -> bool {
    match stop {
        ScanStop::AttrDelim => is_punct(t, ',') || is_punct(t, '>') || is_punct(t, '/'),
        ScanStop::KwIn => is_word(t, "in"@),
        ScanStop::BlockOpen => is_open(t, Delim::Brace),
        ScanStop::ChildStart => is_punct(t, '<') || is_word(t, "for"@) || is_word(t, "if"@),
        ScanStop::Comma => is_punct(t, ','),
    }
}

/// How `t` changes the delimiter nesting depth.
pub open spec fn depth_step(t: Tok) -> int {
    match t {
        Tok::Open(_) => 1,
        Tok::Close(_) => -1,
        _ => 0,
    }
}

/// The index at which a span scan started at `pos` with nesting depth
/// `depth` ends: the first index before `lim` holding, at depth zero, a
/// stopping token or any closing delimiter. The scan runs to `lim` if no
/// such token occurs.
pub open spec fn scan_end(toks: Seq<Tok>, pos: int, depth: int, stop: ScanStop, lim: int) -> int
    decreases lim - pos,
{
    if !(0 <= pos < lim && pos < toks.len()) {
        pos
    } else if depth <= 0 && (stop_here(toks[pos], stop) || toks[pos] is Close) {
        pos
    } else {
        scan_end(toks, pos + 1, depth + depth_step(toks[pos]), stop, lim)
    }
}

/// Clamps a computed position into `[lo, toks.len()]`; the identity on every
/// position the executable parser actually produces, present so that the
/// specification functions are well-founded by construction.
pub open spec fn clamp_pos(toks: Seq<Tok>, lo: int, e: int) -> int {
    if lo <= e <= toks.len() {
        e
    } else {
        lo
    }
}

/// Scans a host-expression span starting at `pos` with nesting depth
/// `depth`, returning the span and the index of the token that ended it.
/// The scan never runs past `lim`.
fn scan_span(toks: &Vec<Tok>, pos: usize, depth: usize, stop: ScanStop, lim: usize) -> (r: (
    Vec<Tok>,
    usize,
))
    requires
        pos <= lim <= toks@.len(),
        depth <= pos,
    ensures
        r.1 == scan_end(toks@, pos as int, depth as int, stop, lim as int),
        r.0@ == toks@.subrange(pos as int, r.1 as int),
        pos <= r.1 <= lim,
    decreases lim - pos,
{
    if pos >= lim {
        let v: Vec<Tok> = Vec::new();
        assert(v@ =~= toks@.subrange(pos as int, pos as int));
        return (v, pos);
    }
    let t = &toks[pos];
    let stops_now = match stop {
        ScanStop::AttrDelim => tok_is_punct(t, ',') || tok_is_punct(t, '>') || tok_is_punct(
            t,
            '/',
        ),
        ScanStop::KwIn => tok_is_word(t, "in"),
        ScanStop::BlockOpen => tok_is_open(t, Delim::Brace),
        ScanStop::ChildStart => tok_is_punct(t, '<') || tok_is_word(t, "for") || tok_is_word(
            t,
            "if",
        ),
        ScanStop::Comma => tok_is_punct(t, ','),
    };
    let closes = match t {
        Tok::Close(_) => true,
        _ => false,
    };
    if depth == 0 && (stops_now || closes) {
        let v: Vec<Tok> = Vec::new();
        assert(v@ =~= toks@.subrange(pos as int, pos as int));
        return (v, pos);
    }
    let d2: usize = match t {
        Tok::Open(_) => depth + 1,
        Tok::Close(_) => depth - 1,
        _ => depth,
    };
    let piece = t.clone();
    let (mut rest, e) = scan_span(toks, pos + 1, d2, stop, lim);
    rest.insert(0, piece);
    assert(rest@ =~= toks@.subrange(pos as int, e as int));
    (rest, e)
}

} // verus!

verus! {

// ---------------------------------------------------------------------------
// The specification parser
// ---------------------------------------------------------------------------
//
// Total functions from a token sequence and a position to the parsed value
// and the next position, or the exact error. Positions produced by nested
// parses are passed through `clamp_pos`, which the executable parser proves
// to be the identity; it only makes well-foundedness evident to the
// termination checker.

/// How a child-item list ends.
#[derive(Clone, Copy, PartialEq, Eq, Structural, Debug)]
pub enum ItemsEnd {
    /// at the end of the input (top level of a document)
    AtEof,
    /// at the `}` of a `for`/`if`/`else` block
    AtCloseBrace,
    /// at the first token that cannot start a child item (an element body)
    AtNonChild,
}

/// Whether the token at `pos` starts a child item: an opening tag (a `<` not
/// followed by `/`), `for`, or `if`.
pub open spec fn child_start_nc(toks: Seq<Tok>, pos: int) -> bool {
    0 <= pos < toks.len() && ((is_punct(toks[pos], '<') && !(pos + 1 < toks.len() && is_punct(
        toks[pos + 1],
        '/',
    ))) || is_word(toks[pos], "for"@) || is_word(toks[pos], "if"@))
}

/// Splits the region `[pos, lim)` into expression spans separated by
/// top-level commas. A trailing comma is allowed; an empty span is an error.
pub open spec fn split_args(toks: Seq<Tok>, pos: int, lim: int) -> PStep<Seq<Seq<Tok>>>
    decreases lim - pos,
{
    if !(0 <= pos < lim && lim <= toks.len()) {
        PStep::Done(Seq::empty(), lim)
    } else {
        let e0 = scan_end(toks, pos, 0, ScanStop::Comma, lim);
        let e = if pos <= e0 <= lim {
            e0
        } else {
            pos
        };
        if e == pos {
            PStep::Fail(PErrV::EmptyArgument { at: pos })
        } else {
            let seg = toks.subrange(pos, e);
            if e >= lim {
                PStep::Done(seq![seg], lim)
            } else if is_punct(toks[e], ',') {
                match split_args(toks, e + 1, lim) {
                    PStep::Fail(er) => PStep::Fail(er),
                    PStep::Done(rest, _) => PStep::Done(seq![seg] + rest, lim),
                }
            } else {
                PStep::Done(seq![seg], e)
            }
        }
    }
}

/// Parses the attribute/flag list of an element head, up to the `>` or `/`
/// that ends it. Returns the attributes and the flags in source order.
pub open spec fn p_attrs(toks: Seq<Tok>, pos: int) -> PStep<(Seq<AttrV>, Seq<Seq<char>>)>
    decreases toks.len() - pos,
{
    if !(0 <= pos < toks.len()) {
        PStep::Fail(PErrV::Expected { at: pos, what: Wanted::Ident })
    } else if is_punct(toks[pos], '>') || is_punct(toks[pos], '/') {
        PStep::Done((Seq::empty(), Seq::empty()), pos)
    } else if !(toks[pos] is Ident) {
        PStep::Fail(PErrV::Expected { at: pos, what: Wanted::Ident })
    } else {
        let key = toks[pos]->Ident_0@;
        if pos + 1 < toks.len() && is_punct(toks[pos + 1], '=') {
            let ve = clamp_pos(
                toks,
                pos + 2,
                scan_end(toks, pos + 2, 0, ScanStop::AttrDelim, toks.len() as int),
            );
            if ve == pos + 2 {
                PStep::Fail(PErrV::EmptyValue { at: pos + 2 })
            } else {
                let after = if ve < toks.len() && is_punct(toks[ve], ',') {
                    ve + 1
                } else {
                    ve
                };
                match p_attrs(toks, after) {
                    PStep::Fail(er) => PStep::Fail(er),
                    PStep::Done((attrs, flags), p2) => PStep::Done(
                        (seq![AttrV { key, value: toks.subrange(pos + 2, ve) }] + attrs, flags),
                        p2,
                    ),
                }
            }
        } else {
            let after = if pos + 1 < toks.len() && is_punct(toks[pos + 1], ',') {
                pos + 2
            } else {
                pos + 1
            };
            match p_attrs(toks, after) {
                PStep::Fail(er) => PStep::Fail(er),
                PStep::Done((attrs, flags), p2) => PStep::Done((attrs, seq![key] + flags), p2),
            }
        }
    }
}

/// Parses the closing tag `</` ident `>` of a non-self-closing element and
/// builds the node. The closing identifier must equal the opening tag.
pub open spec fn p_close(
    toks: Seq<Tok>,
    pos: int,
    tag: Seq<char>,
    constructor: Option<Seq<char>>,
    attributes: Seq<AttrV>,
    flags: Seq<Seq<char>>,
    content: Option<ContentV>,
    kids: Seq<ChildV>,
) -> PStep<NodeV> {
    if !(0 <= pos < toks.len() && is_punct(toks[pos], '<')) {
        PStep::Fail(PErrV::Expected { at: pos, what: Wanted::Lt })
    } else if !(pos + 1 < toks.len() && is_punct(toks[pos + 1], '/')) {
        PStep::Fail(PErrV::Expected { at: pos + 1, what: Wanted::Slash })
    } else if !(pos + 2 < toks.len() && toks[pos + 2] is Ident) {
        PStep::Fail(PErrV::Expected { at: pos + 2, what: Wanted::Ident })
    } else {
        let closing = toks[pos + 2]->Ident_0@;
        if closing != tag {
            PStep::Fail(PErrV::TagMismatch { at: pos + 2, expected: tag, found: closing })
        } else if !(pos + 3 < toks.len() && is_punct(toks[pos + 3], '>')) {
            PStep::Fail(PErrV::Expected { at: pos + 3, what: Wanted::Gt })
        } else {
            PStep::Done(
                NodeV { tag, constructor, attributes, flags, children: kids, content },
                pos + 4,
            )
        }
    }
}

/// Parses a child-item list that ends as `mode` says.
pub open spec fn p_items(toks: Seq<Tok>, pos: int, mode: ItemsEnd) -> PStep<Seq<ChildV>>
    decreases toks.len() - pos, 3int,
{
    if !(0 <= pos < toks.len()) {
        if mode is AtCloseBrace {
            PStep::Fail(PErrV::Expected { at: pos, what: Wanted::CloseBrace })
        } else {
            PStep::Done(Seq::empty(), pos)
        }
    } else if mode is AtCloseBrace && toks[pos] matches Tok::Close(Delim::Brace) {
        PStep::Done(Seq::empty(), pos)
    } else if mode is AtNonChild && !child_start_nc(toks, pos) {
        PStep::Done(Seq::empty(), pos)
    } else {
        match p_child(toks, pos) {
            PStep::Fail(er) => PStep::Fail(er),
            PStep::Done(c, p2) => {
                let np = clamp_pos(toks, pos + 1, p2);
                match p_items(toks, np, mode) {
                    PStep::Fail(er) => PStep::Fail(er),
                    PStep::Done(rest, p3) => PStep::Done(seq![c] + rest, p3),
                }
            },
        }
    }
}

/// Parses one child item: a `for` loop, an `if` chain, or an element.
pub open spec fn p_child(toks: Seq<Tok>, pos: int) -> PStep<ChildV>
    decreases toks.len() - pos, 2int,
{
    if !(0 <= pos < toks.len()) {
        PStep::Fail(PErrV::Expected { at: pos, what: Wanted::Lt })
    } else if is_word(toks[pos], "for"@) {
        let pe = clamp_pos(
            toks,
            pos + 1,
            scan_end(toks, pos + 1, 0, ScanStop::KwIn, toks.len() as int),
        );
        if pe == pos + 1 {
            PStep::Fail(PErrV::EmptyPattern { at: pos + 1 })
        } else if !(pe < toks.len() && is_word(toks[pe], "in"@)) {
            PStep::Fail(PErrV::Expected { at: pe, what: Wanted::KwIn })
        } else {
            let ee = clamp_pos(
                toks,
                pe + 1,
                scan_end(toks, pe + 1, 0, ScanStop::BlockOpen, toks.len() as int),
            );
            if ee == pe + 1 {
                PStep::Fail(PErrV::EmptyExpr { at: pe + 1 })
            } else if !(ee < toks.len() && is_open(toks[ee], Delim::Brace)) {
                PStep::Fail(PErrV::Expected { at: ee, what: Wanted::OpenBrace })
            } else {
                match p_items(toks, ee + 1, ItemsEnd::AtCloseBrace) {
                    PStep::Fail(er) => PStep::Fail(er),
                    PStep::Done(body, p3) => PStep::Done(
                        ChildV::For(
                            ForV {
                                pat: toks.subrange(pos + 1, pe),
                                expr: toks.subrange(pe + 1, ee),
                                body,
                            },
                        ),
                        p3 + 1,
                    ),
                }
            }
        }
    } else if is_word(toks[pos], "if"@) {
        match p_if(toks, pos) {
            PStep::Fail(er) => PStep::Fail(er),
            PStep::Done(i, p2) => PStep::Done(ChildV::If(i), p2),
        }
    } else {
        match p_node(toks, pos) {
            PStep::Fail(er) => PStep::Fail(er),
            PStep::Done(n, p2) => PStep::Done(ChildV::Node(n), p2),
        }
    }
}

/// Parses an `if` chain starting at its `if` keyword.
pub open spec fn p_if(toks: Seq<Tok>, pos: int) -> PStep<IfV>
    decreases toks.len() - pos, 1int,
{
    if !(0 <= pos < toks.len() && is_word(toks[pos], "if"@)) {
        PStep::Fail(PErrV::Expected { at: pos, what: Wanted::KwIf })
    } else {
        let ce = clamp_pos(
            toks,
            pos + 1,
            scan_end(toks, pos + 1, 0, ScanStop::BlockOpen, toks.len() as int),
        );
        if ce == pos + 1 {
            PStep::Fail(PErrV::EmptyExpr { at: pos + 1 })
        } else if !(ce < toks.len() && is_open(toks[ce], Delim::Brace)) {
            PStep::Fail(PErrV::Expected { at: ce, what: Wanted::OpenBrace })
        } else {
            match p_items(toks, ce + 1, ItemsEnd::AtCloseBrace) {
                PStep::Fail(er) => PStep::Fail(er),
                PStep::Done(then_items, p3) => {
                    let cond = toks.subrange(pos + 1, ce);
                    let p4 = clamp_pos(toks, ce + 2, p3 + 1);
                    if !(p4 < toks.len() && is_word(toks[p4], "else"@)) {
                        PStep::Done(
                            IfV { condition: cond, then_branch: then_items, else_branch: None },
                            p3 + 1,
                        )
                    } else {
                        let p5 = p4 + 1;
                        if p5 < toks.len() && is_word(toks[p5], "if"@) {
                            match p_if(toks, p5) {
                                PStep::Fail(er) => PStep::Fail(er),
                                PStep::Done(ei, p6) => PStep::Done(
                                    IfV {
                                        condition: cond,
                                        then_branch: then_items,
                                        else_branch: Some(Box::new(ElseV::If(ei))),
                                    },
                                    p6,
                                ),
                            }
                        } else if p5 < toks.len() && toks[p5] matches Tok::Open(Delim::Brace) {
                            match p_items(toks, p5 + 1, ItemsEnd::AtCloseBrace) {
                                PStep::Fail(er) => PStep::Fail(er),
                                PStep::Done(eb, p7) => PStep::Done(
                                    IfV {
                                        condition: cond,
                                        then_branch: then_items,
                                        else_branch: Some(Box::new(ElseV::Block(eb))),
                                    },
                                    p7 + 1,
                                ),
                            }
                        } else {
                            PStep::Fail(PErrV::Expected { at: p5, what: Wanted::OpenBrace })
                        }
                    }
                },
            }
        }
    }
}

/// Parses an element starting at its `<`.
pub open spec fn p_node(toks: Seq<Tok>, pos: int) -> PStep<NodeV>
    decreases toks.len() - pos, 1int,
{
    if !(0 <= pos < toks.len() && is_punct(toks[pos], '<')) {
        PStep::Fail(PErrV::Expected { at: pos, what: Wanted::Lt })
    } else if !(pos + 1 < toks.len() && toks[pos + 1] is Ident) {
        PStep::Fail(PErrV::Expected { at: pos + 1, what: Wanted::Ident })
    } else {
        let tag = toks[pos + 1]->Ident_0@;
        if pos + 2 < toks.len() && toks[pos + 2] matches Tok::Open(Delim::Paren) {
            if !(pos + 3 < toks.len() && toks[pos + 3] is Ident) {
                PStep::Fail(PErrV::Expected { at: pos + 3, what: Wanted::Ident })
            } else if !(pos + 4 < toks.len() && toks[pos + 4] matches Tok::Close(Delim::Paren)) {
                PStep::Fail(PErrV::Expected { at: pos + 4, what: Wanted::CloseParen })
            } else {
                p_after_head(toks, pos + 5, tag, Some(toks[pos + 3]->Ident_0@))
            }
        } else {
            p_after_head(toks, pos + 2, tag, None)
        }
    }
}

/// Parses everything after an element's tag (and optional constructor):
/// attributes and flags, then the self-closing `/>` or the `>` body `</` tag
/// `>` form.
pub open spec fn p_after_head(
    toks: Seq<Tok>,
    pos: int,
    tag: Seq<char>,
    ctor: Option<Seq<char>>,
) -> PStep<NodeV>
    decreases toks.len() - pos, 4int,
{
    match p_attrs(toks, pos) {
        PStep::Fail(er) => PStep::Fail(er),
        PStep::Done((attrs, flags), q0) => {
            let q = clamp_pos(toks, pos, q0);
            if q < toks.len() && is_punct(toks[q], '/') {
                if q + 1 < toks.len() && is_punct(toks[q + 1], '>') {
                    PStep::Done(
                        NodeV {
                            tag,
                            constructor: ctor,
                            attributes: attrs,
                            flags,
                            children: Seq::empty(),
                            content: None,
                        },
                        q + 2,
                    )
                } else {
                    PStep::Fail(PErrV::Expected { at: q + 1, what: Wanted::Gt })
                }
            } else if q < toks.len() && is_punct(toks[q], '>') {
                p_body(toks, q + 1, tag, ctor, attrs, flags)
            } else {
                PStep::Fail(PErrV::Expected { at: q, what: Wanted::Gt })
            }
        },
    }
}

/// Parses a non-self-closing element body and its closing tag: either
/// expression-list content or nested child items, never both.
pub open spec fn p_body(
    toks: Seq<Tok>,
    pos: int,
    tag: Seq<char>,
    ctor: Option<Seq<char>>,
    attrs: Seq<AttrV>,
    flags: Seq<Seq<char>>,
) -> PStep<NodeV>
    decreases toks.len() - pos, 5int,
{
    if !(0 <= pos < toks.len()) {
        PStep::Fail(PErrV::Expected { at: pos, what: Wanted::Lt })
    } else if !stop_here(toks[pos], ScanStop::ChildStart) {
        let ce = clamp_pos(
            toks,
            pos,
            scan_end(toks, pos, 0, ScanStop::ChildStart, toks.len() as int),
        );
        if ce == pos {
            p_close(toks, pos, tag, ctor, attrs, flags, None, Seq::empty())
        } else {
            match split_args(toks, pos, ce) {
                PStep::Fail(er) => PStep::Fail(er),
                PStep::Done(args, _) => {
                    if child_start_nc(toks, ce) {
                        PStep::Fail(PErrV::MixedBody { at: ce })
                    } else {
                        p_close(
                            toks,
                            ce,
                            tag,
                            ctor,
                            attrs,
                            flags,
                            Some(ContentV::Arguments(args)),
                            Seq::empty(),
                        )
                    }
                },
            }
        }
    } else {
        match p_items(toks, pos, ItemsEnd::AtNonChild) {
            PStep::Fail(er) => PStep::Fail(er),
            PStep::Done(kids, p2) => {
                let q = clamp_pos(toks, pos, p2);
                p_close(toks, q, tag, ctor, attrs, flags, None, kids)
            },
        }
    }
}

/// Identifiers that cannot name the spawner binding because they are grammar
/// keywords.
pub open spec fn is_reserved_word(t: Tok) -> bool {
    is_word(t, "for"@) || is_word(t, "if"@) || is_word(t, "else"@) || is_word(t, "in"@)
}

/// Whether the document begins with a spawner binding: a non-keyword
/// identifier immediately followed by a comma.
pub open spec fn has_spawner(toks: Seq<Tok>) -> bool {
    toks.len() >= 2 && toks[0] is Ident && !is_reserved_word(toks[0]) && is_punct(toks[1], ',')
}

/// Parses a whole document: the optional spawner binding, then child items
/// up to the end of the input.
pub open spec fn p_document(toks: Seq<Tok>) -> Result<DocV, PErrV> {
    let start: int = if has_spawner(toks) {
        2
    } else {
        0
    };
    let spawner = if has_spawner(toks) {
        Some(toks[0]->Ident_0@)
    } else {
        None::<Seq<char>>
    };
    match p_items(toks, start, ItemsEnd::AtEof) {
        PStep::Fail(er) => Err(er),
        PStep::Done(items, _) => Ok(DocV { spawner, nodes: items }),
    }
}

} // verus!

verus! {

// ---------------------------------------------------------------------------
// The executable parser
// ---------------------------------------------------------------------------

/// Whether the token at `pos` starts a child item, executably.
fn is_child_start(toks: &Vec<Tok>, pos: usize) -> (r: bool)
    requires
        pos <= toks@.len(),
    ensures
        r == child_start_nc(toks@, pos as int),
{
    if pos >= toks.len() {
        return false;
    }
    let t = &toks[pos];
    if tok_is_word(t, "for") || tok_is_word(t, "if") {
        return true;
    }
    if tok_is_punct(t, '<') {
        if pos + 1 < toks.len() && tok_is_punct(&toks[pos + 1], '/') {
            false
        } else {
            true
        }
    } else {
        false
    }
}

/// Splits the region `[pos, lim)` into comma-separated argument spans.
fn parse_args(toks: &Vec<Tok>, pos: usize, lim: usize) -> (r: Result<Vec<Vec<Tok>>, ParseError>)
    requires
        pos <= lim <= toks@.len(),
    ensures
        match r {
            Ok(v) => split_args(toks@, pos as int, lim as int) matches PStep::Done(a, _) && a
                == args_dv(v@),
            Err(e) => split_args(toks@, pos as int, lim as int) matches PStep::Fail(ev) && ev
                == e@,
        },
    decreases lim - pos,
{
    if pos >= lim {
        let v: Vec<Vec<Tok>> = Vec::new();
        assert(args_dv(v@) =~= Seq::<Seq<Tok>>::empty());
        return Ok(v);
    }
    let (seg, e) = scan_span(toks, pos, 0, ScanStop::Comma, lim);
    if e == pos {
        return Err(ParseError::EmptyArgument { at: pos });
    }
    if e >= lim {
        let mut v: Vec<Vec<Tok>> = Vec::new();
        v.push(seg);
        assert(args_dv(v@) =~= seq![toks@.subrange(pos as int, e as int)]);
        return Ok(v);
    }
    if tok_is_punct(&toks[e], ',') {
        match parse_args(toks, e + 1, lim) {
            Err(e2) => Err(e2),
            Ok(mut rest) => {
                let ghost old_rest = rest@;
                rest.insert(0, seg);
                assert(args_dv(rest@) =~= seq![toks@.subrange(pos as int, e as int)] + args_dv(
                    old_rest,
                ));
                Ok(rest)
            },
        }
    } else {
        let mut v: Vec<Vec<Tok>> = Vec::new();
        v.push(seg);
        assert(args_dv(v@) =~= seq![toks@.subrange(pos as int, e as int)]);
        Ok(v)
    }
}

/// Parses the attribute/flag list of an element head. On success the
/// returned position holds the `>` or `/` that ended the list.
fn parse_attrs(toks: &Vec<Tok>, pos: usize) -> (r: Result<
    (Vec<BtmlAttr>, Vec<String>, usize),
    ParseError,
>)
    requires
        pos <= toks@.len(),
    ensures
        match r {
            Ok((attrs, flags, q)) => p_attrs(toks@, pos as int) matches PStep::Done(af, np)
                && af.0 == attrs_dv(attrs@) && af.1 == flags_dv(flags@) && np == q as int && pos
                <= q < toks@.len() && (is_punct(toks@[q as int], '>') || is_punct(
                toks@[q as int],
                '/',
            )),
            Err(e) => p_attrs(toks@, pos as int) matches PStep::Fail(ev) && ev == e@,
        },
    decreases toks@.len() - pos,
{
    if pos >= toks.len() {
        return Err(ParseError::Expected { at: pos, what: Wanted::Ident });
    }
    let t = &toks[pos];
    if tok_is_punct(t, '>') || tok_is_punct(t, '/') {
        let attrs: Vec<BtmlAttr> = Vec::new();
        let flags: Vec<String> = Vec::new();
        assert(attrs_dv(attrs@) =~= Seq::<AttrV>::empty());
        assert(flags_dv(flags@) =~= Seq::<Seq<char>>::empty());
        return Ok((attrs, flags, pos));
    }
    let key: String = match t {
        Tok::Ident(s) => s.clone(),
        _ => {
            return Err(ParseError::Expected { at: pos, what: Wanted::Ident });
        },
    };
    if pos + 1 < toks.len() && tok_is_punct(&toks[pos + 1], '=') {
        let (val, ve) = scan_span(toks, pos + 2, 0, ScanStop::AttrDelim, toks.len());
        if ve == pos + 2 {
            return Err(ParseError::EmptyValue { at: pos + 2 });
        }
        let after: usize = if ve < toks.len() && tok_is_punct(&toks[ve], ',') {
            ve + 1
        } else {
            ve
        };
        match parse_attrs(toks, after) {
            Err(e) => Err(e),
            Ok((mut attrs, flags, q)) => {
                let ghost old_attrs = attrs@;
                attrs.insert(0, BtmlAttr { key, value: val });
                assert(attrs_dv(attrs@) =~= seq![
                    AttrV {
                        key: toks@[pos as int]->Ident_0@,
                        value: toks@.subrange(pos + 2 as int, ve as int),
                    },
                ] + attrs_dv(old_attrs));
                Ok((attrs, flags, q))
            },
        }
    } else {
        let after: usize = if pos + 1 < toks.len() && tok_is_punct(&toks[pos + 1], ',') {
            pos + 2
        } else {
            pos + 1
        };
        match parse_attrs(toks, after) {
            Err(e) => Err(e),
            Ok((attrs, mut flags, q)) => {
                let ghost old_flags = flags@;
                flags.insert(0, key);
                assert(flags_dv(flags@) =~= seq![toks@[pos as int]->Ident_0@] + flags_dv(
                    old_flags,
                ));
                Ok((attrs, flags, q))
            },
        }
    }
}

/// Parses the closing tag of a non-self-closing element and builds the node.
fn parse_close(
    toks: &Vec<Tok>,
    pos: usize,
    tag: String,
    constructor: Option<String>,
    attributes: Vec<BtmlAttr>,
    flags: Vec<String>,
    content: Option<Content>,
    kids: Vec<BtmlChild>,
) -> (r: Result<(BtmlNode, usize), ParseError>)
    requires
        pos <= toks@.len(),
    ensures
        match r {
            Ok((n, p2)) => p_close(
                toks@,
                pos as int,
                tag@,
                oid_dv(constructor),
                attrs_dv(attributes@),
                flags_dv(flags@),
                content_dv(content),
                children_dv(kids@),
            ) matches PStep::Done(nv, np) && nv == node_dv(n) && np == p2 as int && pos < p2
                <= toks@.len(),
            Err(e) => p_close(
                toks@,
                pos as int,
                tag@,
                oid_dv(constructor),
                attrs_dv(attributes@),
                flags_dv(flags@),
                content_dv(content),
                children_dv(kids@),
            ) matches PStep::Fail(ev) && ev == e@,
        },
{
    if pos >= toks.len() || !tok_is_punct(&toks[pos], '<') {
        return Err(ParseError::Expected { at: pos, what: Wanted::Lt });
    }
    if pos + 1 >= toks.len() || !tok_is_punct(&toks[pos + 1], '/') {
        return Err(ParseError::Expected { at: pos + 1, what: Wanted::Slash });
    }
    if pos + 2 >= toks.len() {
        return Err(ParseError::Expected { at: pos + 2, what: Wanted::Ident });
    }
    let closing: &String = match &toks[pos + 2] {
        Tok::Ident(s) => s,
        _ => {
            return Err(ParseError::Expected { at: pos + 2, what: Wanted::Ident });
        },
    };
    if !str_eq(closing, tag.as_str()) {
        return Err(ParseError::TagMismatch { at: pos + 2, expected: tag, found: closing.clone() });
    }
    if pos + 3 >= toks.len() || !tok_is_punct(&toks[pos + 3], '>') {
        return Err(ParseError::Expected { at: pos + 3, what: Wanted::Gt });
    }
    Ok((BtmlNode { tag, constructor, attributes, flags, children: kids, content }, pos + 4))
}

/// Parses a child-item list that ends as `mode` says.
fn parse_items(toks: &Vec<Tok>, pos: usize, mode: ItemsEnd) -> (r: Result<
    (Vec<BtmlChild>, usize),
    ParseError,
>)
    requires
        pos <= toks@.len(),
    ensures
        match r {
            Ok((items, p2)) => p_items(toks@, pos as int, mode) matches PStep::Done(s, np) && s
                == children_dv(items@) && np == p2 as int && pos <= p2 <= toks@.len() && (
            mode is AtCloseBrace ==> p2 < toks@.len() && toks@[p2 as int] matches Tok::Close(
                Delim::Brace,
            )),
            Err(e) => p_items(toks@, pos as int, mode) matches PStep::Fail(ev) && ev == e@,
        },
    decreases toks@.len() - pos, 3int,
{
    if pos >= toks.len() {
        if mode == ItemsEnd::AtCloseBrace {
            return Err(ParseError::Expected { at: pos, what: Wanted::CloseBrace });
        }
        let items: Vec<BtmlChild> = Vec::new();
        assert(children_dv(items@) =~= Seq::<ChildV>::empty());
        return Ok((items, pos));
    }
    let stop_now: bool = match mode {
        ItemsEnd::AtEof => false,
        ItemsEnd::AtCloseBrace => matches!(&toks[pos], Tok::Close(Delim::Brace)),
        ItemsEnd::AtNonChild => !is_child_start(toks, pos),
    };
    if stop_now {
        let items: Vec<BtmlChild> = Vec::new();
        assert(children_dv(items@) =~= Seq::<ChildV>::empty());
        return Ok((items, pos));
    }
    match BtmlChild::parse(toks, pos) {
        Err(e) => Err(e),
        Ok((c, p2)) => {
            proof {
                assert(clamp_pos(toks@, pos + 1, p2 as int) == p2 as int);
            }
            match parse_items(toks, p2, mode) {
                Err(e) => Err(e),
                Ok((mut rest, p3)) => {
                    let ghost old_rest = rest@;
                    let ghost cv = child_dv(c);
                    rest.insert(0, c);
                    assert(rest@.drop_first() =~= old_rest);
                    assert(children_dv(rest@) =~= seq![cv] + children_dv(old_rest));
                    Ok((rest, p3))
                },
            }
        },
    }
}

/// Parses a non-self-closing element body and its closing tag.
fn parse_body(
    toks: &Vec<Tok>,
    pos: usize,
    tag: String,
    ctor: Option<String>,
    attrs: Vec<BtmlAttr>,
    flags: Vec<String>,
) -> (r: Result<(BtmlNode, usize), ParseError>)
    requires
        pos <= toks@.len(),
    ensures
        match r {
            Ok((n, p2)) => p_body(
                toks@,
                pos as int,
                tag@,
                oid_dv(ctor),
                attrs_dv(attrs@),
                flags_dv(flags@),
            ) matches PStep::Done(nv, np) && nv == node_dv(n) && np == p2 as int && pos < p2
                <= toks@.len(),
            Err(e) => p_body(
                toks@,
                pos as int,
                tag@,
                oid_dv(ctor),
                attrs_dv(attrs@),
                flags_dv(flags@),
            ) matches PStep::Fail(ev) && ev == e@,
        },
    decreases toks@.len() - pos, 5int,
{
    if pos >= toks.len() {
        return Err(ParseError::Expected { at: pos, what: Wanted::Lt });
    }
    let t = &toks[pos];
    let starts = tok_is_punct(t, '<') || tok_is_word(t, "for") || tok_is_word(t, "if");
    if !starts {
        let (_span, ce) = scan_span(toks, pos, 0, ScanStop::ChildStart, toks.len());
        if ce == pos {
            let kids: Vec<BtmlChild> = Vec::new();
            assert(children_dv(kids@) =~= Seq::<ChildV>::empty());
            parse_close(toks, pos, tag, ctor, attrs, flags, None, kids)
        } else {
            match parse_args(toks, pos, ce) {
                Err(e) => Err(e),
                Ok(args) => {
                    if is_child_start(toks, ce) {
                        Err(ParseError::MixedBody { at: ce })
                    } else {
                        let kids: Vec<BtmlChild> = Vec::new();
                        assert(children_dv(kids@) =~= Seq::<ChildV>::empty());
                        parse_close(
                            toks,
                            ce,
                            tag,
                            ctor,
                            attrs,
                            flags,
                            Some(Content::Arguments(args)),
                            kids,
                        )
                    }
                },
            }
        }
    } else {
        match parse_items(toks, pos, ItemsEnd::AtNonChild) {
            Err(e) => Err(e),
            Ok((kids, p2)) => {
                proof {
                    assert(clamp_pos(toks@, pos as int, p2 as int) == p2 as int);
                }
                parse_close(toks, p2, tag, ctor, attrs, flags, None, kids)
            },
        }
    }
}

/// Parses everything after an element's tag and optional constructor.
fn parse_after_head(toks: &Vec<Tok>, pos: usize, tag: String, ctor: Option<String>) -> (r: Result<
    (BtmlNode, usize),
    ParseError,
>)
    requires
        pos <= toks@.len(),
    ensures
        match r {
            Ok((n, p2)) => p_after_head(toks@, pos as int, tag@, oid_dv(ctor)) matches PStep::Done(
                nv,
                np,
            ) && nv == node_dv(n) && np == p2 as int && pos < p2 <= toks@.len(),
            Err(e) => p_after_head(toks@, pos as int, tag@, oid_dv(ctor)) matches PStep::Fail(ev)
                && ev == e@,
        },
    decreases toks@.len() - pos, 4int,
{
    match parse_attrs(toks, pos) {
        Err(e) => Err(e),
        Ok((attrs, flags, q)) => {
            let n = toks.len();
            proof {
                assert(clamp_pos(toks@, pos as int, q as int) == q as int);
                assert(q < n);
            }
            if tok_is_punct(&toks[q], '/') {
                if q + 1 < n && tok_is_punct(&toks[q + 1], '>') {
                    let kids: Vec<BtmlChild> = Vec::new();
                    assert(children_dv(kids@) =~= Seq::<ChildV>::empty());
                    Ok(
                        (
                            BtmlNode {
                                tag,
                                constructor: ctor,
                                attributes: attrs,
                                flags,
                                children: kids,
                                content: None,
                            },
                            q + 2,
                        ),
                    )
                } else {
                    Err(ParseError::Expected { at: q + 1, what: Wanted::Gt })
                }
            } else {
                parse_body(toks, q + 1, tag, ctor, attrs, flags)
            }
        },
    }
}

/// Parses an `if` chain starting at its `if` keyword.
fn parse_if(toks: &Vec<Tok>, pos: usize) -> (r: Result<(BtmlIf, usize), ParseError>)
    requires
        pos <= toks@.len(),
    ensures
        match r {
            Ok((i, p2)) => p_if(toks@, pos as int) matches PStep::Done(iv, np) && iv == if_dv(i)
                && np == p2 as int && pos < p2 <= toks@.len(),
            Err(e) => p_if(toks@, pos as int) matches PStep::Fail(ev) && ev == e@,
        },
    decreases toks@.len() - pos, 1int,
{
    if pos >= toks.len() || !tok_is_word(&toks[pos], "if") {
        return Err(ParseError::Expected { at: pos, what: Wanted::KwIf });
    }
    let (cond, ce) = scan_span(toks, pos + 1, 0, ScanStop::BlockOpen, toks.len());
    if ce == pos + 1 {
        return Err(ParseError::EmptyExpr { at: pos + 1 });
    }
    if ce >= toks.len() || !tok_is_open(&toks[ce], Delim::Brace) {
        return Err(ParseError::Expected { at: ce, what: Wanted::OpenBrace });
    }
    match parse_items(toks, ce + 1, ItemsEnd::AtCloseBrace) {
        Err(e) => Err(e),
        Ok((then_items, p3)) => {
            let p4 = p3 + 1;
            proof {
                assert(clamp_pos(toks@, ce + 2, p3 + 1 as int) == p4 as int);
            }
            if p4 >= toks.len() || !tok_is_word(&toks[p4], "else") {
                return Ok(
                    (
                        BtmlIf { condition: cond, then_branch: then_items, else_branch: None },
                        p4,
                    ),
                );
            }
            let p5 = p4 + 1;
            if p5 < toks.len() && tok_is_word(&toks[p5], "if") {
                match parse_if(toks, p5) {
                    Err(e) => Err(e),
                    Ok((ei, p6)) => Ok(
                        (
                            BtmlIf {
                                condition: cond,
                                then_branch: then_items,
                                else_branch: Some(Box::new(BtmlElse::If(ei))),
                            },
                            p6,
                        ),
                    ),
                }
            } else if p5 < toks.len() && matches!(&toks[p5], Tok::Open(Delim::Brace)) {
                match parse_items(toks, p5 + 1, ItemsEnd::AtCloseBrace) {
                    Err(e) => Err(e),
                    Ok((eb, p7)) => Ok(
                        (
                            BtmlIf {
                                condition: cond,
                                then_branch: then_items,
                                else_branch: Some(Box::new(BtmlElse::Block(eb))),
                            },
                            p7 + 1,
                        ),
                    ),
                }
            } else {
                Err(ParseError::Expected { at: p5, what: Wanted::OpenBrace })
            }
        },
    }
}

impl BtmlNode {
    /// Parses one element starting at its `<`. Returns the node and the
    /// index of the first token after it.
    pub fn parse(toks: &Vec<Tok>, pos: usize) -> (r: Result<(BtmlNode, usize), ParseError>)
        requires
            pos <= toks@.len(),
        ensures
            match r {
                Ok((n, p2)) => p_node(toks@, pos as int) matches PStep::Done(nv, np) && nv
                    == node_dv(n) && np == p2 as int && pos < p2 <= toks@.len(),
                Err(e) => p_node(toks@, pos as int) matches PStep::Fail(ev) && ev == e@,
            },
        decreases toks@.len() - pos, 1int,
    {
        if pos >= toks.len() || !tok_is_punct(&toks[pos], '<') {
            return Err(ParseError::Expected { at: pos, what: Wanted::Lt });
        }
        if pos + 1 >= toks.len() {
            return Err(ParseError::Expected { at: pos + 1, what: Wanted::Ident });
        }
        let tag: String = match &toks[pos + 1] {
            Tok::Ident(s) => s.clone(),
            _ => {
                return Err(ParseError::Expected { at: pos + 1, what: Wanted::Ident });
            },
        };
        if pos + 2 < toks.len() && tok_is_open(&toks[pos + 2], Delim::Paren) {
            if pos + 3 >= toks.len() {
                return Err(ParseError::Expected { at: pos + 3, what: Wanted::Ident });
            }
            let ctor: String = match &toks[pos + 3] {
                Tok::Ident(s) => s.clone(),
                _ => {
                    return Err(ParseError::Expected { at: pos + 3, what: Wanted::Ident });
                },
            };
            if pos + 4 >= toks.len() || !matches!(&toks[pos + 4], Tok::Close(Delim::Paren)) {
                return Err(ParseError::Expected { at: pos + 4, what: Wanted::CloseParen });
            }
            parse_after_head(toks, pos + 5, tag, Some(ctor))
        } else {
            parse_after_head(toks, pos + 2, tag, None)
        }
    }
}

impl BtmlChild {
    /// Parses one child item: a `for` loop, an `if` chain, or an element.
    pub fn parse(toks: &Vec<Tok>, pos: usize) -> (r: Result<(BtmlChild, usize), ParseError>)
        requires
            pos <= toks@.len(),
        ensures
            match r {
                Ok((c, p2)) => p_child(toks@, pos as int) matches PStep::Done(cv, np) && cv
                    == child_dv(c) && np == p2 as int && pos < p2 <= toks@.len(),
                Err(e) => p_child(toks@, pos as int) matches PStep::Fail(ev) && ev == e@,
            },
        decreases toks@.len() - pos, 2int,
    {
        if pos >= toks.len() {
            return Err(ParseError::Expected { at: pos, what: Wanted::Lt });
        }
        if tok_is_word(&toks[pos], "for") {
            let (pat, pe) = scan_span(toks, pos + 1, 0, ScanStop::KwIn, toks.len());
            if pe == pos + 1 {
                return Err(ParseError::EmptyPattern { at: pos + 1 });
            }
            if pe >= toks.len() || !tok_is_word(&toks[pe], "in") {
                return Err(ParseError::Expected { at: pe, what: Wanted::KwIn });
            }
            let (iter, ee) = scan_span(toks, pe + 1, 0, ScanStop::BlockOpen, toks.len());
            if ee == pe + 1 {
                return Err(ParseError::EmptyExpr { at: pe + 1 });
            }
            if ee >= toks.len() || !tok_is_open(&toks[ee], Delim::Brace) {
                return Err(ParseError::Expected { at: ee, what: Wanted::OpenBrace });
            }
            match parse_items(toks, ee + 1, ItemsEnd::AtCloseBrace) {
                Err(e) => Err(e),
                Ok((body, p3)) => Ok(
                    (BtmlChild::For(BtmlFor { pat, expr: iter, body }), p3 + 1),
                ),
            }
        } else if tok_is_word(&toks[pos], "if") {
            match parse_if(toks, pos) {
                Err(e) => Err(e),
                Ok((i, p2)) => Ok((BtmlChild::If(i), p2)),
            }
        } else {
            match BtmlNode::parse(toks, pos) {
                Err(e) => Err(e),
                Ok((n, p2)) => Ok((BtmlChild::Node(n), p2)),
            }
        }
    }
}

impl BtmlInput {
    /// Parses a whole document: the optional leading `spawner ,` binding,
    /// then child items up to the end of the input.
    pub fn parse(toks: &Vec<Tok>) -> (r: Result<BtmlInput, ParseError>)
        ensures
            match r {
                Ok(d) => p_document(toks@) matches Ok(dv) && dv == input_dv(d),
                Err(e) => p_document(toks@) matches Err(ev) && ev == e@,
            },
    {
        let mut spawner: Option<String> = None;
        let mut start: usize = 0;
        if toks.len() >= 2 {
            if let Tok::Ident(s) = &toks[0] {
                let reserved = str_eq(s, "for") || str_eq(s, "if") || str_eq(s, "else") || str_eq(
                    s,
                    "in",
                );
                if !reserved && tok_is_punct(&toks[1], ',') {
                    spawner = Some(s.clone());
                    start = 2;
                }
            }
        }
        proof {
            assert(has_spawner(toks@) <==> start == 2);
        }
        match parse_items(toks, start, ItemsEnd::AtEof) {
            Err(e) => Err(e),
            Ok((items, _p)) => Ok(BtmlInput { spawner, nodes: items }),
        }
    }
}

} // verus!

verus! {

/// The model of a child-item list has the same length and is the pointwise
/// model of its elements.
pub proof fn lemma_children_dv_props(s: Seq<BtmlChild>)
    ensures
        children_dv(s).len() == s.len(),
        forall|j: int| 0 <= j < s.len() ==> children_dv(s)[j] == child_dv(s[j]),
    decreases s,
{
    if s.len() > 0 {
        lemma_children_dv_props(s.drop_first());
        assert forall|j: int| 0 <= j < s.len() implies children_dv(s)[j] == child_dv(s[j]) by {
            if j > 0 {
                assert(children_dv(s)[j] == children_dv(s.drop_first())[j - 1]);
                assert(s.drop_first()[j - 1] == s[j]);
            }
        }
    }
}

} // verus!
