//! The flat token stream the parser consumes. Host-language expressions
//! (attribute values, constructor arguments, loop iterables, conditions) are
//! never interpreted: they are carried through as opaque spans of these
//! tokens and re-emitted verbatim by the code generator.

use vstd::prelude::*;

verus! {

/// One delimiter kind: `( )`, `[ ]` or `{ }`.
#[derive(Clone, Copy, PartialEq, Eq, Structural, Debug)]
pub enum Delim {
    Paren,
    Bracket,
    Brace,
}

/// A single token. Delimited groups appear as balanced `Open`/`Close` pairs,
/// so nesting depth can be tracked with an explicit counter.
#[derive(PartialEq, Eq, Debug)]
pub enum Tok {
    /// An identifier or keyword, carried by its text.
    Ident(String),
    /// A single punctuation character such as `<`, `>`, `/`, `=`, `,`.
    Punct(char),
    /// A literal, carried by its source text.
    Literal(String),
    /// An opening delimiter.
    Open(Delim),
    /// A closing delimiter.
    Close(Delim),
}

impl Clone for Tok {
    fn clone(&self) -> (res: Self)
        ensures
            res == *self,
    {
        match self {
            Tok::Ident(s) => Tok::Ident(s.clone()),
            Tok::Punct(c) => Tok::Punct(*c),
            Tok::Literal(s) => Tok::Literal(s.clone()),
            Tok::Open(d) => Tok::Open(*d),
            Tok::Close(d) => Tok::Close(*d),
        }
    }
}

/// Whether `t` is the punctuation character `c`.
pub open spec fn is_punct(t: Tok, c: char) -> bool {
    t matches Tok::Punct(p) && p == c
}

/// Whether `t` is an identifier whose text is `w`.
pub open spec fn is_word(t: Tok, w: Seq<char>) -> bool {
    t matches Tok::Ident(s) && s@ == w
}

/// Whether `t` opens the delimiter `d`.
pub open spec fn is_open(t: Tok, d: Delim) -> bool {
    t matches Tok::Open(e) && e == d
}

/// Compares a string against a string slice by their character sequences.
pub fn str_eq(a: &String, b: &str) -> (r: bool)
    ensures
        r == (a@ == b@),
{
    *a == b.to_owned()
}

/// Whether `t` is the punctuation character `c`, executably.
pub fn tok_is_punct(t: &Tok, c: char) -> (r: bool)
    ensures
        r == is_punct(*t, c),
{
    match t {
        Tok::Punct(p) => *p == c,
        _ => false,
    }
}

/// Whether `t` is an identifier whose text is `w`, executably.
pub fn tok_is_word(t: &Tok, w: &str) -> (r: bool)
    ensures
        r == is_word(*t, w@),
{
    match t {
        Tok::Ident(s) => str_eq(s, w),
        _ => false,
    }
}

/// Whether `t` opens the delimiter `d`, executably.
pub fn tok_is_open(t: &Tok, d: Delim) -> (r: bool)
    ensures
        r == is_open(*t, d),
{
    match t {
        Tok::Open(e) => *e == d,
        _ => false,
    }
}

} // verus!
