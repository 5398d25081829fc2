//! A flat model of a token stream: groups appear as an opening and a
//! closing delimiter token around their contents.
use vstd::prelude::*;

verus! {

#[derive(PartialEq, Eq, Structural, Clone, Copy, Debug)]
pub enum Delim {
    Paren,
    Brace,
    Bracket,
    Invisible,
}

#[derive(Debug)]
pub enum Tok {
    /// An identifier or keyword.
    Ident(String),
    /// A punctuation character; `true` when it is joined to the next one.
    Punct(char, bool),
    /// A literal, as written in the source.
    Lit(String),
    /// A string literal to be written out with the given value.
    Str(Vec<char>),
    Open(Delim),
    Close(Delim),
}

/// What a token is, with its text as a sequence of characters.
pub enum TokV {
    Ident(Seq<char>),
    Punct(char, bool),
    Lit(Seq<char>),
    Str(Seq<char>),
    Open(Delim),
    Close(Delim),
}

impl View for Tok {
    type V = TokV;

    open spec fn view(&self) -> TokV {
        match self {
            Tok::Ident(s) => TokV::Ident(s@),
            Tok::Punct(c, j) => TokV::Punct(*c, *j),
            Tok::Lit(s) => TokV::Lit(s@),
            Tok::Str(v) => TokV::Str(v@),
            Tok::Open(d) => TokV::Open(*d),
            Tok::Close(d) => TokV::Close(*d),
        }
    }
}

/// The views of a sequence of tokens.
pub open spec fn toks_view(s: Seq<Tok>) -> Seq<TokV> {
    s.map_values(|t: Tok| t@)
}

/// True when `t` is the identifier `name`.
pub open spec fn is_ident(t: TokV, name: Seq<char>) -> bool {
    t == TokV::Ident(name)
}

/// True when `t` is the punctuation character `c`.
pub open spec fn is_punct(t: TokV, c: char) -> bool {
    match t {
        TokV::Punct(p, _) => p == c,
        _ => false,
    }
}

/// True when `t` is the punctuation character `c` joined to the next one.
pub open spec fn is_joint(t: TokV, c: char) -> bool {
    t == TokV::Punct(c, true)
}

/// The same token, with its text copied.
pub fn copy_tok(t: &Tok) -> (r: Tok)
    ensures
        r@ == t@,
{
    match t {
        Tok::Ident(s) => Tok::Ident(s.clone()),
        Tok::Punct(c, j) => Tok::Punct(*c, *j),
        Tok::Lit(s) => Tok::Lit(s.clone()),
        Tok::Str(v) => Tok::Str(copy_chars(v)),
        Tok::Open(d) => Tok::Open(*d),
        Tok::Close(d) => Tok::Close(*d),
    }
}

/// The same characters, in a new vector.
pub fn copy_chars(v: &Vec<char>) -> (r: Vec<char>)
    ensures
        r@ == v@,
{
    let mut r: Vec<char> = Vec::new();
    let mut a: usize = 0;
    while a < v.len()
        invariant
            a <= v.len(),
            r@ == v@.subrange(0, a as int),
        decreases v.len() - a,
    {
        r.push(v[a]);
        a = a + 1;
        assert(r@ =~= v@.subrange(0, a as int));
    }
    assert(r@ =~= v@);
    r
}

/// Appends copies of `src` to `dst`.
pub fn extend_toks(dst: &mut Vec<Tok>, src: &Vec<Tok>)
    ensures
        toks_view(final(dst)@) == toks_view(old(dst)@) + toks_view(src@),
{
    let ghost start = toks_view(dst@);
    let mut a: usize = 0;
    while a < src.len()
        invariant
            a <= src.len(),
            toks_view(dst@) == start + toks_view(src@.subrange(0, a as int)),
        decreases src.len() - a,
    {
        let ghost before = dst@;
        dst.push(copy_tok(&src[a]));
        assert(dst@ =~= before.push(dst@.last()));
        assert(toks_view(dst@) =~= toks_view(before).push(src@[a as int]@));
        assert(src@.subrange(0, a + 1) =~= src@.subrange(0, a as int).push(src@[a as int]));
        assert(toks_view(src@.subrange(0, a + 1)) =~= toks_view(src@.subrange(0, a as int)).push(
            src@[a as int]@,
        ));
        a = a + 1;
        assert(toks_view(dst@) =~= start + toks_view(src@.subrange(0, a as int)));
    }
    assert(src@.subrange(0, src.len() as int) =~= src@);
}

} // verus!
