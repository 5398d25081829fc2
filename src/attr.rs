//! The attribute's argument list: `multicase`, `multicase = "..."`,
//! `input = path` and `output = path`, comma separated, in any order.
use vstd::prelude::*;
use crate::token::{Tok, TokV, toks_view, is_punct, is_joint};
use crate::subst::text_is;

verus! {

/// What went wrong in an argument list.
#[derive(PartialEq, Eq, Structural, Clone, Copy, Debug)]
pub enum AttrErrorKind {
    /// An entry whose name is not an option.
    InvalidAttr,
    /// An option given a second time.
    DuplicateAttr,
    /// `input` or `output` without `=`.
    ExpectedEq,
    /// `multicase =` not followed by a string literal.
    ExpectedString,
    /// A path that lacks an identifier.
    ExpectedIdent,
    /// A token after the last entry.
    UnexpectedToken,
}

/// An error and the index of the token it is reported at (the length of the
/// list when it is reported at the end).
#[derive(PartialEq, Eq, Structural, Clone, Copy, Debug)]
pub struct AttrError {
    pub kind: AttrErrorKind,
    pub at: usize,
}

/// A path such as `proconio::input`.
#[derive(Debug)]
pub struct PathRef {
    pub leading_colon: bool,
    pub segments: Vec<String>,
}

pub struct PathV {
    pub leading_colon: bool,
    pub segments: Seq<Seq<char>>,
}

impl View for PathRef {
    type V = PathV;

    open spec fn view(&self) -> PathV {
        PathV { leading_colon: self.leading_colon, segments: self.segments@.map_values(|s: String| s@) }
    }
}

/// The `multicase` option: its template and the index of the token that
/// diagnostics about the template are reported at.
#[derive(Debug)]
pub struct Multicase {
    pub template: Vec<char>,
    pub at: usize,
}

/// The parsed options; an absent option is `None`.
#[derive(Debug)]
pub struct AttrArgs {
    pub multicase: Option<Multicase>,
    pub input: Option<PathRef>,
    pub output: Option<PathRef>,
}

pub struct ArgsV {
    pub multicase: Option<(Seq<char>, int)>,
    pub input: Option<PathV>,
    pub output: Option<PathV>,
}

pub open spec fn path_opt_view(p: Option<PathRef>) -> Option<PathV> {
    match p {
        Some(q) => Some(q@),
        None => None,
    }
}

impl View for AttrArgs {
    type V = ArgsV;

    open spec fn view(&self) -> ArgsV {
        ArgsV {
            multicase: match self.multicase {
                Some(m) => Some((m.template@, m.at as int)),
                None => None,
            },
            input: path_opt_view(self.input),
            output: path_opt_view(self.output),
        }
    }
}

/// The template used by a bare `multicase`: `Case #{i+1}: `.
pub open spec fn default_template() -> Seq<char> {
    seq!['C', 'a', 's', 'e', ' ', '#', '{', 'i', '+', '1', '}', ':', ' ']
}

pub open spec fn word_multicase() -> Seq<char> {
    seq!['m', 'u', 'l', 't', 'i', 'c', 'a', 's', 'e']
}

pub open spec fn word_input() -> Seq<char> {
    seq!['i', 'n', 'p', 'u', 't']
}

pub open spec fn word_output() -> Seq<char> {
    seq!['o', 'u', 't', 'p', 'u', 't']
}

/// The value of the string literal whose source text is `raw`, or `None`
/// when `raw` is not one string literal.
pub uninterp spec fn string_literal_value(raw: Seq<char>) -> Option<Seq<char>>;

/// Relies on syn's `LitStr` parser and `LitStr::value`: whether `raw` is a
/// single string literal, and the text it denotes once unescaped.
#[verifier::external_body]
fn literal_string(raw: &str) -> (r: Option<Vec<char>>)
    ensures
        match r {
            Some(v) => string_literal_value(raw@) == Some(v@),
            None => string_literal_value(raw@) == None::<Seq<char>>,
        },
{
    syn::parse_str::<syn::LitStr>(raw).ok().map(|l| l.value().chars().collect())
}

pub open spec fn ident_at(toks: Seq<TokV>, i: int) -> Option<Seq<char>> {
    if 0 <= i < toks.len() {
        match toks[i] {
            TokV::Ident(s) => Some(s),
            _ => None,
        }
    } else {
        None
    }
}

pub open spec fn lit_at(toks: Seq<TokV>, i: int) -> Option<Seq<char>> {
    if 0 <= i < toks.len() {
        match toks[i] {
            TokV::Lit(s) => Some(s),
            _ => None,
        }
    } else {
        None
    }
}

pub open spec fn punct_at(toks: Seq<TokV>, i: int, c: char) -> bool {
    0 <= i < toks.len() && is_punct(toks[i], c)
}

/// A path separator `::` starts at `i`.
pub open spec fn sep_at(toks: Seq<TokV>, i: int) -> bool {
    0 <= i && i + 1 < toks.len() && is_joint(toks[i], ':') && is_punct(toks[i + 1], ':')
}

pub open spec fn err(kind: AttrErrorKind, at: int) -> AttrError {
    AttrError { kind, at: at as usize }
}

/// The further `::ident` segments of a path from `i`, after `segs`, and where
/// the path ends.
pub open spec fn path_tail(toks: Seq<TokV>, i: int, segs: Seq<Seq<char>>) -> Result<
    (Seq<Seq<char>>, int),
    AttrError,
>
    decreases toks.len() - i,
{
    if sep_at(toks, i) {
        match ident_at(toks, i + 2) {
            Some(s) => path_tail(toks, i + 3, segs.push(s)),
            None => Err(err(AttrErrorKind::ExpectedIdent, i + 2)),
        }
    } else {
        Ok((segs, i))
    }
}

/// The path that starts at `j`, and where it ends.
pub open spec fn path_at(toks: Seq<TokV>, j: int) -> Result<(PathV, int), AttrError> {
    let lead = sep_at(toks, j);
    let s = if lead {
        j + 2
    } else {
        j
    };
    match ident_at(toks, s) {
        Some(n) => match path_tail(toks, s + 1, seq![n]) {
            Ok((segs, e)) => Ok((PathV { leading_colon: lead, segments: segs }, e)),
            Err(e) => Err(e),
        },
        None => Err(err(AttrErrorKind::ExpectedIdent, s)),
    }
}

/// The end of the list at `i`: nothing may follow.
pub open spec fn finish(toks: Seq<TokV>, i: int, acc: ArgsV) -> Result<ArgsV, AttrError> {
    if i == toks.len() {
        Ok(acc)
    } else {
        Err(err(AttrErrorKind::UnexpectedToken, i))
    }
}

/// The entries from `i` on, with `acc` holding those before; `first` when
/// no entry has been read yet (so no comma is due).
pub open spec fn args_from(toks: Seq<TokV>, i: int, acc: ArgsV, first: bool) -> Result<
    ArgsV,
    AttrError,
>
    decreases toks.len() - i,
{
    if i < 0 || i > toks.len() {
        Err(err(AttrErrorKind::UnexpectedToken, i))
    } else if !first && !punct_at(toks, i, ',') {
        finish(toks, i, acc)
    } else {
        let s = if first {
            i
        } else {
            i + 1
        };
        let j = s + 1;
        match ident_at(toks, s) {
            None => finish(toks, s, acc),
            Some(name) => if name == word_multicase() {
                if acc.multicase is Some {
                    Err(err(AttrErrorKind::DuplicateAttr, s))
                } else if punct_at(toks, j, '=') {
                    match lit_at(toks, j + 1) {
                        Some(raw) => match string_literal_value(raw) {
                            Some(v) => args_from(
                                toks,
                                j + 2,
                                ArgsV { multicase: Some((v, j + 1)), input: acc.input, output: acc.output },
                                false,
                            ),
                            None => Err(err(AttrErrorKind::ExpectedString, j + 1)),
                        },
                        None => Err(err(AttrErrorKind::ExpectedString, j + 1)),
                    }
                } else {
                    args_from(
                        toks,
                        j,
                        ArgsV {
                            multicase: Some((default_template(), j)),
                            input: acc.input,
                            output: acc.output,
                        },
                        false,
                    )
                }
            } else if name == word_input() || name == word_output() {
                let is_in = name == word_input();
                if (is_in && acc.input is Some) || (!is_in && acc.output is Some) {
                    Err(err(AttrErrorKind::DuplicateAttr, s))
                } else if !punct_at(toks, j, '=') {
                    Err(err(AttrErrorKind::ExpectedEq, j))
                } else {
                    match path_at(toks, j + 1) {
                        Ok((p, k)) => if k <= i || k > toks.len() {
                            Err(err(AttrErrorKind::UnexpectedToken, k))
                        } else if is_in {
                            args_from(
                                toks,
                                k,
                                ArgsV { multicase: acc.multicase, input: Some(p), output: acc.output },
                                false,
                            )
                        } else {
                            args_from(
                                toks,
                                k,
                                ArgsV { multicase: acc.multicase, input: acc.input, output: Some(p) },
                                false,
                            )
                        },
                        Err(e) => Err(e),
                    }
                }
            } else {
                Err(err(AttrErrorKind::InvalidAttr, s))
            },
        }
    }
}

/// The meaning of a whole argument list.
pub open spec fn attr_spec(toks: Seq<TokV>) -> Result<ArgsV, AttrError> {
    args_from(toks, 0, ArgsV { multicase: None, input: None, output: None }, true)
}

proof fn lemma_path_tail_bounds(toks: Seq<TokV>, i: int, segs: Seq<Seq<char>>)
    requires
        0 <= i <= toks.len(),
    ensures
        path_tail(toks, i, segs) matches Ok((_, e)) ==> i <= e <= toks.len(),
    decreases toks.len() - i,
{
    if sep_at(toks, i) {
        if let Some(s) = ident_at(toks, i + 2) {
            lemma_path_tail_bounds(toks, i + 3, segs.push(s));
        }
    }
}

fn ident_text(toks: &Vec<Tok>, i: usize) -> (r: Option<String>)
    ensures
        match r {
            Some(s) => ident_at(toks_view(toks@), i as int) == Some(s@),
            None => ident_at(toks_view(toks@), i as int) == None::<Seq<char>>,
        },
{
    if i < toks.len() {
        match &toks[i] {
            Tok::Ident(s) => Some(s.clone()),
            _ => None,
        }
    } else {
        None
    }
}

fn punct_is(toks: &Vec<Tok>, i: usize, c: char) -> (r: bool)
    ensures
        r == punct_at(toks_view(toks@), i as int, c),
{
    if i < toks.len() {
        match &toks[i] {
            Tok::Punct(p, _) => *p == c,
            _ => false,
        }
    } else {
        false
    }
}

fn sep_is(toks: &Vec<Tok>, i: usize) -> (r: bool)
    ensures
        r == sep_at(toks_view(toks@), i as int),
{
    if i < toks.len() && i + 1 < toks.len() {
        match (&toks[i], &toks[i + 1]) {
            (Tok::Punct(a, true), Tok::Punct(b, _)) => *a == ':' && *b == ':',
            _ => false,
        }
    } else {
        false
    }
}

/// Parses the path that starts at token `j`, returning it and the index of
/// the first token after it.
pub fn parse_path(toks: &Vec<Tok>, j: usize) -> (r: Result<(PathRef, usize), AttrError>)
    requires
        j <= toks.len(),
    ensures
        match r {
            Ok((p, k)) => path_at(toks_view(toks@), j as int) == Ok::<(PathV, int), AttrError>(
                (p@, k as int),
            ),
            Err(e) => path_at(toks_view(toks@), j as int) == Err::<(PathV, int), AttrError>(e),
        },
{
    let ghost tv = toks_view(toks@);
    let lead = sep_is(toks, j);
    let s = if lead {
        j + 2
    } else {
        j
    };
    let first = match ident_text(toks, s) {
        Some(n) => n,
        None => {
            return Err(AttrError { kind: AttrErrorKind::ExpectedIdent, at: s });
        },
    };
    let ghost n = first@;
    let mut segs: Vec<String> = Vec::new();
    segs.push(first);
    assert(segs@.map_values(|x: String| x@) =~= seq![n]);
    let mut i: usize = s + 1;
    while sep_is(toks, i)
        invariant
            i <= toks.len(),
            tv == toks_view(toks@),
            ident_at(tv, s as int) == Some(n),
            lead == sep_at(tv, j as int),
            s == (if lead {
                j + 2
            } else {
                j as int
            }),
            path_tail(tv, i as int, segs@.map_values(|x: String| x@)) == path_tail(
                tv,
                s + 1,
                seq![n],
            ),
        decreases toks.len() - i,
    {
        match ident_text(toks, i + 2) {
            Some(name) => {
                let ghost before = segs@;
                segs.push(name);
                assert(segs@.map_values(|x: String| x@) =~= before.map_values(|x: String| x@).push(
                    segs@.last()@,
                ));
                i = i + 3;
            },
            None => {
                assert(path_tail(tv, i as int, segs@.map_values(|x: String| x@)) == Err::<
                    (Seq<Seq<char>>, int),
                    AttrError,
                >(err(AttrErrorKind::ExpectedIdent, i + 2)));
                return Err(AttrError { kind: AttrErrorKind::ExpectedIdent, at: i + 2 });
            },
        }
    }
    Ok((PathRef { leading_colon: lead, segments: segs }, i))
}

/// The characters of the template used by a bare `multicase`.
pub fn default_template_chars() -> (r: Vec<char>)
    ensures
        r@ == default_template(),
{
    let r = vec!['C', 'a', 's', 'e', ' ', '#', '{', 'i', '+', '1', '}', ':', ' '];
    assert(r@ =~= default_template());
    r
}

fn finish_at(toks: &Vec<Tok>, i: usize, acc: AttrArgs) -> (r: Result<AttrArgs, AttrError>)
    ensures
        match r {
            Ok(a) => finish(toks_view(toks@), i as int, acc@) == Ok::<ArgsV, AttrError>(a@),
            Err(e) => finish(toks_view(toks@), i as int, acc@) == Err::<ArgsV, AttrError>(e),
        },
{
    if i == toks.len() {
        Ok(acc)
    } else {
        Err(AttrError { kind: AttrErrorKind::UnexpectedToken, at: i })
    }
}

/// Parses an attribute's argument list. The result is `Ok` exactly when the
/// list is well formed: entries `multicase`, `multicase = "<template>"`,
/// `input = <path>`, `output = <path>`, each at most once, separated by
/// commas, with an optional trailing comma. Otherwise it is the first error,
/// at the token where it is found.
pub fn parse_attr(toks: &Vec<Tok>) -> (r: Result<AttrArgs, AttrError>)
    ensures
        match r {
            Ok(a) => attr_spec(toks_view(toks@)) == Ok::<ArgsV, AttrError>(a@),
            Err(e) => attr_spec(toks_view(toks@)) == Err::<ArgsV, AttrError>(e),
        },
{
    let ghost tv = toks_view(toks@);
    proof {
        reveal_strlit("multicase");
        reveal_strlit("input");
        reveal_strlit("output");
        assert("multicase"@ =~= word_multicase());
        assert("input"@ =~= word_input());
        assert("output"@ =~= word_output());
    }
    let mut acc = AttrArgs { multicase: None, input: None, output: None };
    let mut i: usize = 0;
    let mut first = true;
    loop
        invariant
            i <= toks.len(),
            tv == toks_view(toks@),
            first ==> i == 0,
            "multicase"@ == word_multicase(),
            "input"@ == word_input(),
            "output"@ == word_output(),
            args_from(tv, i as int, acc@, first) == attr_spec(tv),
        decreases toks.len() - i,
    {
        if !first && !punct_is(toks, i, ',') {
            return finish_at(toks, i, acc);
        }
        let s = if first {
            i
        } else {
            i + 1
        };
        let name = match ident_text(toks, s) {
            Some(n) => n,
            None => {
                return finish_at(toks, s, acc);
            },
        };
        let j = s + 1;
        if text_is(&name, "multicase") {
            if acc.multicase.is_some() {
                return Err(AttrError { kind: AttrErrorKind::DuplicateAttr, at: s });
            }
            if punct_is(toks, j, '=') {
                let v = if j + 1 < toks.len() {
                    match &toks[j + 1] {
                        Tok::Lit(raw) => literal_string(raw.as_str()),
                        _ => None,
                    }
                } else {
                    None
                };
                match v {
                    Some(v) => {
                        acc.multicase = Some(Multicase { template: v, at: j + 1 });
                        i = j + 2;
                    },
                    None => {
                        return Err(AttrError { kind: AttrErrorKind::ExpectedString, at: j + 1 });
                    },
                }
            } else {
                acc.multicase = Some(Multicase { template: default_template_chars(), at: j });
                i = j;
            }
        } else if text_is(&name, "input") || text_is(&name, "output") {
            let is_in = text_is(&name, "input");
            if (is_in && acc.input.is_some()) || (!is_in && acc.output.is_some()) {
                return Err(AttrError { kind: AttrErrorKind::DuplicateAttr, at: s });
            }
            if !punct_is(toks, j, '=') {
                return Err(AttrError { kind: AttrErrorKind::ExpectedEq, at: j });
            }
            match parse_path(toks, j + 1) {
                Ok((p, k)) => {
                    proof {
                        let lead = sep_at(tv, j + 1);
                        let st = if lead {
                            j + 3
                        } else {
                            j + 1
                        };
                        lemma_path_tail_bounds(tv, st + 1, seq![ident_at(tv, st).unwrap()]);
                    }
                    if is_in {
                        acc.input = Some(p);
                    } else {
                        acc.output = Some(p);
                    }
                    i = k;
                },
                Err(e) => {
                    return Err(e);
                },
            }
        } else {
            return Err(AttrError { kind: AttrErrorKind::InvalidAttr, at: s });
        }
        first = false;
    }
}

/// The diagnostic text for an error in the argument list `toks`.
pub open spec fn error_message(toks: Seq<TokV>, e: AttrError) -> Seq<char> {
    let name = match ident_at(toks, e.at as int) {
        Some(n) => n,
        None => Seq::empty(),
    };
    match e.kind {
        AttrErrorKind::InvalidAttr => "argio: invalid attr: "@ + name,
        AttrErrorKind::DuplicateAttr => "argio: duplicate attr: "@ + name,
        AttrErrorKind::ExpectedEq => "expected `=`"@,
        AttrErrorKind::ExpectedString => "expected string literal"@,
        AttrErrorKind::ExpectedIdent => "expected identifier"@,
        AttrErrorKind::UnexpectedToken => "unexpected token"@,
    }
}

/// The diagnostic text for an error in the argument list `toks`; an invalid
/// or repeated option is named.
pub fn error_text(toks: &Vec<Tok>, e: AttrError) -> (r: String)
    ensures
        r@ == error_message(toks_view(toks@), e),
{
    let name = match ident_text(toks, e.at) {
        Some(n) => n,
        None => String::new(),
    };
    match e.kind {
        AttrErrorKind::InvalidAttr => {
            let mut m = "argio: invalid attr: ".to_owned();
            m.append(name.as_str());
            m
        },
        AttrErrorKind::DuplicateAttr => {
            let mut m = "argio: duplicate attr: ".to_owned();
            m.append(name.as_str());
            m
        },
        AttrErrorKind::ExpectedEq => "expected `=`".to_owned(),
        AttrErrorKind::ExpectedString => "expected string literal".to_owned(),
        AttrErrorKind::ExpectedIdent => "expected identifier".to_owned(),
        AttrErrorKind::UnexpectedToken => "unexpected token".to_owned(),
    }
}

/// An entry whose name is none of the options is rejected at that name, and
/// the diagnostic names it.
pub proof fn lemma_unknown_option_rejected(toks: Seq<TokV>, name: Seq<char>)
    requires
        toks.len() > 0,
        toks[0] == TokV::Ident(name),
        name != word_multicase(),
        name != word_input(),
        name != word_output(),
    ensures
        attr_spec(toks) == Err::<ArgsV, AttrError>(err(AttrErrorKind::InvalidAttr, 0)),
        error_message(toks, err(AttrErrorKind::InvalidAttr, 0)) == "argio: invalid attr: "@ + name,
{
}

} // verus!
