//! Renaming the case index `i` inside a header expression.
use vstd::prelude::*;
use crate::token::{Tok, TokV, toks_view, is_ident, is_punct, is_joint, copy_tok};

verus! {

/// The name that a header expression uses for the 0-based case index.
pub open spec fn case_index_name() -> Seq<char> {
    seq!['i']
}

/// True when `toks[k]` stands after a member access `.` (and not after the
/// range operator `..`).
pub open spec fn after_member_dot(toks: Seq<TokV>, k: int) -> bool {
    k >= 1 && is_punct(toks[k - 1], '.') && !(k >= 2 && is_joint(toks[k - 2], '.'))
}

/// True when `toks[k]` stands after a path separator `::`.
pub open spec fn after_path_sep(toks: Seq<TokV>, k: int) -> bool {
    k >= 2 && is_punct(toks[k - 1], ':') && is_joint(toks[k - 2], ':')
}

/// True when `toks[k]` is the identifier `i` standing on its own: not a
/// field or method name, not a later segment of a path.
pub open spec fn is_free_index(toks: Seq<TokV>, k: int) -> bool {
    &&& is_ident(toks[k], case_index_name())
    &&& !after_member_dot(toks, k)
    &&& !after_path_sep(toks, k)
}

/// `toks` with every free-standing `i` renamed to `name`.
pub open spec fn substituted(toks: Seq<TokV>, name: Seq<char>) -> Seq<TokV> {
    Seq::new(
        toks.len(),
        |k: int|
            if is_free_index(toks, k) {
                TokV::Ident(name)
            } else {
                toks[k]
            },
    )
}

/// True when `s` holds exactly the characters of `w`.
pub fn text_is(s: &String, w: &str) -> (r: bool)
    ensures
        r == (s@ == w@),
{
    *s == w.to_owned()
}

fn is_punct_at(toks: &Vec<Tok>, k: usize, c: char) -> (r: bool)
    requires
        k < toks.len(),
    ensures
        r == is_punct(toks@[k as int]@, c),
{
    match &toks[k] {
        Tok::Punct(p, _) => *p == c,
        _ => false,
    }
}

fn is_joint_at(toks: &Vec<Tok>, k: usize, c: char) -> (r: bool)
    requires
        k < toks.len(),
    ensures
        r == is_joint(toks@[k as int]@, c),
{
    match &toks[k] {
        Tok::Punct(p, j) => *p == c && *j,
        _ => false,
    }
}

/// Renames every free-standing identifier `i` of a header expression to
/// `name`, the variable that holds the case index in the generated code.
/// Field and method names after `.` and path segments after `::` are kept,
/// as is every identifier that merely contains `i`.
pub fn substitute_case_index(toks: &Vec<Tok>, name: &String) -> (r: Vec<Tok>)
    ensures
        toks_view(r@) == substituted(toks_view(toks@), name@),
{
    let ghost tv = toks_view(toks@);
    let mut r: Vec<Tok> = Vec::new();
    let mut k: usize = 0;
    while k < toks.len()
        invariant
            k <= toks.len(),
            tv == toks_view(toks@),
            toks_view(r@) == substituted(tv, name@).subrange(0, k as int),
        decreases toks.len() - k,
    {
        let is_i = match &toks[k] {
            Tok::Ident(s) => {
                proof {
                    reveal_strlit("i");
                    assert("i"@ =~= case_index_name());
                }
                text_is(s, "i")
            },
            _ => false,
        };
        let member = k >= 1 && is_punct_at(toks, k - 1, '.') && !(k >= 2 && is_joint_at(
            toks,
            k - 2,
            '.',
        ));
        let path = k >= 2 && is_punct_at(toks, k - 1, ':') && is_joint_at(toks, k - 2, ':');
        let ghost before = r@;
        if is_i && !member && !path {
            r.push(Tok::Ident(name.clone()));
        } else {
            r.push(copy_tok(&toks[k]));
        }
        proof {
            assert(r@ =~= before.push(r@.last()));
            assert(is_free_index(tv, k as int) == (is_i && !member && !path));
            assert(toks_view(r@) =~= toks_view(before).push(r@.last()@));
        }
        k = k + 1;
        assert(toks_view(r@) =~= substituted(tv, name@).subrange(0, k as int));
    }
    r
}

/// Substitution is total and exact: the token at each position becomes the
/// new name when it was a free-standing `i`, and stays as it was otherwise;
/// in particular no token other than the identifier `i` ever changes.
pub proof fn lemma_substitution_exact(toks: Seq<TokV>, name: Seq<char>, k: int)
    requires
        0 <= k < toks.len(),
    ensures
        substituted(toks, name).len() == toks.len(),
        is_free_index(toks, k) ==> substituted(toks, name)[k] == TokV::Ident(name),
        !is_free_index(toks, k) ==> substituted(toks, name)[k] == toks[k],
        !is_ident(toks[k], case_index_name()) ==> substituted(toks, name)[k] == toks[k],
{
}

} // verus!
