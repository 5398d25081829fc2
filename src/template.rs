//! The per-case header template: `prefix{expr[:spec]}suffix`.
use vstd::prelude::*;

verus! {

/// True when `c` does not occur in `s`.
pub open spec fn lacks(s: Seq<char>, c: char) -> bool {
    forall|k: int| 0 <= k < s.len() ==> s[k] != c
}

/// The text `{` followed by the optional `:spec` and `}`.
pub open spec fn braced_spec(spec: Option<Seq<char>>) -> Seq<char> {
    match spec {
        Some(t) => seq!['{', ':'] + t + seq!['}'],
        None => seq!['{', '}'],
    }
}

/// The template `prefix{expr}suffix` or `prefix{expr:spec}suffix`.
pub open spec fn composed(
    prefix: Seq<char>,
    expr: Seq<char>,
    spec: Option<Seq<char>>,
    suffix: Seq<char>,
) -> Seq<char> {
    match spec {
        Some(t) => prefix + seq!['{'] + expr + seq![':'] + t + seq!['}'] + suffix,
        None => prefix + seq!['{'] + expr + seq!['}'] + suffix,
    }
}

/// `s` is `prefix{expr[:spec]}suffix` under the template grammar: no `{` in
/// the prefix, a non-empty expression without `:` or `}`, a non-empty spec
/// without `}`, and a suffix on one line.
pub open spec fn is_split(
    s: Seq<char>,
    prefix: Seq<char>,
    expr: Seq<char>,
    spec: Option<Seq<char>>,
    suffix: Seq<char>,
) -> bool {
    &&& lacks(prefix, '{')
    &&& expr.len() > 0
    &&& lacks(expr, ':')
    &&& lacks(expr, '}')
    &&& match spec {
        Some(t) => t.len() > 0 && lacks(t, '}') && s == prefix + seq!['{'] + expr + seq![':'] + t
            + seq!['}'] + suffix,
        None => s == prefix + seq!['{'] + expr + seq!['}'] + suffix,
    }
    &&& lacks(suffix, '\n')
}

/// The parts of a template that has a placeholder.
pub struct Template {
    pub prefix: Vec<char>,
    pub expr: Vec<char>,
    pub spec: Option<Vec<char>>,
    pub suffix: Vec<char>,
}

pub open spec fn opt_view(o: Option<Vec<char>>) -> Option<Seq<char>> {
    match o {
        Some(v) => Some(v@),
        None => None,
    }
}

impl Template {
    pub open spec fn splits(&self, s: Seq<char>) -> bool {
        is_split(s, self.prefix@, self.expr@, opt_view(self.spec), self.suffix@)
    }

    /// The format string printed before each case: the template with the
    /// expression taken out of its braces.
    pub open spec fn format_spec(&self) -> Seq<char> {
        self.prefix@ + braced_spec(opt_view(self.spec)) + self.suffix@
    }
}

/// Index facts that every split of `s` has.
proof fn lemma_split_facts(
    s: Seq<char>,
    prefix: Seq<char>,
    expr: Seq<char>,
    spec: Option<Seq<char>>,
    suffix: Seq<char>,
)
    requires
        is_split(s, prefix, expr, spec, suffix),
    ensures
        ({
            let j = prefix.len() as int;
            let k = j + 1 + expr.len();
            &&& s[j] == '{'
            &&& forall|a: int| 0 <= a < j ==> s[a] != '{'
            &&& forall|a: int| j + 1 <= a < k ==> s[a] != ':' && s[a] != '}'
            &&& prefix == s.subrange(0, j)
            &&& expr == s.subrange(j + 1, k)
            &&& match spec {
                Some(t) => {
                    let m = k + 1 + t.len();
                    &&& s[k] == ':'
                    &&& t.len() > 0
                    &&& forall|a: int| k + 1 <= a < m ==> s[a] != '}'
                    &&& s[m] == '}'
                    &&& t == s.subrange(k + 1, m)
                    &&& suffix == s.subrange(m + 1, s.len() as int)
                },
                None => {
                    &&& s[k] == '}'
                    &&& suffix == s.subrange(k + 1, s.len() as int)
                },
            }
            &&& forall|a: int| s.len() - suffix.len() <= a < s.len() ==> s[a] != '\n'
        }),
{
    let j = prefix.len() as int;
    let k = j + 1 + expr.len();
    match spec {
        Some(t) => {
            let m = k + 1 + t.len();
            let w = prefix + seq!['{'] + expr + seq![':'] + t + seq!['}'] + suffix;
            assert(s == w);
            assert(s.len() == m + 1 + suffix.len());
            assert forall|a: int| 0 <= a < j implies s[a] != '{' by {
                assert(s[a] == prefix[a]);
            }
            assert forall|a: int| j + 1 <= a < k implies s[a] != ':' && s[a] != '}' by {
                assert(s[a] == expr[a - j - 1]);
            }
            assert forall|a: int| k + 1 <= a < m implies s[a] != '}' by {
                assert(s[a] == t[a - k - 1]);
            }
            assert forall|a: int| s.len() - suffix.len() <= a < s.len() implies s[a] != '\n' by {
                assert(s[a] == suffix[a - m - 1]);
            }
            assert(prefix =~= s.subrange(0, j));
            assert(expr =~= s.subrange(j + 1, k));
            assert(t =~= s.subrange(k + 1, m));
            assert(suffix =~= s.subrange(m + 1, s.len() as int));
        },
        None => {
            let w = prefix + seq!['{'] + expr + seq!['}'] + suffix;
            assert(s == w);
            assert(s.len() == k + 1 + suffix.len());
            assert forall|a: int| 0 <= a < j implies s[a] != '{' by {
                assert(s[a] == prefix[a]);
            }
            assert forall|a: int| j + 1 <= a < k implies s[a] != ':' && s[a] != '}' by {
                assert(s[a] == expr[a - j - 1]);
            }
            assert forall|a: int| s.len() - suffix.len() <= a < s.len() implies s[a] != '\n' by {
                assert(s[a] == suffix[a - k - 1]);
            }
            assert(prefix =~= s.subrange(0, j));
            assert(expr =~= s.subrange(j + 1, k));
            assert(suffix =~= s.subrange(k + 1, s.len() as int));
        },
    }
}

/// A template has at most one split.
pub proof fn lemma_split_unique(
    s: Seq<char>,
    pa: Seq<char>,
    ea: Seq<char>,
    ta: Option<Seq<char>>,
    xa: Seq<char>,
    pb: Seq<char>,
    eb: Seq<char>,
    tb: Option<Seq<char>>,
    xb: Seq<char>,
)
    requires
        is_split(s, pa, ea, ta, xa),
        is_split(s, pb, eb, tb, xb),
    ensures
        pa == pb && ea == eb && ta == tb && xa == xb,
{
    lemma_split_facts(s, pa, ea, ta, xa);
    lemma_split_facts(s, pb, eb, tb, xb);
    let ja = pa.len() as int;
    let jb = pb.len() as int;
    if ja < jb {
        assert(s[ja] == '{');
    } else if jb < ja {
        assert(s[jb] == '{');
    }
    let ka = ja + 1 + ea.len();
    let kb = ja + 1 + eb.len();
    if ka < kb {
        assert(s[ka] == ':' || s[ka] == '}');
    } else if kb < ka {
        assert(s[kb] == ':' || s[kb] == '}');
    }
    match (ta, tb) {
        (Some(a), Some(b)) => {
            let ma = ka + 1 + a.len();
            let mb = ka + 1 + b.len();
            if ma < mb {
                assert(s[ma] == '}');
            } else if mb < ma {
                assert(s[mb] == '}');
            }
        },
        (Some(a), None) => {
            assert(s[ka] == ':');
        },
        (None, Some(b)) => {
            assert(s[ka] == '}');
        },
        (None, None) => {},
    }
}

/// The characters `s[from..to]`.
pub fn copy_range(s: &Vec<char>, from: usize, to: usize) -> (r: Vec<char>)
    requires
        from <= to <= s.len(),
    ensures
        r@ == s@.subrange(from as int, to as int),
{
    let mut r: Vec<char> = Vec::new();
    let mut a: usize = from;
    while a < to
        invariant
            from <= a <= to <= s.len(),
            r@ == s@.subrange(from as int, a as int),
        decreases to - a,
    {
        r.push(s[a]);
        a = a + 1;
        assert(r@ =~= s@.subrange(from as int, a as int));
    }
    r
}

/// Splits a template into prefix, expression, optional format spec and suffix.
/// Returns `None` exactly when the template does not have that shape.
pub fn split_template(s: &Vec<char>) -> (r: Option<Template>)
    ensures
        match r {
            Some(t) => t.splits(s@),
            None => forall|p: Seq<char>, e: Seq<char>, t: Option<Seq<char>>, x: Seq<char>|
                !is_split(s@, p, e, t, x),
        },
{
    let n = s.len();
    let mut j: usize = 0;
    while j < n && s[j] != '{'
        invariant
            j <= n == s.len(),
            forall|a: int| 0 <= a < j ==> s@[a] != '{',
        decreases n - j,
    {
        j = j + 1;
    }
    if j == n {
        assert forall|p: Seq<char>, e: Seq<char>, t: Option<Seq<char>>, x: Seq<char>|
            !is_split(s@, p, e, t, x) by {
            if is_split(s@, p, e, t, x) {
                lemma_split_facts(s@, p, e, t, x);
            }
        }
        return None;
    }
    let mut k: usize = j + 1;
    while k < n && s[k] != ':' && s[k] != '}'
        invariant
            j < k <= n == s.len(),
            forall|a: int| j + 1 <= a < k ==> s@[a] != ':' && s@[a] != '}',
        decreases n - k,
    {
        k = k + 1;
    }
    if k == n || k == j + 1 {
        assert forall|p: Seq<char>, e: Seq<char>, t: Option<Seq<char>>, x: Seq<char>|
            !is_split(s@, p, e, t, x) by {
            if is_split(s@, p, e, t, x) {
                lemma_split_facts(s@, p, e, t, x);
                assert(p.len() == j);
                let kk = j + 1 + e.len();
                if kk < k {
                    assert(s@[kk] == ':' || s@[kk] == '}');
                }
            }
        }
        return None;
    }
    let mut m: usize = k;
    let mut spec: Option<Vec<char>> = None;
    if s[k] == ':' {
        m = k + 1;
        while m < n && s[m] != '}'
            invariant
                k < m <= n == s.len(),
                forall|a: int| k + 1 <= a < m ==> s@[a] != '}',
            decreases n - m,
        {
            m = m + 1;
        }
        if m == n || m == k + 1 {
            assert forall|p: Seq<char>, e: Seq<char>, t: Option<Seq<char>>, x: Seq<char>|
                !is_split(s@, p, e, t, x) by {
                if is_split(s@, p, e, t, x) {
                    lemma_split_facts(s@, p, e, t, x);
                    assert(p.len() == j);
                    let kk = j + 1 + e.len();
                    if kk < k {
                        assert(s@[kk] == ':' || s@[kk] == '}');
                    } else if k < kk {
                        assert(s@[k as int] == ':');
                    }
                    match t {
                        Some(tt) => {
                            let mm = k + 1 + tt.len();
                            if mm < m {
                                assert(s@[mm] == '}');
                            }
                        },
                        None => {},
                    }
                }
            }
            return None;
        }
        spec = Some(copy_range(s, k + 1, m));
    }
    let mut z: usize = m + 1;
    while z < n && s[z] != '\n'
        invariant
            m < z <= n == s.len(),
            forall|a: int| m + 1 <= a < z ==> s@[a] != '\n',
        decreases n - z,
    {
        z = z + 1;
    }
    if z < n {
        assert forall|p: Seq<char>, e: Seq<char>, t: Option<Seq<char>>, x: Seq<char>|
            !is_split(s@, p, e, t, x) by {
            if is_split(s@, p, e, t, x) {
                lemma_split_facts(s@, p, e, t, x);
                assert(p.len() == j);
                let kk = j + 1 + e.len();
                if kk < k {
                    assert(s@[kk] == ':' || s@[kk] == '}');
                } else if k < kk {
                    assert(s@[k as int] == ':' || s@[k as int] == '}');
                }
                match t {
                    Some(tt) => {
                        let mm = k + 1 + tt.len();
                        if mm < m {
                            assert(s@[mm] == '}');
                        } else if m < mm {
                            assert(s@[m as int] == '}');
                        }
                    },
                    None => {},
                }
            }
        }
        return None;
    }
    let t = Template {
        prefix: copy_range(s, 0, j),
        expr: copy_range(s, j + 1, k),
        spec,
        suffix: copy_range(s, m + 1, n),
    };
    proof {
        let ts = opt_view(t.spec);
        match ts {
            Some(sp) => {
                assert(s@ =~= t.prefix@ + seq!['{'] + t.expr@ + seq![':'] + sp + seq!['}']
                    + t.suffix@);
            },
            None => {
                assert(s@ =~= t.prefix@ + seq!['{'] + t.expr@ + seq!['}'] + t.suffix@);
            },
        }
    }
    Some(t)
}

} // verus!
