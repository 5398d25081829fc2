//! Assembly of the rewritten function.
use vstd::prelude::*;
use crate::token::{Tok, TokV, Delim, toks_view, copy_chars, extend_toks};
use crate::attr::{PathRef, PathV, AttrArgs};
use crate::template::{
    Template, split_template, lacks, is_split, braced_spec, opt_view, composed, lemma_split_unique,
};
use crate::subst::{substitute_case_index, substituted};

verus! {

/// The parts of the function being rewritten, as tokens.
#[derive(Debug)]
pub struct FnShape {
    /// The visibility, possibly empty.
    pub vis: Vec<Tok>,
    pub name: String,
    /// The parameter list as written, without its parentheses.
    pub args: Vec<Tok>,
    /// The return type; `None` when the signature has none.
    pub ret: Option<Vec<Tok>>,
    /// The body, braces included.
    pub body: Vec<Tok>,
}

pub struct FnShapeV {
    pub vis: Seq<TokV>,
    pub name: Seq<char>,
    pub args: Seq<TokV>,
    pub ret: Option<Seq<TokV>>,
    pub body: Seq<TokV>,
}

impl View for FnShape {
    type V = FnShapeV;

    open spec fn view(&self) -> FnShapeV {
        FnShapeV {
            vis: toks_view(self.vis@),
            name: self.name@,
            args: toks_view(self.args@),
            ret: match self.ret {
                Some(t) => Some(toks_view(t@)),
                None => None,
            },
            body: toks_view(self.body@),
        }
    }
}

/// What is printed before each case.
#[derive(Debug)]
pub enum Header {
    /// A template without a placeholder, printed as it is.
    Literal(Vec<char>),
    /// A format string with one placeholder, and the expression it formats.
    Formatted(Vec<char>, Vec<Tok>),
}

pub enum HeaderV {
    Literal(Seq<char>),
    Formatted(Seq<char>, Seq<TokV>),
}

impl View for Header {
    type V = HeaderV;

    open spec fn view(&self) -> HeaderV {
        match self {
            Header::Literal(s) => HeaderV::Literal(s@),
            Header::Formatted(f, a) => HeaderV::Formatted(f@, toks_view(a@)),
        }
    }
}

/// How a multicase template is to be printed, before its expression is
/// parsed.
#[derive(Debug)]
pub enum HeaderSource {
    /// No placeholder: the template is printed as it is.
    Literal(Vec<char>),
    /// The format string, and the source text of the expression.
    Placeholder(Vec<char>, Vec<char>),
}

pub open spec fn sym(c: char) -> TokV {
    TokV::Punct(c, false)
}

pub open spec fn joint(c: char) -> TokV {
    TokV::Punct(c, true)
}

pub open spec fn open(d: Delim) -> TokV {
    TokV::Open(d)
}

pub open spec fn close(d: Delim) -> TokV {
    TokV::Close(d)
}

pub open spec fn word(s: &str) -> TokV {
    TokV::Ident(s@)
}

/// The tokens `()`.
pub open spec fn unit_toks() -> Seq<TokV> {
    seq![open(Delim::Paren), close(Delim::Paren)]
}

/// A missing return type, or `()`, is the unit type.
pub open spec fn is_unit(ret: Option<Seq<TokV>>) -> bool {
    match ret {
        Some(t) => t == unit_toks(),
        None => true,
    }
}

pub open spec fn ret_type_toks(ret: Option<Seq<TokV>>) -> Seq<TokV> {
    match ret {
        Some(t) => t,
        None => unit_toks(),
    }
}

/// The segments of a path, separated by `::`.
pub open spec fn segments_toks(segs: Seq<Seq<char>>) -> Seq<TokV>
    decreases segs.len(),
{
    if segs.len() == 0 {
        seq![]
    } else if segs.len() == 1 {
        seq![TokV::Ident(segs[0])]
    } else {
        segments_toks(segs.drop_last()) + seq![joint(':'), sym(':'), TokV::Ident(segs.last())]
    }
}

pub open spec fn path_toks(p: PathV) -> Seq<TokV> {
    (if p.leading_colon {
        seq![joint(':'), sym(':')]
    } else {
        seq![]
    }) + segments_toks(p.segments)
}

/// The input facility used when none is configured: `proconio::input`.
pub open spec fn default_input() -> Seq<TokV> {
    seq![word("proconio"), joint(':'), sym(':'), word("input")]
}

pub open spec fn input_toks(input: Option<PathV>) -> Seq<TokV> {
    match input {
        Some(p) => path_toks(p),
        None => default_input(),
    }
}

/// `let ret = (|| -> RET { INPUT! { ARGS } BODY })();`: reads the
/// parameters and evaluates the body once.
pub open spec fn eval_stmt(f: FnShapeV, input: Seq<TokV>) -> Seq<TokV> {
    seq![
        word("let"),
        word("ret"),
        sym('='),
        open(Delim::Paren),
        joint('|'),
        sym('|'),
        joint('-'),
        sym('>'),
    ] + ret_type_toks(f.ret) + seq![open(Delim::Brace)] + input + seq![sym('!'), open(Delim::Brace)]
        + f.args + seq![close(Delim::Brace)] + f.body + seq![
        close(Delim::Brace),
        close(Delim::Paren),
        open(Delim::Paren),
        close(Delim::Paren),
        sym(';'),
    ]
}

/// `ret`, or `W(ret)` when the output wrapper `W` is configured.
pub open spec fn wrapped_result(output: Option<PathV>) -> Seq<TokV> {
    match output {
        Some(p) => path_toks(p) + seq![open(Delim::Paren), word("ret"), close(Delim::Paren)],
        None => seq![word("ret")],
    }
}

/// `println!("{}", RESULT);` for a function that returns a value, and
/// nothing for one that returns the unit type.
pub open spec fn print_stmt(f: FnShapeV, output: Option<PathV>) -> Seq<TokV> {
    if is_unit(f.ret) {
        seq![]
    } else {
        seq![
            word("println"),
            sym('!'),
            open(Delim::Paren),
            TokV::Str(seq!['{', '}']),
            sym(','),
        ] + wrapped_result(output) + seq![close(Delim::Paren), sym(';')]
    }
}

/// `print!(FORMAT, ARG);` or `print!(TEXT);`.
pub open spec fn header_stmt(h: HeaderV) -> Seq<TokV> {
    match h {
        HeaderV::Literal(s) => seq![
            word("print"),
            sym('!'),
            open(Delim::Paren),
            TokV::Str(s),
            close(Delim::Paren),
            sym(';'),
        ],
        HeaderV::Formatted(fmt, arg) => seq![
            word("print"),
            sym('!'),
            open(Delim::Paren),
            TokV::Str(fmt),
            sym(','),
        ] + arg + seq![close(Delim::Paren), sym(';')],
    }
}

/// `VIS fn NAME()`.
pub open spec fn fn_head(f: FnShapeV) -> Seq<TokV> {
    f.vis + seq![word("fn"), TokV::Ident(f.name), open(Delim::Paren), close(Delim::Paren)]
}

/// `INPUT! { cases: usize, }`: reads the number of cases.
pub open spec fn read_cases_stmt(input: Seq<TokV>) -> Seq<TokV> {
    input + seq![
        sym('!'),
        open(Delim::Brace),
        word("cases"),
        sym(':'),
        word("usize"),
        sym(','),
        close(Delim::Brace),
    ]
}

/// `for case_id in 0..cases`.
pub open spec fn case_loop_head() -> Seq<TokV> {
    seq![
        word("for"),
        word("case_id"),
        word("in"),
        TokV::Lit(seq!['0']),
        joint('.'),
        sym('.'),
        word("cases"),
    ]
}

/// What one case does: header, then input and evaluation, then the result.
pub open spec fn case_body(f: FnShapeV, input: Seq<TokV>, output: Option<PathV>, h: HeaderV) -> Seq<
    TokV,
> {
    header_stmt(h) + eval_stmt(f, input) + print_stmt(f, output)
}

/// The rewritten function: single-shot without a header, one case per loop
/// turn with one.
pub open spec fn generated(
    f: FnShapeV,
    input: Option<PathV>,
    output: Option<PathV>,
    header: Option<HeaderV>,
) -> Seq<TokV> {
    let inp = input_toks(input);
    match header {
        None => fn_head(f) + seq![open(Delim::Brace)] + eval_stmt(f, inp) + print_stmt(f, output)
            + seq![close(Delim::Brace)],
        Some(h) => fn_head(f) + seq![open(Delim::Brace)] + read_cases_stmt(inp) + case_loop_head()
            + seq![open(Delim::Brace)] + case_body(f, inp, output, h) + seq![
            close(Delim::Brace),
            close(Delim::Brace),
        ],
    }
}

pub open spec fn header_opt_view(h: Option<Header>) -> Option<HeaderV> {
    match h {
        Some(x) => Some(x@),
        None => None,
    }
}

fn push_tok(out: &mut Vec<Tok>, t: Tok)
    ensures
        toks_view(final(out)@) == toks_view(old(out)@).push(t@),
{
    let ghost before = out@;
    out.push(t);
    assert(toks_view(out@) =~= toks_view(before).push(t@));
}

fn push_word(out: &mut Vec<Tok>, s: &str)
    ensures
        toks_view(final(out)@) == toks_view(old(out)@).push(word(s)),
{
    push_tok(out, Tok::Ident(s.to_owned()));
}

fn push_sym(out: &mut Vec<Tok>, c: char)
    ensures
        toks_view(final(out)@) == toks_view(old(out)@).push(sym(c)),
{
    push_tok(out, Tok::Punct(c, false));
}

fn push_joint(out: &mut Vec<Tok>, c: char)
    ensures
        toks_view(final(out)@) == toks_view(old(out)@).push(joint(c)),
{
    push_tok(out, Tok::Punct(c, true));
}

/// The tokens of a path.
pub fn path_tokens(p: &PathRef) -> (r: Vec<Tok>)
    ensures
        toks_view(r@) == path_toks(p@),
{
    let mut r: Vec<Tok> = Vec::new();
    if p.leading_colon {
        push_joint(&mut r, ':');
        push_sym(&mut r, ':');
    }
    let ghost lead = toks_view(r@);
    let ghost segs = p@.segments;
    assert(segs.subrange(0, 0) =~= Seq::<Seq<char>>::empty());
    let mut k: usize = 0;
    while k < p.segments.len()
        invariant
            k <= p.segments.len(),
            segs == p@.segments,
            segs.len() == p.segments.len(),
            lead == (if p.leading_colon {
                seq![joint(':'), sym(':')]
            } else {
                Seq::<TokV>::empty()
            }),
            toks_view(r@) == lead + segments_toks(segs.subrange(0, k as int)),
        decreases p.segments.len() - k,
    {
        if k > 0 {
            push_joint(&mut r, ':');
            push_sym(&mut r, ':');
        }
        push_tok(&mut r, Tok::Ident(p.segments[k].clone()));
        proof {
            let next = segs.subrange(0, k + 1);
            assert(next.drop_last() =~= segs.subrange(0, k as int));
            assert(next.last() == p.segments@[k as int]@);
            if k == 0 {
                assert(next =~= seq![p.segments@[0]@]);
            }
        }
        k = k + 1;
        assert(toks_view(r@) =~= lead + segments_toks(segs.subrange(0, k as int)));
    }
    assert(segs.subrange(0, segs.len() as int) =~= segs);
    r
}

/// The tokens of the input facility: the configured path, or the default.
pub fn input_tokens(input: &Option<PathRef>) -> (r: Vec<Tok>)
    ensures
        toks_view(r@) == input_toks(path_opt(input)),
{
    match input {
        Some(p) => path_tokens(p),
        None => {
            let mut r: Vec<Tok> = Vec::new();
            push_word(&mut r, "proconio");
            push_joint(&mut r, ':');
            push_sym(&mut r, ':');
            push_word(&mut r, "input");
            assert(toks_view(r@) =~= default_input());
            r
        },
    }
}

pub open spec fn path_opt(p: &Option<PathRef>) -> Option<PathV> {
    match p {
        Some(q) => Some(q@),
        None => None,
    }
}

fn emit_eval(out: &mut Vec<Tok>, f: &FnShape, input: &Vec<Tok>)
    ensures
        toks_view(final(out)@) == toks_view(old(out)@) + eval_stmt(f@, toks_view(input@)),
{
    let ghost start = toks_view(out@);
    push_word(out, "let");
    push_word(out, "ret");
    push_sym(out, '=');
    push_tok(out, Tok::Open(Delim::Paren));
    push_joint(out, '|');
    push_sym(out, '|');
    push_joint(out, '-');
    push_sym(out, '>');
    match &f.ret {
        Some(t) => extend_toks(out, t),
        None => {
            push_tok(out, Tok::Open(Delim::Paren));
            push_tok(out, Tok::Close(Delim::Paren));
        },
    }
    let ghost mid = toks_view(out@);
    assert(mid =~= start + seq![
        word("let"),
        word("ret"),
        sym('='),
        open(Delim::Paren),
        joint('|'),
        sym('|'),
        joint('-'),
        sym('>'),
    ] + ret_type_toks(f@.ret));
    push_tok(out, Tok::Open(Delim::Brace));
    extend_toks(out, input);
    push_sym(out, '!');
    push_tok(out, Tok::Open(Delim::Brace));
    extend_toks(out, &f.args);
    push_tok(out, Tok::Close(Delim::Brace));
    extend_toks(out, &f.body);
    push_tok(out, Tok::Close(Delim::Brace));
    push_tok(out, Tok::Close(Delim::Paren));
    push_tok(out, Tok::Open(Delim::Paren));
    push_tok(out, Tok::Close(Delim::Paren));
    push_sym(out, ';');
    assert(toks_view(out@) =~= start + eval_stmt(f@, toks_view(input@)));
}

fn ret_is_unit(f: &FnShape) -> (r: bool)
    ensures
        r == is_unit(f@.ret),
{
    match &f.ret {
        None => true,
        Some(t) => {
            let u = t.len() == 2 && match (&t[0], &t[1]) {
                (Tok::Open(Delim::Paren), Tok::Close(Delim::Paren)) => true,
                _ => false,
            };
            proof {
                let tv = toks_view(t@);
                assert(tv.len() == t.len());
                if u {
                    assert(tv =~= unit_toks());
                } else if t.len() == 2 {
                    assert(tv[0] == t@[0]@);
                    assert(tv[1] == t@[1]@);
                    assert(tv != unit_toks()) by {
                        if tv == unit_toks() {
                            assert(tv[0] == open(Delim::Paren));
                            assert(tv[1] == close(Delim::Paren));
                        }
                    }
                } else {
                    assert(tv.len() != unit_toks().len());
                }
            }
            u
        },
    }
}

fn emit_print(out: &mut Vec<Tok>, f: &FnShape, output: &Option<PathRef>)
    ensures
        toks_view(final(out)@) == toks_view(old(out)@) + print_stmt(f@, path_opt(output)),
{
    let ghost start = toks_view(out@);
    if ret_is_unit(f) {
        assert(toks_view(out@) =~= start + print_stmt(f@, path_opt(output)));
        return;
    }
    push_word(out, "println");
    push_sym(out, '!');
    push_tok(out, Tok::Open(Delim::Paren));
    push_tok(out, Tok::Str(vec!['{', '}']));
    push_sym(out, ',');
    let ghost mid = toks_view(out@);
    match output {
        Some(p) => {
            let w = path_tokens(p);
            extend_toks(out, &w);
            push_tok(out, Tok::Open(Delim::Paren));
            push_word(out, "ret");
            push_tok(out, Tok::Close(Delim::Paren));
        },
        None => {
            push_word(out, "ret");
        },
    }
    assert(toks_view(out@) =~= mid + wrapped_result(path_opt(output)));
    push_tok(out, Tok::Close(Delim::Paren));
    push_sym(out, ';');
    assert(toks_view(out@) =~= start + print_stmt(f@, path_opt(output)));
}

fn emit_header(out: &mut Vec<Tok>, h: &Header)
    ensures
        toks_view(final(out)@) == toks_view(old(out)@) + header_stmt(h@),
{
    let ghost start = toks_view(out@);
    push_word(out, "print");
    push_sym(out, '!');
    push_tok(out, Tok::Open(Delim::Paren));
    match h {
        Header::Literal(s) => {
            push_tok(out, Tok::Str(copy_chars(s)));
        },
        Header::Formatted(fmt, arg) => {
            push_tok(out, Tok::Str(copy_chars(fmt)));
            push_sym(out, ',');
            extend_toks(out, arg);
        },
    }
    push_tok(out, Tok::Close(Delim::Paren));
    push_sym(out, ';');
    assert(toks_view(out@) =~= start + header_stmt(h@));
}

/// Builds the rewritten function: a function of the same name and
/// visibility, without parameters, that reads its parameters with the input
/// facility, evaluates the given body, and prints the result (wrapped
/// when an output wrapper is configured; not at all for the unit type).
/// With a header it first reads the number of cases and does all that once
/// per case, after printing the header.
pub fn rewrite(f: &FnShape, args: &AttrArgs, header: &Option<Header>) -> (r: Vec<Tok>)
    ensures
        toks_view(r@) == generated(f@, args@.input, args@.output, header_opt_view(*header)),
{
    let input = input_tokens(&args.input);
    let mut out: Vec<Tok> = Vec::new();
    extend_toks(&mut out, &f.vis);
    push_word(&mut out, "fn");
    push_tok(&mut out, Tok::Ident(f.name.clone()));
    push_tok(&mut out, Tok::Open(Delim::Paren));
    push_tok(&mut out, Tok::Close(Delim::Paren));
    push_tok(&mut out, Tok::Open(Delim::Brace));
    let ghost head = toks_view(out@);
    assert(head =~= fn_head(f@) + seq![open(Delim::Brace)]);
    assert(path_opt(&args.input) == args@.input);
    assert(path_opt(&args.output) == args@.output);
    match header {
        None => {
            emit_eval(&mut out, f, &input);
            emit_print(&mut out, f, &args.output);
            push_tok(&mut out, Tok::Close(Delim::Brace));
        },
        Some(h) => {
            extend_toks(&mut out, &input);
            push_sym(&mut out, '!');
            push_tok(&mut out, Tok::Open(Delim::Brace));
            push_word(&mut out, "cases");
            push_sym(&mut out, ':');
            push_word(&mut out, "usize");
            push_sym(&mut out, ',');
            push_tok(&mut out, Tok::Close(Delim::Brace));
            let ghost rc = toks_view(out@);
            assert(rc =~= head + read_cases_stmt(toks_view(input@)));
            push_word(&mut out, "for");
            push_word(&mut out, "case_id");
            push_word(&mut out, "in");
            proof {
                reveal_strlit("0");
                assert("0"@ =~= seq!['0']);
            }
            push_tok(&mut out, Tok::Lit("0".to_owned()));
            push_joint(&mut out, '.');
            push_sym(&mut out, '.');
            push_word(&mut out, "cases");
            push_tok(&mut out, Tok::Open(Delim::Brace));
            let ghost lh = toks_view(out@);
            assert(lh =~= rc + case_loop_head() + seq![open(Delim::Brace)]);
            emit_header(&mut out, h);
            emit_eval(&mut out, f, &input);
            emit_print(&mut out, f, &args.output);
            assert(toks_view(out@) =~= lh + case_body(f@, toks_view(input@), args@.output, h@));
            push_tok(&mut out, Tok::Close(Delim::Brace));
            push_tok(&mut out, Tok::Close(Delim::Brace));
        },
    }
    assert(toks_view(out@) =~= generated(f@, args@.input, args@.output, header_opt_view(*header)));
    out
}

fn append_chars(dst: &mut Vec<char>, src: &Vec<char>)
    ensures
        final(dst)@ == old(dst)@ + src@,
{
    let ghost start = dst@;
    let mut a: usize = 0;
    while a < src.len()
        invariant
            a <= src.len(),
            dst@ == start + src@.subrange(0, a as int),
        decreases src.len() - a,
    {
        dst.push(src[a]);
        a = a + 1;
        assert(dst@ =~= start + src@.subrange(0, a as int));
    }
    assert(src@.subrange(0, src.len() as int) =~= src@);
}

fn has_brace(t: &Vec<char>) -> (r: bool)
    ensures
        r == !lacks(t@, '{'),
{
    let mut k: usize = 0;
    while k < t.len()
        invariant
            k <= t.len(),
            forall|a: int| 0 <= a < k ==> t@[a] != '{',
        decreases t.len() - k,
    {
        if t[k] == '{' {
            return true;
        }
        k = k + 1;
    }
    false
}

/// The format string of a split template: `prefix{}suffix`, or
/// `prefix{:spec}suffix` with a format spec.
pub fn format_string(t: &Template) -> (r: Vec<char>)
    ensures
        r@ == t.format_spec(),
{
    let mut r = copy_chars(&t.prefix);
    r.push('{');
    match &t.spec {
        Some(sp) => {
            r.push(':');
            append_chars(&mut r, sp);
        },
        None => {},
    }
    r.push('}');
    append_chars(&mut r, &t.suffix);
    assert(r@ =~= t.format_spec());
    r
}

/// `template` splits with the expression `expr`, and `fmt` is its format
/// string.
pub open spec fn is_format_of(template: Seq<char>, fmt: Seq<char>, expr: Seq<char>) -> bool {
    exists|p: Seq<char>, sp: Option<Seq<char>>, x: Seq<char>|
        #[trigger] is_split(template, p, expr, sp, x) && fmt == p + braced_spec(sp) + x
}

/// The message of the parse error of `text` as an expression, or `None`
/// when it is one.
pub uninterp spec fn expr_parse_error(text: Seq<char>) -> Option<Seq<char>>;

/// Relies on syn's expression parser (`syn::parse_str::<syn::Expr>`):
/// whether `text` is one expression, and the parser's message when not.
#[verifier::external_body]
fn expression_error(text: &Vec<char>) -> (r: Option<Vec<char>>)
    ensures
        match r {
            Some(m) => expr_parse_error(text@) == Some(m@),
            None => expr_parse_error(text@) == None::<Seq<char>>,
        },
{
    let s: String = text.iter().collect();
    syn::parse_str::<syn::Expr>(&s).err().map(|e| e.to_string().chars().collect())
}

/// Why a multicase template cannot be used.
#[derive(Debug)]
pub enum HeaderError {
    /// The template has a `{` but not the shape `prefix{expr[:spec]}suffix`.
    InvalidFormat,
    /// The expression does not parse; the parser's message and the text,
    /// as `message: `expr``.
    BadExpression(Vec<char>),
}

/// The diagnostic for an expression that does not parse.
pub open spec fn expr_message(err: Seq<char>, expr: Seq<char>) -> Seq<char> {
    err + seq![':', ' ', '`'] + expr + seq!['`']
}

/// Decides how a multicase template is printed. A template without `{` is
/// printed as it is; one of the shape `prefix{expr[:spec]}suffix` whose
/// expression parses gives the format string `prefix{[:spec]}suffix` and the
/// expression's text. Any other template is an error.
pub fn plan_header(template: &Vec<char>) -> (r: Result<HeaderSource, HeaderError>)
    ensures
        r matches Ok(HeaderSource::Literal(s)) ==> lacks(template@, '{') && s@ == template@,
        r matches Ok(HeaderSource::Placeholder(fmt, e)) ==> !lacks(template@, '{')
            && is_format_of(template@, fmt@, e@) && expr_parse_error(e@) is None,
        r matches Err(HeaderError::BadExpression(m)) ==> exists|fmt: Seq<char>, e: Seq<char>|
            #[trigger] is_format_of(template@, fmt, e) && expr_parse_error(e) is Some
                && m@ == expr_message(expr_parse_error(e).unwrap(), e),
        r matches Err(HeaderError::InvalidFormat) ==> !lacks(template@, '{') && forall|
            p: Seq<char>,
            e: Seq<char>,
            sp: Option<Seq<char>>,
            x: Seq<char>,
        | !is_split(template@, p, e, sp, x),
{
    if !has_brace(template) {
        return Ok(HeaderSource::Literal(copy_chars(template)));
    }
    match split_template(template) {
        Some(t) => {
            let fmt = format_string(&t);
            let e = copy_chars(&t.expr);
            assert(is_split(template@, t.prefix@, e@, opt_view(t.spec), t.suffix@));
            assert(is_format_of(template@, fmt@, e@));
            match expression_error(&e) {
                Some(err) => {
                    let mut m = err;
                    m.push(':');
                    m.push(' ');
                    m.push('`');
                    append_chars(&mut m, &e);
                    m.push('`');
                    assert(m@ =~= expr_message(expr_parse_error(e@).unwrap(), e@));
                    Err(HeaderError::BadExpression(m))
                },
                None => Ok(HeaderSource::Placeholder(fmt, e)),
            }
        },
        None => Err(HeaderError::InvalidFormat),
    }
}

/// The header of a placeholder template, once its expression is parsed into
/// tokens: every free-standing `i` in it now names the loop's case index.
pub fn formatted_header(format: Vec<char>, expr: &Vec<Tok>) -> (r: Header)
    ensures
        r@ == HeaderV::Formatted(format@, substituted(toks_view(expr@), "case_id"@)),
{
    let arg = substitute_case_index(expr, &"case_id".to_owned());
    Header::Formatted(format, arg)
}

/// A function that returns a value, rewritten without `multicase`, evaluates
/// the given body on the input once and then prints one line: the result,
/// or the configured wrapper applied to it. Nothing else is printed.
pub proof fn lemma_single_shot_prints_result(
    f: FnShapeV,
    input: Option<PathV>,
    output: Option<PathV>,
)
    requires
        !is_unit(f.ret),
    ensures
        generated(f, input, output, None) == fn_head(f) + seq![open(Delim::Brace)] + eval_stmt(
            f,
            input_toks(input),
        ) + seq![word("println"), sym('!'), open(Delim::Paren), TokV::Str(seq!['{', '}']), sym(',')]
            + wrapped_result(output) + seq![
            close(Delim::Paren),
            sym(';'),
            close(Delim::Brace),
        ],
        output is None ==> wrapped_result(output) == seq![word("ret")],
{
    let inp = input_toks(input);
    assert(generated(f, input, output, None) =~= fn_head(f) + seq![open(Delim::Brace)] + eval_stmt(
        f,
        inp,
    ) + seq![word("println"), sym('!'), open(Delim::Paren), TokV::Str(seq!['{', '}']), sym(',')]
        + wrapped_result(output) + seq![close(Delim::Paren), sym(';'), close(Delim::Brace)]);
}

/// A function that returns the unit type is never followed by a print of
/// its result, in either mode.
pub proof fn lemma_unit_prints_nothing(
    f: FnShapeV,
    input: Option<PathV>,
    output: Option<PathV>,
    header: Option<HeaderV>,
)
    requires
        is_unit(f.ret),
    ensures
        print_stmt(f, output) == Seq::<TokV>::empty(),
        header is None ==> generated(f, input, output, header) == fn_head(f) + seq![
            open(Delim::Brace),
        ] + eval_stmt(f, input_toks(input)) + seq![close(Delim::Brace)],
        header matches Some(h) ==> case_body(f, input_toks(input), output, h) == header_stmt(h)
            + eval_stmt(f, input_toks(input)),
{
    let inp = input_toks(input);
    assert(eval_stmt(f, inp) + Seq::<TokV>::empty() =~= eval_stmt(f, inp));
    if let Some(h) = header {
        assert(header_stmt(h) + eval_stmt(f, inp) + Seq::<TokV>::empty() =~= header_stmt(h)
            + eval_stmt(f, inp));
    }
}

/// In multicase mode the function first reads the unsigned count `cases`,
/// before any parameter, and then runs one loop turn per case over
/// `0..cases` (none when it is 0); each turn prints the header, reads the
/// parameters afresh, evaluates the body and prints its result.
pub proof fn lemma_multicase_reads_count_first(
    f: FnShapeV,
    input: Option<PathV>,
    output: Option<PathV>,
    h: HeaderV,
)
    ensures
        generated(f, input, output, Some(h)) == fn_head(f) + seq![open(Delim::Brace)]
            + read_cases_stmt(input_toks(input)) + case_loop_head() + seq![open(Delim::Brace)]
            + header_stmt(h) + eval_stmt(f, input_toks(input)) + print_stmt(f, output) + seq![
            close(Delim::Brace),
            close(Delim::Brace),
        ],
        read_cases_stmt(input_toks(input)) == input_toks(input) + seq![
            sym('!'),
            open(Delim::Brace),
            word("cases"),
            sym(':'),
            word("usize"),
            sym(','),
            close(Delim::Brace),
        ],
{
    let inp = input_toks(input);
    assert(generated(f, input, output, Some(h)) =~= fn_head(f) + seq![open(Delim::Brace)]
        + read_cases_stmt(inp) + case_loop_head() + seq![open(Delim::Brace)] + header_stmt(h)
        + eval_stmt(f, inp) + print_stmt(f, output) + seq![close(Delim::Brace), close(Delim::Brace)]);
}

/// Round trip through the template decomposer: for a template
/// `prefix{expr}suffix` the format string is `prefix{}suffix`, and for
/// `prefix{expr:spec}suffix` it is `prefix{:spec}suffix`; the expression
/// taken out is `expr`, and no other format string or expression fits.
pub proof fn lemma_template_round_trip(
    prefix: Seq<char>,
    expr: Seq<char>,
    spec: Option<Seq<char>>,
    suffix: Seq<char>,
    fmt: Seq<char>,
    e: Seq<char>,
)
    requires
        lacks(prefix, '{'),
        expr.len() > 0,
        lacks(expr, ':'),
        lacks(expr, '}'),
        spec matches Some(t) ==> t.len() > 0 && lacks(t, '}'),
        lacks(suffix, '\n'),
    ensures
        is_format_of(composed(prefix, expr, spec, suffix), prefix + braced_spec(spec) + suffix, expr),
        is_format_of(composed(prefix, expr, spec, suffix), fmt, e) ==> fmt == prefix + braced_spec(
            spec,
        ) + suffix && e == expr,
        spec is None ==> braced_spec(spec) == seq!['{', '}'],
        spec matches Some(t) ==> braced_spec(spec) == seq!['{', ':'] + t + seq!['}'],
{
    let s = composed(prefix, expr, spec, suffix);
    assert(is_split(s, prefix, expr, spec, suffix));
    if is_format_of(s, fmt, e) {
        let (p, sp, x) = choose|p: Seq<char>, sp: Option<Seq<char>>, x: Seq<char>|
            #[trigger] is_split(s, p, e, sp, x) && fmt == p + braced_spec(sp) + x;
        lemma_split_unique(s, prefix, expr, spec, suffix, p, e, sp, x);
    }
}

} // verus!
