use argio::attr::{error_text, parse_attr, AttrErrorKind};
use argio::rewrite::{
    formatted_header, plan_header, rewrite, FnShape, Header, HeaderError, HeaderSource,
};
use argio::subst::substitute_case_index;
use argio::template::split_template;
use argio::token::{Delim, Tok};
use proc_macro2::{Delimiter, Group, Ident, Literal, Punct, Spacing, Span, TokenStream, TokenTree};
use quote::ToTokens;

fn flatten_into(ts: TokenStream, out: &mut Vec<Tok>) {
    for tt in ts {
        match tt {
            TokenTree::Ident(i) => out.push(Tok::Ident(i.to_string())),
            TokenTree::Punct(p) => out.push(Tok::Punct(p.as_char(), p.spacing() == Spacing::Joint)),
            TokenTree::Literal(l) => out.push(Tok::Lit(l.to_string())),
            TokenTree::Group(g) => {
                let d = match g.delimiter() {
                    Delimiter::Parenthesis => Delim::Paren,
                    Delimiter::Brace => Delim::Brace,
                    Delimiter::Bracket => Delim::Bracket,
                    Delimiter::None => Delim::Invisible,
                };
                out.push(Tok::Open(d));
                flatten_into(g.stream(), out);
                out.push(Tok::Close(d));
            }
        }
    }
}

fn flatten(ts: TokenStream) -> Vec<Tok> {
    let mut out = Vec::new();
    flatten_into(ts, &mut out);
    out
}

fn toks(src: &str) -> Vec<Tok> {
    flatten(src.parse().unwrap())
}

fn assemble(toks: &[Tok]) -> TokenStream {
    let mut stack: Vec<(Delimiter, Vec<TokenTree>)> = vec![(Delimiter::None, Vec::new())];
    for t in toks {
        let tree = match t {
            Tok::Ident(s) => TokenTree::Ident(Ident::new(s, Span::call_site())),
            Tok::Punct(c, j) => {
                let sp = if *j { Spacing::Joint } else { Spacing::Alone };
                TokenTree::Punct(Punct::new(*c, sp))
            }
            Tok::Lit(s) => TokenTree::Literal(s.parse::<Literal>().unwrap()),
            Tok::Str(v) => TokenTree::Literal(Literal::string(&v.iter().collect::<String>())),
            Tok::Open(d) => {
                let d = match d {
                    Delim::Paren => Delimiter::Parenthesis,
                    Delim::Brace => Delimiter::Brace,
                    Delim::Bracket => Delimiter::Bracket,
                    Delim::Invisible => Delimiter::None,
                };
                stack.push((d, Vec::new()));
                continue;
            }
            Tok::Close(_) => {
                let (d, inner) = stack.pop().unwrap();
                TokenTree::Group(Group::new(d, inner.into_iter().collect()))
            }
        };
        stack.last_mut().unwrap().1.push(tree);
    }
    stack.pop().unwrap().1.into_iter().collect()
}

fn text(toks: &[Tok]) -> String {
    assemble(toks).to_string()
}

fn same_code(got: &[Tok], expected: &str) {
    assert_eq!(text(got), expected.parse::<TokenStream>().unwrap().to_string());
}

fn chars(s: &str) -> Vec<char> {
    s.chars().collect()
}

fn string(v: &[char]) -> String {
    v.iter().collect()
}

fn shape(src: &str) -> FnShape {
    let f: syn::ItemFn = syn::parse_str(src).unwrap();
    FnShape {
        vis: flatten(f.vis.to_token_stream()),
        name: f.sig.ident.to_string(),
        args: flatten(f.sig.inputs.to_token_stream()),
        ret: match &f.sig.output {
            syn::ReturnType::Default => None,
            syn::ReturnType::Type(_, ty) => Some(flatten(ty.to_token_stream())),
        },
        body: flatten(f.block.to_token_stream()),
    }
}

/// Runs the whole rewriting on source text, as the attribute does.
fn expand(attr: &str, item: &str) -> Result<String, String> {
    let attr_toks = toks(attr);
    let args = parse_attr(&attr_toks).map_err(|e| error_text(&attr_toks, e))?;
    let header = match &args.multicase {
        None => None,
        Some(m) => Some(match plan_header(&m.template) {
            Err(HeaderError::InvalidFormat) => return Err("Invalid multicase format".to_string()),
            Err(HeaderError::BadExpression(msg)) => return Err(string(&msg)),
            Ok(HeaderSource::Literal(s)) => Header::Literal(s),
            Ok(HeaderSource::Placeholder(fmt, expr)) => {
                let e: syn::Expr = syn::parse_str(&string(&expr)).unwrap();
                formatted_header(fmt, &flatten(e.to_token_stream()))
            }
        }),
    };
    Ok(text(&rewrite(&shape(item), &args, &header)))
}

fn code(src: &str) -> String {
    src.parse::<TokenStream>().unwrap().to_string()
}

#[test]
fn unknown_option_is_named() {
    let t = toks("foo = bar");
    let e = parse_attr(&t).unwrap_err();
    assert_eq!(e.kind, AttrErrorKind::InvalidAttr);
    assert_eq!(e.at, 0);
    assert!(error_text(&t, e).contains("argio: invalid attr: foo"));
    assert_eq!(error_text(&t, e), "argio: invalid attr: foo");
}

#[test]
fn empty_attr_has_no_options() {
    let a = parse_attr(&Vec::new()).unwrap();
    assert!(a.multicase.is_none());
    assert!(a.input.is_none());
    assert!(a.output.is_none());
}

#[test]
fn bare_multicase_uses_default_template() {
    let a = parse_attr(&toks("multicase")).unwrap();
    let m = a.multicase.unwrap();
    assert_eq!(string(&m.template), "Case #{i+1}: ");
    assert_eq!(m.at, 1);
}

#[test]
fn multicase_string_is_unescaped() {
    let a = parse_attr(&toks(r#"multicase = "a\tb{i}", output = Wrap,"#)).unwrap();
    let m = a.multicase.unwrap();
    assert_eq!(string(&m.template), "a\tb{i}");
    assert_eq!(m.at, 2);
    let out = a.output.unwrap();
    assert_eq!(out.segments, vec!["Wrap".to_string()]);
    assert!(!out.leading_colon);
}

#[test]
fn input_path_with_segments() {
    let a = parse_attr(&toks("output = W, input = ::my::read")).unwrap();
    let p = a.input.unwrap();
    assert!(p.leading_colon);
    assert_eq!(p.segments, vec!["my".to_string(), "read".to_string()]);
    assert_eq!(a.output.unwrap().segments, vec!["W".to_string()]);
}

#[test]
fn attr_errors() {
    let cases: Vec<(&str, AttrErrorKind, usize)> = vec![
        ("multicase, multicase", AttrErrorKind::DuplicateAttr, 2),
        ("output W", AttrErrorKind::ExpectedEq, 1),
        ("multicase = 3", AttrErrorKind::ExpectedString, 2),
        ("input = , output = W", AttrErrorKind::ExpectedIdent, 2),
        ("input = a::", AttrErrorKind::ExpectedIdent, 5),
        ("multicase x", AttrErrorKind::UnexpectedToken, 1),
        ("output = W, 7", AttrErrorKind::UnexpectedToken, 4),
    ];
    for (src, kind, at) in cases {
        let e = parse_attr(&toks(src)).unwrap_err();
        assert_eq!((e.kind, e.at), (kind, at), "{}", src);
    }
    let t = toks("multicase, multicase");
    let e = parse_attr(&t).unwrap_err();
    assert_eq!(error_text(&t, e), "argio: duplicate attr: multicase");
}

#[test]
fn template_split_without_spec() {
    let t = split_template(&chars("Case #{i+1}: ")).unwrap();
    assert_eq!(string(&t.prefix), "Case #");
    assert_eq!(string(&t.expr), "i+1");
    assert!(t.spec.is_none());
    assert_eq!(string(&t.suffix), ": ");
}

#[test]
fn template_split_with_spec() {
    let t = split_template(&chars("#{i:03}!")).unwrap();
    assert_eq!(string(&t.prefix), "#");
    assert_eq!(string(&t.expr), "i");
    assert_eq!(string(t.spec.as_ref().unwrap()), "03");
    assert_eq!(string(&t.suffix), "!");
}

#[test]
fn template_shapes_rejected() {
    for s in ["no brace", "a{}b", "a{:x}", "a{i", "a{i:}", "a{i}\nb", "{i:x"] {
        assert!(split_template(&chars(s)).is_none(), "{}", s);
    }
}

#[test]
fn header_round_trip() {
    match plan_header(&chars("Case #{i+1}: ")).unwrap() {
        HeaderSource::Placeholder(fmt, e) => {
            assert_eq!(string(&fmt), "Case #{}: ");
            assert_eq!(string(&e), "i+1");
        }
        HeaderSource::Literal(_) => panic!("expected a placeholder"),
    }
    match plan_header(&chars("x{i:>4}y")).unwrap() {
        HeaderSource::Placeholder(fmt, e) => {
            assert_eq!(string(&fmt), "x{:>4}y");
            assert_eq!(string(&e), "i");
        }
        HeaderSource::Literal(_) => panic!("expected a placeholder"),
    }
}

#[test]
fn header_without_brace_is_literal() {
    match plan_header(&chars("Case: ")).unwrap() {
        HeaderSource::Literal(s) => assert_eq!(string(&s), "Case: "),
        HeaderSource::Placeholder(..) => panic!("expected a literal"),
    }
    assert!(matches!(plan_header(&chars("Case {}")), Err(HeaderError::InvalidFormat)));
}

#[test]
fn substitution_renames_free_index_only() {
    let name = "k".to_string();
    let cases = [
        ("i", "k"),
        ("i + 1", "k + 1"),
        ("f(i)", "f(k)"),
        ("i.field", "k.field"),
        ("item + i", "item + k"),
        ("a.i + i", "a.i + k"),
        ("x::i", "x::i"),
        ("0..i", "0..k"),
    ];
    for (src, expected) in cases {
        let got = substitute_case_index(&toks(src), &name);
        assert_eq!(text(&got), code(expected), "{}", src);
    }
}

#[test]
fn single_shot_doubles() {
    let got = expand("", "fn main(n: i32) -> i32 { n * 2 }").unwrap();
    let expected = code(
        r#"fn main() {
            let ret = (|| -> i32 { proconio::input! { n: i32 } { n * 2 } })();
            println!("{}", ret);
        }"#,
    );
    assert_eq!(got, expected);
}

#[test]
fn unit_return_prints_nothing() {
    let got = expand("", "pub fn main(n: usize) { work(n); }").unwrap();
    let expected = code(
        r#"pub fn main() {
            let ret = (|| -> () { proconio::input! { n: usize } { work(n); } })();
        }"#,
    );
    assert_eq!(got, expected);
    let got = expand("multicase", "fn main(n: usize) -> () { work(n); }").unwrap();
    assert!(!got.contains("println"));
}

#[test]
fn multicase_with_wrapper() {
    let got = expand(
        r#"multicase = "Case #{i+1}: ", output = Wrap"#,
        "fn main(n: usize) -> Vec<usize> { (0..n).map(|i| i * 2).collect() }",
    )
    .unwrap();
    let expected = code(
        r#"fn main() {
            proconio::input! { cases: usize, }
            for case_id in 0..cases {
                print!("Case #{}: ", case_id + 1);
                let ret = (|| -> Vec<usize> {
                    proconio::input! { n: usize }
                    { (0..n).map(|i| i * 2).collect() }
                })();
                println!("{}", Wrap(ret));
            }
        }"#,
    );
    assert_eq!(got, expected);
}

#[test]
fn multicase_literal_header_and_custom_input() {
    let got = expand(
        r#"multicase = "--", input = my::read"#,
        "fn main(n: usize, x: [i64; n]) -> i64 { x.into_iter().sum() }",
    )
    .unwrap();
    let expected = code(
        r#"fn main() {
            my::read! { cases: usize, }
            for case_id in 0..cases {
                print!("--");
                let ret = (|| -> i64 { my::read! { n: usize, x: [i64; n] } { x.into_iter().sum() } })();
                println!("{}", ret);
            }
        }"#,
    );
    assert_eq!(got, expected);
}

#[test]
fn bad_template_and_expression() {
    assert_eq!(
        expand(r#"multicase = "Case {}""#, "fn main() {}").unwrap_err(),
        "Invalid multicase format"
    );
    let msg = expand(r#"multicase = "{i+}""#, "fn main() {}").unwrap_err();
    assert!(msg.ends_with(": `i+`"), "{}", msg);
    assert!(msg.len() > ": `i+`".len());
    match plan_header(&chars("x{1 2}")) {
        Err(HeaderError::BadExpression(m)) => assert!(string(&m).ends_with(": `1 2`")),
        _ => panic!("expected a parse error"),
    }
}

#[test]
fn spec_format_is_kept() {
    let got = expand(r#"multicase = "N{i:02} ""#, "fn main(n: u8) -> u8 { n }").unwrap();
    assert!(got.contains(&code(r#"print!("N{:02} ", case_id);"#)));
}
