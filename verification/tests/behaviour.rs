use std::str::FromStr;

use rstml::diagnostic::{Diagnostic, Level};
use rstml::node::{Node, NodeAttribute, NodeName, NodeType};
use rstml::node::atoms::{CloseTagStart, FragmentClose};
use rstml::node::value::NodeValueExpr;
use rstml::node::RawText;
use rstml::recoverable::{NoTransform, ParsingResult, Recoverable, RecoverableContext, RecoveryConfig};
use rstml::token::{Delimiter, Group, Ident, Literal, Punct, Spacing, Span, TokenStream, TokenTree};
use rstml::{parse2, Parser, ParserConfig};

fn conv_span(s: proc_macro2::Span, src: Option<&str>) -> Span {
    match src {
        Some(text) => {
            let r = s.byte_range();
            Span { lo: text[..r.start].chars().count(), hi: text[..r.end].chars().count() }
        }
        None => Span { lo: 0, hi: 0 },
    }
}

fn conv_trees(ts: proc_macro2::TokenStream, src: Option<&str>) -> Vec<TokenTree> {
    ts.into_iter()
        .map(|t| match t {
            proc_macro2::TokenTree::Group(g) => TokenTree::Group(Group {
                delimiter: match g.delimiter() {
                    proc_macro2::Delimiter::Parenthesis => Delimiter::Parenthesis,
                    proc_macro2::Delimiter::Brace => Delimiter::Brace,
                    proc_macro2::Delimiter::Bracket => Delimiter::Bracket,
                    proc_macro2::Delimiter::None => Delimiter::Invisible,
                },
                stream: conv_trees(g.stream(), src),
                span_open: conv_span(g.span_open(), src),
                span_close: conv_span(g.span_close(), src),
            }),
            proc_macro2::TokenTree::Ident(i) => {
                TokenTree::Ident(Ident { text: i.to_string(), span: conv_span(i.span(), src) })
            }
            proc_macro2::TokenTree::Punct(p) => TokenTree::Punct(Punct {
                ch: p.as_char(),
                spacing: match p.spacing() {
                    proc_macro2::Spacing::Joint => Spacing::Joint,
                    proc_macro2::Spacing::Alone => Spacing::Alone,
                },
                span: conv_span(p.span(), src),
            }),
            proc_macro2::TokenTree::Literal(l) => {
                TokenTree::Literal(Literal { repr: l.to_string(), span: conv_span(l.span(), src) })
            }
        })
        .collect()
}

/// Tokens lexed from `src`, with their source text and places.
fn from_source(src: &str) -> TokenStream {
    let ts = proc_macro2::TokenStream::from_str(src).expect("Parsing error");
    TokenStream { trees: conv_trees(ts, Some(src)), source: Some(src.to_string()) }
}

/// Tokens lexed from `src` with no source text and no places, as a macro
/// such as `quote!` writes them.
fn quoted(src: &str) -> TokenStream {
    let ts = proc_macro2::TokenStream::from_str(src).expect("Parsing error");
    TokenStream { trees: conv_trees(ts, None), source: None }
}

fn errors_of(source: &str, config: ParserConfig<NoTransform>) -> (Vec<Node>, Vec<Diagnostic>) {
    Parser::new(config).parse_recoverable(quoted(source)).split_vec()
}

fn messages(errors: &[Diagnostic]) -> Vec<String> {
    errors.iter().map(|d| d.message.clone()).collect()
}

fn empty_context() -> RecoverableContext<NoTransform> {
    RecoverableContext::new(RecoveryConfig {
        recover_block: false,
        always_self_closed_elements: Vec::new(),
        raw_text_elements: Vec::new(),
        transform_block: None,
    })
}

#[test]
fn result_kind_follows_parts() {
    let ok: ParsingResult<u8> = ParsingResult::from_parts(Some(1), Vec::new());
    assert!(matches!(ok, ParsingResult::Complete(1)));
    let partial: ParsingResult<u8> =
        ParsingResult::from_parts(Some(1), vec![Diagnostic::new(Level::Error, "e")]);
    assert!(matches!(partial, ParsingResult::Partial(1, _)));
    let failed: ParsingResult<u8> = ParsingResult::from_parts(None, Vec::new());
    assert!(matches!(failed, ParsingResult::Failed(_)));
}

#[test]
fn split_gives_back_the_parts() {
    let r: ParsingResult<u8> = ParsingResult::from_parts(Some(7), vec![Diagnostic::new(Level::Warning, "w")]);
    let (v, e) = r.split();
    assert_eq!(v, Some(7));
    assert_eq!(e.len(), 1);
    assert_eq!(e[0].message, "w");
    let r: ParsingResult<Vec<u8>> = ParsingResult::from_parts(None, vec![Diagnostic::new(Level::Error, "x")]);
    let (v, e) = r.split_vec();
    assert!(v.is_empty());
    assert_eq!(e[0].message, "x");
}

#[test]
fn into_result_of_failed_without_errors() {
    let r: ParsingResult<u8> = ParsingResult::from_parts(None, Vec::new());
    let e = r.into_result().unwrap_err();
    assert_eq!(e.message, "Object parsing failed, but no additional info was provided");
    assert_eq!(e.level, Level::Error);
    assert!(e.span.is_none());
}

#[test]
fn into_result_takes_the_first_error() {
    let r: ParsingResult<u8> = ParsingResult::from_parts(
        Some(3),
        vec![Diagnostic::new(Level::Error, "first"), Diagnostic::new(Level::Error, "second")],
    );
    assert_eq!(r.into_result().unwrap_err().message, "first");
    let r: ParsingResult<u8> = ParsingResult::from_result(Err(Diagnostic::new(Level::Error, "bad")));
    assert!(matches!(r, ParsingResult::Failed(ref e) if e.len() == 1));
}

#[test]
fn empty_input_gives_no_nodes() {
    let e = parse2(quoted("")).unwrap_err();
    assert_eq!(e.message, "Object parsing failed, but no additional info was provided");
}

#[test]
fn flattened_nodes_have_no_children() {
    let nodes = Parser::new(ParserConfig::new().flat_tree())
        .parse_simple(quoted(r#"<a><b>"x"<c/></b><>{y}</></a>"#))
        .unwrap();
    assert_eq!(nodes.len(), 6);
    for n in &nodes {
        assert!(n.children().map(|c| c.is_empty()).unwrap_or(true));
    }
    let types: Vec<NodeType> = nodes.iter().map(|n| n.node_type()).collect();
    assert_eq!(
        types,
        vec![NodeType::Element, NodeType::Element, NodeType::Text, NodeType::Element, NodeType::Fragment, NodeType::Block]
    );
}

#[test]
fn flatten_lists_node_then_descendants() {
    let nodes = parse2(quoted("<a><b/><c><d/></c></a>")).unwrap();
    let flat = nodes.into_iter().next().unwrap().flatten();
    let names: Vec<String> = flat
        .iter()
        .map(|n| match n {
            Node::Element(e) => e.name().to_string(),
            _ => String::new(),
        })
        .collect();
    assert_eq!(names, vec!["a", "b", "c", "d"]);
}

#[test]
fn required_type_holds_for_every_top_level_node() {
    let nodes = Parser::new(ParserConfig::new().type_of_top_level_nodes(NodeType::Element))
        .parse_simple(quoted("<a/> <c></c> <b></b>"))
        .unwrap();
    assert_eq!(nodes.len(), 3);
    assert!(nodes.iter().all(|n| n.node_type() == NodeType::Element));
    let e = Parser::new(ParserConfig::new().type_of_top_level_nodes(NodeType::Element))
        .parse_simple(quoted("<a/> <!DOCTYPE html> <b></b>"))
        .unwrap_err();
    assert_eq!(e.message, "top level nodes need to be of type NodeType::Element");
}

#[test]
fn wrong_top_level_type_is_reported() {
    let (nodes, errors) = errors_of(r#""foo""#, ParserConfig::new().type_of_top_level_nodes(NodeType::Element));
    assert!(nodes.is_empty());
    assert_eq!(messages(&errors), vec!["unexpected end of input, top level nodes need to be of type NodeType::Element"]);
    assert_eq!(NodeType::Fragment.to_string(), "NodeType::Fragment");
}

#[test]
fn wrong_number_of_top_level_nodes_is_reported() {
    let (nodes, errors) = errors_of("<a/> <b/> <c/>", ParserConfig::new().number_of_top_level_nodes(2));
    assert_eq!(nodes.len(), 3);
    assert_eq!(messages(&errors), vec!["unexpected end of input, saw 3 top level nodes but exactly 2 are required"]);
    let (_, errors) = errors_of(
        "<a/> <b/> <c/> <d/> <e/> <f/> <g/> <h/> <i/> <j/> <k/> <l/>",
        ParserConfig::new().number_of_top_level_nodes(10),
    );
    assert_eq!(messages(&errors), vec!["unexpected end of input, saw 12 top level nodes but exactly 10 are required"]);
}

#[test]
fn failed_node_is_reported() {
    let (nodes, errors) = errors_of("<!DOCTYPE html", ParserConfig::new());
    assert!(nodes.is_empty());
    assert_eq!(messages(&errors), vec!["unexpected end of input, BUG: Node parse failed"]);
    let (_, errors) = errors_of("<!foo", ParserConfig::new());
    assert_eq!(
        messages(&errors),
        vec!["unexpected end of input, expected Doctype", "unexpected end of input, BUG: Node parse failed"]
    );
}

#[test]
fn doctype_keyword_in_any_case() {
    let nodes = parse2(quoted("<!doctype html>")).unwrap();
    assert!(matches!(nodes[0], Node::Doctype(_)));
    assert_eq!(nodes[0].node_type(), NodeType::Doctype);
    let nodes = parse2(quoted("<!DocType html>")).unwrap();
    let Node::Doctype(d) = &nodes[0] else { panic!("expected doctype") };
    assert_eq!(d.value.to_token_stream_string(), "html");
}

#[test]
fn keyword_after_bang_is_not_a_doctype() {
    // `type` is a keyword, so `<!type` starts a comment, which needs `--`.
    let t = quoted("<!type").trees;
    let mut pos = 0;
    let e = Recoverable::<Node>::parse(&t, &mut pos).unwrap_err();
    assert_eq!(e.message, "expected `-`");
    assert_eq!(pos, 2);
}

#[test]
fn wrong_close_tag_is_reported() {
    let (nodes, errors) = errors_of("<a></b>", ParserConfig::new());
    assert_eq!(nodes.len(), 1);
    assert_eq!(messages(&errors), vec!["wrong close tag found"]);
    assert_eq!(errors[0].children.len(), 1);
    assert_eq!(errors[0].children[0].level, Level::Help);
    assert_eq!(errors[0].children[0].message, "open tag that should be closed started there");
}

#[test]
fn missing_close_tag_is_reported() {
    let (nodes, errors) = errors_of(r#"<a> "x""#, ParserConfig::new());
    assert_eq!(nodes.len(), 1);
    let Node::Element(e) = &nodes[0] else { panic!("expected element") };
    assert_eq!(e.children.len(), 1);
    assert!(e.close_tag.is_none());
    assert_eq!(messages(&errors), vec!["open tag has no corresponding close tag and is not self-closing"]);
    assert_eq!(errors[0].children[0].message, "treating all inputs after open tag as it content");
    assert_eq!(errors[0].children[0].level, Level::Note);
    let (_, errors) = errors_of("<a>", ParserConfig::new());
    assert!(errors[0].children.is_empty());
}

#[test]
fn close_tag_in_place_of_open_tag_is_reported() {
    let (nodes, errors) = errors_of("</a>", ParserConfig::new());
    assert_eq!(nodes.len(), 1);
    assert_eq!(
        messages(&errors),
        vec!["close tag was parsed while waiting for open tag", "open tag has no corresponding close tag and is not self-closing"]
    );
}

#[test]
fn unterminated_open_tag_is_reported() {
    let (nodes, errors) = errors_of("<a b", ParserConfig::new());
    assert!(nodes.is_empty());
    assert_eq!(messages(&errors), vec!["expected end of tag '>'", "unexpected end of input, BUG: Node parse failed"]);
}

#[test]
fn ignored_tokens_in_tag_are_reported() {
    let (nodes, errors) = errors_of("<a b=1 , c/>", ParserConfig::new());
    assert_eq!(nodes.len(), 1);
    assert_eq!(messages(&errors), vec!["invalid tag name or attribute key", "tokens was ignored during parsing"]);
}

#[test]
fn attribute_value_errors() {
    let (_, errors) = errors_of("<a b=, />", ParserConfig::new());
    assert_eq!(messages(&errors)[0], "expected an expression");
    let (_, errors) = errors_of("<a b=x+ />", ParserConfig::new());
    assert_eq!(messages(&errors)[0], "failed to parse expression: unexpected end of input, expected an expression");
    let (_, errors) = errors_of("<a b= />", ParserConfig::new());
    assert_eq!(messages(&errors)[0], "missing attribute value");
}

#[test]
fn attribute_value_reaches_as_far_as_the_expression() {
    let nodes = parse2(quoted("<a b=x+1 c=f(2) d />")).unwrap();
    let Node::Element(e) = &nodes[0] else { panic!("expected element") };
    assert_eq!(e.attributes().len(), 3);
    let NodeAttribute::Attribute(b) = &e.attributes()[0] else { panic!("expected attribute") };
    assert_eq!(b.value.as_ref().unwrap().len(), 3);
    let NodeAttribute::Attribute(d) = &e.attributes()[2] else { panic!("expected attribute") };
    assert!(d.value.is_none());
    assert!(d.token_eq.is_none());
}

#[test]
fn invalid_block_without_recovery_fails() {
    let t = quoted("{x.}").trees;
    let mut pos = 0;
    let e = Recoverable::<Node>::parse(&t, &mut pos).unwrap_err();
    assert!(e.message.starts_with("unexpected end of input, expected"));
    assert_eq!(pos, 0);
    let t = quoted("{x + 1}").trees;
    let mut pos = 0;
    let Node::Block(b) = Recoverable::<Node>::parse(&t, &mut pos).unwrap().inner() else { panic!("expected block") };
    assert!(b.try_block().is_some());
    assert!(b.into_block().is_ok());
}

#[test]
fn block_names_compare_by_their_statements() {
    let (_, errors) = errors_of("<{a + 1}></{a+1}>", ParserConfig::new());
    assert!(errors.is_empty());
    let (_, errors) = errors_of("<{a}></{b}>", ParserConfig::new());
    assert_eq!(messages(&errors), vec!["wrong close tag found"]);
}

#[test]
fn names_equal_themselves_both_ways() {
    let nodes = parse2(quoted("<a::b c-d=1 e:f=2></a::b>")).unwrap();
    let Node::Element(e) = &nodes[0] else { panic!("expected element") };
    let n = e.name();
    assert!(*n == *n);
    let NodeAttribute::Attribute(k1) = &e.attributes()[0] else { panic!("expected attribute") };
    let NodeAttribute::Attribute(k2) = &e.attributes()[1] else { panic!("expected attribute") };
    assert!(k1.key == k1.key);
    assert!(!(k1.key == k2.key));
    assert!(!(k2.key == k1.key));
    assert!(!(*n == k1.key));
    assert_eq!(k1.key.to_string(), "c-d");
    assert_eq!(k2.key.to_string(), "e:f");
}

#[test]
fn raw_text_elements_keep_their_content() {
    let config = ParserConfig::new().raw_text_elements(vec!["script".to_string()]);
    let nodes = Parser::new(config).parse_simple(from_source("<script> let x = <a> 1; </script>")).unwrap();
    let Node::Element(e) = &nodes[0] else { panic!("expected element") };
    assert_eq!(e.children.len(), 1);
    let Node::RawText(t) = &e.children[0] else { panic!("expected raw text") };
    assert_eq!(t.to_token_stream_string(), "let x = < a > 1 ;");
    assert_eq!(t.to_source_text(true).unwrap(), " let x = <a> 1; ");
    assert_eq!(t.to_source_text(false).unwrap(), "let x = <a> 1;");
}

#[test]
fn raw_text_fragments() {
    let config = ParserConfig::new().raw_text_elements(vec![String::new()]);
    let nodes = Parser::new(config).parse_simple(quoted("<> <b> c </>")).unwrap();
    let Node::Fragment(f) = &nodes[0] else { panic!("expected fragment") };
    assert_eq!(f.children.len(), 1);
    let Node::RawText(t) = &f.children[0] else { panic!("expected raw text") };
    assert_eq!(t.to_token_stream_string(), "< b > c");
}

#[test]
fn void_elements_have_no_children() {
    let config = ParserConfig::new().always_self_closed_elements(vec!["br".to_string()]);
    let nodes = Parser::new(config).parse_simple(quoted("<div><br>\"x\"</div>")).unwrap();
    let Node::Element(e) = &nodes[0] else { panic!("expected element") };
    assert_eq!(e.children.len(), 2);
    let Node::Element(br) = &e.children[0] else { panic!("expected element") };
    assert!(br.children.is_empty());
    assert!(br.close_tag.is_none());
    assert!(!br.open_tag.is_self_closed());
}

#[test]
fn token_stream_text_matches_proc_macro2() {
    let src = "a.b(c) :: d<e, 'f'> [1, 2.5] { x + 1 } {} -> => #!";
    let expected = proc_macro2::TokenStream::from_str(src).unwrap().to_string();
    let nodes = parse2(quoted(&format!("<p>{}</p>", "a.b(c) :: d"))).unwrap();
    let Node::Element(e) = &nodes[0] else { panic!("expected element") };
    let Node::RawText(t) = &e.children[0] else { panic!("expected raw text") };
    assert_eq!(t.to_token_stream_string(), proc_macro2::TokenStream::from_str("a.b(c) :: d").unwrap().to_string());
    let raw = RawText::from(quoted(src).trees);
    assert_eq!(raw.to_token_stream_string(), expected);
    assert!(raw.to_source_text(false).is_none());
    assert_eq!(raw.to_string_best(), expected);
    assert!(!raw.is_empty());
}

#[test]
fn spans_of_nodes_cover_their_tokens() {
    let src = "<a b=1>\"x\"</a>";
    let nodes = parse2(from_source(src)).unwrap();
    let span = nodes[0].span();
    assert_eq!((span.lo, span.hi), (0, src.chars().count()));
    let Node::Element(e) = &nodes[0] else { panic!("expected element") };
    let s = e.children[0].span();
    assert_eq!(&src[s.lo..s.hi], "\"x\"");
    let k = e.name().span();
    assert_eq!(&src[k.lo..k.hi], "a");
}

#[test]
fn a_node_consumes_at_least_one_token() {
    let t = quoted(r#"x "y" {z} <w/>"#).trees;
    let mut pos = 0;
    let mut count = 0;
    while pos < t.len() {
        let before = pos;
        let n = Recoverable::<Node>::parse(&t, &mut pos).unwrap().inner();
        assert!(pos > before);
        let _ = n;
        count += 1;
    }
    assert_eq!(count, 4);
}

#[test]
fn punctuated_names_need_two_identifiers() {
    let t = quoted("a::b::c x").trees;
    let mut pos = 0;
    let (ids, seps) = Parser::<NoTransform>::node_name_punctuated_ident(&t, &mut pos).unwrap();
    assert_eq!(ids.len(), 3);
    assert_eq!(seps.len(), 2);
    assert_eq!(pos, 7);
    let t = quoted("a x").trees;
    let mut pos = 0;
    let e = Parser::<NoTransform>::node_name_punctuated_ident(&t, &mut pos).unwrap_err();
    assert_eq!(e.message, "expected punctuated node name");
    assert_eq!(pos, 0);
    let t = quoted("on:ce-click").trees;
    let mut pos = 0;
    let (ids, puncts) = Parser::<NoTransform>::node_name_punctuated_ident_with_alternate(&t, &mut pos).unwrap();
    assert_eq!(ids.len(), 3);
    assert_eq!(puncts.iter().map(|p| p.ch).collect::<String>(), ":-");
}

#[test]
fn fragment_close_after_element_name_is_reported() {
    let t = quoted("x >").trees;
    let mut ctx = empty_context();
    let mut pos = 0;
    let start = CloseTagStart { token_lt: Span { lo: 0, hi: 0 }, token_solidus: Span { lo: 0, hi: 0 } };
    let close = FragmentClose::parse_with_start_tag(&mut ctx, &t, &mut pos, Some(start));
    assert!(close.is_some());
    assert_eq!(pos, 2);
    assert_eq!(messages(&ctx.diagnostics), vec!["expected fragment closing, found element closing tag"]);
    let mut pos = 0;
    assert!(FragmentClose::parse_with_start_tag(&mut ctx, &t, &mut pos, None).is_none());
    assert_eq!(pos, 0);
}

#[test]
fn literal_values_of_attributes() {
    let nodes = parse2(quoted(r#"<a s="a\nb" c='\'' i=1_000u32 f=2.50 t=false n=-1 b=b"x" />"#)).unwrap();
    let Node::Element(e) = &nodes[0] else { panic!("expected element") };
    let values: Vec<Option<String>> = e
        .attributes()
        .iter()
        .map(|a| match a {
            NodeAttribute::Attribute(k) => k.value_literal_string(),
            NodeAttribute::Block(_) => None,
        })
        .collect();
    assert_eq!(
        values,
        vec![
            Some("a\nb".to_string()),
            Some("'".to_string()),
            Some("1000".to_string()),
            Some("2.50".to_string()),
            Some("false".to_string()),
            None,
            None,
        ]
    );
}

#[test]
fn names_of_blocks_convert_to_blocks_only() {
    let nodes = parse2(quoted("<a/>")).unwrap();
    let Node::Element(e) = &nodes[0] else { panic!("expected element") };
    let Err(rstml::Error::TryFrom(m)) = e.name().to_block() else { panic!("expected error") };
    assert_eq!(m, "NodeName does not match NodeName::Block(Expr::Block(_))");
    let nodes = parse2(quoted("<a::b::c/>")).unwrap();
    let Node::Element(e) = &nodes[0] else { panic!("expected element") };
    let NodeName::Path { segments, .. } = e.name() else { panic!("expected path") };
    assert_eq!(rstml::node::tree::path_to_string(segments), "a::b::c");
}

#[test]
fn value_expressions_convert_by_their_kind() {
    let v = NodeValueExpr::new(quoted(r#""hi""#).trees);
    assert_eq!(v.to_string_value().unwrap(), "hi");
    let v = NodeValueExpr::new(quoted("std::mem::swap").trees);
    assert_eq!(v.to_string_value().unwrap(), "std::mem::swap");
    let v = NodeValueExpr::new(quoted("1 + 2").trees);
    let Err(rstml::Error::TryFrom(m)) = v.to_string_value() else { panic!("expected error") };
    assert_eq!(m, "NodeValueExpr does not match Expr::Lit(Lit::Str(_)) or Expr::Path(_)");
    assert!(NodeValueExpr::new(quoted("{ x }").trees).into_expr_block().is_ok());
    let Err(rstml::Error::TryFrom(m)) = NodeValueExpr::new(quoted("x").trees).into_expr_block() else {
        panic!("expected error")
    };
    assert_eq!(m, "NodeValueExpr does not match Expr::Block(_)");
    assert!(NodeValueExpr::new(quoted("'c'").trees).into_expr_lit().is_ok());
    let Err(rstml::Error::TryFrom(m)) = NodeValueExpr::new(quoted("x").trees).into_expr_lit() else {
        panic!("expected error")
    };
    assert_eq!(m, "NodeValueExpr does not match Expr::Lit(_)");
}

#[test]
fn blocks_become_block_expressions() {
    let nodes = parse2(quoted("<a>{ f(1) }</a>")).unwrap();
    let Node::Element(e) = nodes.into_iter().next().unwrap() else { panic!("expected element") };
    let Node::Block(b) = e.children.into_iter().next().unwrap() else { panic!("expected block") };
    let v = b.into_value_expr().unwrap();
    assert_eq!(v.expr.len(), 1);
    assert!(matches!(&v.expr[0], TokenTree::Group(g) if g.delimiter == Delimiter::Brace && g.stream.len() == 2));
    assert!(v.into_expr_block().is_ok());
    let (nodes, _) = Parser::new(ParserConfig::new().recover_block(true))
        .parse_recoverable(quoted("<a>{ x. }</a>"))
        .split_vec();
    let Node::Element(e) = nodes.into_iter().next().unwrap() else { panic!("expected element") };
    let Node::Block(b) = e.children.into_iter().next().unwrap() else { panic!("expected block") };
    let err = b.into_value_expr().unwrap_err();
    assert_eq!(err.message, "Cant parse expression as block.");
}

/// Reads a leading `%` and leaves the rest of the block unread.
struct PercentOnly;

impl rstml::recoverable::BlockTransform for PercentOnly {
    fn transform(&self, content: &Vec<TokenTree>) -> Result<Option<(usize, Vec<TokenTree>)>, Diagnostic> {
        match content.first() {
            Some(TokenTree::Punct(p)) if p.ch == '%' => Ok(Some((
                1,
                vec![TokenTree::Literal(Literal { repr: "1".to_string(), span: p.span })],
            ))),
            _ => Err(Diagnostic::new(Level::Error, "expected `%`")),
        }
    }
}

#[test]
fn transformed_blocks_must_be_read_whole() {
    let t = quoted("{% x}").trees;
    let outcome = use_transform(&PercentOnly, &t);
    let e = rstml::parse_nodes::apply_block_transform(&t, 0, outcome).unwrap_err();
    assert_eq!(e.message, "unexpected token");
    let t = quoted("{%}").trees;
    let outcome = use_transform(&PercentOnly, &t);
    let b = rstml::parse_nodes::apply_block_transform(&t, 0, outcome).unwrap();
    assert_eq!(b.stmts.len(), 1);
    let e = rstml::parse_nodes::apply_block_transform(&t, 0, Err(Diagnostic::new(Level::Error, "no"))).unwrap_err();
    assert_eq!(e.message, "no");
    let b = rstml::parse_nodes::apply_block_transform(&t, 0, Ok(None));
    assert!(b.is_err());
    let nodes = Parser::new(ParserConfig::new().transform_block(PercentOnly)).parse_simple(quoted("<a>{% x}</a>"));
    assert_eq!(nodes.unwrap_err().message, "unexpected token");
    let nodes = Parser::new(ParserConfig::new().transform_block(PercentOnly)).parse_simple(quoted("<a>{y}</a>"));
    assert_eq!(nodes.unwrap_err().message, "expected `%`");
}

fn use_transform<B: rstml::recoverable::BlockTransform>(
    b: &B,
    t: &[TokenTree],
) -> Result<Option<(usize, Vec<TokenTree>)>, Diagnostic> {
    let TokenTree::Group(g) = &t[0] else { panic!("expected group") };
    b.transform(&g.stream)
}

#[test]
fn simple_parse_agrees_with_recoverable_parse() {
    for source in ["<a/>", "<a></b>", "<a b=1 , c/>", "<a/> \"x\" <b></b>", ""] {
        let simple = parse2(quoted(source));
        let recovered = Parser::new(ParserConfig::new()).parse_recoverable(quoted(source));
        let complete = matches!(recovered, ParsingResult::Complete(_));
        assert_eq!(simple.is_ok(), complete, "{}", source);
        let (nodes, errors) = recovered.split_vec();
        match simple {
            Ok(ns) => assert_eq!(ns.len(), nodes.len()),
            Err(e) => {
                if let Some(first) = errors.first() {
                    assert_eq!(e.message, first.message);
                }
            }
        }
    }
}

#[test]
fn children_can_be_changed_in_place() {
    let mut nodes = parse2(quoted(r#"<a>"x"</a> "y""#)).unwrap();
    let extra = parse2(quoted("<b/>")).unwrap().into_iter().next().unwrap();
    nodes[0].children_mut().unwrap().push(extra);
    assert_eq!(nodes[0].children().unwrap().len(), 2);
    assert!(nodes[1].children_mut().is_none());
}

#[test]
fn names_read_back_from_their_tokens() {
    for source in ["<a::b::c/>", "<on:ce-click/>", "<x/>", "<a-b-/>"] {
        let nodes = parse2(quoted(source)).unwrap();
        let Node::Element(e) = &nodes[0] else { panic!("expected element") };
        let mut tokens = Vec::new();
        e.name().to_tokens(&mut tokens);
        let mut pos = 0;
        let again = rstml::parse::parse_name(&tokens, &mut pos).unwrap();
        assert_eq!(pos, tokens.len());
        assert!(again == *e.name());
        assert_eq!(again.to_string(), e.name().to_string());
    }
}

#[test]
fn raw_text_reads_back_from_its_tokens() {
    let nodes = parse2(from_source("<p> a + b . c </p>")).unwrap();
    let Node::Element(e) = &nodes[0] else { panic!("expected element") };
    let Node::RawText(t) = &e.children[0] else { panic!("expected raw text") };
    let mut tokens = Vec::new();
    t.to_tokens(&mut tokens);
    assert_eq!(tokens.len(), 5);
    let mut pos = 0;
    let again = rstml::parse_nodes::parse_raw_text(&tokens, &mut pos, &None);
    assert_eq!(pos, 5);
    assert_eq!(again.to_token_stream_string(), t.to_token_stream_string());
}

#[test]
fn element_with_attribute_and_text() {
    let nodes = parse2(quoted(r#"<hello world>"hi"</hello>"#)).unwrap();
    let Node::Element(element) = &nodes[0] else { panic!("element") };
    let NodeAttribute::Attribute(attribute) = &element.attributes()[0] else { panic!("attribute") };
    let Node::Text(text) = &element.children[0] else { panic!("text") };
    assert_eq!(element.name().to_string(), "hello");
    assert_eq!(attribute.key.to_string(), "world");
    assert_eq!(text.value_string(), "hi");
}

#[test]
fn attribute_values_need_no_braces() {
    let nodes = parse2(quoted("<div key=some::value() />")).unwrap();
    let Node::Element(e) = &nodes[0] else { panic!("element") };
    let NodeAttribute::Attribute(a) = &e.attributes()[0] else { panic!("attribute") };
    assert_eq!(a.value.as_ref().unwrap().len(), 5);
    let nodes = parse2(quoted(
        r#"<{ let block = "in node name position"; } /> <div>{ let block = "in node position"; }</div> <div { let block = "in attribute position"; } /> <div key={ let block = "in attribute value position"; } />"#,
    ))
    .unwrap();
    assert_eq!(nodes.len(), 4);
}

#[test]
fn tokens_left_after_a_failed_node_are_reported() {
    let (nodes, errors) = errors_of("<!foo> \"a\"", ParserConfig::new());
    assert!(nodes.is_empty());
    assert_eq!(errors.last().unwrap().message, "unexpected token");
    assert!(parse2(quoted("<!foo> \"a\"")).is_err());
}

#[test]
fn tokens_left_after_a_node_of_the_wrong_type_are_reported() {
    let config = ParserConfig::new().type_of_top_level_nodes(NodeType::Element);
    let (nodes, errors) = errors_of("\"foo\" \"bar\"", config);
    assert!(nodes.is_empty());
    assert_eq!(errors.len(), 2);
    assert!(errors[0].message.starts_with("top level nodes need to be of type "));
    assert_eq!(errors[1].message, "unexpected token");
    let config = ParserConfig::new().type_of_top_level_nodes(NodeType::Element);
    let e = Parser::new(config).parse_simple(quoted("\"foo\" \"bar\"")).unwrap_err();
    assert!(e.message.starts_with("top level nodes need to be of type "));
}

/// Refuses every block, counting how often it is asked.
struct Counting(std::rc::Rc<std::cell::Cell<usize>>);

impl rstml::recoverable::BlockTransform for Counting {
    fn transform(&self, _content: &Vec<TokenTree>) -> Result<Option<(usize, Vec<TokenTree>)>, Diagnostic> {
        self.0.set(self.0.get() + 1);
        Err(Diagnostic::new(Level::Error, "refused"))
    }
}

#[test]
fn each_block_is_transformed_once() {
    let count = std::rc::Rc::new(std::cell::Cell::new(0));
    let config = ParserConfig::new().transform_block(Counting(count.clone()));
    let (nodes, errors) = Parser::new(config).parse_recoverable(quoted("<a>{x}")).split_vec();
    assert_eq!(count.get(), 1);
    assert_eq!(nodes.len(), 1);
    let refused = errors.iter().filter(|d| d.message == "refused").count();
    assert_eq!(refused, 2);
}

#[test]
fn block_names_equal_themselves() {
    let brace = rstml::node::atoms::Brace { span_open: Span { lo: 0, hi: 0 }, span_close: Span { lo: 0, hi: 0 } };
    let a = NodeName::Block(rstml::node::Block { brace, stmts: quoted("x + 1").trees });
    let b = NodeName::Block(rstml::node::Block { brace, stmts: quoted("x + 1").trees });
    let c = NodeName::Block(rstml::node::Block { brace, stmts: quoted("y").trees });
    assert!(a.same_as(&a));
    assert!(a.same_as(&b) && b.same_as(&a));
    assert!(!a.same_as(&c) && !c.same_as(&a));
}

#[test]
fn leaving_blocks_as_they_are_changes_nothing() {
    let plain = Parser::new(ParserConfig::new()).parse_simple(quoted("<a>{x}</a>{ y }")).unwrap();
    let kept = Parser::new(ParserConfig::new().transform_block(NoTransform)).parse_simple(quoted("<a>{x}</a>{ y }")).unwrap();
    assert_eq!(plain.len(), kept.len());
    assert_eq!(format!("{:?}", plain), format!("{:?}", kept));
}

#[test]
fn attribute_value_at_end_of_tag_consumes_the_rest() {
    let (nodes, errors) = errors_of("<div a={x} + />", ParserConfig::new());
    assert_eq!(errors.len(), 1);
    assert!(errors[0].message.starts_with("failed to parse expression: unexpected end of input"));
    let Node::Element(e) = &nodes[0] else { panic!("expected element") };
    assert!(e.attributes().is_empty());
}

#[test]
fn invisible_group_is_one_attribute_value() {
    let mut trees = quoted("<div a=x b= />").trees;
    let at = trees.len() - 2;
    let zero = Span { lo: 0, hi: 0 };
    trees.insert(
        at,
        TokenTree::Group(Group { delimiter: Delimiter::Invisible, stream: quoted("1 + 1").trees, span_open: zero, span_close: zero }),
    );
    let nodes = parse2(TokenStream { trees, source: None }).unwrap();
    let Node::Element(e) = &nodes[0] else { panic!("expected element") };
    let attrs = e.attributes();
    assert_eq!(attrs.len(), 2);
    let NodeAttribute::Attribute(a) = &attrs[0] else { panic!("expected keyed attribute") };
    assert_eq!(a.value.as_ref().unwrap().len(), 1);
    let NodeAttribute::Attribute(b) = &attrs[1] else { panic!("expected keyed attribute") };
    let value = b.value.as_ref().unwrap();
    assert_eq!(value.len(), 1);
    assert!(matches!(&value[0], TokenTree::Group(g) if g.delimiter == Delimiter::Invisible));
}

#[test]
fn strict_parse_of_an_element() {
    let t = quoted("<a></a> rest").trees;
    let mut pos = 0;
    let e = Recoverable::<rstml::node::NodeElement>::parse(&t, &mut pos).unwrap().inner();
    assert_eq!(e.name().to_string(), "a");
    assert_eq!(pos, 7);
    let mut pos = 0;
    let t = quoted("<a>").trees;
    let err = Recoverable::<rstml::node::NodeElement>::parse(&t, &mut pos).unwrap_err();
    assert_eq!(err.message, "open tag has no corresponding close tag and is not self-closing");
}
