use std::str::FromStr;

use rstml::node::{Node, NodeAttribute, NodeType};
use rstml::token::{Delimiter, Group, Ident, Literal, Punct, Spacing, Span, TokenStream, TokenTree};
use rstml::{parse2, parse2_with_config, ParserConfig};

fn conv_span(s: proc_macro2::Span, src: Option<&str>) -> Span {
    match src {
        Some(text) => {
            let r = s.byte_range();
            Span { lo: text[..r.start].chars().count(), hi: text[..r.end].chars().count() }
        }
        None => Span { lo: 0, hi: 0 },
    }
}

fn conv_trees(ts: proc_macro2::TokenStream, src: Option<&str>) -> Vec<TokenTree> {
    ts.into_iter()
        .map(|t| match t {
            proc_macro2::TokenTree::Group(g) => TokenTree::Group(Group {
                delimiter: match g.delimiter() {
                    proc_macro2::Delimiter::Parenthesis => Delimiter::Parenthesis,
                    proc_macro2::Delimiter::Brace => Delimiter::Brace,
                    proc_macro2::Delimiter::Bracket => Delimiter::Bracket,
                    proc_macro2::Delimiter::None => Delimiter::Invisible,
                },
                stream: conv_trees(g.stream(), src),
                span_open: conv_span(g.span_open(), src),
                span_close: conv_span(g.span_close(), src),
            }),
            proc_macro2::TokenTree::Ident(i) => {
                TokenTree::Ident(Ident { text: i.to_string(), span: conv_span(i.span(), src) })
            }
            proc_macro2::TokenTree::Punct(p) => TokenTree::Punct(Punct {
                ch: p.as_char(),
                spacing: match p.spacing() {
                    proc_macro2::Spacing::Joint => Spacing::Joint,
                    proc_macro2::Spacing::Alone => Spacing::Alone,
                },
                span: conv_span(p.span(), src),
            }),
            proc_macro2::TokenTree::Literal(l) => {
                TokenTree::Literal(Literal { repr: l.to_string(), span: conv_span(l.span(), src) })
            }
        })
        .collect()
}

/// Tokens lexed from `src` with no source text and no places, as a macro
/// such as `quote!` writes them.
fn quoted(src: &str) -> TokenStream {
    let ts = proc_macro2::TokenStream::from_str(src).expect("Parsing error");
    TokenStream { trees: conv_trees(ts, None), source: None }
}

fn element_name(nodes: &[Node], i: usize) -> String {
    let Node::Element(e) = &nodes[i] else { panic!("expected element") };
    e.name().to_string()
}

#[test]
fn lib_test_single_empty_element() {
    let nodes = parse2(quoted("<foo></foo>")).unwrap();
    assert_eq!(element_name(&nodes, 0), "foo");
}

#[test]
fn lib_test_single_element_with_attributes() {
    let nodes = parse2(quoted(r#"<foo bar="moo" baz="42"></foo>"#)).unwrap();
    let Node::Element(e) = &nodes[0] else { panic!("expected element") };
    let NodeAttribute::Attribute(attribute) = &e.attributes()[0] else { panic!("expected attribute") };
    assert_eq!(attribute.key.to_string(), "bar");
    assert_eq!(attribute.value_literal_string().unwrap(), "moo");
}

#[test]
fn lib_test_single_element_with_text() {
    let nodes = parse2(quoted(r#"<foo>"bar"</foo>"#)).unwrap();
    let Node::Element(e) = &nodes[0] else { panic!("expected element") };
    let Node::Text(t) = &e.children[0] else { panic!("expected text") };
    assert_eq!(t.value_string(), "bar");
}

#[test]
fn lib_test_reserved_keyword_attributes() {
    let nodes = parse2(quoted(r#"<input type="foo" />"#)).unwrap();
    assert_eq!(element_name(&nodes, 0), "input");
    let Node::Element(e) = &nodes[0] else { panic!("expected element") };
    let NodeAttribute::Attribute(attribute) = &e.attributes()[0] else { panic!("expected attribute") };
    assert_eq!(attribute.key.to_string(), "type");
}

#[test]
fn lib_test_block_node() {
    let nodes = parse2(quoted("<div>{hello}</div>")).unwrap();
    let Node::Element(e) = &nodes[0] else { panic!("expected element") };
    assert_eq!(e.children.len(), 1);
}

#[test]
fn lib_test_flat_tree() {
    let config = ParserConfig::new().flat_tree();
    let tokens = quoted(
        r#"
        <div>
            <div>
                <div>{hello}</div>
                <div>"world"</div>
            </div>
        </div>
        <div />
        "#,
    );
    let nodes = parse2_with_config(tokens, config).unwrap();
    assert_eq!(nodes.len(), 7);
}

#[test]
fn lib_test_path_as_tag_name() {
    let nodes = parse2(quoted("<some::path />")).unwrap();
    assert_eq!(element_name(&nodes, 0), "some::path");
}

#[test]
fn lib_test_dashed_attribute_name() {
    let nodes = parse2(quoted(r#"<div data-foo="bar" />"#)).unwrap();
    let Node::Element(e) = &nodes[0] else { panic!("expected element") };
    let NodeAttribute::Attribute(attribute) = &e.attributes()[0] else { panic!("expected attribute") };
    assert_eq!(attribute.key.to_string(), "data-foo");
}

#[test]
fn lib_test_coloned_attribute_name() {
    let nodes = parse2(quoted("<div on:click={foo} />")).unwrap();
    let Node::Element(e) = &nodes[0] else { panic!("expected element") };
    let NodeAttribute::Attribute(attribute) = &e.attributes()[0] else { panic!("expected attribute") };
    assert_eq!(attribute.key.to_string(), "on:click");
}

#[test]
fn lib_test_block_as_attribute() {
    let nodes = parse2(quoted("<div {attribute} />")).unwrap();
    let Node::Element(e) = &nodes[0] else { panic!("expected element") };
    assert_eq!(e.attributes().len(), 1);
}

#[test]
fn lib_test_number_of_top_level_nodes() {
    let config = || ParserConfig::new().number_of_top_level_nodes(2);

    let nodes = parse2_with_config(quoted("<div /> <div /> <div />"), config());
    assert!(nodes.is_err());

    let nodes = parse2_with_config(quoted("<div /> <div />"), config());
    assert!(nodes.is_ok());

    let nodes = parse2_with_config(quoted("<div />"), config());
    assert!(nodes.is_err());
}

#[test]
fn lib_test_type_of_top_level_nodes() {
    let config = ParserConfig::new().type_of_top_level_nodes(NodeType::Element);
    let nodes = parse2_with_config(quoted(r#""foo""#), config);
    assert!(nodes.is_err())
}
