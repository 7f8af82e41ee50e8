use std::str::FromStr;

use rstml::diagnostic::Diagnostic;
use rstml::node::{KeyedAttribute, Node, NodeAttribute, NodeElement, NodeType};
use rstml::recoverable::BlockTransform;
use rstml::token::{Delimiter, Group, Ident, Literal, Punct, Spacing, Span, TokenStream, TokenTree};
use rstml::{parse2, Parser, ParserConfig};

fn conv_span(s: proc_macro2::Span, src: Option<&str>) -> Span {
    match src {
        Some(text) => {
            let r = s.byte_range();
            Span { lo: text[..r.start].chars().count(), hi: text[..r.end].chars().count() }
        }
        None => Span { lo: 0, hi: 0 },
    }
}

fn conv_trees(ts: proc_macro2::TokenStream, src: Option<&str>) -> Vec<TokenTree> {
    ts.into_iter()
        .map(|t| match t {
            proc_macro2::TokenTree::Group(g) => TokenTree::Group(Group {
                delimiter: match g.delimiter() {
                    proc_macro2::Delimiter::Parenthesis => Delimiter::Parenthesis,
                    proc_macro2::Delimiter::Brace => Delimiter::Brace,
                    proc_macro2::Delimiter::Bracket => Delimiter::Bracket,
                    proc_macro2::Delimiter::None => Delimiter::Invisible,
                },
                stream: conv_trees(g.stream(), src),
                span_open: conv_span(g.span_open(), src),
                span_close: conv_span(g.span_close(), src),
            }),
            proc_macro2::TokenTree::Ident(i) => {
                TokenTree::Ident(Ident { text: i.to_string(), span: conv_span(i.span(), src) })
            }
            proc_macro2::TokenTree::Punct(p) => TokenTree::Punct(Punct {
                ch: p.as_char(),
                spacing: match p.spacing() {
                    proc_macro2::Spacing::Joint => Spacing::Joint,
                    proc_macro2::Spacing::Alone => Spacing::Alone,
                },
                span: conv_span(p.span(), src),
            }),
            proc_macro2::TokenTree::Literal(l) => {
                TokenTree::Literal(Literal { repr: l.to_string(), span: conv_span(l.span(), src) })
            }
        })
        .collect()
}

/// Tokens lexed from `src`, with their source text and places.
fn from_source(src: &str) -> TokenStream {
    let ts = proc_macro2::TokenStream::from_str(src).expect("Parsing error");
    TokenStream { trees: conv_trees(ts, Some(src)), source: Some(src.to_string()) }
}

/// Tokens lexed from `src` with no source text and no places, as a macro
/// such as `quote!` writes them.
fn quoted(src: &str) -> TokenStream {
    let ts = proc_macro2::TokenStream::from_str(src).expect("Parsing error");
    TokenStream { trees: conv_trees(ts, None), source: None }
}

fn get_element(nodes: &[Node], element_index: usize) -> &NodeElement {
    let Some(Node::Element(element)) = nodes.get(element_index) else { panic!("expected element") };
    element
}

fn get_element_attribute(nodes: &[Node], element_index: usize, attribute_index: usize) -> &KeyedAttribute {
    let Some(Node::Element(element)) = nodes.get(element_index) else { panic!("expected element") };
    let Some(NodeAttribute::Attribute(attribute)) = element.attributes().get(attribute_index) else {
        panic!("expected attribute")
    };
    attribute
}

fn get_element_child(nodes: &[Node], element_index: usize, child_index: usize) -> &Node {
    let Some(Node::Element(element)) = nodes.get(element_index) else { panic!("expected element") };
    element.children.get(child_index).expect("child")
}

#[test]
fn test_test_single_empty_element() {
    let nodes = parse2(quoted("<foo></foo>")).unwrap();
    let element = get_element(&nodes, 0);
    assert_eq!(element.name().to_string(), "foo");
}

#[test]
fn test_test_single_element_with_attributes() {
    let nodes = parse2(quoted(r#"<foo bar="moo" baz="42"></foo>"#)).unwrap();
    let attribute = get_element_attribute(&nodes, 0, 0);
    assert_eq!(attribute.key.to_string(), "bar");
    assert_eq!(attribute.value_literal_string().expect("value"), "moo");
}

#[test]
fn test_test_single_element_with_text() {
    let nodes = parse2(quoted(r#"<foo>"bar"</foo>"#)).unwrap();
    let Node::Text(child) = get_element_child(&nodes, 0, 0) else { panic!("expected child") };
    assert_eq!(child.value.value(), "bar");
}

#[test]
fn test_single_element_with_unquoted_text_simple() {
    // Note two spaces between bar and baz
    let nodes = parse2(quoted("<foo> bar  baz </foo>")).unwrap();
    let Node::RawText(child) = get_element_child(&nodes, 0, 0) else { panic!("expected child") };
    // No source text for tokens without places.
    assert_eq!(child.to_token_stream_string(), "bar baz");
    assert_eq!(child.to_token_stream_string(), child.to_string_best());
}

#[test]
fn test_single_element_with_unquoted_text_advance() {
    let tokens = from_source(
        r#"
        <foo> bar  baz </foo>
        "#,
    );
    let nodes = parse2(tokens).unwrap();
    let Node::RawText(child) = get_element_child(&nodes, 0, 0) else { panic!("expected child") };
    assert_eq!(child.to_source_text(true).unwrap(), " bar  baz ");
    assert_eq!(child.to_source_text(false).unwrap(), "bar  baz");
    assert_eq!(child.to_token_stream_string(), "bar baz");
    assert_eq!(child.to_string_best(), child.to_source_text(true).unwrap());
}

fn check_unquoted_mixed(middle: &str) -> Vec<Node> {
    let src = format!("<foo> bar bar {} baz baz </foo>", middle);
    let nodes = parse2(from_source(&src)).unwrap();
    let Node::RawText(child1) = get_element_child(&nodes, 0, 0) else { panic!("expected unquoted child") };
    let Node::RawText(child3) = get_element_child(&nodes, 0, 2) else { panic!("expected unquoted child") };
    assert_eq!(child1.to_source_text(true).unwrap(), " bar bar ");
    assert_eq!(child1.to_source_text(false).unwrap(), "bar bar");
    assert_eq!(child1.to_token_stream_string(), "bar bar");
    assert_eq!(child1.to_string_best(), child1.to_source_text(true).unwrap());
    assert_eq!(child3.to_source_text(true).unwrap(), " baz baz ");
    assert_eq!(child3.to_source_text(false).unwrap(), "baz baz");
    assert_eq!(child3.to_token_stream_string(), "baz baz");
    assert_eq!(child3.to_string_best(), child3.to_source_text(true).unwrap());
    nodes
}

#[test]
fn test_unquoted_text_mixed_text() {
    let nodes = check_unquoted_mixed("\"text\"");
    let Node::Text(v) = get_element_child(&nodes, 0, 1) else { panic!("expected matcher child") };
    assert_eq!(v.value_string(), "text");
}

#[test]
fn test_unquoted_text_mixed_empty_element() {
    let nodes = check_unquoted_mixed("<div/>");
    let Node::Element(v) = get_element_child(&nodes, 0, 1) else { panic!("expected matcher child") };
    assert!(v.close_tag.is_none());
    assert_eq!(v.open_tag.name.to_string(), "div");
    assert!(v.attributes().is_empty());
    assert!(v.children.is_empty());
}

#[test]
fn test_unquoted_text_mixed_block() {
    let nodes = check_unquoted_mixed("{ x + 1 }");
    let Node::Block(v) = get_element_child(&nodes, 0, 1) else { panic!("expected matcher child") };
    assert!(v.try_block().is_some());
}

#[test]
fn test_unquoted_text_mixed_few_elements() {
    let nodes = check_unquoted_mixed("<div> <basd/> </div>");
    let Node::Element(v) = get_element_child(&nodes, 0, 1) else { panic!("expected matcher child") };
    assert!(v.close_tag.is_some());
    assert_eq!(v.open_tag.name.to_string(), "div");
    assert!(v.attributes().is_empty());
    assert!(v.children.len() == 1);
    let Node::Element(child) = &v.children[0] else { panic!("Not a element") };
    assert!(child.attributes().is_empty());
    assert!(child.children.is_empty());
    assert_eq!(child.open_tag.name.to_string(), "basd");
    assert!(child.close_tag.is_none());
}

#[test]
fn test_test_reserved_keyword_attributes() {
    let nodes = parse2(quoted(r#"<input type="foo" />"#)).unwrap();
    let element = get_element(&nodes, 0);
    let Some(NodeAttribute::Attribute(attribute)) = element.attributes().get(0) else {
        panic!("expected attribute")
    };
    assert_eq!(element.name().to_string(), "input");
    assert_eq!(attribute.key.to_string(), "type");
}

#[test]
fn test_test_block_node() {
    let nodes = parse2(quoted("<div>{hello}</div>")).unwrap();
    let element = get_element(&nodes, 0);
    assert_eq!(element.children.len(), 1);
}

#[test]
fn test_test_flat_tree() {
    let config = ParserConfig::new().flat_tree();
    let tokens = quoted(
        r#"
        <div>
            <div>
                <div>{hello}</div>
                <div>"world"</div>
            </div>
        </div>
        <div />
        "#,
    );
    let nodes = Parser::new(config).parse_simple(tokens).unwrap();
    assert_eq!(nodes.len(), 7);
}

#[test]
fn test_test_path_as_tag_name() {
    let nodes = parse2(quoted("<some::path />")).unwrap();
    let element = get_element(&nodes, 0);
    assert_eq!(element.name().to_string(), "some::path");
}

#[test]
fn test_block_as_tag_name() {
    let nodes = parse2(quoted("<{some_logic(block)} />")).unwrap();
    let element = get_element(&nodes, 0);
    assert!(element.name().to_block().is_ok());
}

#[test]
fn test_block_as_tag_name_with_closing_tag() {
    let nodes = parse2(quoted(r#"<{some_logic(block)}>"Test"</{some_logic(block)}>"#)).unwrap();
    let element = get_element(&nodes, 0);
    assert!(element.name().to_block().is_ok());
}

#[test]
fn test_test_dashed_attribute_name() {
    let nodes = parse2(quoted(r#"<div data-foo="bar" />"#)).unwrap();
    let attribute = get_element_attribute(&nodes, 0, 0);
    assert_eq!(attribute.key.to_string(), "data-foo");
}

#[test]
fn test_test_coloned_attribute_name() {
    let nodes = parse2(quoted("<div on:click={foo} />")).unwrap();
    let attribute = get_element_attribute(&nodes, 0, 0);
    assert_eq!(attribute.key.to_string(), "on:click");
}

#[test]
fn test_mixed_colon_and_dash_attribute_name() {
    let nodes = parse2(quoted("<div on:ce-click={foo} />")).unwrap();
    let attribute = get_element_attribute(&nodes, 0, 0);
    assert_eq!(attribute.key.to_string(), "on:ce-click");
}

#[test]
fn test_test_block_as_attribute() {
    let nodes = parse2(quoted("<div {attribute} />")).unwrap();
    let element = get_element(&nodes, 0);
    assert_eq!(element.attributes().len(), 1);
}

#[test]
fn test_test_number_of_top_level_nodes() {
    let nodes = Parser::new(ParserConfig::new().number_of_top_level_nodes(2))
        .parse_simple(quoted("<div /> <div /> <div />"));
    assert!(nodes.is_err());

    let nodes = Parser::new(ParserConfig::new().number_of_top_level_nodes(2).flat_tree())
        .parse_simple(quoted("<div> <div /> </div> <div />"));
    assert!(nodes.is_ok());

    let nodes = Parser::new(ParserConfig::new().number_of_top_level_nodes(2)).parse_simple(quoted("<div />"));
    assert!(nodes.is_err());
}

#[test]
fn test_test_type_of_top_level_nodes() {
    let nodes = Parser::new(ParserConfig::new().type_of_top_level_nodes(NodeType::Element))
        .parse_simple(quoted(r#""foo""#));
    assert!(nodes.is_err());
}

/// Reads `%` as the string `"percent"`.
struct Percent;

impl BlockTransform for Percent {
    fn transform(&self, content: &Vec<TokenTree>) -> Result<Option<(usize, Vec<TokenTree>)>, Diagnostic> {
        match content.first() {
            Some(TokenTree::Punct(p)) if p.ch == '%' => Ok(Some((
                1,
                vec![TokenTree::Literal(Literal { repr: "\"percent\"".to_string(), span: p.span })],
            ))),
            _ => Err(Diagnostic::new(rstml::diagnostic::Level::Error, "expected `%`")),
        }
    }
}

/// Leaves every block as it is.
struct Keep;

impl BlockTransform for Keep {
    fn transform(&self, _content: &Vec<TokenTree>) -> Result<Option<(usize, Vec<TokenTree>)>, Diagnostic> {
        Ok(None)
    }
}

#[test]
fn test_transform_block_some() {
    let config = ParserConfig::new().transform_block(Percent);
    let nodes = Parser::new(config).parse_simple(quoted("<div>{%}</div>")).unwrap();
    let Node::Block(block) = get_element_child(&nodes, 0, 0) else { panic!("expected block") };
    let value = match block.try_block() {
        Some(block) => match &block.stmts[0] {
            TokenTree::Literal(l) => Some(l.value()),
            _ => None,
        },
        None => None,
    };
    assert_eq!(value, Some("percent".to_owned()));
}

#[test]
fn test_transform_block_none() {
    let config = ParserConfig::new().transform_block(Keep);
    let nodes = Parser::new(config).parse_simple(quoted(r#"<div>{"foo"}</div>"#));
    assert!(nodes.is_ok());
}

#[test]
fn test_doctype() {
    let nodes = parse2(quoted("<!DOCTYPE html> <html> </html>")).unwrap();
    let Some(Node::Doctype(doctype)) = nodes.get(0) else { panic!("expected doctype") };
    assert_eq!(doctype.value.to_token_stream_string(), "html");
}

#[test]
fn test_doctype_empty() {
    let nodes = parse2(quoted("<!DOCTYPE> <html> </html>")).unwrap();
    let Some(Node::Doctype(doctype)) = nodes.get(0) else { panic!("expected doctype") };
    assert_eq!(doctype.value.to_token_stream_string(), "");
}

#[test]
fn test_comment() {
    let tokens = quoted(
        r#"
        <!-- "comment1" -->
        <div>
            <!-- "comment2" -->
            <div />
        </div>
        "#,
    );
    let nodes = parse2(tokens).unwrap();
    let Some(Node::Comment(comment1)) = nodes.get(0) else { panic!("expected comment") };
    let Node::Comment(comment2) = get_element_child(&nodes, 1, 0) else { panic!("expected comment") };
    assert_eq!(comment1.value.value(), "comment1");
    assert_eq!(comment2.value.value(), "comment2");
}

#[test]
fn test_fragment() {
    let nodes = parse2(quoted("<> <div /> </>")).unwrap();
    let Some(Node::Fragment(fragment)) = nodes.get(0) else { panic!("expected fragment") };
    assert_eq!(fragment.children.len(), 1);
}

#[test]
fn test_reserved_keywords() {
    let tokens = quoted(
        r#"
        <tag::type attribute::type />
        <tag:type attribute:type />
        <tag-type attribute-type />
        "#,
    );
    let nodes = parse2(tokens).unwrap();
    assert_eq!(nodes.len(), 3);
}

#[test]
fn test_single_element_with_different_attributes() {
    let tokens = quoted(r#"<foo bar="moo" baz=0x10 bax=true bay=0.1 foz='c' foy={x} fo1=b'c'></foo>"#);
    let nodes = parse2(tokens).unwrap();
    let valid_values = vec![("bar", "moo"), ("baz", "16"), ("bax", "true"), ("bay", "0.1"), ("foz", "c")];
    let valid_values_len = valid_values.len();
    for (ix, (name, value)) in valid_values.into_iter().enumerate() {
        let attribute = get_element_attribute(&nodes, 0, ix);
        assert_eq!(attribute.key.to_string(), name);
        assert_eq!(attribute.value_literal_string().expect("value"), value);
    }
    let values = vec!["foy", "fo1"];
    for (ix, name) in values.into_iter().enumerate() {
        let attribute = get_element_attribute(&nodes, 0, valid_values_len + ix);
        assert_eq!(attribute.key.to_string(), name);
        assert!(attribute.value_literal_string().is_none());
    }
}
