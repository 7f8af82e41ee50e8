use std::str::FromStr;

use rstml::node::{Node, NodeAttribute, NodeBlock};
use rstml::token::{Delimiter, Group, Ident, Literal, Punct, Spacing, Span, TokenStream, TokenTree};
use rstml::{Parser, ParserConfig};

fn conv_span(s: proc_macro2::Span, src: Option<&str>) -> Span {
    match src {
        Some(text) => {
            let r = s.byte_range();
            Span { lo: text[..r.start].chars().count(), hi: text[..r.end].chars().count() }
        }
        None => Span { lo: 0, hi: 0 },
    }
}

fn conv_trees(ts: proc_macro2::TokenStream, src: Option<&str>) -> Vec<TokenTree> {
    ts.into_iter()
        .map(|t| match t {
            proc_macro2::TokenTree::Group(g) => TokenTree::Group(Group {
                delimiter: match g.delimiter() {
                    proc_macro2::Delimiter::Parenthesis => Delimiter::Parenthesis,
                    proc_macro2::Delimiter::Brace => Delimiter::Brace,
                    proc_macro2::Delimiter::Bracket => Delimiter::Bracket,
                    proc_macro2::Delimiter::None => Delimiter::Invisible,
                },
                stream: conv_trees(g.stream(), src),
                span_open: conv_span(g.span_open(), src),
                span_close: conv_span(g.span_close(), src),
            }),
            proc_macro2::TokenTree::Ident(i) => {
                TokenTree::Ident(Ident { text: i.to_string(), span: conv_span(i.span(), src) })
            }
            proc_macro2::TokenTree::Punct(p) => TokenTree::Punct(Punct {
                ch: p.as_char(),
                spacing: match p.spacing() {
                    proc_macro2::Spacing::Joint => Spacing::Joint,
                    proc_macro2::Spacing::Alone => Spacing::Alone,
                },
                span: conv_span(p.span(), src),
            }),
            proc_macro2::TokenTree::Literal(l) => {
                TokenTree::Literal(Literal { repr: l.to_string(), span: conv_span(l.span(), src) })
            }
        })
        .collect()
}

/// Tokens lexed from `src`, with their source text and places.
fn from_source(src: &str) -> TokenStream {
    let ts = proc_macro2::TokenStream::from_str(src).expect("Parsing error");
    TokenStream { trees: conv_trees(ts, Some(src)), source: Some(src.to_string()) }
}

/// Tokens lexed from `src` with no source text and no places, as a macro
/// such as `quote!` writes them.
fn quoted(src: &str) -> TokenStream {
    let ts = proc_macro2::TokenStream::from_str(src).expect("Parsing error");
    TokenStream { trees: conv_trees(ts, None), source: None }
}

#[test]
fn test_recover_incorrect_closing_tags() {
    let source = "<div><open></close><foo></foo></div>";

    let config = ParserConfig::new().recover_block(true);
    let parser = Parser::new(config);
    // by default parse return error
    assert!(parser.parse_simple(quoted(source)).is_err());

    let (nodes, _errors) = parser.parse_recoverable(quoted(source)).split_vec();
    assert_eq!(nodes.len(), 1);
    let Node::Element(e) = &nodes[0] else { panic!("Not element") };
    assert_eq!(e.children.len(), 2);
    let Node::Element(c) = &e.children[0] else { panic!("No child") };
    assert_eq!(c.open_tag.name.to_string(), "open");
    assert_eq!(c.close_tag.as_ref().unwrap().name.to_string(), "close");

    let Node::Element(c) = &e.children[1] else { panic!("No child") };
    assert!(c.open_tag.name == c.close_tag.as_ref().unwrap().name);
    assert_eq!(c.open_tag.name.to_string(), "foo")
}

#[test]
fn test_parse_invalid_block() {
    // dot is not allowed
    let tokens = from_source("<foo>{x.}</foo>");
    let config = ParserConfig::new().recover_block(true);
    let (nodes, errors) = Parser::new(config).parse_recoverable(tokens).split_vec();
    assert!(!errors.is_empty());

    let Node::Block(block) = &nodes[0].children().unwrap()[0] else { panic!("expected block") };
    assert!(block.try_block().is_none());

    let (nodes, _) = Parser::new(ParserConfig::new().recover_block(true))
        .parse_recoverable(from_source("<foo>{x.}</foo>"))
        .split_vec();
    let Node::Element(e) = nodes.into_iter().next().unwrap() else { panic!("expected element") };
    let Node::Block(block) = e.children.into_iter().next().unwrap() else { panic!("expected block") };
    assert!(block.into_block().is_err());
}

#[test]
fn test_parse_invalid_attr_block() {
    // dot is not allowed
    let tokens = from_source("<foo {x.} />");
    let config = ParserConfig::new().recover_block(true);
    let (nodes, errors) = Parser::new(config).parse_recoverable(tokens).split_vec();

    assert!(!errors.is_empty());

    let Node::Element(f) = &nodes[0] else { panic!("expected element") };
    let NodeAttribute::Block(NodeBlock::Invalid { .. }) = f.attributes()[0] else { panic!("expected attribute") };
}
