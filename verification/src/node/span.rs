//! Spans of nodes: from the first to the last of their tokens.
use vstd::prelude::*;
use crate::grammar::{node_first, node_last, node_span};
use crate::node::{nodes, Node, NodeBlock, NodeV};
use crate::parse::tok_span;
use crate::token::Span;

verus! {

/// The children of an element or fragment have, as values, the values of
/// its children.
pub proof fn lemma_children_model(n: &Node)
    ensures
        n is Element ==> n.model()->Element_children == nodes(n->Element_0.children@),
        n is Fragment ==> n.model()->Fragment_children == nodes(n->Fragment_0.children@),
{
    match n {
        Node::Element(e) => {
            assert(n.model()->Element_children =~= nodes(e.children@));
        },
        Node::Fragment(f) => {
            assert(n.model()->Fragment_children =~= nodes(f.children@));
        },
        _ => {},
    }
}

impl NodeBlock {
    fn first_span(&self) -> (r: Span)
        ensures
            r == node_first(NodeV::Block(self.model())),
    {
        match self {
            NodeBlock::ValidBlock(b) => b.brace.span_open,
            NodeBlock::Invalid { brace, .. } => brace.span_open,
        }
    }

    fn last_span(&self) -> (r: Span)
        ensures
            r == node_last(NodeV::Block(self.model())),
    {
        match self {
            NodeBlock::ValidBlock(b) => b.brace.span_close,
            NodeBlock::Invalid { brace, .. } => brace.span_close,
        }
    }
}

impl Node {
    /// Span of the first token of the node.
    pub fn first_span(&self) -> (r: Span)
        ensures
            r == node_first(self.model()),
    {
        match self {
            Node::Comment(c) => c.token_start.token_lt,
            Node::Doctype(d) => d.token_start.token_lt,
            Node::Fragment(f) => f.tag_open.token_lt,
            Node::Element(e) => e.open_tag.token_lt,
            Node::Block(b) => b.first_span(),
            Node::Text(t) => t.value.span,
            Node::RawText(r) => {
                if r.token_stream.len() > 0 {
                    tok_span(&r.token_stream[0])
                } else {
                    Span { lo: 0, hi: 0 }
                }
            },
        }
    }

    /// Span of the last token of the node.
    pub fn last_span(&self) -> (r: Span)
        ensures
            r == node_last(self.model()),
        decreases self,
    {
        proof {
            lemma_children_model(self);
        }
        match self {
            Node::Comment(c) => c.token_end.token_gt,
            Node::Doctype(d) => d.token_end,
            Node::Fragment(f) => match &f.tag_close {
                Some(c) => c.token_gt,
                None => {
                    let n = f.children.len();
                    if n > 0 {
                        proof {
                            assert(decreases_to!(self => f.children@[n - 1]));
                        }
                        f.children[n - 1].last_span()
                    } else {
                        f.tag_open.token_gt
                    }
                },
            },
            Node::Element(e) => match &e.close_tag {
                Some(c) => c.token_gt,
                None => {
                    let n = e.children.len();
                    if n > 0 {
                        proof {
                            assert(decreases_to!(self => e.children@[n - 1]));
                        }
                        e.children[n - 1].last_span()
                    } else {
                        e.open_tag.end_tag.token_gt
                    }
                },
            },
            Node::Block(b) => b.last_span(),
            Node::Text(t) => t.value.span,
            Node::RawText(r) => {
                let n = r.token_stream.len();
                if n > 0 {
                    tok_span(&r.token_stream[n - 1])
                } else {
                    Span { lo: 0, hi: 0 }
                }
            },
        }
    }

    /// Span of the node: from its first to its last token.
    pub fn span(&self) -> (r: Span)
        ensures
            r == node_span(self.model()),
    {
        self.first_span().join(self.last_span())
    }
}

} // verus!
