//! Working with parsed nodes: their types, children, flattening, and the
//! values of texts and attributes.
use vstd::prelude::*;
use crate::diagnostic::{Diag, Diagnostic, Level};
use crate::error::{fails_with, Error};
use crate::grammar::path_text;
use crate::node::span::lemma_children_model;
use crate::node::{
    idents, nodes, Block, Ident, KeyedAttribute, Node, NodeAttribute, NodeBlock, NodeElement,
    NodeFragment, NodeName, NodeText, NodeType, NodeV, OpenTag,
};
use crate::syntax::{
    lit_char_value, lit_char_value_of, lit_float_digits, lit_float_digits_of, lit_int_digits,
    lit_int_digits_of, lit_kind, lit_kind_of, lit_str_value, lit_str_value_of, LitKind,
};
use crate::text::push_char;
use crate::token::{copy_trees, toks, Literal, Tok, TokenTree};

verus! {

/// Type of a node value: the type named like its variant.
pub open spec fn node_type(n: NodeV) -> NodeType {
    match n {
        NodeV::Element { .. } => NodeType::Element,
        NodeV::Text(_) => NodeType::Text,
        NodeV::Comment { .. } => NodeType::Comment,
        NodeV::Doctype { .. } => NodeType::Doctype,
        NodeV::Block(_) => NodeType::Block,
        NodeV::Fragment { .. } => NodeType::Fragment,
        NodeV::RawText(_) => NodeType::RawText,
    }
}

/// Name of a node type, `NodeType::` and the variant.
pub open spec fn type_label(t: NodeType) -> Seq<char> {
    match t {
        NodeType::Element => "NodeType::Element"@,
        NodeType::Text => "NodeType::Text"@,
        NodeType::RawText => "NodeType::RawText"@,
        NodeType::Comment => "NodeType::Comment"@,
        NodeType::Doctype => "NodeType::Doctype"@,
        NodeType::Block => "NodeType::Block"@,
        NodeType::Fragment => "NodeType::Fragment"@,
    }
}

/// Children of an element or fragment value; none for other nodes.
pub open spec fn children_of(n: NodeV) -> Seq<NodeV> {
    match n {
        NodeV::Element { children, .. } => children,
        NodeV::Fragment { children, .. } => children,
        _ => seq![],
    }
}

/// The node without its children.
pub open spec fn childless(n: NodeV) -> NodeV {
    match n {
        NodeV::Element { open_tag, close_tag, .. } => NodeV::Element { open_tag, children: seq![], close_tag },
        NodeV::Fragment { tag_open, tag_close, .. } => NodeV::Fragment { tag_open, children: seq![], tag_close },
        _ => n,
    }
}

/// A node and its descendants in document order, each without children.
pub open spec fn flat(n: NodeV) -> Seq<NodeV>
    decreases n, 1int,
{
    match n {
        NodeV::Element { children, .. } => seq![childless(n)] + flat_all(children),
        NodeV::Fragment { children, .. } => seq![childless(n)] + flat_all(children),
        _ => seq![n],
    }
}

/// The flattening of each node, one after the other.
pub open spec fn flat_all(s: Seq<NodeV>) -> Seq<NodeV>
    decreases s, 0int,
{
    if s.len() == 0 {
        seq![]
    } else {
        flat_all(s.subrange(0, s.len() - 1)) + flat(s[s.len() - 1])
    }
}

/// Text of the value of an attribute when it is one literal that reads as
/// text: a string, a character, an integer or float (their decimal digits),
/// or `true` / `false`.
pub open spec fn literal_text(value: Option<Seq<Tok>>) -> Option<Seq<char>> {
    match value {
        Some(ts) => if ts.len() == 1 {
            match ts[0] {
                Tok::Literal { repr, .. } => match lit_kind(repr) {
                    LitKind::Str => lit_str_value(repr),
                    LitKind::Char => match lit_char_value(repr) {
                        Some(c) => Some(seq![c]),
                        None => None,
                    },
                    LitKind::Int => lit_int_digits(repr),
                    LitKind::Float => lit_float_digits(repr),
                    _ => None,
                },
                Tok::Ident { text, .. } => if text == "true"@ || text == "false"@ {
                    Some(text)
                } else {
                    None
                },
                _ => None,
            }
        } else {
            None
        },
        None => None,
    }
}

impl NodeType {
    /// The name of the type, e.g. `NodeType::Element`.
    pub fn to_string(&self) -> (r: String)
        ensures
            r@ == type_label(*self),
    {
        match self {
            NodeType::Element => String::from_str("NodeType::Element"),
            NodeType::Text => String::from_str("NodeType::Text"),
            NodeType::RawText => String::from_str("NodeType::RawText"),
            NodeType::Comment => String::from_str("NodeType::Comment"),
            NodeType::Doctype => String::from_str("NodeType::Doctype"),
            NodeType::Block => String::from_str("NodeType::Block"),
            NodeType::Fragment => String::from_str("NodeType::Fragment"),
        }
    }
}

impl Node {
    /// The type of the node, named like its variant.
    pub fn node_type(&self) -> (r: NodeType)
        ensures
            r == node_type(self.model()),
    {
        match self {
            Node::Element(_) => NodeType::Element,
            Node::Text(_) => NodeType::Text,
            Node::Comment(_) => NodeType::Comment,
            Node::Doctype(_) => NodeType::Doctype,
            Node::Block(_) => NodeType::Block,
            Node::Fragment(_) => NodeType::Fragment,
            Node::RawText(_) => NodeType::RawText,
        }
    }

    /// The children of an element or fragment; none for other nodes.
    pub fn children(&self) -> (r: Option<&Vec<Node>>)
        ensures
            match self {
                Node::Element(e) => r == Some(&e.children),
                Node::Fragment(f) => r == Some(&f.children),
                _ => r is None,
            },
            r is Some ==> nodes(r->Some_0@) == children_of(self.model()),
    {
        proof {
            lemma_children_model(self);
        }
        match self {
            Node::Element(e) => Some(&e.children),
            Node::Fragment(f) => Some(&f.children),
            _ => None,
        }
    }

    /// The children of an element or fragment, to change; none for other
    /// nodes.
    pub fn children_mut(&mut self) -> (r: Option<&mut Vec<Node>>)
        ensures
            (r is Some) == (*old(self) is Element || *old(self) is Fragment),
            r is None ==> *final(self) == *old(self),
            *old(self) is Element ==> *r->Some_0 == old(self)->Element_0.children && *final(self) == Node::Element(
                NodeElement { children: *final(r->Some_0), ..old(self)->Element_0 },
            ),
            *old(self) is Fragment ==> *r->Some_0 == old(self)->Fragment_0.children && *final(self) == Node::Fragment(
                NodeFragment { children: *final(r->Some_0), ..old(self)->Fragment_0 },
            ),
    {
        match self {
            Node::Element(e) => Some(&mut e.children),
            Node::Fragment(f) => Some(&mut f.children),
            _ => None,
        }
    }

    /// The node, then its descendants in document order, each without
    /// children.
    pub fn flatten(self) -> (r: Vec<Node>)
        ensures
            nodes(r@) == flat(self.model()),
        decreases self,
    {
        let ghost orig = self;
        proof {
            lemma_children_model(&self);
        }
        let (node, children) = match self {
            Node::Element(e) => {
                let NodeElement { open_tag, children, close_tag } = e;
                (Node::Element(NodeElement { open_tag, children: Vec::new(), close_tag }), children)
            },
            Node::Fragment(f) => {
                let NodeFragment { tag_open, children, tag_close } = f;
                (Node::Fragment(NodeFragment { tag_open, children: Vec::new(), tag_close }), children)
            },
            other => (other, Vec::new()),
        };
        let ghost ch = children@;
        proof {
            lemma_children_model(&node);
            assert(nodes(ch) == children_of(orig.model()));
            assert(node.model() == childless(orig.model())) by {
                assert(nodes(Seq::<Node>::empty()) =~= seq![]);
            }
        }
        proof {
            assert forall|j: int| 0 <= j < ch.len() implies decreases_to!(orig => #[trigger] ch[j]) by {
                match orig {
                    Node::Element(e) => {
                        assert(decreases_to!(orig => e.children@[j]));
                    },
                    Node::Fragment(f) => {
                        assert(decreases_to!(orig => f.children@[j]));
                    },
                    _ => {},
                }
            }
        }
        let mut out: Vec<Node> = Vec::new();
        out.push(node);
        proof {
            assert(nodes(out@) =~= seq![childless(orig.model())] + flat_all(nodes(ch).subrange(0, 0)));
        }
        let n = children.len();
        let mut rest = children;
        let mut k: usize = 0;
        #[verifier::loop_isolation(false)]
        while k < n
            invariant
                k <= n == ch.len(),
                rest@ == ch.subrange(k as int, n as int),
                nodes(ch) == children_of(orig.model()),
                nodes(out@) == seq![childless(orig.model())] + flat_all(nodes(ch).subrange(0, k as int)),
                forall|j: int| 0 <= j < n ==> decreases_to!(orig => #[trigger] ch[j]),
            decreases n - k,
        {
            let c = rest.remove(0);
            assert(c == ch[k as int]);
            assert(decreases_to!(orig => c));
            let mut sub = c.flatten();
            let ghost out0 = out@;
            let ghost sub0 = sub@;
            out.append(&mut sub);
            proof {
                let pre = nodes(ch).subrange(0, k + 1);
                assert(pre.subrange(0, pre.len() - 1) =~= nodes(ch).subrange(0, k as int));
                assert(pre[pre.len() - 1] == ch[k as int].model());
                assert(nodes(out@) =~= nodes(out0) + nodes(sub0));
            }
            k = k + 1;
        }
        proof {
            assert(nodes(ch).subrange(0, n as int) =~= nodes(ch));
        }
        out
    }
}

impl NodeElement {
    /// The name in the open tag.
    pub fn name(&self) -> (r: &NodeName)
        ensures
            r == &self.open_tag.name,
    {
        &self.open_tag.name
    }

    /// The attributes in the open tag.
    pub fn attributes(&self) -> (r: &[NodeAttribute])
        ensures
            r@ == self.open_tag.attributes@,
    {
        self.open_tag.attributes.as_slice()
    }
}

impl OpenTag {
    /// Whether the tag ends with `/>`.
    pub fn is_self_closed(&self) -> (r: bool)
        ensures
            r == self.end_tag.token_solidus is Some,
    {
        self.end_tag.token_solidus.is_some()
    }
}

impl Literal {
    /// The value of a string literal: escapes resolved, quotes removed
    /// (`syn::LitStr::value`); empty for any other literal.
    pub fn value(&self) -> (r: String)
        ensures
            r@ == match lit_str_value(self.repr@) {
                Some(v) => v,
                None => Seq::<char>::empty(),
            },
    {
        match lit_str_value_of(self.repr.as_str()) {
            Some(v) => v,
            None => String::new(),
        }
    }
}

impl NodeText {
    /// The value of the string literal: escapes resolved, quotes removed.
    /// (A text node holds a string literal; for any other literal the value
    /// is empty.)
    pub fn value_string(&self) -> (r: String)
        ensures
            r@ == match lit_str_value(self.value.repr@) {
                Some(v) => v,
                None => Seq::<char>::empty(),
            },
    {
        self.value.value()
    }
}

impl KeyedAttribute {
    /// The text of the value when it is a literal that reads as text (see
    /// `literal_text`); none for other values and for no value.
    pub fn value_literal_string(&self) -> (r: Option<String>)
        ensures
            match r {
                Some(x) => literal_text(self.model().value) == Some(x@),
                None => literal_text(self.model().value) is None,
            },
    {
        match &self.value {
            Some(v) => {
                if v.len() != 1 {
                    return None;
                }
                match &v[0] {
                    TokenTree::Literal(l) => {
                        let repr = l.repr.as_str();
                        match lit_kind_of(repr) {
                            LitKind::Str => lit_str_value_of(repr),
                            LitKind::Char => match lit_char_value_of(repr) {
                                Some(c) => {
                                    let mut s = String::new();
                                    push_char(&mut s, c);
                                    Some(s)
                                },
                                None => None,
                            },
                            LitKind::Int => lit_int_digits_of(repr),
                            LitKind::Float => lit_float_digits_of(repr),
                            _ => None,
                        }
                    },
                    TokenTree::Ident(i) => {
                        let t = String::from_str("true");
                        let f = String::from_str("false");
                        if i.text == t || i.text == f {
                            Some(i.text.clone())
                        } else {
                            None
                        }
                    },
                    _ => None,
                }
            },
            None => None,
        }
    }
}

impl NodeBlock {
    /// The block, when its content is valid Rust.
    pub fn try_block(&self) -> (r: Option<&Block>)
        ensures
            match self {
                NodeBlock::ValidBlock(b) => r == Some(b),
                NodeBlock::Invalid { .. } => r is None,
            },
    {
        match self {
            NodeBlock::ValidBlock(b) => Some(b),
            NodeBlock::Invalid { .. } => None,
        }
    }
}

impl NodeBlock {
    /// The block, when its content is valid Rust; else an error about the
    /// block.
    pub fn into_block(self) -> (r: Result<Block, Diagnostic>)
        ensures
            match self {
                NodeBlock::ValidBlock(b) => r == Ok::<Block, Diagnostic>(b),
                NodeBlock::Invalid { brace, .. } => r is Err && r->Err_0.model() == (Diag {
                    level: Level::Error,
                    span: Some(brace.span_open.spec_join(brace.span_close)),
                    message: "Cant parse expression as block."@,
                    children: seq![],
                }),
            },
    {
        match self {
            NodeBlock::ValidBlock(b) => Ok(b),
            NodeBlock::Invalid { brace, .. } => Err(
                Diagnostic::spanned(
                    Some(brace.span_open.join(brace.span_close)),
                    Level::Error,
                    "Cant parse expression as block.",
                ),
            ),
        }
    }
}

impl Block {
    /// A copy of the block.
    pub fn copy(&self) -> (r: Block)
        ensures
            r.model() == self.model(),
    {
        let stmts = copy_trees(&self.stmts, 0, self.stmts.len());
        proof {
            assert(toks(self.stmts@).subrange(0, self.stmts@.len() as int) =~= toks(self.stmts@));
        }
        Block { brace: self.brace, stmts }
    }
}

impl NodeName {
    /// The block of a block name; an error for other names.
    pub fn to_block(&self) -> (r: Result<Block, Error>)
        ensures
            match self {
                NodeName::Block(b) => r is Ok && r->Ok_0.model() == b.model(),
                _ => fails_with(r, "NodeName does not match NodeName::Block(Expr::Block(_))"@),
            },
    {
        match self {
            NodeName::Block(b) => Ok(b.copy()),
            _ => Err(Error::TryFrom(String::from_str("NodeName does not match NodeName::Block(Expr::Block(_))"))),
        }
    }
}

/// Path segments joined by `::`.
pub fn path_to_string(segments: &Vec<Ident>) -> (r: String)
    ensures
        r@ == path_text(idents(segments@), segments@.len() as int),
{
    let ghost segs = idents(segments@);
    let mut out = String::new();
    let mut i: usize = 0;
    while i < segments.len()
        invariant
            i <= segments@.len(),
            segs == idents(segments@),
            out@ == path_text(segs, i as int),
        decreases segments@.len() - i,
    {
        if i > 0 {
            out.append("::");
        }
        out.append(segments[i].text.as_str());
        assert(segs[i as int].text == segments@[i as int].text@);
        i = i + 1;
    }
    out
}

} // verus!
