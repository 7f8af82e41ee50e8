//! Tree of nodes.
use vstd::prelude::*;
use crate::model::Model;
use crate::token::{toks, Ident, Literal, Punct, Span, Tok, TokenTree};

pub mod atoms;
pub mod name;
pub mod raw_text;
pub mod span;
pub mod tree;
pub mod value;

pub use atoms::{
    Brace, CloseTagStart, ComEnd, ComStart, DocStart, DoubleMinus, FragmentClose, FragmentOpen, OpenTagEnd,
    PathSep,
};

verus! {

/// Block of Rust code in braces, `{ ... }`: the braces and the tokens of the
/// statements.
#[derive(Debug)]
pub struct Block {
    pub brace: Brace,
    pub stmts: Vec<TokenTree>,
}

/// Block node: arbitrary Rust code in braces.
#[derive(Debug)]
pub enum NodeBlock {
    /// A block whose content `syn` parses as statements.
    ValidBlock(Block),
    /// A block whose content is not valid Rust for `syn`; kept as tokens.
    Invalid { brace: Brace, body: Vec<TokenTree> },
}

/// Name of a node or attribute.
#[derive(Debug)]
pub enum NodeName {
    /// A plain identifier such as `div`, or identifiers separated by `::`
    /// such as `foo::bar` (the separators, the last one possibly trailing).
    Path { segments: Vec<Ident>, separators: Vec<PathSep> },
    /// Identifiers separated by `-` or `:`, e.g. `data-foo` or `on:click`.
    Punctuated { idents: Vec<Ident>, puncts: Vec<Punct> },
    /// Arbitrary Rust code in braces.
    Block(Block),
}

/// Element attribute with a fixed key, `key` or `key=value`.
#[derive(Debug)]
pub struct KeyedAttribute {
    /// Key of the attribute.
    pub key: NodeName,
    /// The `=` before the value, when there is a value.
    pub token_eq: Option<Span>,
    /// Tokens of the value expression.
    pub value: Option<Vec<TokenTree>>,
    /// Span from the key to the end of the value.
    pub span: Span,
}

/// Attribute of an open tag: a block or a keyed attribute.
#[derive(Debug)]
pub enum NodeAttribute {
    Block(NodeBlock),
    Attribute(KeyedAttribute),
}

/// Open tag of an element: `<name attr=x flag>` or `<name />`.
#[derive(Debug)]
pub struct OpenTag {
    pub token_lt: Span,
    pub name: NodeName,
    pub attributes: Vec<NodeAttribute>,
    pub end_tag: OpenTagEnd,
}

/// Close tag of an element: `</name>`.
#[derive(Debug)]
pub struct CloseTag {
    pub start_tag: CloseTagStart,
    pub name: NodeName,
    pub token_gt: Span,
}

/// Raw unquoted text: the tokens, the spans of the tokens that surround it
/// (set when it is a child of an element or fragment), and the source text
/// the tokens were read from, when known.
#[derive(Debug)]
pub struct RawText {
    pub token_stream: Vec<TokenTree>,
    pub context_span: Option<(Span, Span)>,
    pub source: Option<String>,
}

/// Text node: a string literal.
#[derive(Debug)]
pub struct NodeText {
    pub value: Literal,
}

/// Comment node: `<!-- "comment" -->`.
#[derive(Debug)]
pub struct NodeComment {
    pub token_start: ComStart,
    pub value: Literal,
    pub token_end: ComEnd,
}

/// Doctype node: `<!DOCTYPE html>`; the value is the raw text after the
/// keyword.
#[derive(Debug)]
pub struct NodeDoctype {
    pub token_start: DocStart,
    pub token_doctype: Ident,
    pub value: RawText,
    pub token_end: Span,
}

/// Fragment node: `<> ... </>`.
#[derive(Debug)]
pub struct NodeFragment {
    pub tag_open: FragmentOpen,
    pub children: Vec<Node>,
    pub tag_close: Option<FragmentClose>,
}

/// Element node: an open tag, children and, unless self-closed, a close tag.
#[derive(Debug)]
pub struct NodeElement {
    pub open_tag: OpenTag,
    pub children: Vec<Node>,
    pub close_tag: Option<CloseTag>,
}

/// Node in the tree.
#[derive(Debug)]
pub enum Node {
    Comment(NodeComment),
    Doctype(NodeDoctype),
    Fragment(NodeFragment),
    Element(NodeElement),
    Block(NodeBlock),
    Text(NodeText),
    RawText(RawText),
}

/// Node types.
#[derive(Clone, Copy, Debug, PartialEq, Eq, Structural)]
pub enum NodeType {
    Element,
    Text,
    Comment,
    Doctype,
    Block,
    Fragment,
    RawText,
}

// ---------------------------------------------------------------------------
// Mathematical values.

pub struct IdentV {
    pub text: Seq<char>,
    pub span: Span,
}

pub struct LitV {
    pub repr: Seq<char>,
    pub span: Span,
}

pub struct BlockV {
    pub brace: Brace,
    pub stmts: Seq<Tok>,
}

pub enum NodeBlockV {
    Valid(BlockV),
    Invalid(Brace, Seq<Tok>),
}

pub enum NameV {
    Path(Seq<IdentV>, Seq<PathSep>),
    Punctuated(Seq<IdentV>, Seq<Punct>),
    Block(BlockV),
}

pub struct KeyedAttributeV {
    pub key: NameV,
    pub token_eq: Option<Span>,
    pub value: Option<Seq<Tok>>,
    pub span: Span,
}

pub enum AttributeV {
    Block(NodeBlockV),
    Keyed(KeyedAttributeV),
}

pub struct OpenTagV {
    pub token_lt: Span,
    pub name: NameV,
    pub attributes: Seq<AttributeV>,
    pub end_tag: OpenTagEnd,
}

pub struct CloseTagV {
    pub start_tag: CloseTagStart,
    pub name: NameV,
    pub token_gt: Span,
}

pub struct RawTextV {
    pub tokens: Seq<Tok>,
    pub context_span: Option<(Span, Span)>,
    pub source: Option<Seq<char>>,
}

#[allow(inconsistent_fields)]
pub enum NodeV {
    Comment { token_start: ComStart, value: LitV, token_end: ComEnd },
    Doctype { token_start: DocStart, token_doctype: IdentV, value: RawTextV, token_end: Span },
    Fragment { tag_open: FragmentOpen, children: Seq<NodeV>, tag_close: Option<FragmentClose> },
    Element { open_tag: OpenTagV, children: Seq<NodeV>, close_tag: Option<CloseTagV> },
    Block(NodeBlockV),
    Text(LitV),
    RawText(RawTextV),
}

impl Ident {
    pub open spec fn model(&self) -> IdentV {
        IdentV { text: self.text@, span: self.span }
    }
}

impl Literal {
    pub open spec fn model(&self) -> LitV {
        LitV { repr: self.repr@, span: self.span }
    }
}

pub open spec fn idents(v: Seq<Ident>) -> Seq<IdentV> {
    Seq::new(v.len(), |i: int| v[i].model())
}

impl Block {
    pub open spec fn model(&self) -> BlockV {
        BlockV { brace: self.brace, stmts: toks(self.stmts@) }
    }
}

impl NodeBlock {
    pub open spec fn model(&self) -> NodeBlockV {
        match self {
            NodeBlock::ValidBlock(b) => NodeBlockV::Valid(b.model()),
            NodeBlock::Invalid { brace, body } => NodeBlockV::Invalid(*brace, toks(body@)),
        }
    }
}

impl NodeName {
    pub open spec fn model(&self) -> NameV {
        match self {
            NodeName::Path { segments, separators } => NameV::Path(idents(segments@), separators@),
            NodeName::Punctuated { idents: ids, puncts } => NameV::Punctuated(idents(ids@), puncts@),
            NodeName::Block(b) => NameV::Block(b.model()),
        }
    }
}

impl KeyedAttribute {
    pub open spec fn model(&self) -> KeyedAttributeV {
        KeyedAttributeV {
            key: self.key.model(),
            token_eq: self.token_eq,
            value: match self.value {
                Some(v) => Some(toks(v@)),
                None => None,
            },
            span: self.span,
        }
    }
}

impl NodeAttribute {
    pub open spec fn model(&self) -> AttributeV {
        match self {
            NodeAttribute::Block(b) => AttributeV::Block(b.model()),
            NodeAttribute::Attribute(a) => AttributeV::Keyed(a.model()),
        }
    }
}

pub open spec fn attributes(v: Seq<NodeAttribute>) -> Seq<AttributeV> {
    Seq::new(v.len(), |i: int| v[i].model())
}

impl OpenTag {
    pub open spec fn model(&self) -> OpenTagV {
        OpenTagV {
            token_lt: self.token_lt,
            name: self.name.model(),
            attributes: attributes(self.attributes@),
            end_tag: self.end_tag,
        }
    }
}

impl CloseTag {
    pub open spec fn model(&self) -> CloseTagV {
        CloseTagV { start_tag: self.start_tag, name: self.name.model(), token_gt: self.token_gt }
    }
}

pub open spec fn close_tag_model(c: Option<CloseTag>) -> Option<CloseTagV> {
    match c {
        Some(c) => Some(c.model()),
        None => None,
    }
}

impl RawText {
    pub open spec fn model(&self) -> RawTextV {
        RawTextV {
            tokens: toks(self.token_stream@),
            context_span: self.context_span,
            source: match self.source {
                Some(s) => Some(s@),
                None => None,
            },
        }
    }
}

/// Placeholder value outside a sequence's bounds.
pub open spec fn no_node() -> NodeV {
    NodeV::RawText(RawTextV { tokens: seq![], context_span: None, source: None })
}

impl Node {
    pub open spec fn model(&self) -> NodeV
        decreases self,
    {
        match self {
            Node::Comment(c) => NodeV::Comment {
                token_start: c.token_start,
                value: c.value.model(),
                token_end: c.token_end,
            },
            Node::Doctype(d) => NodeV::Doctype {
                token_start: d.token_start,
                token_doctype: d.token_doctype.model(),
                value: d.value.model(),
                token_end: d.token_end,
            },
            Node::Fragment(f) => NodeV::Fragment {
                tag_open: f.tag_open,
                children: Seq::new(
                    f.children@.len(),
                    |i: int|
                        if 0 <= i < f.children@.len() {
                            f.children@[i].model()
                        } else {
                            no_node()
                        },
                ),
                tag_close: f.tag_close,
            },
            Node::Element(e) => NodeV::Element {
                open_tag: e.open_tag.model(),
                children: Seq::new(
                    e.children@.len(),
                    |i: int|
                        if 0 <= i < e.children@.len() {
                            e.children@[i].model()
                        } else {
                            no_node()
                        },
                ),
                close_tag: close_tag_model(e.close_tag),
            },
            Node::Block(b) => NodeV::Block(b.model()),
            Node::Text(t) => NodeV::Text(t.value.model()),
            Node::RawText(r) => NodeV::RawText(r.model()),
        }
    }
}

/// Values of a sequence of nodes.
pub open spec fn nodes(v: Seq<Node>) -> Seq<NodeV> {
    Seq::new(v.len(), |i: int| v[i].model())
}


impl Model for Span {
    type V = Span;

    open spec fn mv(&self) -> Span {
        *self
    }
}

impl Model for Punct {
    type V = Punct;

    open spec fn mv(&self) -> Punct {
        *self
    }
}

impl Model for DocStart {
    type V = DocStart;

    open spec fn mv(&self) -> DocStart {
        *self
    }
}

impl Model for ComStart {
    type V = ComStart;

    open spec fn mv(&self) -> ComStart {
        *self
    }
}

impl Model for ComEnd {
    type V = ComEnd;

    open spec fn mv(&self) -> ComEnd {
        *self
    }
}

impl Model for OpenTagEnd {
    type V = OpenTagEnd;

    open spec fn mv(&self) -> OpenTagEnd {
        *self
    }
}

impl Model for CloseTagStart {
    type V = CloseTagStart;

    open spec fn mv(&self) -> CloseTagStart {
        *self
    }
}

impl Model for FragmentOpen {
    type V = FragmentOpen;

    open spec fn mv(&self) -> FragmentOpen {
        *self
    }
}

impl Model for FragmentClose {
    type V = FragmentClose;

    open spec fn mv(&self) -> FragmentClose {
        *self
    }
}

impl Model for Ident {
    type V = IdentV;

    open spec fn mv(&self) -> IdentV {
        self.model()
    }
}

impl Model for Literal {
    type V = LitV;

    open spec fn mv(&self) -> LitV {
        self.model()
    }
}

impl Model for TokenTree {
    type V = Tok;

    open spec fn mv(&self) -> Tok {
        self.model()
    }
}

impl Model for Block {
    type V = BlockV;

    open spec fn mv(&self) -> BlockV {
        self.model()
    }
}

impl Model for NodeBlock {
    type V = NodeBlockV;

    open spec fn mv(&self) -> NodeBlockV {
        self.model()
    }
}

impl Model for NodeName {
    type V = NameV;

    open spec fn mv(&self) -> NameV {
        self.model()
    }
}

impl Model for KeyedAttribute {
    type V = KeyedAttributeV;

    open spec fn mv(&self) -> KeyedAttributeV {
        self.model()
    }
}

impl Model for NodeAttribute {
    type V = AttributeV;

    open spec fn mv(&self) -> AttributeV {
        self.model()
    }
}

impl Model for OpenTag {
    type V = OpenTagV;

    open spec fn mv(&self) -> OpenTagV {
        self.model()
    }
}

impl Model for CloseTag {
    type V = CloseTagV;

    open spec fn mv(&self) -> CloseTagV {
        self.model()
    }
}

impl Model for RawText {
    type V = RawTextV;

    open spec fn mv(&self) -> RawTextV {
        self.model()
    }
}

impl Model for Node {
    type V = NodeV;

    open spec fn mv(&self) -> NodeV {
        self.model()
    }
}

impl Model for Vec<Node> {
    type V = Seq<NodeV>;

    open spec fn mv(&self) -> Seq<NodeV> {
        nodes(self@)
    }
}

impl Model for NodeFragment {
    type V = NodeV;

    open spec fn mv(&self) -> NodeV {
        NodeV::Fragment {
            tag_open: self.tag_open,
            children: nodes(self.children@),
            tag_close: self.tag_close,
        }
    }
}

impl Model for NodeElement {
    type V = NodeV;

    open spec fn mv(&self) -> NodeV {
        NodeV::Element {
            open_tag: self.open_tag.model(),
            children: nodes(self.children@),
            close_tag: close_tag_model(self.close_tag),
        }
    }
}

} // verus!
