//! Configuration of the parser.
use vstd::prelude::*;
use crate::diagnostic::Diag;
use crate::grammar::Cfg;
use crate::node::NodeType;
use crate::recoverable::{opt_string, strings, Answer, BlockTransform, NoTransform};
use crate::token::Tok;

verus! {

/// Configures the `Parser` behavior.
#[derive(Debug)]
pub struct ParserConfig<T> {
    /// Return the nodes flattened, each without children, instead of a tree.
    pub flat_tree: bool,
    /// Exact number of top level nodes required.
    pub number_of_top_level_nodes: Option<usize>,
    /// Type that every top level node must have.
    pub type_of_top_level_nodes: Option<NodeType>,
    /// Rewriting of the content of blocks before they are parsed.
    pub transform_block: Option<T>,
    /// Keep a block whose content is not valid Rust as
    /// `NodeBlock::Invalid`.
    pub recover_block: bool,
    /// Void elements: no children and no close tag, e.g. `br`, `img`.
    pub always_self_closed_elements: Vec<String>,
    /// Elements whose content is raw text, e.g. `script`, `style` (`""` for
    /// fragments).
    pub raw_text_elements: Vec<String>,
}

impl ParserConfig<NoTransform> {
    /// The default configuration: a tree, no limits on top level nodes, no
    /// transformation of blocks, no recovery of invalid blocks, no void or
    /// raw text elements.
    pub fn new() -> (r: ParserConfig<NoTransform>)
        ensures
            r.is_default(),
    {
        ParserConfig {
            flat_tree: false,
            number_of_top_level_nodes: None,
            type_of_top_level_nodes: None,
            transform_block: None,
            recover_block: false,
            always_self_closed_elements: Vec::new(),
            raw_text_elements: Vec::new(),
        }
    }
}

impl Default for ParserConfig<NoTransform> {
    fn default() -> (r: ParserConfig<NoTransform>)
        ensures
            r.is_default(),
    {
        ParserConfig::new()
    }
}

impl<T> ParserConfig<T> {
    /// The default settings.
    pub open spec fn is_default(&self) -> bool {
        &&& !self.flat_tree
        &&& self.number_of_top_level_nodes is None
        &&& self.type_of_top_level_nodes is None
        &&& self.transform_block is None
        &&& !self.recover_block
        &&& self.always_self_closed_elements@.len() == 0
        &&& self.raw_text_elements@.len() == 0
    }

    /// The configuration as the grammar reads it, for tokens with the given
    /// source text.
    pub open spec fn cfg(&self, source: Option<String>) -> Cfg {
        Cfg {
            recover_block: self.recover_block,
            self_closed: strings(self.always_self_closed_elements@),
            raw_text: strings(self.raw_text_elements@),
            source: opt_string(source),
            blocks: None,
        }
    }

    /// The configuration as the grammar reads it, for tokens with the given
    /// source text, when the transformation (if one is configured) answers
    /// `f(k)` for the block at position `k`.
    pub open spec fn cfg_with(
        &self,
        source: Option<String>,
        f: spec_fn(int) -> Result<Option<(nat, Seq<Tok>)>, Diag>,
    ) -> Cfg {
        Cfg {
            blocks: if self.exact() {
                None
            } else {
                Some(f)
            },
            ..self.cfg(source)
        }
    }

    /// Blocks are not transformed: they are read as they are.
    pub open spec fn exact(&self) -> bool {
        self.transform_block is None
    }
}

impl<T: BlockTransform> ParserConfig<T> {
    /// `m` holds answers that the configured transformation gave for blocks
    /// of the tokens `s`, by their positions, at most one for each position.
    pub open spec fn answered_by(&self, s: Seq<Tok>, m: Seq<(usize, Answer)>) -> bool {
        &&& forall|i: int|
            0 <= i < m.len() ==> {
                let k = (#[trigger] m[i]).0 as int;
                &&& k < s.len()
                &&& s[k] is Group
                &&& self.transform_block is Some
                &&& self.transform_block->Some_0.answers(s[k]->Group_stream, m[i].1)
            }
        &&& forall|i: int, j: int| 0 <= i < j < m.len() ==> #[trigger] m[i].0 != #[trigger] m[j].0
    }
}

impl<T> ParserConfig<T> {
    /// Return a flat list of nodes instead of a tree.
    pub fn flat_tree(self) -> (r: Self)
        ensures
            r == (ParserConfig { flat_tree: true, ..self }),
    {
        ParserConfig { flat_tree: true, ..self }
    }

    /// Require exactly `number` top level nodes.
    pub fn number_of_top_level_nodes(self, number: usize) -> (r: Self)
        ensures
            r == (ParserConfig { number_of_top_level_nodes: Some(number), ..self }),
    {
        ParserConfig { number_of_top_level_nodes: Some(number), ..self }
    }

    /// Require every top level node to be of type `node_type`.
    pub fn type_of_top_level_nodes(self, node_type: NodeType) -> (r: Self)
        ensures
            r == (ParserConfig { type_of_top_level_nodes: Some(node_type), ..self }),
    {
        ParserConfig { type_of_top_level_nodes: Some(node_type), ..self }
    }

    /// Keep a block whose content `syn` does not parse as
    /// `NodeBlock::Invalid`, e.g. `{x.}`, which an IDE completes.
    pub fn recover_block(self, recover_block: bool) -> (r: Self)
        ensures
            r == (ParserConfig { recover_block, ..self }),
    {
        ParserConfig { recover_block, ..self }
    }

    /// Set the void elements: they have no children and no close tag, and
    /// no close tag is looked for even without `/>`.
    pub fn always_self_closed_elements(self, elements: Vec<String>) -> (r: Self)
        ensures
            r == (ParserConfig { always_self_closed_elements: elements, ..self }),
    {
        ParserConfig { always_self_closed_elements: elements, ..self }
    }

    /// Set the elements whose content is one raw text up to their close
    /// tag, such as `script` or `style`; `""` makes fragments raw.
    pub fn raw_text_elements(self, elements: Vec<String>) -> (r: Self)
        ensures
            r == (ParserConfig { raw_text_elements: elements, ..self }),
    {
        ParserConfig { raw_text_elements: elements, ..self }
    }

    /// Transform the content of every block with `callback` before it is
    /// parsed as Rust (see `BlockTransform`).
    pub fn transform_block<U: BlockTransform>(self, callback: U) -> (r: ParserConfig<U>)
        ensures
            r.flat_tree == self.flat_tree,
            r.number_of_top_level_nodes == self.number_of_top_level_nodes,
            r.type_of_top_level_nodes == self.type_of_top_level_nodes,
            r.transform_block == Some(callback),
            r.recover_block == self.recover_block,
            r.always_self_closed_elements == self.always_self_closed_elements,
            r.raw_text_elements == self.raw_text_elements,
    {
        ParserConfig {
            flat_tree: self.flat_tree,
            number_of_top_level_nodes: self.number_of_top_level_nodes,
            type_of_top_level_nodes: self.type_of_top_level_nodes,
            transform_block: Some(callback),
            recover_block: self.recover_block,
            always_self_closed_elements: self.always_self_closed_elements,
            raw_text_elements: self.raw_text_elements,
        }
    }
}

} // verus!
