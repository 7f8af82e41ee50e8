//! Parser for JSX-like token streams (RSX) into a tree of nodes.
use vstd::prelude::*;

pub mod config;
pub mod context;
pub mod diagnostic;
pub mod error;
pub mod grammar;
pub mod laws;
pub mod model;
pub mod node;
pub mod parse;
pub mod parse_nodes;
pub mod parse_tree;
pub mod parser;
pub mod recoverable;
pub mod syntax;
pub mod text;
pub mod token;

pub use config::ParserConfig;
pub use diagnostic::Diagnostic;
pub use error::Error;
pub use node::{atoms, Node, NodeType};
pub use parser::Parser;
pub use recoverable::ParsingResult;
pub use token::TokenStream;

use crate::diagnostic::Diag;
use crate::node::NodeV;
use crate::parser::{default_parse_spec, read_all, simple_result, whole_spec};
use crate::recoverable::{agrees_with, Answer, BlockTransform};
use crate::token::{toks, Tok};

verus! {

/// The result of parsing all of the token stream `v` with the default
/// configuration; a parse that stops with tokens left reports the first of
/// them as unexpected.
pub open spec fn default_whole_spec(v: TokenStream) -> (Option<Seq<NodeV>>, Seq<Diag>, int) {
    read_all(toks(v.trees@), default_parse_spec(v))
}

/// Parses the token stream into nodes with the default configuration; the
/// first diagnostic when the parse reports any (see
/// `Parser::parse_recoverable`).
pub fn parse(tokens: TokenStream) -> (r: Result<Vec<Node>, Diagnostic>)
    ensures
        simple_result(r, default_whole_spec(tokens)),
{
    parse2(tokens)
}

/// Parses the token stream into nodes with the given configuration.
pub fn parse_with_config<T: BlockTransform>(tokens: TokenStream, config: ParserConfig<T>) -> (r: Result<
    Vec<Node>,
    Diagnostic,
>)
    ensures
        exists|m: Seq<(usize, Answer)>|
            #[trigger] config.answered_by(toks(tokens.trees@), m) && forall|f: spec_fn(int) -> Result<Option<(nat, Seq<Tok>)>, Diag>|
                #[trigger] agrees_with(f, m) ==> simple_result(r, whole_spec(tokens, config, f)),
{
    Parser::new(config).parse_simple(tokens)
}

/// Parses the token stream into nodes with the default configuration.
pub fn parse2(tokens: TokenStream) -> (r: Result<Vec<Node>, Diagnostic>)
    ensures
        simple_result(r, default_whole_spec(tokens)),
{
    let config = ParserConfig::new();
    let ghost c = config;
    let r = Parser::new(config).parse_simple(tokens);
    proof {
        let s = toks(tokens.trees@);
        let m = choose|m: Seq<(usize, Answer)>|
            #[trigger] c.answered_by(s, m) && forall|f: spec_fn(int) -> Result<Option<(nat, Seq<Tok>)>, Diag>|
                #[trigger] agrees_with(f, m) ==> simple_result(r, whole_spec(tokens, c, f));
        if m.len() > 0 {
            assert(m[0] == m[0]);
        }
        let f = |i: int| Ok::<Option<(nat, Seq<Tok>)>, Diag>(None);
        assert(agrees_with(f, m));
        assert(crate::recoverable::strings(c.always_self_closed_elements@) =~= seq![]);
        assert(crate::recoverable::strings(c.raw_text_elements@) =~= seq![]);
        assert(c.top_with(s, 0, tokens.source, f) == default_parse_spec(tokens));
    }
    r
}

/// Parses the token stream into nodes with the given configuration.
pub fn parse2_with_config<T: BlockTransform>(tokens: TokenStream, config: ParserConfig<T>) -> (r: Result<
    Vec<Node>,
    Diagnostic,
>)
    ensures
        exists|m: Seq<(usize, Answer)>|
            #[trigger] config.answered_by(toks(tokens.trees@), m) && forall|f: spec_fn(int) -> Result<Option<(nat, Seq<Tok>)>, Diag>|
                #[trigger] agrees_with(f, m) ==> simple_result(r, whole_spec(tokens, config, f)),
{
    Parser::new(config).parse_simple(tokens)
}

} // verus!
