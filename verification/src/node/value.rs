//! Expressions held as node values, and what they convert to.
use vstd::prelude::*;
use crate::diagnostic::{Diag, Diagnostic, Level};
use crate::error::{fails_with, Error};
use crate::node::{Block, NodeBlock};
use crate::syntax::{
    expr_kind, expr_kind_of, expr_path_segments, expr_path_segments_of, lit_kind, lit_kind_of,
    lit_str_value, lit_str_value_of, ExprKind, LitKind,
};
use crate::token::{display_toks, display_trees, toks, Delimiter, Group, Tok, TokenTree};

verus! {

/// The tokens of a Rust expression.
#[derive(Debug)]
pub struct NodeValueExpr {
    pub expr: Vec<TokenTree>,
}

/// The texts joined by `::`.
pub open spec fn joined(segs: Seq<Seq<char>>, n: int) -> Seq<char>
    decreases n,
{
    if n <= 0 {
        seq![]
    } else if n == 1 {
        segs[0]
    } else {
        joined(segs, n - 1) + "::"@ + segs[n - 1]
    }
}

/// Text of an expression that is a string literal (its value) or a path
/// (its segments joined by `::`); none for other expressions.
pub open spec fn expr_text(expr: Seq<Tok>) -> Option<Seq<char>> {
    let src = display_toks(expr);
    match expr_kind(src) {
        ExprKind::Lit => if lit_kind(src) == LitKind::Str {
            lit_str_value(src)
        } else {
            None
        },
        ExprKind::Path => match expr_path_segments(src) {
            Some(segs) => Some(joined(segs, segs.len() as int)),
            None => None,
        },
        _ => None,
    }
}

fn source_of(expr: &Vec<TokenTree>) -> (r: String)
    ensures
        r@ == display_toks(toks(expr@)),
{
    let mut s = String::new();
    display_trees(expr, &mut s);
    s
}

fn join_segments(segs: &Vec<String>) -> (r: String)
    ensures
        r@ == joined(Seq::new(segs@.len(), |i: int| segs@[i]@), segs@.len() as int),
{
    let ghost ss = Seq::new(segs@.len(), |i: int| segs@[i]@);
    let mut out = String::new();
    let mut i: usize = 0;
    while i < segs.len()
        invariant
            i <= segs@.len(),
            ss == Seq::new(segs@.len(), |i: int| segs@[i]@),
            out@ == joined(ss, i as int),
        decreases segs@.len() - i,
    {
        if i > 0 {
            out.append("::");
        }
        out.append(segs[i].as_str());
        i = i + 1;
    }
    out
}

impl NodeValueExpr {
    /// A value holding the expression `expr`.
    pub fn new(expr: Vec<TokenTree>) -> (r: NodeValueExpr)
        ensures
            r.expr == expr,
    {
        NodeValueExpr { expr }
    }

    /// The expression, when it is a block; an error otherwise.
    pub fn into_expr_block(self) -> (r: Result<Vec<TokenTree>, Error>)
        ensures
            expr_kind(display_toks(toks(self.expr@))) == ExprKind::Block ==> r == Ok::<Vec<TokenTree>, Error>(
                self.expr,
            ),
            expr_kind(display_toks(toks(self.expr@))) != ExprKind::Block ==> fails_with(
                r,
                "NodeValueExpr does not match Expr::Block(_)"@,
            ),
    {
        let src = source_of(&self.expr);
        match expr_kind_of(src.as_str()) {
            ExprKind::Block => Ok(self.expr),
            _ => Err(Error::TryFrom(String::from_str("NodeValueExpr does not match Expr::Block(_)"))),
        }
    }

    /// The expression, when it is a literal; an error otherwise.
    pub fn into_expr_lit(self) -> (r: Result<Vec<TokenTree>, Error>)
        ensures
            expr_kind(display_toks(toks(self.expr@))) == ExprKind::Lit ==> r == Ok::<Vec<TokenTree>, Error>(
                self.expr,
            ),
            expr_kind(display_toks(toks(self.expr@))) != ExprKind::Lit ==> fails_with(
                r,
                "NodeValueExpr does not match Expr::Lit(_)"@,
            ),
    {
        let src = source_of(&self.expr);
        match expr_kind_of(src.as_str()) {
            ExprKind::Lit => Ok(self.expr),
            _ => Err(Error::TryFrom(String::from_str("NodeValueExpr does not match Expr::Lit(_)"))),
        }
    }

    /// The value of a string literal, or the segments of a path joined by
    /// `::`; an error for other expressions (see `expr_text`).
    pub fn to_string_value(&self) -> (r: Result<String, Error>)
        ensures
            match expr_text(toks(self.expr@)) {
                Some(t) => r matches Ok(s) && s@ == t,
                None => fails_with(r, "NodeValueExpr does not match Expr::Lit(Lit::Str(_)) or Expr::Path(_)"@),
            },
    {
        let src = source_of(&self.expr);
        let text = src.as_str();
        let found = match expr_kind_of(text) {
            ExprKind::Lit => match lit_kind_of(text) {
                LitKind::Str => lit_str_value_of(text),
                _ => None,
            },
            ExprKind::Path => match expr_path_segments_of(text) {
                Some(segs) => Some(join_segments(&segs)),
                None => None,
            },
            _ => None,
        };
        match found {
            Some(s) => Ok(s),
            None => Err(
                Error::TryFrom(
                    String::from_str("NodeValueExpr does not match Expr::Lit(Lit::Str(_)) or Expr::Path(_)"),
                ),
            ),
        }
    }
}

impl NodeBlock {
    /// The block as a block expression, when its content is valid Rust;
    /// else an error about the block.
    pub fn into_value_expr(self) -> (r: Result<NodeValueExpr, Diagnostic>)
        ensures
            match self {
                NodeBlock::ValidBlock(b) => r matches Ok(v) && v.expr@.len() == 1 && toks(v.expr@)[0] == (Tok::Group {
                    delimiter: Delimiter::Brace,
                    stream: toks(b.stmts@),
                    open: b.brace.span_open,
                    close: b.brace.span_close,
                }),
                NodeBlock::Invalid { brace, .. } => r is Err && r->Err_0.model() == (Diag {
                    level: Level::Error,
                    span: Some(brace.span_open.spec_join(brace.span_close)),
                    message: "Cant parse expression as block."@,
                    children: seq![],
                }),
            },
    {
        match self {
            NodeBlock::ValidBlock(b) => {
                let Block { brace, stmts } = b;
                let ghost st = stmts@;
                let g = TokenTree::Group(
                    Group { delimiter: Delimiter::Brace, stream: stmts, span_open: brace.span_open, span_close: brace.span_close },
                );
                proof {
                    crate::token::lemma_group_stream(g);
                }
                let mut expr = Vec::new();
                expr.push(g);
                Ok(NodeValueExpr { expr })
            },
            NodeBlock::Invalid { brace, .. } => Err(
                Diagnostic::spanned(
                    Some(brace.span_open.join(brace.span_close)),
                    Level::Error,
                    "Cant parse expression as block.",
                ),
            ),
        }
    }
}

} // verus!
