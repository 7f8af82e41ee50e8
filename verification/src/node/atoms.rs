//! Punctuation parts of nodes: `<!`, `<!--`, `-->`, `/>` or `>`, `</`, `<>`,
//! `</>`. Each holds the spans of its tokens.
use vstd::prelude::*;
use crate::token::Span;

verus! {

/// Start of a doctype: `<!`.
#[derive(Clone, Copy, Debug, PartialEq, Eq, Structural)]
pub struct DocStart {
    pub token_lt: Span,
    pub token_not: Span,
}

/// Start of a comment: `<!--`.
#[derive(Clone, Copy, Debug, PartialEq, Eq, Structural)]
pub struct ComStart {
    pub token_lt: Span,
    pub token_not: Span,
    pub token_minus: DoubleMinus,
}

/// End of a comment: `-->`.
#[derive(Clone, Copy, Debug, PartialEq, Eq, Structural)]
pub struct ComEnd {
    pub token_minus: DoubleMinus,
    pub token_gt: Span,
}

/// End of an open tag: `/>` or `>`.
#[derive(Clone, Copy, Debug, PartialEq, Eq, Structural)]
pub struct OpenTagEnd {
    pub token_solidus: Option<Span>,
    pub token_gt: Span,
}

/// Start of a close tag: `</`.
#[derive(Clone, Copy, Debug, PartialEq, Eq, Structural)]
pub struct CloseTagStart {
    pub token_lt: Span,
    pub token_solidus: Span,
}

/// Open part of a fragment: `<>`.
#[derive(Clone, Copy, Debug, PartialEq, Eq, Structural)]
pub struct FragmentOpen {
    pub token_lt: Span,
    pub token_gt: Span,
}

/// Close part of a fragment: `</>`.
#[derive(Clone, Copy, Debug, PartialEq, Eq, Structural)]
pub struct FragmentClose {
    pub start_tag: CloseTagStart,
    pub token_gt: Span,
}

/// The two `-` of `<!--` or `-->`.
#[derive(Clone, Copy, Debug, PartialEq, Eq, Structural)]
pub struct DoubleMinus {
    pub first: Span,
    pub second: Span,
}

/// Path separator `::` of a node name.
#[derive(Clone, Copy, Debug, PartialEq, Eq, Structural)]
pub struct PathSep {
    pub first: Span,
    pub second: Span,
}

/// Braces around a block.
#[derive(Clone, Copy, Debug, PartialEq, Eq, Structural)]
pub struct Brace {
    pub span_open: Span,
    pub span_close: Span,
}

} // verus!
