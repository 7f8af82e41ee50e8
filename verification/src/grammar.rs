//! The RSX grammar, with its recovery from errors, stated over sequences of
//! token tree values. A parse at position `p` gives a value or an error
//! (strict parts, `Strict`), or a value or nothing together with the
//! diagnostics it reported (recoverable parts, `Recovered`), and the
//! position after what it consumed. The parsing functions of the library
//! are specified by these functions.
use vstd::prelude::*;
use crate::diagnostic::{Diag, Level, SubDiag};
use crate::node::{
    AttributeV, BlockV, Brace, CloseTagStart, CloseTagV, ComEnd, ComStart, DocStart, DoubleMinus,
    FragmentClose, FragmentOpen, IdentV, KeyedAttributeV, LitV, NameV, NodeBlockV, OpenTagEnd,
    NodeV, OpenTagV, PathSep, RawTextV,
};
use crate::syntax::{
    accepted_ident, block_body_error, expr_rest, lit_str_value, lowercase, same_block_body,
};
use crate::token::{display_toks, lexed_len, Delimiter, Punct, Span, Tok};

verus! {

/// Outcome of a strict parse: a value or an error, and the position after
/// the tokens it consumed (a failing parse may have consumed some).
pub struct Strict<T> {
    pub val: Result<T, Diag>,
    pub pos: int,
}

/// Outcome of a recoverable parse: a value or nothing, the position after
/// the consumed tokens, and the diagnostics reported on the way.
pub struct Recovered<T> {
    pub val: Option<T>,
    pub pos: int,
    pub diags: Seq<Diag>,
}

/// What the parser is configured with.
pub struct Cfg {
    /// Whether an invalid block becomes `NodeBlock::Invalid`.
    pub recover_block: bool,
    /// Names of elements that never have children nor a close tag.
    pub self_closed: Seq<Seq<char>>,
    /// Names of elements whose content is raw text (`""`: fragments).
    pub raw_text: Seq<Seq<char>>,
    /// Source text of the tokens, when known.
    pub source: Option<Seq<char>>,
    /// When blocks are transformed: the answer of the transformation for
    /// the block at each position (`None`: blocks are read as they are).
    pub blocks: Option<spec_fn(int) -> Result<Option<(nat, Seq<Tok>)>, Diag>>,
}

impl Cfg {
    /// The configuration for the tokens from `d` on, read as a sequence of
    /// their own: block positions count from there.
    pub open spec fn shift(self, d: int) -> Cfg {
        Cfg {
            blocks: match self.blocks {
                Some(f) => Some(|i: int| f(d + i)),
                None => None,
            },
            ..self
        }
    }
}

pub open spec fn in_bounds(s: Seq<Tok>, p: int) -> bool {
    0 <= p < s.len()
}

pub open spec fn punct_at(s: Seq<Tok>, p: int, c: char) -> bool {
    in_bounds(s, p) && s[p].is_punct(c)
}

pub open spec fn group_at(s: Seq<Tok>, p: int, d: Delimiter) -> bool {
    in_bounds(s, p) && s[p].is_group(d)
}

pub open spec fn ident_at(s: Seq<Tok>, p: int) -> bool {
    in_bounds(s, p) && s[p] is Ident
}

/// A `::`: a joint `:` followed by a `:`.
pub open spec fn path_sep_at(s: Seq<Tok>, p: int) -> bool {
    punct_at(s, p, ':') && s[p].is_joint() && punct_at(s, p + 1, ':')
}

/// A literal that `syn` reads as a string literal.
pub open spec fn lit_str_at(s: Seq<Tok>, p: int) -> bool {
    in_bounds(s, p) && s[p] is Literal && lit_str_value(s[p]->Literal_repr) is Some
}

/// An identifier that `syn` accepts as `syn::Ident` (not a keyword).
pub open spec fn syn_ident_at(s: Seq<Tok>, p: int) -> bool {
    ident_at(s, p) && accepted_ident(s[p]->Ident_text)
}

/// Where `syn` places an error at a token: a group at its opening
/// delimiter.
pub open spec fn open_span(t: Tok) -> Span {
    match t {
        Tok::Group { open, .. } => open,
        _ => t.span(),
    }
}

/// Place of an error at position `p`: the token there, or none (the call
/// site) at the end.
pub open spec fn span_at(s: Seq<Tok>, p: int) -> Option<Span> {
    if in_bounds(s, p) {
        Some(open_span(s[p]))
    } else {
        None
    }
}

/// Span of the tokens `s[a..b]`: from the first to the last.
pub open spec fn range_span(s: Seq<Tok>, a: int, b: int) -> Span {
    if 0 <= a < b <= s.len() {
        s[a].span().spec_join(s[b - 1].span())
    } else {
        Span { lo: 0, hi: 0 }
    }
}

pub open spec fn error(span: Option<Span>, message: Seq<char>) -> Diag {
    Diag { level: Level::Error, span, message, children: seq![] }
}

/// An error that `syn` reports at position `p`: at the token there, or,
/// at the end of the input, at the call site and after the words
/// "unexpected end of input, ".
pub open spec fn error_at(s: Seq<Tok>, p: int, message: Seq<char>) -> Diag {
    if in_bounds(s, p) {
        error(span_at(s, p), message)
    } else {
        error(None, "unexpected end of input, "@ + message)
    }
}

/// The error of a missing punctuation `c` at position `p` (no words
/// before it at the end of the input).
pub open spec fn punct_error_at(s: Seq<Tok>, p: int, c: char) -> Diag {
    error(span_at(s, p), expected_punct(c))
}

pub open spec fn expected_punct(c: char) -> Seq<char> {
    "expected `"@ + seq![c] + "`"@
}

pub open spec fn fail<T>(d: Diag, pos: int) -> Strict<T> {
    Strict { val: Err(d), pos }
}

pub open spec fn ok<T>(v: T, pos: int) -> Strict<T> {
    Strict { val: Ok(v), pos }
}

/// A strict parse used where errors are recorded: its error becomes the one
/// diagnostic.
pub open spec fn recorded<T>(r: Strict<T>) -> Recovered<T> {
    match r.val {
        Ok(v) => Recovered { val: Some(v), pos: r.pos, diags: seq![] },
        Err(e) => Recovered { val: None, pos: r.pos, diags: seq![e] },
    }
}

/// One punctuation character `c`.
pub open spec fn s_punct(s: Seq<Tok>, p: int, c: char) -> Strict<Span> {
    if punct_at(s, p, c) {
        ok(s[p].span(), p + 1)
    } else {
        fail(punct_error_at(s, p, c), p)
    }
}

/// `<!`
pub open spec fn s_doc_start(s: Seq<Tok>, p: int) -> Strict<DocStart> {
    if !punct_at(s, p, '<') {
        fail(punct_error_at(s, p, '<'), p)
    } else if !punct_at(s, p + 1, '!') {
        fail(punct_error_at(s, p + 1, '!'), p + 1)
    } else {
        ok(DocStart { token_lt: s[p].span(), token_not: s[p + 1].span() }, p + 2)
    }
}

/// `<!--`
pub open spec fn s_com_start(s: Seq<Tok>, p: int) -> Strict<ComStart> {
    if !punct_at(s, p, '<') {
        fail(punct_error_at(s, p, '<'), p)
    } else if !punct_at(s, p + 1, '!') {
        fail(punct_error_at(s, p + 1, '!'), p + 1)
    } else if !punct_at(s, p + 2, '-') {
        fail(punct_error_at(s, p + 2, '-'), p + 2)
    } else if !punct_at(s, p + 3, '-') {
        fail(punct_error_at(s, p + 3, '-'), p + 3)
    } else {
        ok(
            ComStart {
                token_lt: s[p].span(),
                token_not: s[p + 1].span(),
                token_minus: DoubleMinus { first: s[p + 2].span(), second: s[p + 3].span() },
            },
            p + 4,
        )
    }
}

/// `-->`
pub open spec fn s_com_end(s: Seq<Tok>, p: int) -> Strict<ComEnd> {
    if !punct_at(s, p, '-') {
        fail(punct_error_at(s, p, '-'), p)
    } else if !punct_at(s, p + 1, '-') {
        fail(punct_error_at(s, p + 1, '-'), p + 1)
    } else if !punct_at(s, p + 2, '>') {
        fail(punct_error_at(s, p + 2, '>'), p + 2)
    } else {
        ok(
            ComEnd {
                token_minus: DoubleMinus { first: s[p].span(), second: s[p + 1].span() },
                token_gt: s[p + 2].span(),
            },
            p + 3,
        )
    }
}

/// `/>` or `>`
pub open spec fn s_open_tag_end(s: Seq<Tok>, p: int) -> Strict<OpenTagEnd> {
    if punct_at(s, p, '/') {
        if punct_at(s, p + 1, '>') {
            ok(OpenTagEnd { token_solidus: Some(s[p].span()), token_gt: s[p + 1].span() }, p + 2)
        } else {
            fail(punct_error_at(s, p + 1, '>'), p + 1)
        }
    } else if punct_at(s, p, '>') {
        ok(OpenTagEnd { token_solidus: None, token_gt: s[p].span() }, p + 1)
    } else {
        fail(punct_error_at(s, p, '>'), p)
    }
}

/// `</`
pub open spec fn s_close_tag_start(s: Seq<Tok>, p: int) -> Strict<CloseTagStart> {
    if !punct_at(s, p, '<') {
        fail(punct_error_at(s, p, '<'), p)
    } else if !punct_at(s, p + 1, '/') {
        fail(punct_error_at(s, p + 1, '/'), p + 1)
    } else {
        ok(CloseTagStart { token_lt: s[p].span(), token_solidus: s[p + 1].span() }, p + 2)
    }
}

/// `<>`
pub open spec fn s_fragment_open(s: Seq<Tok>, p: int) -> Strict<FragmentOpen> {
    if !punct_at(s, p, '<') {
        fail(punct_error_at(s, p, '<'), p)
    } else if !punct_at(s, p + 1, '>') {
        fail(punct_error_at(s, p + 1, '>'), p + 1)
    } else {
        ok(FragmentOpen { token_lt: s[p].span(), token_gt: s[p + 1].span() }, p + 2)
    }
}

/// `</>`
pub open spec fn s_fragment_close(s: Seq<Tok>, p: int) -> Strict<FragmentClose> {
    if !punct_at(s, p, '<') {
        fail(punct_error_at(s, p, '<'), p)
    } else if !punct_at(s, p + 1, '/') {
        fail(punct_error_at(s, p + 1, '/'), p + 1)
    } else if !punct_at(s, p + 2, '>') {
        fail(punct_error_at(s, p + 2, '>'), p + 2)
    } else {
        ok(
            FragmentClose {
                start_tag: CloseTagStart { token_lt: s[p].span(), token_solidus: s[p + 1].span() },
                token_gt: s[p + 2].span(),
            },
            p + 3,
        )
    }
}

/// A string literal.
pub open spec fn s_lit_str(s: Seq<Tok>, p: int) -> Strict<LitV> {
    if lit_str_at(s, p) {
        ok(LitV { repr: s[p]->Literal_repr, span: s[p].span() }, p + 1)
    } else {
        fail(error_at(s, p, "expected string literal"@), p)
    }
}

/// An identifier that is not a keyword.
pub open spec fn s_ident(s: Seq<Tok>, p: int) -> Strict<IdentV> {
    if syn_ident_at(s, p) {
        ok(IdentV { text: s[p]->Ident_text, span: s[p].span() }, p + 1)
    } else {
        fail(
            error_at(
                s,
                p,
                if ident_at(s, p) {
                    "expected identifier, found keyword `"@ + s[p]->Ident_text + "`"@
                } else {
                    "expected identifier"@
                },
            ),
            p,
        )
    }
}

pub open spec fn ident_v(t: Tok) -> IdentV {
    IdentV { text: t->Ident_text, span: t.span() }
}

pub open spec fn punct_v(t: Tok) -> Punct {
    Punct { ch: t->Punct_ch, spacing: t->Punct_spacing, span: t->Punct_span }
}

pub open spec fn brace_v(t: Tok) -> Brace {
    Brace { span_open: t->Group_open, span_close: t->Group_close }
}

/// A block in braces whose content `syn` parses as statements; else the
/// error `syn` reports on the content, at the closing brace.
pub open spec fn s_block(s: Seq<Tok>, p: int) -> Strict<BlockV> {
    if group_at(s, p, Delimiter::Brace) {
        match block_body_error(display_toks(s[p]->Group_stream)) {
            None => ok(BlockV { brace: brace_v(s[p]), stmts: s[p]->Group_stream }, p + 1),
            Some(m) => fail(error(Some(s[p]->Group_close), m), p),
        }
    } else {
        fail(error_at(s, p, "expected curly braces"@), p)
    }
}

/// A block at `p` whose content a user's transformation answered with
/// `outcome`: with replacement tokens (and how many trees of the content
/// it read), the block of those tokens, which must be valid Rust, after
/// all of the content was read; without, the block as it is; or the
/// transformation's error.
pub open spec fn s_transformed_block(
    s: Seq<Tok>,
    p: int,
    outcome: Result<Option<(nat, Seq<Tok>)>, Diag>,
) -> Result<BlockV, Diag> {
    match outcome {
        Err(e) => Err(e),
        Ok(None) => s_block(s, p).val,
        Ok(Some((consumed, tokens))) => if block_body_error(display_toks(tokens)) is Some {
            Err(error(Some(s[p]->Group_close), block_body_error(display_toks(tokens))->Some_0))
        } else if consumed != s[p]->Group_stream.len() {
            Err(
                error(
                    Some(
                        if consumed < s[p]->Group_stream.len() {
                            s[p]->Group_stream[consumed as int].span()
                        } else {
                            s[p].span()
                        },
                    ),
                    "unexpected token"@,
                ),
            )
        } else {
            Ok(BlockV { brace: brace_v(s[p]), stmts: tokens })
        },
    }
}

/// Identifiers separated by `::`, from `q` on: the identifiers, the
/// separators and the position after them.
pub open spec fn path_run(s: Seq<Tok>, q: int) -> (Seq<IdentV>, Seq<PathSep>, int)
    decreases s.len() - q,
{
    if in_bounds(s, q) && ident_at(s, q) {
        if path_sep_at(s, q + 1) {
            let r = path_run(s, q + 3);
            (
                seq![ident_v(s[q])] + r.0,
                seq![PathSep { first: s[q + 1].span(), second: s[q + 2].span() }] + r.1,
                r.2,
            )
        } else {
            (seq![ident_v(s[q])], seq![], q + 1)
        }
    } else {
        (seq![], seq![], q)
    }
}

/// Identifiers separated by `:` or `-`, from `q` on.
pub open spec fn punct_run(s: Seq<Tok>, q: int) -> (Seq<IdentV>, Seq<Punct>, int)
    decreases s.len() - q,
{
    if in_bounds(s, q) && ident_at(s, q) {
        if punct_at(s, q + 1, ':') || punct_at(s, q + 1, '-') {
            let r = punct_run(s, q + 2);
            (seq![ident_v(s[q])] + r.0, seq![punct_v(s[q + 1])] + r.1, r.2)
        } else {
            (seq![ident_v(s[q])], seq![], q + 1)
        }
    } else {
        (seq![], seq![], q)
    }
}

/// Name of a node or attribute: `a::b`, `a-b`, `a:b`, `{ block }` or `a`.
/// Fails without consuming.
pub open spec fn s_name(s: Seq<Tok>, p: int) -> Strict<NameV> {
    if path_sep_at(s, p + 1) {
        let r = path_run(s, p);
        if r.0.len() > 1 {
            ok(NameV::Path(r.0, r.1), r.2)
        } else {
            fail(error_at(s, r.2, "expected punctuated node name"@), p)
        }
    } else if punct_at(s, p + 1, ':') || punct_at(s, p + 1, '-') {
        let r = punct_run(s, p);
        if r.0.len() > 1 {
            ok(NameV::Punctuated(r.0, r.1), r.2)
        } else {
            fail(error_at(s, r.2, "expected punctuated node name"@), p)
        }
    } else if group_at(s, p, Delimiter::Brace) {
        let b = s_block(s, p);
        match b.val {
            Ok(v) => ok(NameV::Block(v), p + 1),
            Err(e) => fail(e, p),
        }
    } else if ident_at(s, p) {
        ok(NameV::Path(seq![ident_v(s[p])], seq![]), p + 1)
    } else {
        fail(error_at(s, p, "invalid tag name or attribute key"@), p)
    }
}

/// First and last spans of a name.
pub open spec fn name_span(n: NameV) -> Span {
    match n {
        NameV::Path(segs, seps) => if segs.len() == 0 {
            Span { lo: 0, hi: 0 }
        } else if seps.len() >= segs.len() {
            segs[0].span.spec_join(seps.last().second)
        } else {
            segs[0].span.spec_join(segs.last().span)
        },
        NameV::Punctuated(ids, ps) => if ids.len() == 0 {
            Span { lo: 0, hi: 0 }
        } else if ps.len() >= ids.len() {
            ids[0].span.spec_join(ps.last().span)
        } else {
            ids[0].span.spec_join(ids.last().span)
        },
        NameV::Block(b) => b.brace.span_open.spec_join(b.brace.span_close),
    }
}

/// `</name>`
pub open spec fn s_close_tag(s: Seq<Tok>, p: int) -> Strict<CloseTagV> {
    let st = s_close_tag_start(s, p);
    match st.val {
        Err(e) => fail(e, st.pos),
        Ok(start) => {
            let n = s_name(s, st.pos);
            match n.val {
                Err(e) => fail(e, n.pos),
                Ok(name) => {
                    let g = s_punct(s, n.pos, '>');
                    match g.val {
                        Err(e) => fail(e, g.pos),
                        Ok(gt) => ok(CloseTagV { start_tag: start, name, token_gt: gt }, g.pos),
                    }
                },
            }
        },
    }
}

/// `s` begins with `prefix`.
pub open spec fn starts_with(s: Seq<char>, prefix: Seq<char>) -> bool {
    prefix.len() <= s.len() && s.subrange(0, prefix.len() as int) == prefix
}

/// Message of an error in an attribute value: one at the end of the input
/// says that the expression failed to parse.
pub open spec fn expr_error_message(m: Seq<char>) -> Seq<char> {
    if starts_with(m, "unexpected end of input"@) {
        "failed to parse expression: "@ + m
    } else {
        m
    }
}

/// The last position `e` from `e` down to `lo` such that the trees of `s`
/// from `e` on lex back into `rest` trees.
pub open spec fn value_end(s: Seq<Tok>, lo: int, e: int, rest: nat) -> Option<int>
    decreases e - lo,
{
    if 0 <= e <= s.len() && lexed_len(s.subrange(e, s.len() as int)) == rest {
        Some(e)
    } else if e <= lo {
        None
    } else {
        value_end(s, lo, e - 1, rest)
    }
}

/// `key` or `key=value`, where the value is the expression `syn` parses
/// from the tokens after `=`. When the expression runs into the end of the
/// input, the rest of the input is consumed with the error.
pub open spec fn s_keyed_attribute(s: Seq<Tok>, p: int) -> Strict<KeyedAttributeV> {
    let k = s_name(s, p);
    match k.val {
        Err(e) => fail(e, k.pos),
        Ok(key) => {
            let q = k.pos;
            if punct_at(s, q, '=') {
                let v = q + 1;
                if v >= s.len() {
                    fail(error(Some(s[q].span()), "missing attribute value"@), v)
                } else {
                    match expr_rest(display_toks(s.subrange(v, s.len() as int))) {
                        Ok(rest) => if value_end(s, v, s.len() as int, rest) is Some {
                            let e = value_end(s, v, s.len() as int, rest)->Some_0;
                            let last = if e > v {
                                s[e - 1].span()
                            } else {
                                s[q].span()
                            };
                            ok(
                                KeyedAttributeV {
                                    key,
                                    token_eq: Some(s[q].span()),
                                    value: Some(s.subrange(v, e)),
                                    span: name_span(key).spec_join(last),
                                },
                                e,
                            )
                        } else {
                            fail(error(Some(range_span(s, v, s.len() as int)), "failed to parse expression"@), v)
                        },
                        Err(m) => fail(
                            error(Some(range_span(s, v, s.len() as int)), expr_error_message(m)),
                            if starts_with(m, "unexpected end of input"@) {
                                s.len() as int
                            } else {
                                v
                            },
                        ),
                    }
                }
            } else {
                ok(KeyedAttributeV { key, token_eq: None, value: None, span: name_span(key) }, q)
            }
        },
    }
}


/// A comment, `<!-- "text" -->`.
pub open spec fn s_comment(s: Seq<Tok>, p: int) -> Strict<NodeV> {
    let a = s_com_start(s, p);
    match a.val {
        Err(e) => fail(e, a.pos),
        Ok(start) => {
            let b = s_lit_str(s, a.pos);
            match b.val {
                Err(e) => fail(e, b.pos),
                Ok(value) => {
                    let c = s_com_end(s, b.pos);
                    match c.val {
                        Err(e) => fail(e, c.pos),
                        Ok(end) => ok(
                            NodeV::Comment { token_start: start, value, token_end: end },
                            c.pos,
                        ),
                    }
                },
            }
        },
    }
}

/// Where another node may start: `<`, a block or a string literal.
pub open spec fn node_start_at(s: Seq<Tok>, q: int) -> bool {
    punct_at(s, q, '<') || group_at(s, q, Delimiter::Brace) || lit_str_at(s, q)
}

/// End of raw text started at `q`: the first position from `q` on where
/// another node may start, or the end.
pub open spec fn raw_end(s: Seq<Tok>, q: int) -> int
    decreases s.len() - q,
{
    if q >= s.len() || node_start_at(s, q) {
        q
    } else {
        raw_end(s, q + 1)
    }
}

/// Raw text: the tokens up to where another node may start.
pub open spec fn s_raw_text(s: Seq<Tok>, p: int, c: Cfg) -> Strict<NodeV> {
    let e = raw_end(s, p);
    ok(
        NodeV::RawText(RawTextV { tokens: s.subrange(p, e), context_span: None, source: c.source }),
        e,
    )
}

/// A block node at `p` from how its block read (`b`): a valid block, or
/// (when `recover_block`) the braces and tokens of an invalid one.
pub open spec fn r_block_from(s: Seq<Tok>, p: int, c: Cfg, b: Result<BlockV, Diag>) -> Recovered<
    NodeBlockV,
> {
    match b {
        Ok(v) => Recovered { val: Some(NodeBlockV::Valid(v)), pos: p + 1, diags: seq![] },
        Err(e) => if c.recover_block {
            if group_at(s, p, Delimiter::Brace) {
                Recovered {
                    val: Some(NodeBlockV::Invalid(brace_v(s[p]), s[p]->Group_stream)),
                    pos: p + 1,
                    diags: seq![e],
                }
            } else {
                Recovered {
                    val: None,
                    pos: p,
                    diags: seq![e, error_at(s, p, "expected curly braces"@)],
                }
            }
        } else {
            Recovered { val: None, pos: p, diags: seq![e] }
        },
    }
}

/// A block node: a valid block, or (when `recover_block`) the braces and
/// tokens of an invalid one.
pub open spec fn r_block(s: Seq<Tok>, p: int, c: Cfg) -> Recovered<NodeBlockV> {
    match c.blocks {
        Some(f) => r_block_from(s, p, c, transform_result(s, p, f(p))),
        None => r_block_from(s, p, c, s_block(s, p).val),
    }
}

/// How a block at `p` reads when a transformation answered `outcome` for
/// its content.
pub open spec fn transform_result(s: Seq<Tok>, p: int, outcome: Result<Option<(nat, Seq<Tok>)>, Diag>) -> Result<
    BlockV,
    Diag,
> {
    if group_at(s, p, Delimiter::Brace) {
        s_transformed_block(s, p, outcome)
    } else {
        Err(error_at(s, p, "unexpected: no Group found"@))
    }
}

/// An attribute: a block, or else a keyed attribute.
pub open spec fn r_attribute(s: Seq<Tok>, p: int, c: Cfg) -> Recovered<AttributeV> {
    if group_at(s, p, Delimiter::Brace) {
        let b = r_block(s, p, c);
        Recovered {
            val: match b.val {
                Some(v) => Some(AttributeV::Block(v)),
                None => None,
            },
            pos: b.pos,
            diags: b.diags,
        }
    } else {
        let k = recorded(s_keyed_attribute(s, p));
        Recovered {
            val: match k.val {
                Some(v) => Some(AttributeV::Keyed(v)),
                None => None,
            },
            pos: k.pos,
            diags: k.diags,
        }
    }
}

pub open spec fn opt_seq<T>(o: Option<T>) -> Seq<T> {
    match o {
        Some(v) => seq![v],
        None => seq![],
    }
}

/// Attributes from `q` on, until the end or until one consumes nothing.
pub open spec fn r_attribute_run(s: Seq<Tok>, q: int, c: Cfg) -> (Seq<AttributeV>, int, Seq<Diag>)
    decreases s.len() - q,
{
    if q >= s.len() {
        (seq![], q, seq![])
    } else {
        let a = r_attribute(s, q, c);
        if a.pos <= q || a.pos > s.len() {
            (opt_seq(a.val), q, a.diags)
        } else {
            let r = r_attribute_run(s, a.pos, c);
            (opt_seq(a.val) + r.0, r.1, a.diags + r.2)
        }
    }
}

/// The attributes of a tag, read from the tokens `s` between the name and
/// the end of the tag; tokens left over are reported as ignored.
pub open spec fn r_attributes(s: Seq<Tok>, c: Cfg) -> (Seq<AttributeV>, Seq<Diag>) {
    let r = r_attribute_run(s, 0, c);
    (
        r.0,
        if r.1 < s.len() {
            r.2.push(error(Some(range_span(s, r.1, s.len() as int)), "tokens was ignored during parsing"@))
        } else {
            r.2
        },
    )
}

/// Token sequences that end a run of tokens.
#[derive(Clone, Copy, Debug, PartialEq, Eq, Structural)]
pub enum Ending {
    Gt,
    FragmentClose,
    CloseTag,
    OpenTagEnd,
}

pub open spec fn ending_ok(s: Seq<Tok>, q: int, k: Ending) -> bool {
    match k {
        Ending::Gt => punct_at(s, q, '>'),
        Ending::FragmentClose => s_fragment_close(s, q).val is Ok,
        Ending::CloseTag => s_close_tag(s, q).val is Ok,
        Ending::OpenTagEnd => s_open_tag_end(s, q).val is Ok,
    }
}

/// The first position from `q` on where the ending parses, or the end.
pub open spec fn scan(s: Seq<Tok>, q: int, k: Ending) -> int
    decreases s.len() - q,
{
    if q >= s.len() || ending_ok(s, q, k) {
        q
    } else {
        scan(s, q + 1, k)
    }
}

/// An open tag: `<`, a name, attributes up to `/>` or `>`.
pub open spec fn r_open_tag(s: Seq<Tok>, p: int, c: Cfg) -> Recovered<OpenTagV> {
    let lt = s_punct(s, p, '<');
    match lt.val {
        Err(e) => Recovered { val: None, pos: lt.pos, diags: seq![e] },
        Ok(token_lt) => {
            let q = lt.pos;
            let q1 = if punct_at(s, q, '/') { q + 1 } else { q };
            let d1: Seq<Diag> = if punct_at(s, q, '/') {
                seq![error(Some(s[q].span()), "close tag was parsed while waiting for open tag"@)]
            } else {
                seq![]
            };
            let n = s_name(s, q1);
            match n.val {
                Err(e) => Recovered { val: None, pos: n.pos, diags: d1.push(e) },
                Ok(name) => {
                    let e = scan(s, n.pos, Ending::OpenTagEnd);
                    let a = r_attributes(s.subrange(n.pos, e), c.shift(n.pos));
                    if ending_ok(s, e, Ending::OpenTagEnd) {
                        let end = s_open_tag_end(s, e);
                        Recovered {
                            val: Some(
                                OpenTagV {
                                    token_lt,
                                    name,
                                    attributes: a.0,
                                    end_tag: end.val->Ok_0,
                                },
                            ),
                            pos: end.pos,
                            diags: d1 + a.1,
                        }
                    } else {
                        Recovered {
                            val: None,
                            pos: e,
                            diags: d1 + a.1 + seq![error(None, "expected end of tag '>'"@)],
                        }
                    }
                },
            }
        },
    }
}

/// Rest of a close tag whose `</` is already read: the name and `>`.
pub open spec fn r_close_tag_rest(s: Seq<Tok>, q: int, start: CloseTagStart) -> Recovered<
    CloseTagV,
> {
    let n = s_name(s, q);
    match n.val {
        Err(e) => Recovered { val: None, pos: n.pos, diags: seq![e] },
        Ok(name) => {
            let g = s_punct(s, n.pos, '>');
            match g.val {
                Err(e) => Recovered { val: None, pos: g.pos, diags: seq![e] },
                Ok(gt) => Recovered {
                    val: Some(CloseTagV { start_tag: start, name, token_gt: gt }),
                    pos: g.pos,
                    diags: seq![],
                },
            }
        },
    }
}

/// Rest of a fragment's close tag whose `</` is already read: `>`; an
/// identifier before it (the name of an element's close tag) is reported
/// and skipped. Nothing without a start.
pub open spec fn r_fragment_close_rest(s: Seq<Tok>, q: int, start: Option<CloseTagStart>) -> Recovered<
    FragmentClose,
> {
    match start {
        None => Recovered { val: None, pos: q, diags: seq![] },
        Some(st) => {
            let q1 = if ident_at(s, q) { q + 1 } else { q };
            let d: Seq<Diag> = if ident_at(s, q) {
                seq![error(Some(s[q].span()), "expected fragment closing, found element closing tag"@)]
            } else {
                seq![]
            };
            let g = s_punct(s, q1, '>');
            match g.val {
                Ok(gt) => Recovered {
                    val: Some(FragmentClose { start_tag: st, token_gt: gt }),
                    pos: g.pos,
                    diags: d,
                },
                Err(e) => Recovered { val: None, pos: g.pos, diags: d.push(e) },
            }
        },
    }
}

/// A doctype, `<!DOCTYPE ...>`; the keyword in any case.
pub open spec fn r_doctype(s: Seq<Tok>, p: int, c: Cfg) -> Recovered<NodeV> {
    let ds = s_doc_start(s, p);
    match ds.val {
        Err(e) => Recovered { val: None, pos: ds.pos, diags: seq![e] },
        Ok(start) => {
            let id = s_ident(s, ds.pos);
            match id.val {
                Err(e) => Recovered { val: None, pos: id.pos, diags: seq![e] },
                Ok(kw) => if lowercase(kw.text) != "doctype"@ {
                    Recovered {
                        val: None,
                        pos: id.pos,
                        diags: seq![error_at(s, id.pos, "expected Doctype"@)],
                    }
                } else {
                    let e = scan(s, id.pos, Ending::Gt);
                    let value = RawTextV {
                        tokens: s.subrange(id.pos, e),
                        context_span: None,
                        source: c.source,
                    };
                    if ending_ok(s, e, Ending::Gt) {
                        Recovered {
                            val: Some(
                                NodeV::Doctype {
                                    token_start: start,
                                    token_doctype: kw,
                                    value,
                                    token_end: s[e].span(),
                                },
                            ),
                            pos: e + 1,
                            diags: seq![],
                        }
                    } else {
                        Recovered { val: None, pos: e, diags: seq![] }
                    }
                },
            }
        },
    }
}

/// First span of the tokens of a node.
pub open spec fn node_first(n: NodeV) -> Span {
    match n {
        NodeV::Comment { token_start, .. } => token_start.token_lt,
        NodeV::Doctype { token_start, .. } => token_start.token_lt,
        NodeV::Fragment { tag_open, .. } => tag_open.token_lt,
        NodeV::Element { open_tag, .. } => open_tag.token_lt,
        NodeV::Block(b) => match b {
            NodeBlockV::Valid(v) => v.brace.span_open,
            NodeBlockV::Invalid(brace, _) => brace.span_open,
        },
        NodeV::Text(l) => l.span,
        NodeV::RawText(r) => if r.tokens.len() > 0 {
            r.tokens[0].span()
        } else {
            Span { lo: 0, hi: 0 }
        },
    }
}

/// Last span of the tokens of a node.
pub open spec fn node_last(n: NodeV) -> Span
    decreases n,
{
    match n {
        NodeV::Comment { token_end, .. } => token_end.token_gt,
        NodeV::Doctype { token_end, .. } => token_end,
        NodeV::Fragment { tag_open, children, tag_close } => match tag_close {
            Some(c) => c.token_gt,
            None => if children.len() > 0 {
                node_last(children[children.len() - 1])
            } else {
                tag_open.token_gt
            },
        },
        NodeV::Element { open_tag, children, close_tag } => match close_tag {
            Some(c) => c.token_gt,
            None => if children.len() > 0 {
                node_last(children[children.len() - 1])
            } else {
                open_tag.end_tag.token_gt
            },
        },
        NodeV::Block(b) => match b {
            NodeBlockV::Valid(v) => v.brace.span_close,
            NodeBlockV::Invalid(brace, _) => brace.span_close,
        },
        NodeV::Text(l) => l.span,
        NodeV::RawText(r) => if r.tokens.len() > 0 {
            r.tokens.last().span()
        } else {
            Span { lo: 0, hi: 0 }
        },
    }
}

/// Span of a node: from its first to its last token.
pub open spec fn node_span(n: NodeV) -> Span {
    node_first(n).spec_join(node_last(n))
}

pub open spec fn with_context(n: NodeV, before: Span, after: Span) -> NodeV {
    match n {
        NodeV::RawText(r) => NodeV::RawText(RawTextV { context_span: Some((before, after)), ..r }),
        _ => n,
    }
}

/// Children with the context of each raw text set to the spans around it:
/// the preceding child (or the end of the open tag) and the following one
/// (or the start of the close tag; none when there is no close tag).
pub open spec fn set_context(open_end: Span, close_start: Option<Span>, ch: Seq<NodeV>) -> Seq<
    NodeV,
> {
    Seq::new(
        ch.len(),
        |i: int|
            if ch[i] is RawText && (i + 1 < ch.len() || close_start is Some) {
                with_context(
                    ch[i],
                    if i == 0 {
                        open_end
                    } else {
                        node_span(ch[i - 1])
                    },
                    if i + 1 < ch.len() {
                        node_span(ch[i + 1])
                    } else {
                        close_start->Some_0
                    },
                )
            } else {
                ch[i]
            },
    )
}

pub open spec fn open_tag_span(o: OpenTagV) -> Span {
    o.token_lt.spec_join(o.end_tag.token_gt)
}

pub open spec fn close_tag_span(c: CloseTagV) -> Span {
    c.start_tag.token_lt.spec_join(c.token_gt)
}

/// Text of a name: segments joined by `::`, identifiers with their
/// punctuation, or `{}` for a block.
pub open spec fn name_text(n: NameV) -> Seq<char> {
    match n {
        NameV::Path(segs, _) => path_text(segs, segs.len() as int),
        NameV::Punctuated(ids, ps) => punct_text(ids, ps, ids.len() as int),
        NameV::Block(_) => "{}"@,
    }
}

/// The first `n` segments joined by `::`.
pub open spec fn path_text(segs: Seq<IdentV>, n: int) -> Seq<char>
    decreases n,
{
    if n <= 0 {
        seq![]
    } else if n == 1 {
        segs[0].text
    } else {
        path_text(segs, n - 1) + "::"@ + segs[n - 1].text
    }
}

/// The first `n` identifiers, each followed by its punctuation if any.
pub open spec fn punct_text(ids: Seq<IdentV>, ps: Seq<Punct>, n: int) -> Seq<char>
    decreases n,
{
    if n <= 0 {
        seq![]
    } else {
        punct_text(ids, ps, n - 1) + ids[n - 1].text + if n - 1 < ps.len() {
            seq![ps[n - 1].ch]
        } else {
            seq![]
        }
    }
}

/// Whether the `i`-th identifier of two punctuated names, with the
/// punctuation after it (if any), agree.
pub open spec fn pair_eq(a: Seq<IdentV>, pa: Seq<Punct>, b: Seq<IdentV>, pb: Seq<Punct>, i: int) -> bool {
    &&& a[i].text == b[i].text
    &&& (i < pa.len()) == (i < pb.len())
    &&& (i < pa.len() ==> pa[i].ch == pb[i].ch)
}

/// Punctuated names agree pairwise over the shorter one.
pub open spec fn punctuated_eq(ia: Seq<IdentV>, pa: Seq<Punct>, ib: Seq<IdentV>, pb: Seq<Punct>) -> bool {
    forall|i: int| 0 <= i < ia.len() && i < ib.len() ==> #[trigger] pair_eq(ia, pa, ib, pb, i)
}

/// Equality of names: paths by their segments (and a trailing separator),
/// punctuated names pairwise over the shorter one, blocks by the statements
/// `syn` reads from them.
pub open spec fn name_eq(a: NameV, b: NameV) -> bool {
    match a {
        NameV::Path(sa, pa) => match b {
            NameV::Path(sb, pb) => {
                &&& sa.len() == sb.len()
                &&& pa.len() == pb.len()
                &&& forall|i: int| 0 <= i < sa.len() ==> #[trigger] sa[i].text == sb[i].text
            },
            _ => false,
        },
        NameV::Punctuated(ia, pa) => match b {
            NameV::Punctuated(ib, pb) => punctuated_eq(ia, pa, ib, pb),
            _ => false,
        },
        NameV::Block(x) => match b {
            NameV::Block(y) => same_block_body(display_toks(x.stmts), display_toks(y.stmts)),
            _ => false,
        },
    }
}

/// Report on an element without close tag.
pub open spec fn unclosed_diag(o: OpenTagV, ch: Seq<NodeV>) -> Diag {
    Diag {
        level: Level::Error,
        span: Some(open_tag_span(o)),
        message: "open tag has no corresponding close tag and is not self-closing"@,
        children: if ch.len() > 0 {
            seq![
                SubDiag {
                    level: Level::Note,
                    span: Some(node_first(ch[0]).spec_join(node_last(ch[ch.len() - 1]))),
                    message: "treating all inputs after open tag as it content"@,
                },
            ]
        } else {
            seq![]
        },
    }
}

/// Report on a close tag whose name differs from the open tag's.
pub open spec fn wrong_close_diag(o: OpenTagV, ct: CloseTagV) -> Diag {
    Diag {
        level: Level::Error,
        span: Some(close_tag_span(ct)),
        message: "wrong close tag found"@,
        children: seq![
            SubDiag {
                level: Level::Help,
                span: Some(open_tag_span(o)),
                message: "open tag that should be closed started there"@,
            },
        ],
    }
}

/// An element from its open tag, children, close tag: contexts of raw texts
/// set, and a report when the close tag is missing or differs.
pub open spec fn element_end(
    o: OpenTagV,
    children: Seq<NodeV>,
    close: Option<CloseTagV>,
    pos: int,
    ds: Seq<Diag>,
) -> Recovered<NodeV> {
    let ch = set_context(
        o.end_tag.token_gt,
        match close {
            Some(ct) => Some(ct.start_tag.token_lt),
            None => None,
        },
        children,
    );
    match close {
        None => Recovered {
            val: Some(NodeV::Element { open_tag: o, children: ch, close_tag: None }),
            pos,
            diags: ds.push(unclosed_diag(o, ch)),
        },
        Some(ct) => Recovered {
            val: Some(NodeV::Element { open_tag: o, children: ch, close_tag: Some(ct) }),
            pos,
            diags: if name_eq(ct.name, o.name) {
                ds
            } else {
                ds.push(wrong_close_diag(o, ct))
            },
        },
    }
}


/// What ends the children of an element or fragment.
#[derive(Clone, Copy, Debug, PartialEq, Eq, Structural)]
pub enum Stop {
    FragmentClose,
    CloseTagStart,
}

pub open spec fn stop_at(s: Seq<Tok>, q: int, k: Stop) -> Strict<()> {
    match k {
        Stop::FragmentClose => {
            let r = s_fragment_close(s, q);
            Strict {
                val: match r.val {
                    Ok(_) => Ok(()),
                    Err(e) => Err(e),
                },
                pos: r.pos,
            }
        },
        Stop::CloseTagStart => {
            let r = s_close_tag_start(s, q);
            Strict {
                val: match r.val {
                    Ok(_) => Ok(()),
                    Err(e) => Err(e),
                },
                pos: r.pos,
            }
        },
    }
}

/// Children read until a stop: the nodes, where the stop was found, the
/// position after it (or where parsing could not go on), the diagnostics.
pub struct Children {
    pub nodes: Seq<NodeV>,
    pub stop: Option<int>,
    pub pos: int,
    pub diags: Seq<Diag>,
}

/// Nodes from `q` on until the stop parses, or until a node consumes
/// nothing.
pub open spec fn r_children(s: Seq<Tok>, q: int, c: Cfg, k: Stop) -> Children
    decreases s.len() - q, 3int,
{
    if q < 0 {
        Children { nodes: seq![], stop: None, pos: q, diags: seq![] }
    } else if stop_at(s, q, k).val is Ok {
        Children { nodes: seq![], stop: Some(q), pos: stop_at(s, q, k).pos, diags: seq![] }
    } else {
        let n = r_node(s, q, c);
        if n.pos <= q || n.pos > s.len() {
            Children { nodes: opt_seq(n.val), stop: None, pos: q, diags: n.diags }
        } else {
            let r = r_children(s, n.pos, c, k);
            Children {
                nodes: opt_seq(n.val) + r.nodes,
                stop: r.stop,
                pos: r.pos,
                diags: n.diags + r.diags,
            }
        }
    }
}

/// A fragment, `<> ... </>`; its content is raw text when `""` is among the
/// raw text element names.
pub open spec fn r_fragment(s: Seq<Tok>, p: int, c: Cfg) -> Recovered<NodeV>
    decreases s.len() - p, 1int,
{
    let fo = s_fragment_open(s, p);
    match fo.val {
        Err(e) => Recovered { val: None, pos: fo.pos, diags: seq![e] },
        Ok(open) => {
            let q = fo.pos;
            if c.raw_text.contains(seq![]) {
                let e = scan(s, q, Ending::FragmentClose);
                let raw = RawTextV { tokens: s.subrange(q, e), context_span: None, source: c.source };
                if ending_ok(s, e, Ending::FragmentClose) {
                    let fc = s_fragment_close(s, e);
                    let close = fc.val->Ok_0;
                    Recovered {
                        val: Some(
                            NodeV::Fragment {
                                tag_open: open,
                                children: set_context(
                                    open.token_gt,
                                    Some(close.start_tag.token_lt),
                                    seq![NodeV::RawText(raw)],
                                ),
                                tag_close: Some(close),
                            },
                        ),
                        pos: fc.pos,
                        diags: seq![],
                    }
                } else {
                    Recovered { val: None, pos: e, diags: seq![] }
                }
            } else {
                let ch = r_children(s, q, c, Stop::FragmentClose);
                match ch.stop {
                    None => Recovered { val: None, pos: ch.pos, diags: ch.diags },
                    Some(at) => {
                        let close = s_fragment_close(s, at).val->Ok_0;
                        Recovered {
                            val: Some(
                                NodeV::Fragment {
                                    tag_open: open,
                                    children: set_context(
                                        open.token_gt,
                                        Some(close.start_tag.token_lt),
                                        ch.nodes,
                                    ),
                                    tag_close: Some(close),
                                },
                            ),
                            pos: ch.pos,
                            diags: ch.diags,
                        }
                    },
                }
            }
        },
    }
}

/// Content of a raw text element from `q` on: the tokens up to its close
/// tag as one raw text (none when there are no tokens), then the close tag.
pub open spec fn r_raw_content(s: Seq<Tok>, q: int, o: OpenTagV, c: Cfg) -> Recovered<NodeV> {
    let e = scan(s, q, Ending::CloseTag);
    let raw = RawTextV { tokens: s.subrange(q, e), context_span: None, source: c.source };
    let children = if raw.tokens.len() > 0 {
        seq![NodeV::RawText(raw)]
    } else {
        seq![]
    };
    if ending_ok(s, e, Ending::CloseTag) {
        let ct = s_close_tag(s, e);
        element_end(o, children, Some(ct.val->Ok_0), ct.pos, seq![])
    } else {
        element_end(o, children, None, e, seq![])
    }
}

/// Children of an element from `q` on, up to a `</`, then the rest of the
/// close tag.
pub open spec fn r_element_children(s: Seq<Tok>, q: int, o: OpenTagV, c: Cfg) -> Recovered<NodeV>
    decreases s.len() - q, 4int,
{
    let ch = r_children(s, q, c, Stop::CloseTagStart);
    match ch.stop {
        None => element_end(o, ch.nodes, None, ch.pos, ch.diags),
        Some(at) => {
            let start = s_close_tag_start(s, at).val->Ok_0;
            let rest = r_close_tag_rest(s, ch.pos, start);
            element_end(o, ch.nodes, rest.val, rest.pos, ch.diags + rest.diags)
        },
    }
}

/// An element: open tag; no children when self-closed or a known void
/// element; raw text up to the close tag for raw text elements; else nodes
/// up to a `</`, then the rest of the close tag.
pub open spec fn r_element(s: Seq<Tok>, p: int, c: Cfg) -> Recovered<NodeV>
    decreases s.len() - p, 1int,
{
    let ot = r_open_tag(s, p, c);
    match ot.val {
        None => Recovered { val: None, pos: ot.pos, diags: ot.diags },
        Some(o) => {
            let name = name_text(o.name);
            if o.end_tag.token_solidus is Some || c.self_closed.contains(name) {
                Recovered {
                    val: Some(NodeV::Element { open_tag: o, children: seq![], close_tag: None }),
                    pos: ot.pos,
                    diags: ot.diags,
                }
            } else if c.raw_text.contains(name) {
                let rc = r_raw_content(s, ot.pos, o, c);
                Recovered { val: rc.val, pos: rc.pos, diags: ot.diags + rc.diags }
            } else if ot.pos <= p {
                Recovered { val: None, pos: ot.pos, diags: ot.diags }
            } else {
                let rc = r_element_children(s, ot.pos, o, c);
                Recovered { val: rc.val, pos: rc.pos, diags: ot.diags + rc.diags }
            }
        },
    }
}

/// A node: by its first tokens, a doctype, comment, fragment, element,
/// block, text or raw text; nothing at the end of the input.
#[verifier::opaque]
pub open spec fn r_node(s: Seq<Tok>, p: int, c: Cfg) -> Recovered<NodeV>
    decreases s.len() - p, 2int,
{
    if punct_at(s, p, '<') {
        if punct_at(s, p + 1, '!') {
            if syn_ident_at(s, p + 2) {
                r_doctype(s, p, c)
            } else {
                recorded(s_comment(s, p))
            }
        } else if punct_at(s, p + 1, '>') {
            r_fragment(s, p, c)
        } else {
            r_element(s, p, c)
        }
    } else if group_at(s, p, Delimiter::Brace) {
        let b = r_block(s, p, c);
        Recovered {
            val: match b.val {
                Some(v) => Some(NodeV::Block(v)),
                None => None,
            },
            pos: b.pos,
            diags: b.diags,
        }
    } else if lit_str_at(s, p) {
        recorded(
            Strict {
                val: match s_lit_str(s, p).val {
                    Ok(l) => Ok(NodeV::Text(l)),
                    Err(e) => Err(e),
                },
                pos: s_lit_str(s, p).pos,
            },
        )
    } else if in_bounds(s, p) {
        recorded(s_raw_text(s, p, c))
    } else {
        Recovered { val: None, pos: p, diags: seq![] }
    }
}

} // verus!
