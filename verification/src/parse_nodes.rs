//! Parsing token trees into nodes: recoverable parts, which report
//! diagnostics and go on.
use vstd::prelude::*;
use crate::diagnostic::{diags, Diag, Diagnostic};
use crate::grammar::{
    ending_ok, group_at, r_attribute, r_attribute_run, r_attributes, r_block, r_block_from,
    r_close_tag_rest, r_doctype, r_fragment_close_rest, r_open_tag, raw_end, s_comment, s_raw_text,
    s_transformed_block, scan, Cfg, Ending, Recovered,
};
use crate::model::{opt_mv, res_mv};
use crate::recoverable::{lemma_agrees_kept, lemma_kept_same, lemma_kept_trans, outcome_model, Answer};
use crate::node::{
    attributes, Block, Brace, CloseTag, CloseTagStart, FragmentClose, Node, NodeAttribute, NodeBlock,
    AttributeV, OpenTagV, NodeComment, NodeDoctype, NodeV, OpenTag, RawText, };
use crate::parse::{
    error_diag, error_diag_at, is_group, is_ident, is_lit_str, is_punct, parse_block, parse_close_tag,
    parse_com_end, parse_com_start, parse_doc_start, parse_fragment_close, parse_ident,
    parse_keyed_attribute, parse_lit_str, parse_name, parse_open_tag_end, parse_punct,
    range_span_exec, tok_span,
};
use crate::recoverable::{follows, opt_string, BlockTransform, RecoverableContext};
use crate::syntax::{block_body_check, to_lowercase};
use crate::token::{copy_trees, display_trees, lemma_group_stream, toks, Delimiter, Tok, TokenTree};

verus! {

pub(crate) fn copy_source(s: &Option<String>) -> (r: Option<String>)
    ensures
        opt_string(r) == opt_string(*s),
{
    match s {
        Some(x) => Some(x.clone()),
        None => None,
    }
}

/// Parses a comment, `<!-- "text" -->` (see `s_comment`).
pub fn parse_comment(t: &Vec<TokenTree>, pos: &mut usize) -> (r: Result<Node, Diagnostic>)
    ensures
        res_mv(r) == s_comment(toks(t@), *old(pos) as int).val,
        *final(pos) == s_comment(toks(t@), *old(pos) as int).pos,
        *old(pos) <= t@.len() ==> *old(pos) <= *final(pos) <= t@.len(),
{
    let token_start = match parse_com_start(t, pos) {
        Ok(v) => v,
        Err(e) => return Err(e),
    };
    let value = match parse_lit_str(t, pos) {
        Ok(v) => v,
        Err(e) => return Err(e),
    };
    let token_end = match parse_com_end(t, pos) {
        Ok(v) => v,
        Err(e) => return Err(e),
    };
    Ok(Node::Comment(NodeComment { token_start, value, token_end }))
}

/// End of raw text from `q` on (see `raw_end`).
fn raw_end_exec(t: &Vec<TokenTree>, q: usize) -> (r: usize)
    requires
        q <= t@.len(),
    ensures
        r == raw_end(toks(t@), q as int),
        q <= r <= t@.len(),
{
    let mut e = q;
    while e < t.len() && !(is_punct(t, e, '<') || is_group(t, e, Delimiter::Brace) || is_lit_str(t, e))
        invariant
            q <= e <= t@.len(),
            raw_end(toks(t@), e as int) == raw_end(toks(t@), q as int),
        decreases t@.len() - e,
    {
        e = e + 1;
    }
    e
}

/// Raw text from the position on (see `s_raw_text`).
pub fn parse_raw_text(t: &Vec<TokenTree>, pos: &mut usize, source: &Option<String>) -> (r: RawText)
    requires
        *old(pos) <= t@.len(),
    ensures
        ({
            let c = Cfg { recover_block: false, self_closed: seq![], raw_text: seq![], source: opt_string(*source), blocks: None };
            Ok::<NodeV, crate::diagnostic::Diag>(NodeV::RawText(r.model()))
                == s_raw_text(toks(t@), *old(pos) as int, c).val
            && *final(pos) == s_raw_text(toks(t@), *old(pos) as int, c).pos
        }),
        *old(pos) <= *final(pos) <= t@.len(),
{
    let p = *pos;
    let e = raw_end_exec(t, p);
    *pos = e;
    RawText { token_stream: copy_trees(t, p, e), context_span: None, source: copy_source(source) }
}

/// The block at `p` from the answer of a transformation of its content
/// (see `s_transformed_block`).
pub fn apply_block_transform(
    t: &Vec<TokenTree>,
    p: usize,
    outcome: Result<Option<(usize, Vec<TokenTree>)>, Diagnostic>,
) -> (r: Result<Block, Diagnostic>)
    requires
        group_at(toks(t@), p as int, Delimiter::Brace),
    ensures
        res_mv(r) == s_transformed_block(toks(t@), p as int, outcome_model(outcome)),
{
    match outcome {
        Ok(Some((consumed, tokens))) => {
            let mut src = String::new();
            display_trees(&tokens, &mut src);
            let check = block_body_check(src.as_str());
            match &t[p] {
                TokenTree::Group(g) => {
                    proof {
                        lemma_group_stream(t@[p as int]);
                    }
                    if let Some(m) = check {
                        return Err(error_diag(Some(g.span_close), m.as_str()));
                    }
                    if consumed != g.stream.len() {
                        let sp = if consumed < g.stream.len() {
                            tok_span(&g.stream[consumed])
                        } else {
                            tok_span(&t[p])
                        };
                        Err(error_diag(Some(sp), "unexpected token"))
                    } else {
                        Ok(Block { brace: Brace { span_open: g.span_open, span_close: g.span_close }, stmts: tokens })
                    }
                },
                _ => Err(error_diag_at(t, p, "unexpected: no Group found")),
            }
        },
        Ok(None) => {
            let mut q = p;
            parse_block(t, &mut q)
        },
        Err(e) => Err(e),
    }
}

/// A copy of an answer of a transformation.
fn copy_answer(o: &Answer) -> (r: Answer)
    ensures
        outcome_model(r) == outcome_model(*o),
{
    match o {
        Ok(Some((n, v))) => {
            let c = copy_trees(v, 0, v.len());
            assert(toks(v@).subrange(0, v@.len() as int) =~= toks(v@));
            Ok(Some((*n, c)))
        },
        Ok(None) => Ok(None),
        Err(e) => Err(e.copy()),
    }
}

/// The answer of the configured transformation for the content of the
/// block at `p`: the one recorded for its position in the input, else the
/// transformation is handed the trees inside the braces and its answer is
/// recorded.
fn block_answer<T: BlockTransform>(ctx: &mut RecoverableContext<T>, t: &Vec<TokenTree>, p: usize) -> (r: Answer)
    requires
        p < t@.len(),
        old(ctx).base + t@.len() <= usize::MAX,
        old(ctx).config.transform_block is Some,
        t@[p as int] is Group,
    ensures
        final(ctx).kept(old(ctx), toks(t@)),
        final(ctx).diagnostics@ == old(ctx).diagnostics@,
        forall|f: spec_fn(int) -> Result<Option<(nat, Seq<Tok>)>, Diag>|
            #[trigger] final(ctx).agrees(f) ==> f(old(ctx).base + p) == outcome_model(r),
{
    let key = ctx.base + p;
    let mut i: usize = 0;
    while i < ctx.answered.len()
        invariant
            i <= ctx.answered@.len(),
            key == ctx.base + p,
            forall|j: int| 0 <= j < i ==> (#[trigger] ctx.answered@[j]).0 != key,
        decreases ctx.answered@.len() - i,
    {
        if ctx.answered[i].0 == key {
            let c = copy_answer(&ctx.answered[i].1);
            proof {
                lemma_kept_same(*ctx, *ctx, toks(t@));
                assert forall|f: spec_fn(int) -> Result<Option<(nat, Seq<Tok>)>, Diag>|
                    #[trigger] ctx.agrees(f) implies f(ctx.base + p) == outcome_model(c) by {
                    assert(f(ctx.answered@[i as int].0 as int) == outcome_model(ctx.answered@[i as int].1));
                }
            }
            return c;
        }
        i = i + 1;
    }
    let o = match &ctx.config.transform_block {
        Some(tf) => match &t[p] {
            TokenTree::Group(g) => tf.transform(&g.stream),
            _ => Ok(None),
        },
        None => Ok(None),
    };
    let c = copy_answer(&o);
    ctx.answered.push((key, o));
    proof {
        let n = old(ctx).answered@.len();
        assert(ctx.answered@.subrange(0, n as int) =~= old(ctx).answered@);
        lemma_group_stream(t@[p as int]);
        assert(ctx.answer_ok(toks(t@), n as int));
        if old(ctx).distinct_keys() {
            assert forall|x: int, y: int| 0 <= x < y < ctx.answered@.len() implies #[trigger] ctx.answered@[x].0
                != #[trigger] ctx.answered@[y].0 by {
                if y == n {
                    assert(old(ctx).answered@[x] == ctx.answered@[x]);
                } else {
                    assert(old(ctx).answered@[x] == ctx.answered@[x]);
                    assert(old(ctx).answered@[y] == ctx.answered@[y]);
                }
            }
        }
        assert forall|f: spec_fn(int) -> Result<Option<(nat, Seq<Tok>)>, Diag>|
            #[trigger] ctx.agrees(f) implies f(old(ctx).base + p) == outcome_model(c) by {
            assert(f(ctx.answered@[n as int].0 as int) == outcome_model(ctx.answered@[n as int].1));
        }
    }
    c
}

/// Parses a block node (see `r_block`); a configured transformation of
/// blocks is applied first, once for each block of the input.
pub fn parse_block_node<T: BlockTransform>(
    ctx: &mut RecoverableContext<T>,
    t: &Vec<TokenTree>,
    pos: &mut usize,
) -> (r: Option<NodeBlock>)
    requires
        *old(pos) <= t@.len(),
        old(ctx).base + t@.len() <= usize::MAX,
    ensures
        *old(pos) <= *final(pos) <= t@.len(),
        final(ctx).kept(old(ctx), toks(t@)),
        forall|f: spec_fn(int) -> Result<Option<(nat, Seq<Tok>)>, Diag>|
            #[trigger] final(ctx).agrees(f) ==> follows(
                r,
                *final(pos),
                final(ctx).diagnostics@,
                old(ctx).diagnostics@,
                r_block(toks(t@), *old(pos) as int, old(ctx).cfg_with(f)),
            ),
{
    let p = *pos;
    let len = t.len();
    let transform = ctx.config.transform_block.is_some();
    let ghost mut am: Result<Option<(nat, Seq<Tok>)>, Diag> = Ok(None);
    let valid = if !transform {
        let mut q = p;
        parse_block(t, &mut q)
    } else if !is_group(t, p, Delimiter::Brace) {
        Err(error_diag_at(t, p, "unexpected: no Group found"))
    } else {
        let answer = block_answer(ctx, t, p);
        proof {
            am = outcome_model(answer);
        }
        apply_block_transform(t, p, answer)
    };
    let ghost c1 = *ctx;
    proof {
        if !transform {
            lemma_kept_same(*old(ctx), *ctx, toks(t@));
        } else if !group_at(toks(t@), p as int, Delimiter::Brace) {
            lemma_kept_same(*old(ctx), *ctx, toks(t@));
        }
    }
    let ghost b = res_mv(valid);
    let r = match valid {
        Ok(b) => {
            *pos = p + 1;
            assert(diags(ctx.diagnostics@) =~= diags(old(ctx).diagnostics@) + seq![]);
            Some(NodeBlock::ValidBlock(b))
        },
        Err(e) => {
            let ghost d0 = ctx.diagnostics@;
            ctx.push_diagnostic(e);
            assert(diags(ctx.diagnostics@) =~= diags(d0) + seq![e.model()]);
            if ctx.config.recover_block {
                if is_group(t, p, Delimiter::Brace) {
                    match &t[p] {
                        TokenTree::Group(g) => {
                            proof {
                                lemma_group_stream(t@[p as int]);
                            }
                            *pos = p + 1;
                            let body = copy_trees(&g.stream, 0, g.stream.len());
                            assert(toks(g.stream@).subrange(0, g.stream@.len() as int) =~= toks(g.stream@));
                            Some(
                                NodeBlock::Invalid {
                                    brace: Brace { span_open: g.span_open, span_close: g.span_close },
                                    body,
                                },
                            )
                        },
                        _ => None,
                    }
                } else {
                    ctx.push_diagnostic(error_diag_at(t, p, "expected curly braces"));
                    proof {
                        assert(diags(ctx.diagnostics@) =~= diags(d0) + r_block_from(toks(t@), p as int, old(ctx).cfg(), b).diags);
                    }
                    None
                }
            } else {
                None
            }
        },
    };
    proof {
        lemma_kept_same(c1, *ctx, toks(t@));
        lemma_kept_trans(*old(ctx), c1, *ctx, toks(t@));
        assert(follows(r, *pos, ctx.diagnostics@, old(ctx).diagnostics@, r_block_from(toks(t@), p as int, old(ctx).cfg(), b)));
        assert forall|f: spec_fn(int) -> Result<Option<(nat, Seq<Tok>)>, Diag>|
            #[trigger] ctx.agrees(f) implies follows(
                r,
                *pos,
                ctx.diagnostics@,
                old(ctx).diagnostics@,
                r_block(toks(t@), p as int, old(ctx).cfg_with(f)),
            ) by {
            assert(c1.agrees(f));
            if transform && group_at(toks(t@), p as int, Delimiter::Brace) {
                assert(f(old(ctx).base + p) == am);
            }
            assert(r_block_from(toks(t@), p as int, old(ctx).cfg_with(f), b) == r_block_from(toks(t@), p as int, old(ctx).cfg(), b));
        }
    }
    r
}

/// Parses an attribute: a block, or else a keyed attribute (see
/// `r_attribute`).
pub fn parse_attribute<T: BlockTransform>(
    ctx: &mut RecoverableContext<T>,
    t: &Vec<TokenTree>,
    pos: &mut usize,
) -> (r: Option<NodeAttribute>)
    requires
        *old(pos) <= t@.len(),
        old(ctx).base + t@.len() <= usize::MAX,
    ensures
        *old(pos) <= *final(pos) <= t@.len(),
        final(ctx).kept(old(ctx), toks(t@)),
        forall|f: spec_fn(int) -> Result<Option<(nat, Seq<Tok>)>, Diag>|
            #[trigger] final(ctx).agrees(f) ==> follows(
                r,
                *final(pos),
                final(ctx).diagnostics@,
                old(ctx).diagnostics@,
                r_attribute(toks(t@), *old(pos) as int, old(ctx).cfg_with(f)),
            ),
{
    if is_group(t, *pos, Delimiter::Brace) {
        let b = parse_block_node(ctx, t, pos);
        match b {
            Some(b) => Some(NodeAttribute::Block(b)),
            None => None,
        }
    } else {
        let r = match parse_keyed_attribute(t, pos) {
            Ok(k) => {
                assert(diags(ctx.diagnostics@) =~= diags(old(ctx).diagnostics@) + seq![]);
                Some(NodeAttribute::Attribute(k))
            },
            Err(e) => {
                ctx.push_diagnostic(e);
                assert(diags(ctx.diagnostics@) =~= diags(old(ctx).diagnostics@) + seq![e.model()]);
                None
            },
        };
        proof {
            lemma_kept_same(*old(ctx), *ctx, toks(t@));
        }
        r
    }
}

/// The run of attributes from `q` on, when the transformation answers
/// `f(k)` for the block at position `k` of the input.
pub open spec fn attribute_run_with<T>(
    ctx: RecoverableContext<T>,
    t: Seq<TokenTree>,
    q: int,
    f: spec_fn(int) -> Result<Option<(nat, Seq<Tok>)>, Diag>,
) -> (Seq<AttributeV>, int, Seq<Diag>) {
    r_attribute_run(toks(t), q, ctx.cfg_with(f))
}

/// Parses attributes from the position on until the end, or until one
/// consumes nothing (see `r_attribute_run`).
fn parse_attribute_run<T: BlockTransform>(
    ctx: &mut RecoverableContext<T>,
    t: &Vec<TokenTree>,
    pos: &mut usize,
) -> (r: Vec<NodeAttribute>)
    requires
        *old(pos) <= t@.len(),
        old(ctx).base + t@.len() <= usize::MAX,
    ensures
        *old(pos) <= *final(pos) <= t@.len(),
        final(ctx).kept(old(ctx), toks(t@)),
        forall|f: spec_fn(int) -> Result<Option<(nat, Seq<Tok>)>, Diag>|
            #[trigger] final(ctx).agrees(f) ==> ({
                let sp = attribute_run_with(*old(ctx), t@, *old(pos) as int, f);
                &&& attributes(r@) == sp.0
                &&& *final(pos) == sp.1
                &&& diags(final(ctx).diagnostics@) == diags(old(ctx).diagnostics@) + sp.2
            }),
{
    let ghost s = toks(t@);
    let ghost p0 = *pos as int;
    let ghost d0 = diags(ctx.diagnostics@);
    let mut acc: Vec<NodeAttribute> = Vec::new();
    let mut done = false;
    proof {
        lemma_kept_same(*old(ctx), *ctx, s);
    }
    while !done && *pos < t.len()
        invariant
            p0 <= *pos <= t@.len(),
            s == toks(t@),
            ctx.kept(old(ctx), s),
            old(ctx).base + t@.len() <= usize::MAX,
            d0 == diags(old(ctx).diagnostics@),
            p0 == *old(pos),
            forall|f: spec_fn(int) -> Result<Option<(nat, Seq<Tok>)>, Diag>|
                #[trigger] ctx.agrees(f) ==> if done {
                    let whole = attribute_run_with(*old(ctx), t@, p0, f);
                    &&& attributes(acc@) == whole.0
                    &&& *pos == whole.1
                    &&& diags(ctx.diagnostics@) == d0 + whole.2
                } else {
                    let whole = attribute_run_with(*old(ctx), t@, p0, f);
                    let rest = attribute_run_with(*old(ctx), t@, *pos as int, f);
                    &&& attributes(acc@) + rest.0 == whole.0
                    &&& rest.1 == whole.1
                    &&& diags(ctx.diagnostics@) + rest.2 == d0 + whole.2
                },
        decreases t@.len() - *pos + if done { 0int } else { 1int },
    {
        let q = *pos;
        let ghost acc0 = acc@;
        let ghost c0 = *ctx;
        let a = parse_attribute(ctx, t, pos);
        let ghost av = opt_mv(a);
        match a {
            Some(v) => {
                acc.push(v);
            },
            None => {},
        }
        proof {
            assert(attributes(acc@) =~= attributes(acc0) + crate::grammar::opt_seq(av));
        }
        if *pos == q {
            done = true;
        }
        proof {
            lemma_kept_trans(*old(ctx), c0, *ctx, s);
            assert forall|f: spec_fn(int) -> Result<Option<(nat, Seq<Tok>)>, Diag>|
                #[trigger] ctx.agrees(f) implies if done {
                    let whole = attribute_run_with(*old(ctx), t@, p0, f);
                    &&& attributes(acc@) == whole.0
                    &&& *pos == whole.1
                    &&& diags(ctx.diagnostics@) == d0 + whole.2
                } else {
                    let whole = attribute_run_with(*old(ctx), t@, p0, f);
                    let rest = attribute_run_with(*old(ctx), t@, *pos as int, f);
                    &&& attributes(acc@) + rest.0 == whole.0
                    &&& rest.1 == whole.1
                    &&& diags(ctx.diagnostics@) + rest.2 == d0 + whole.2
                } by {
                lemma_agrees_kept(c0, *ctx, s, f);
                lemma_agrees_kept(*old(ctx), c0, s, f);
                assert(c0.agrees(f));
                let c = old(ctx).cfg_with(f);
                let whole = r_attribute_run(s, p0, c);
                let ar = r_attribute(s, q as int, c);
                let rest0 = r_attribute_run(s, q as int, c);
                if done {
                    assert(rest0 == (crate::grammar::opt_seq(ar.val), q as int, ar.diags));
                    assert(attributes(acc@) =~= whole.0);
                    assert(diags(ctx.diagnostics@) =~= d0 + whole.2);
                } else {
                    let rest1 = r_attribute_run(s, *pos as int, c);
                    assert(rest0.0 == crate::grammar::opt_seq(ar.val) + rest1.0);
                    assert(attributes(acc@) + rest1.0 =~= whole.0);
                    assert(diags(ctx.diagnostics@) + rest1.2 =~= d0 + whole.2);
                }
            }
        }
    }
    proof {
        assert forall|f: spec_fn(int) -> Result<Option<(nat, Seq<Tok>)>, Diag>|
            #[trigger] ctx.agrees(f) implies ({
                let sp = attribute_run_with(*old(ctx), t@, p0, f);
                &&& attributes(acc@) == sp.0
                &&& *pos == sp.1
                &&& diags(ctx.diagnostics@) == d0 + sp.2
            }) by {
            if !done {
                let c = old(ctx).cfg_with(f);
                let whole = r_attribute_run(s, p0, c);
                let rest = r_attribute_run(s, *pos as int, c);
                assert(rest.0 =~= seq![]);
                assert(attributes(acc@) =~= whole.0);
                assert(diags(ctx.diagnostics@) =~= d0 + whole.2);
            }
        }
    }
    acc
}

/// The attributes of the trees `t`, when the transformation answers `f(k)`
/// for the block at position `k` of the input.
pub open spec fn attributes_with<T>(
    ctx: RecoverableContext<T>,
    t: Seq<TokenTree>,
    f: spec_fn(int) -> Result<Option<(nat, Seq<Tok>)>, Diag>,
) -> (Seq<AttributeV>, Seq<Diag>) {
    r_attributes(toks(t), ctx.cfg_with(f))
}

/// Parses the attributes of a tag from the tokens between its name and its
/// end; reports tokens left over (see `r_attributes`).
pub fn parse_attributes<T: BlockTransform>(ctx: &mut RecoverableContext<T>, region: &Vec<TokenTree>) -> (r: Vec<
    NodeAttribute,
>)
    requires
        old(ctx).base + region@.len() <= usize::MAX,
    ensures
        final(ctx).kept(old(ctx), toks(region@)),
        forall|f: spec_fn(int) -> Result<Option<(nat, Seq<Tok>)>, Diag>|
            #[trigger] final(ctx).agrees(f) ==> ({
                let sp = attributes_with(*old(ctx), region@, f);
                &&& attributes(r@) == sp.0
                &&& diags(final(ctx).diagnostics@) == diags(old(ctx).diagnostics@) + sp.1
            }),
{
    let mut pos: usize = 0;
    let attrs = parse_attribute_run(ctx, region, &mut pos);
    let ghost c1 = *ctx;
    if pos < region.len() {
        let ghost d = diags(ctx.diagnostics@);
        ctx.push_diagnostic(
            error_diag(Some(range_span_exec(region, pos, region.len())), "tokens was ignored during parsing"),
        );
    }
    proof {
        lemma_kept_same(c1, *ctx, toks(region@));
        lemma_kept_trans(*old(ctx), c1, *ctx, toks(region@));
        assert forall|f: spec_fn(int) -> Result<Option<(nat, Seq<Tok>)>, Diag>|
            #[trigger] ctx.agrees(f) implies ({
                let sp = attributes_with(*old(ctx), region@, f);
                &&& attributes(attrs@) == sp.0
                &&& diags(ctx.diagnostics@) == diags(old(ctx).diagnostics@) + sp.1
            }) by {
            assert(c1.agrees(f));
            if pos < region.len() {
                assert(diags(ctx.diagnostics@) =~= diags(old(ctx).diagnostics@) + r_attributes(
                    toks(region@),
                    old(ctx).cfg_with(f),
                ).1);
            }
        }
    }
    attrs
}

fn ending_ok_exec(t: &Vec<TokenTree>, q: usize, k: Ending) -> (r: bool)
    ensures
        r == ending_ok(toks(t@), q as int, k),
{
    let mut p = q;
    match k {
        Ending::Gt => is_punct(t, q, '>'),
        Ending::FragmentClose => parse_fragment_close(t, &mut p).is_ok(),
        Ending::CloseTag => parse_close_tag(t, &mut p).is_ok(),
        Ending::OpenTagEnd => parse_open_tag_end(t, &mut p).is_ok(),
    }
}

/// The first position from `q` on where the ending parses, or the end (see
/// `scan`).
pub fn scan_exec(t: &Vec<TokenTree>, q: usize, k: Ending) -> (r: usize)
    requires
        q <= t@.len(),
    ensures
        r == scan(toks(t@), q as int, k),
        q <= r <= t@.len(),
        r < t@.len() ==> ending_ok(toks(t@), r as int, k),
{
    let mut e = q;
    while e < t.len() && !ending_ok_exec(t, e, k)
        invariant
            q <= e <= t@.len(),
            scan(toks(t@), e as int, k) == scan(toks(t@), q as int, k),
        decreases t@.len() - e,
    {
        e = e + 1;
    }
    e
}


/// The answers recorded while the attributes of a tag were read, from the
/// trees between `start` and `e` taken as a sequence of their own, are
/// answers for the blocks of the whole trees.
proof fn lemma_region_kept<T: BlockTransform>(
    c0: RecoverableContext<T>,
    ca: RecoverableContext<T>,
    cb: RecoverableContext<T>,
    cc: RecoverableContext<T>,
    s: Seq<Tok>,
    region: Seq<Tok>,
    start: int,
    e: int,
)
    requires
        0 <= start <= e <= s.len(),
        region == s.subrange(start, e),
        ca.config == c0.config,
        ca.source == c0.source,
        ca.answered == c0.answered,
        ca.base == c0.base + start,
        cb.kept(&ca, region),
        cc.config == cb.config,
        cc.source == cb.source,
        cc.answered == cb.answered,
        cc.diagnostics == cb.diagnostics,
        cc.base == c0.base,
    ensures
        cc.kept(&c0, s),
        forall|f: spec_fn(int) -> Result<Option<(nat, Seq<Tok>)>, Diag>|
            #[trigger] cc.agrees(f) ==> cb.agrees(f) && ca.cfg_with(f) == c0.cfg_with(f).shift(start),
{
    assert forall|i: int| c0.answered@.len() <= i < cc.answered@.len() implies #[trigger] cc.answer_ok(s, i) by {
        assert(cb.answer_ok(region, i));
    }
    assert forall|f: spec_fn(int) -> Result<Option<(nat, Seq<Tok>)>, Diag>|
        #[trigger] cc.agrees(f) implies cb.agrees(f) && ca.cfg_with(f) == c0.cfg_with(f).shift(start) by {
        if !c0.exact() {
            let g1 = ca.cfg_with(f).blocks->Some_0;
            let g2 = c0.cfg_with(f).shift(start).blocks->Some_0;
            assert(g1 =~= g2);
        }
    }
}

/// The open tag at `p`, when the transformation answers `f(k)` for the
/// block at position `k` of the input.
pub open spec fn open_tag_with<T>(
    ctx: RecoverableContext<T>,
    t: Seq<TokenTree>,
    p: int,
    f: spec_fn(int) -> Result<Option<(nat, Seq<Tok>)>, Diag>,
) -> Recovered<OpenTagV> {
    r_open_tag(toks(t), p, ctx.cfg_with(f))
}

/// Parses an open tag (see `r_open_tag`).
#[verifier::rlimit(30)]
pub fn parse_open_tag<T: BlockTransform>(
    ctx: &mut RecoverableContext<T>,
    t: &Vec<TokenTree>,
    pos: &mut usize,
) -> (r: Option<OpenTag>)
    requires
        *old(pos) <= t@.len(),
        old(ctx).base + t@.len() <= usize::MAX,
    ensures
        *old(pos) <= *final(pos) <= t@.len(),
        r is Some ==> *old(pos) < *final(pos),
        final(ctx).kept(old(ctx), toks(t@)),
        forall|f: spec_fn(int) -> Result<Option<(nat, Seq<Tok>)>, Diag>|
            #[trigger] final(ctx).agrees(f) ==> follows(
                r,
                *final(pos),
                final(ctx).diagnostics@,
                old(ctx).diagnostics@,
                open_tag_with(*old(ctx), t@, *old(pos) as int, f),
            ),
{
    let ghost d0 = diags(ctx.diagnostics@);
    let token_lt = match parse_punct(t, pos, '<') {
        Ok(v) => v,
        Err(e) => {
            ctx.push_diagnostic(e);
            assert(diags(ctx.diagnostics@) =~= d0 + seq![e.model()]);
            proof {
                lemma_kept_same(*old(ctx), *ctx, toks(t@));
            }
            return None;
        },
    };
    let q = *pos;
    if is_punct(t, q, '/') {
        ctx.push_diagnostic(
            error_diag(Some(tok_span(&t[q])), "close tag was parsed while waiting for open tag"),
        );
        *pos = q + 1;
    }
    let ghost d1 = diags(ctx.diagnostics@);
    let name = match parse_name(t, pos) {
        Ok(v) => v,
        Err(e) => {
            ctx.push_diagnostic(e);
            proof {
                lemma_kept_same(*old(ctx), *ctx, toks(t@));
                assert forall|f: spec_fn(int) -> Result<Option<(nat, Seq<Tok>)>, Diag>|
                    #[trigger] ctx.agrees(f) implies follows(
                        None::<OpenTag>,
                        *pos,
                        ctx.diagnostics@,
                        old(ctx).diagnostics@,
                        open_tag_with(*old(ctx), t@, q - 1, f),
                    ) by {
                    assert(diags(ctx.diagnostics@) =~= d0 + r_open_tag(toks(t@), q - 1, old(ctx).cfg_with(f)).diags);
                }
            }
            return None;
        },
    };
    let start = *pos;
    let e = scan_exec(t, start, Ending::OpenTagEnd);
    let region = copy_trees(t, start, e);
    let ghost c0 = *ctx;
    let b = ctx.base;
    ctx.base = b + start;
    let ghost ca = *ctx;
    let attributes = parse_attributes(ctx, &region);
    let ghost cb = *ctx;
    ctx.base = b;
    proof {
        lemma_region_kept(c0, ca, cb, *ctx, toks(t@), toks(region@), start as int, e as int);
        lemma_kept_same(*old(ctx), c0, toks(t@));
        lemma_kept_trans(*old(ctx), c0, *ctx, toks(t@));
    }
    let ghost c2 = *ctx;
    let mut q2 = e;
    let r = match parse_open_tag_end(t, &mut q2) {
        Ok(end_tag) => {
            *pos = q2;
            Some(OpenTag { token_lt, name, attributes, end_tag })
        },
        Err(_) => {
            ctx.push_diagnostic(error_diag(None, "expected end of tag '>'"));
            *pos = e;
            None
        },
    };
    proof {
        lemma_kept_same(c2, *ctx, toks(t@));
        lemma_kept_trans(*old(ctx), c2, *ctx, toks(t@));
        assert forall|f: spec_fn(int) -> Result<Option<(nat, Seq<Tok>)>, Diag>|
            #[trigger] ctx.agrees(f) implies follows(
                r,
                *pos,
                ctx.diagnostics@,
                old(ctx).diagnostics@,
                open_tag_with(*old(ctx), t@, q - 1, f),
            ) by {
            assert(c2.agrees(f));
            assert(cb.agrees(f));
            assert(ca.cfg_with(f) == old(ctx).cfg_with(f).shift(start as int));
            assert(diags(ctx.diagnostics@) =~= d0 + r_open_tag(toks(t@), q - 1, old(ctx).cfg_with(f)).diags);
        }
    }
    r
}

/// Parses the rest of a close tag whose `</` is read: the name and `>` (see
/// `r_close_tag_rest`).
pub fn parse_close_tag_rest<T>(
    ctx: &mut RecoverableContext<T>,
    t: &Vec<TokenTree>,
    pos: &mut usize,
    start_tag: CloseTagStart,
) -> (r: Option<CloseTag>)
    requires
        *old(pos) <= t@.len(),
    ensures
        *old(pos) <= *final(pos) <= t@.len(),
        final(ctx).same_setup(old(ctx)),
        follows(
            r,
            *final(pos),
            final(ctx).diagnostics@,
            old(ctx).diagnostics@,
            r_close_tag_rest(toks(t@), *old(pos) as int, start_tag),
        ),
{
    let name = match parse_name(t, pos) {
        Ok(v) => v,
        Err(e) => {
            ctx.push_diagnostic(e);
            assert(diags(ctx.diagnostics@) =~= diags(old(ctx).diagnostics@) + seq![e.model()]);
            return None;
        },
    };
    let token_gt = match parse_punct(t, pos, '>') {
        Ok(v) => v,
        Err(e) => {
            ctx.push_diagnostic(e);
            assert(diags(ctx.diagnostics@) =~= diags(old(ctx).diagnostics@) + seq![e.model()]);
            return None;
        },
    };
    assert(diags(ctx.diagnostics@) =~= diags(old(ctx).diagnostics@) + seq![]);
    Some(CloseTag { start_tag, name, token_gt })
}

impl CloseTag {
    /// The close tag whose `</` was read: its name and `>`; nothing without
    /// the `</`.
    pub fn parse_with_start_tag<T>(
        ctx: &mut RecoverableContext<T>,
        t: &Vec<TokenTree>,
        pos: &mut usize,
        start_tag: Option<CloseTagStart>,
    ) -> (r: Option<CloseTag>)
        requires
            *old(pos) <= t@.len(),
        ensures
            *old(pos) <= *final(pos) <= t@.len(),
            final(ctx).same_setup(old(ctx)),
            start_tag is None ==> r is None && *final(pos) == *old(pos) && final(ctx).diagnostics@
                == old(ctx).diagnostics@,
            start_tag is Some ==> follows(
                r,
                *final(pos),
                final(ctx).diagnostics@,
                old(ctx).diagnostics@,
                r_close_tag_rest(toks(t@), *old(pos) as int, start_tag->Some_0),
            ),
    {
        match start_tag {
            Some(st) => parse_close_tag_rest(ctx, t, pos, st),
            None => None,
        }
    }
}

impl FragmentClose {
    /// The close tag of a fragment whose `</` was read: `>`, after
    /// reporting and skipping the name of an element's close tag; nothing
    /// without the `</` (see `r_fragment_close_rest`).
    pub fn parse_with_start_tag<T>(
        ctx: &mut RecoverableContext<T>,
        t: &Vec<TokenTree>,
        pos: &mut usize,
        start_tag: Option<CloseTagStart>,
    ) -> (r: Option<FragmentClose>)
        requires
            *old(pos) <= t@.len(),
        ensures
            *old(pos) <= *final(pos) <= t@.len(),
            final(ctx).same_setup(old(ctx)),
            follows(
                r,
                *final(pos),
                final(ctx).diagnostics@,
                old(ctx).diagnostics@,
                r_fragment_close_rest(toks(t@), *old(pos) as int, start_tag),
            ),
    {
        let ghost d0 = diags(ctx.diagnostics@);
        let start_tag = match start_tag {
            Some(st) => st,
            None => {
                assert(diags(ctx.diagnostics@) =~= d0 + seq![]);
                return None;
            },
        };
        let q = *pos;
        if is_ident(t, q) {
            let d = error_diag(Some(tok_span(&t[q])), "expected fragment closing, found element closing tag");
            ctx.push_diagnostic(d);
            *pos = q + 1;
        }
        let ghost d1 = diags(ctx.diagnostics@);
        match parse_punct(t, pos, '>') {
            Ok(token_gt) => {
                assert(diags(ctx.diagnostics@) =~= d0 + r_fragment_close_rest(toks(t@), q as int, Some(start_tag)).diags);
                Some(FragmentClose { start_tag, token_gt })
            },
            Err(e) => {
                ctx.push_diagnostic(e);
                assert(diags(ctx.diagnostics@) =~= d0 + r_fragment_close_rest(toks(t@), q as int, Some(start_tag)).diags);
                None
            },
        }
    }
}

/// Parses a doctype (see `r_doctype`).
pub fn parse_doctype<T>(ctx: &mut RecoverableContext<T>, t: &Vec<TokenTree>, pos: &mut usize) -> (r: Option<Node>)
    requires
        *old(pos) <= t@.len(),
    ensures
        *old(pos) <= *final(pos) <= t@.len(),
        final(ctx).same_setup(old(ctx)),
        follows(
            r,
            *final(pos),
            final(ctx).diagnostics@,
            old(ctx).diagnostics@,
            r_doctype(toks(t@), *old(pos) as int, old(ctx).cfg()),
        ),
{
    let ghost d0 = diags(ctx.diagnostics@);
    let token_start = match parse_doc_start(t, pos) {
        Ok(v) => v,
        Err(e) => {
            ctx.push_diagnostic(e);
            assert(diags(ctx.diagnostics@) =~= d0 + seq![e.model()]);
            return None;
        },
    };
    let token_doctype = match parse_ident(t, pos) {
        Ok(v) => v,
        Err(e) => {
            ctx.push_diagnostic(e);
            assert(diags(ctx.diagnostics@) =~= d0 + seq![e.model()]);
            return None;
        },
    };
    let lc = to_lowercase(token_doctype.text.as_str());
    let kw = String::from_str("doctype");
    if lc != kw {
        let d = error_diag_at(t, *pos, "expected Doctype");
        ctx.push_diagnostic(d);
        assert(diags(ctx.diagnostics@) =~= d0 + seq![d.model()]);
        return None;
    }
    let start = *pos;
    let e = scan_exec(t, start, Ending::Gt);
    let value = RawText {
        token_stream: copy_trees(t, start, e),
        context_span: None,
        source: copy_source(&ctx.source),
    };
    assert(diags(ctx.diagnostics@) =~= d0 + seq![]);
    if is_punct(t, e, '>') {
        *pos = e + 1;
        Some(Node::Doctype(NodeDoctype { token_start, token_doctype, value, token_end: tok_span(&t[e]) }))
    } else {
        *pos = e;
        None
    }
}

} // verus!
