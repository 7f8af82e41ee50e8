//! Parsing nodes with their children: elements, fragments and the runs of
//! nodes between their tags.
use vstd::prelude::*;
use crate::diagnostic::{diags, Diag, Diagnostic, Level};
use crate::grammar::{
    element_end, group_at, opt_seq, punct_at, r_block, r_children, r_doctype, r_element, r_element_children,
    r_fragment, r_node, r_open_tag, r_raw_content, stop_at, Cfg, Stop,
};
use crate::model::{opt_mv, Model};
use crate::node::span::lemma_children_model;
use crate::node::{
    close_tag_model, nodes, CloseTag, CloseTagV, Node, NodeBlock, NodeDoctype, NodeElement,
    NodeFragment, NodeText, NodeV, OpenTag, OpenTagV, RawText,
};
use crate::grammar::Ending;
use crate::parse::{
    is_group, is_lit_str, is_punct, is_syn_ident, parse_close_tag, parse_close_tag_start,
    parse_fragment_close, parse_fragment_open, parse_lit_str,
};
use crate::parse_nodes::{
    copy_source, parse_block_node, parse_close_tag_rest, parse_comment, parse_doctype,
    parse_open_tag, parse_raw_text, scan_exec,
};
use crate::recoverable::{
    contains_name, follows, lemma_agrees_kept, lemma_kept_same, lemma_kept_trans, no_info_error, strings, BlockTransform, NoTransform, ParseRecoverable,
    Recoverable, RecoverableContext, RecoveryConfig,
};
use crate::token::{copy_trees, toks, Delimiter, Tok, TokenTree};

verus! {

pub open spec fn opt_int(o: Option<usize>) -> Option<int> {
    match o {
        Some(v) => Some(v as int),
        None => None,
    }
}

/// Position after the stop at `q`, if it parses there (see `stop_at`).
fn stop_exec(t: &Vec<TokenTree>, q: usize, k: Stop) -> (r: Option<usize>)
    requires
        q <= t@.len(),
    ensures
        (r is Some) == (stop_at(toks(t@), q as int, k).val is Ok),
        r is Some ==> r->Some_0 == stop_at(toks(t@), q as int, k).pos && q < r->Some_0 <= t@.len(),
{
    let mut p = q;
    match k {
        Stop::FragmentClose => match parse_fragment_close(t, &mut p) {
            Ok(_) => Some(p),
            Err(_) => None,
        },
        Stop::CloseTagStart => match parse_close_tag_start(t, &mut p) {
            Ok(_) => Some(p),
            Err(_) => None,
        },
    }
}

/// Parses nodes from the position on until the stop parses, or until a node
/// consumes nothing (see `r_children`). Gives the nodes and where the stop
/// was found.
#[verifier::spinoff_prover]
#[verifier::rlimit(40)]
pub fn parse_children<T: BlockTransform>(
    ctx: &mut RecoverableContext<T>,
    t: &Vec<TokenTree>,
    pos: &mut usize,
    k: Stop,
) -> (r: (Vec<Node>, Option<usize>))
    requires
        *old(pos) <= t@.len(),
        old(ctx).base + t@.len() <= usize::MAX,
    ensures
        *old(pos) <= *final(pos) <= t@.len(),
        final(ctx).kept(old(ctx), toks(t@)),
        r.1 is Some ==> stop_at(toks(t@), r.1->Some_0 as int, k).val is Ok,
        forall|f: spec_fn(int) -> Result<Option<(nat, Seq<Tok>)>, Diag>|
            #[trigger] final(ctx).agrees(f) ==> ({
                let sp = r_children(toks(t@), *old(pos) as int, old(ctx).cfg_with(f), k);
                &&& nodes(r.0@) == sp.nodes
                &&& opt_int(r.1) == sp.stop
                &&& *final(pos) == sp.pos
                &&& diags(final(ctx).diagnostics@) == diags(old(ctx).diagnostics@) + sp.diags
            }),
    decreases t@.len() - *old(pos), 3int,
{
    let ghost s = toks(t@);
    let ghost p0 = *pos as int;
    let ghost d0 = diags(ctx.diagnostics@);
    let mut acc: Vec<Node> = Vec::new();
    proof {
        lemma_kept_same(*old(ctx), *ctx, s);
    }
    loop
        invariant
            p0 <= *pos <= t@.len(),
            s == toks(t@),
            ctx.kept(old(ctx), s),
            old(ctx).base + t@.len() <= usize::MAX,
            d0 == diags(old(ctx).diagnostics@),
            p0 == *old(pos),
            forall|f: spec_fn(int) -> Result<Option<(nat, Seq<Tok>)>, Diag>|
                #[trigger] ctx.agrees(f) ==> ({
                    let whole = r_children(s, p0, old(ctx).cfg_with(f), k);
                    let rest = r_children(s, *pos as int, old(ctx).cfg_with(f), k);
                    &&& nodes(acc@) + rest.nodes == whole.nodes
                    &&& rest.stop == whole.stop
                    &&& rest.pos == whole.pos
                    &&& diags(ctx.diagnostics@) + rest.diags == d0 + whole.diags
                }),
        decreases t@.len() - *pos,
    {
        let q = *pos;
        match stop_exec(t, q, k) {
            Some(e) => {
                *pos = e;
                proof {
                    assert forall|f: spec_fn(int) -> Result<Option<(nat, Seq<Tok>)>, Diag>|
                        #[trigger] ctx.agrees(f) implies ({
                            let sp = r_children(s, p0, old(ctx).cfg_with(f), k);
                            &&& nodes(acc@) == sp.nodes
                            &&& opt_int(Some(q)) == sp.stop
                            &&& *pos == sp.pos
                            &&& diags(ctx.diagnostics@) == d0 + sp.diags
                        }) by {
                        let whole = r_children(s, p0, old(ctx).cfg_with(f), k);
                        assert(nodes(acc@) =~= whole.nodes);
                        assert(diags(ctx.diagnostics@) =~= d0 + whole.diags);
                    }
                }
                return (acc, Some(q));
            },
            None => {},
        }
        let ghost acc0 = acc@;
        let ghost c0 = *ctx;
        let n = parse_node(ctx, t, pos);
        let ghost nv = opt_mv(n);
        match n {
            Some(v) => {
                acc.push(v);
            },
            None => {},
        }
        proof {
            assert(nodes(acc@) =~= nodes(acc0) + opt_seq(nv));
            lemma_kept_trans(*old(ctx), c0, *ctx, s);
        }
        if *pos == q {
            proof {
                assert forall|f: spec_fn(int) -> Result<Option<(nat, Seq<Tok>)>, Diag>|
                    #[trigger] ctx.agrees(f) implies ({
                        let sp = r_children(s, p0, old(ctx).cfg_with(f), k);
                        &&& nodes(acc@) == sp.nodes
                        &&& opt_int(None) == sp.stop
                        &&& *pos == sp.pos
                        &&& diags(ctx.diagnostics@) == d0 + sp.diags
                    }) by {
                    lemma_agrees_kept(c0, *ctx, s, f);
                    let whole = r_children(s, p0, old(ctx).cfg_with(f), k);
                    assert(nodes(acc@) =~= whole.nodes);
                    assert(diags(ctx.diagnostics@) =~= d0 + whole.diags);
                }
            }
            return (acc, None);
        }
        proof {
            assert forall|f: spec_fn(int) -> Result<Option<(nat, Seq<Tok>)>, Diag>|
                #[trigger] ctx.agrees(f) implies ({
                    let whole = r_children(s, p0, old(ctx).cfg_with(f), k);
                    let rest = r_children(s, *pos as int, old(ctx).cfg_with(f), k);
                    &&& nodes(acc@) + rest.nodes == whole.nodes
                    &&& rest.stop == whole.stop
                    &&& rest.pos == whole.pos
                    &&& diags(ctx.diagnostics@) + rest.diags == d0 + whole.diags
                }) by {
                lemma_agrees_kept(c0, *ctx, s, f);
                let whole = r_children(s, p0, old(ctx).cfg_with(f), k);
                let rest1 = r_children(s, *pos as int, old(ctx).cfg_with(f), k);
                assert(nodes(acc@) + rest1.nodes =~= whole.nodes);
                assert(diags(ctx.diagnostics@) + rest1.diags =~= d0 + whole.diags);
            }
        }
    }
}

/// The nodes of an element from its tags and children: the contexts of raw
/// texts set, a report when the close tag is missing or has another name
/// (see `element_end`).
fn finish_element<T>(
    ctx: &mut RecoverableContext<T>,
    open_tag: OpenTag,
    children: Vec<Node>,
    close_tag: Option<CloseTag>,
) -> (r: NodeElement)
    ensures
        final(ctx).same_setup(old(ctx)),
        ({
            let sp = element_end(open_tag.model(), nodes(children@), close_tag_model(close_tag), 0, seq![]);
            &&& Some(r.mv()) == sp.val
            &&& diags(final(ctx).diagnostics@) == diags(old(ctx).diagnostics@) + sp.diags
        }),
{
    let ghost o = open_tag.model();
    let ghost ch0 = nodes(children@);
    let ghost cl = close_tag_model(close_tag);
    let ghost sp = element_end(o, ch0, cl, 0, seq![]);
    let close_start = match &close_tag {
        Some(ct) => Some(ct.start_tag.token_lt),
        None => None,
    };
    let children = RawText::vec_set_context(open_tag.end_tag.token_gt, close_start, children);
    let open_span = open_tag.token_lt.join(open_tag.end_tag.token_gt);
    match close_tag {
        None => {
            let mut d = Diagnostic::spanned(
                Some(open_span),
                Level::Error,
                "open tag has no corresponding close tag and is not self-closing",
            );
            let n = children.len();
            if n > 0 {
                let note = children[0].first_span().join(children[n - 1].last_span());
                d = d.with_child(Some(note), Level::Note, "treating all inputs after open tag as it content");
            }
            proof {
                assert(d.model().children =~= crate::grammar::unclosed_diag(o, nodes(children@)).children);
            }
            ctx.push_diagnostic(d);
            proof {
                assert(diags(ctx.diagnostics@) =~= diags(old(ctx).diagnostics@) + sp.diags);
            }
            NodeElement { open_tag, children, close_tag: None }
        },
        Some(ct) => {
            if !ct.name.same_as(&open_tag.name) {
                let d = Diagnostic::spanned(
                    Some(ct.start_tag.token_lt.join(ct.token_gt)),
                    Level::Error,
                    "wrong close tag found",
                ).with_child(Some(open_span), Level::Help, "open tag that should be closed started there");
                proof {
                    assert(d.model().children =~= crate::grammar::wrong_close_diag(o, ct.model()).children);
                }
                ctx.push_diagnostic(d);
                proof {
                    assert(diags(ctx.diagnostics@) =~= diags(old(ctx).diagnostics@) + sp.diags);
                }
            } else {
                assert(diags(ctx.diagnostics@) =~= diags(old(ctx).diagnostics@) + sp.diags);
            }
            NodeElement { open_tag, children, close_tag: Some(ct) }
        },
    }
}

/// What `element_end` reports does not depend on where it is read, and adds
/// to the reports before it.
proof fn lemma_element_end(o: OpenTagV, ch: Seq<NodeV>, close: Option<CloseTagV>, pos: int, ds: Seq<crate::diagnostic::Diag>)
    ensures
        element_end(o, ch, close, pos, ds).val == element_end(o, ch, close, 0, seq![]).val,
        element_end(o, ch, close, pos, ds).pos == pos,
        element_end(o, ch, close, pos, ds).diags == ds + element_end(o, ch, close, 0, seq![]).diags,
{
    assert(element_end(o, ch, close, pos, ds).diags =~= ds + element_end(o, ch, close, 0, seq![]).diags);
}

/// Parses a fragment, `<> ... </>` (see `r_fragment`).
#[verifier::spinoff_prover]
#[verifier::rlimit(40)]
pub fn parse_fragment<T: BlockTransform>(
    ctx: &mut RecoverableContext<T>,
    t: &Vec<TokenTree>,
    pos: &mut usize,
) -> (r: Option<NodeFragment>)
    requires
        *old(pos) <= t@.len(),
        old(ctx).base + t@.len() <= usize::MAX,
    ensures
        *old(pos) <= *final(pos) <= t@.len(),
        final(ctx).kept(old(ctx), toks(t@)),
        forall|f: spec_fn(int) -> Result<Option<(nat, Seq<Tok>)>, Diag>|
            #[trigger] final(ctx).agrees(f) ==> follows(
                r,
                *final(pos),
                final(ctx).diagnostics@,
                old(ctx).diagnostics@,
                r_fragment(toks(t@), *old(pos) as int, old(ctx).cfg_with(f)),
            ),
    decreases t@.len() - *old(pos), 1int,
{
    let ghost s = toks(t@);
    let ghost d0 = diags(ctx.diagnostics@);
    let tag_open = match parse_fragment_open(t, pos) {
        Ok(v) => v,
        Err(e) => {
            ctx.push_diagnostic(e);
            assert(diags(ctx.diagnostics@) =~= d0 + seq![e.model()]);
            proof {
                lemma_kept_same(*old(ctx), *ctx, s);
            }
            return None;
        },
    };
    let q = *pos;
    let empty = String::new();
    if contains_name(&ctx.config.raw_text_elements, &empty) {
        proof {
            assert(empty@ =~= seq![]);
        }
        let e = scan_exec(t, q, Ending::FragmentClose);
        let raw = RawText { token_stream: copy_trees(t, q, e), context_span: None, source: copy_source(&ctx.source) };
        let ghost rv = raw.model();
        let mut p2 = e;
        proof {
            lemma_kept_same(*old(ctx), *ctx, s);
        }
        match parse_fragment_close(t, &mut p2) {
            Ok(tag_close) => {
                let mut one: Vec<Node> = Vec::new();
                one.push(Node::RawText(raw));
                proof {
                    assert(nodes(one@) =~= seq![NodeV::RawText(rv)]);
                }
                let children = RawText::vec_set_context(tag_open.token_gt, Some(tag_close.start_tag.token_lt), one);
                *pos = p2;
                assert(diags(ctx.diagnostics@) =~= d0 + seq![]);
                Some(NodeFragment { tag_open, children, tag_close: Some(tag_close) })
            },
            Err(_) => {
                *pos = e;
                assert(diags(ctx.diagnostics@) =~= d0 + seq![]);
                None
            },
        }
    } else {
        proof {
            assert(empty@ =~= seq![]);
        }
        let ghost c0 = *ctx;
        let (children, stop) = parse_children(ctx, t, pos, Stop::FragmentClose);
        proof {
            lemma_kept_same(*old(ctx), c0, s);
            lemma_kept_trans(*old(ctx), c0, *ctx, s);
            assert forall|f: spec_fn(int) -> Result<Option<(nat, Seq<Tok>)>, Diag>|
                #[trigger] ctx.agrees(f) implies c0.cfg_with(f) == old(ctx).cfg_with(f) by {}
        }
        match stop {
            None => None,
            Some(at) => {
                let mut a = at;
                match parse_fragment_close(t, &mut a) {
                    Ok(tag_close) => {
                        let children = RawText::vec_set_context(
                            tag_open.token_gt,
                            Some(tag_close.start_tag.token_lt),
                            children,
                        );
                        Some(NodeFragment { tag_open, children, tag_close: Some(tag_close) })
                    },
                    Err(_) => None,
                }
            },
        }
    }
}

/// Parses the content of a raw text element and its close tag (see
/// `r_raw_content`).
fn parse_raw_content<T>(
    ctx: &mut RecoverableContext<T>,
    t: &Vec<TokenTree>,
    pos: &mut usize,
    open_tag: OpenTag,
) -> (r: NodeElement)
    requires
        *old(pos) <= t@.len(),
    ensures
        *old(pos) <= *final(pos) <= t@.len(),
        final(ctx).same_setup(old(ctx)),
        ({
            let sp = r_raw_content(toks(t@), *old(pos) as int, open_tag.model(), old(ctx).cfg());
            &&& Some(r.mv()) == sp.val
            &&& *final(pos) == sp.pos
            &&& diags(final(ctx).diagnostics@) == diags(old(ctx).diagnostics@) + sp.diags
        }),
{
    let q = *pos;
    let e = scan_exec(t, q, Ending::CloseTag);
    let raw = RawText { token_stream: copy_trees(t, q, e), context_span: None, source: copy_source(&ctx.source) };
    let ghost rv = raw.model();
    let mut children: Vec<Node> = Vec::new();
    if raw.token_stream.len() > 0 {
        children.push(Node::RawText(raw));
    }
    proof {
        if rv.tokens.len() > 0 {
            assert(nodes(children@) =~= seq![NodeV::RawText(rv)]);
        } else {
            assert(nodes(children@) =~= seq![]);
        }
    }
    let mut p2 = e;
    let close = match parse_close_tag(t, &mut p2) {
        Ok(ct) => {
            *pos = p2;
            Some(ct)
        },
        Err(_) => {
            *pos = e;
            None
        },
    };
    let ghost ch0 = nodes(children@);
    let ghost cl = close_tag_model(close);
    let el = finish_element(ctx, open_tag, children, close);
    proof {
        lemma_element_end(open_tag.model(), ch0, cl, *pos as int, seq![]);
    }
    el
}

/// Parses the children of an element up to a `</`, then the rest of its
/// close tag (see `r_element_children`).
fn parse_element_children<T: BlockTransform>(
    ctx: &mut RecoverableContext<T>,
    t: &Vec<TokenTree>,
    pos: &mut usize,
    open_tag: OpenTag,
) -> (r: NodeElement)
    requires
        *old(pos) <= t@.len(),
        old(ctx).base + t@.len() <= usize::MAX,
    ensures
        *old(pos) <= *final(pos) <= t@.len(),
        final(ctx).kept(old(ctx), toks(t@)),
        forall|f: spec_fn(int) -> Result<Option<(nat, Seq<Tok>)>, Diag>|
            #[trigger] final(ctx).agrees(f) ==> ({
            let sp = r_element_children(toks(t@), *old(pos) as int, open_tag.model(), old(ctx).cfg_with(f));
            &&& Some(r.mv()) == sp.val
            &&& *final(pos) == sp.pos
            &&& diags(final(ctx).diagnostics@) == diags(old(ctx).diagnostics@) + sp.diags
        }),
    decreases t@.len() - *old(pos), 4int,
{
    let ghost d0 = diags(ctx.diagnostics@);
    let (children, stop) = parse_children(ctx, t, pos, Stop::CloseTagStart);
    let ghost c1 = *ctx;
    let close = match stop {
        None => None,
        Some(at) => {
            let mut a = at;
            match parse_close_tag_start(t, &mut a) {
                Ok(start) => parse_close_tag_rest(ctx, t, pos, start),
                Err(_) => None,
            }
        },
    };
    let ghost d3 = diags(ctx.diagnostics@);
    let ghost ch0 = nodes(children@);
    let ghost cl = close_tag_model(close);
    let ghost c3 = *ctx;
    let el = finish_element(ctx, open_tag, children, close);
    proof {
        lemma_element_end(open_tag.model(), ch0, cl, *pos as int, d3.subrange(d0.len() as int, d3.len() as int));
        lemma_kept_same(c1, c3, toks(t@));
        lemma_kept_trans(*old(ctx), c1, c3, toks(t@));
        lemma_kept_same(c3, *ctx, toks(t@));
        lemma_kept_trans(*old(ctx), c3, *ctx, toks(t@));
        assert forall|f: spec_fn(int) -> Result<Option<(nat, Seq<Tok>)>, Diag>|
            #[trigger] ctx.agrees(f) implies ({
            let sp = r_element_children(toks(t@), *old(pos) as int, open_tag.model(), old(ctx).cfg_with(f));
            &&& Some(el.mv()) == sp.val
            &&& *pos == sp.pos
            &&& diags(ctx.diagnostics@) == diags(old(ctx).diagnostics@) + sp.diags
        }) by {
            assert(c1.agrees(f));
            assert(d3 =~= d0 + d3.subrange(d0.len() as int, d3.len() as int));
        }
    }
    el
}

/// Parses an element: its open tag, and unless it closes itself, its
/// children and close tag (see `r_element`).
#[verifier::spinoff_prover]
#[verifier::rlimit(40)]
pub fn parse_element<T: BlockTransform>(
    ctx: &mut RecoverableContext<T>,
    t: &Vec<TokenTree>,
    pos: &mut usize,
) -> (r: Option<NodeElement>)
    requires
        *old(pos) <= t@.len(),
        old(ctx).base + t@.len() <= usize::MAX,
    ensures
        *old(pos) <= *final(pos) <= t@.len(),
        final(ctx).kept(old(ctx), toks(t@)),
        forall|f: spec_fn(int) -> Result<Option<(nat, Seq<Tok>)>, Diag>|
            #[trigger] final(ctx).agrees(f) ==> follows(
                r,
                *final(pos),
                final(ctx).diagnostics@,
                old(ctx).diagnostics@,
                r_element(toks(t@), *old(pos) as int, old(ctx).cfg_with(f)),
            ),
    decreases t@.len() - *old(pos), 1int,
{
    let ghost d0 = diags(ctx.diagnostics@);
    let ghost s = toks(t@);
    let open_tag = match parse_open_tag(ctx, t, pos) {
        Some(o) => o,
        None => return None,
    };
    let ghost c1 = *ctx;
    let ghost p1 = *pos;
    let ghost d1 = diags(ctx.diagnostics@);
    let name = open_tag.name.to_string();
    if open_tag.end_tag.token_solidus.is_some() || contains_name(
        &ctx.config.always_self_closed_elements,
        &name,
    ) {
        let r = NodeElement { open_tag, children: Vec::new(), close_tag: None };
        proof {
            assert(nodes(r.children@) =~= seq![]);
        }
        return Some(r);
    }
    let el = if contains_name(&ctx.config.raw_text_elements, &name) {
        let el = parse_raw_content(ctx, t, pos, open_tag);
        proof {
            lemma_kept_same(c1, *ctx, s);
            assert forall|f: spec_fn(int) -> Result<Option<(nat, Seq<Tok>)>, Diag>|
                #[trigger] ctx.agrees(f) implies r_raw_content(s, p1 as int, open_tag.model(), old(ctx).cfg_with(f))
                == r_raw_content(s, p1 as int, open_tag.model(), old(ctx).cfg()) by {}
        }
        el
    } else {
        parse_element_children(ctx, t, pos, open_tag)
    };
    proof {
        lemma_kept_trans(*old(ctx), c1, *ctx, s);
        assert forall|f: spec_fn(int) -> Result<Option<(nat, Seq<Tok>)>, Diag>|
            #[trigger] ctx.agrees(f) implies follows(
                Some(el),
                *pos,
                ctx.diagnostics@,
                old(ctx).diagnostics@,
                r_element(s, *old(pos) as int, old(ctx).cfg_with(f)),
            ) by {
            lemma_agrees_kept(c1, *ctx, s, f);
            assert(diags(ctx.diagnostics@) =~= d0 + r_element(s, *old(pos) as int, old(ctx).cfg_with(f)).diags);
        }
    }
    Some(el)
}

/// Parses a node, chosen by its first tokens: a doctype, comment, fragment,
/// element, block, text or raw text (see `r_node`).
#[verifier::spinoff_prover]
#[verifier::rlimit(40)]
pub fn parse_node<T: BlockTransform>(
    ctx: &mut RecoverableContext<T>,
    t: &Vec<TokenTree>,
    pos: &mut usize,
) -> (r: Option<Node>)
    requires
        *old(pos) <= t@.len(),
        old(ctx).base + t@.len() <= usize::MAX,
    ensures
        *old(pos) <= *final(pos) <= t@.len(),
        final(ctx).kept(old(ctx), toks(t@)),
        forall|f: spec_fn(int) -> Result<Option<(nat, Seq<Tok>)>, Diag>|
            #[trigger] final(ctx).agrees(f) ==> follows(
                r,
                *final(pos),
                final(ctx).diagnostics@,
                old(ctx).diagnostics@,
                r_node(toks(t@), *old(pos) as int, old(ctx).cfg_with(f)),
            ),
    decreases t@.len() - *old(pos), 2int,
{
    reveal(r_node);
    let ghost s = toks(t@);
    let r = {
    let ghost d0 = diags(ctx.diagnostics@);
    let p = *pos;
    if is_punct(t, p, '<') {
        if is_punct(t, p + 1, '!') {
            if is_syn_ident(t, p + 2) {
                parse_doctype(ctx, t, pos)
            } else {
                match parse_comment(t, pos) {
                    Ok(n) => {
                        assert(diags(ctx.diagnostics@) =~= d0 + seq![]);
                        Some(n)
                    },
                    Err(e) => {
                        ctx.push_diagnostic(e);
                        assert(diags(ctx.diagnostics@) =~= d0 + seq![e.model()]);
                        None
                    },
                }
            }
        } else if is_punct(t, p + 1, '>') {
            match parse_fragment(ctx, t, pos) {
                Some(f) => {
                    let n = Node::Fragment(f);
                    proof {
                        lemma_children_model(&n);
                    }
                    Some(n)
                },
                None => None,
            }
        } else {
            match parse_element(ctx, t, pos) {
                Some(e) => {
                    let n = Node::Element(e);
                    proof {
                        lemma_children_model(&n);
                    }
                    Some(n)
                },
                None => None,
            }
        }
    } else if is_group(t, p, Delimiter::Brace) {
        match parse_block_node(ctx, t, pos) {
            Some(b) => Some(Node::Block(b)),
            None => None,
        }
    } else if is_lit_str(t, p) {
        match parse_lit_str(t, pos) {
            Ok(l) => {
                assert(diags(ctx.diagnostics@) =~= d0 + seq![]);
                Some(Node::Text(NodeText { value: l }))
            },
            Err(e) => {
                ctx.push_diagnostic(e);
                assert(diags(ctx.diagnostics@) =~= d0 + seq![e.model()]);
                None
            },
        }
    } else if p < t.len() {
        let r = parse_raw_text(t, pos, &ctx.source);
        assert(diags(ctx.diagnostics@) =~= d0 + seq![]);
        Some(Node::RawText(r))
    } else {
        assert(diags(ctx.diagnostics@) =~= d0 + seq![]);
        None
    }
};
    proof {
        if !(punct_at(s, *old(pos) as int, '<') || group_at(s, *old(pos) as int, Delimiter::Brace)) {
            lemma_kept_same(*old(ctx), *ctx, s);
        } else if punct_at(s, *old(pos) as int, '<') && punct_at(s, *old(pos) as int + 1, '!') {
            lemma_kept_same(*old(ctx), *ctx, s);
        }
        assert forall|f: spec_fn(int) -> Result<Option<(nat, Seq<Tok>)>, Diag>|
            #[trigger] ctx.agrees(f) implies follows(
                r,
                *pos,
                ctx.diagnostics@,
                old(ctx).diagnostics@,
                r_node(s, *old(pos) as int, old(ctx).cfg_with(f)),
            ) by {
            reveal(r_node);
        }
    }
    r
}

} // verus!

verus! {

impl ParseRecoverable for Node {
    open spec fn parses_as(
        cfg: Cfg,
        before: Seq<Diagnostic>,
        after: Seq<Diagnostic>,
        t: Seq<TokenTree>,
        start: int,
        end: usize,
        r: Option<Node>,
    ) -> bool {
        follows(r, end, after, before, r_node(toks(t), start, cfg))
    }

    fn parse_recoverable<T: BlockTransform>(
        ctx: &mut RecoverableContext<T>,
        t: &Vec<TokenTree>,
        pos: &mut usize,
    ) -> (r: Option<Node>) {
        parse_node(ctx, t, pos)
    }
}

impl ParseRecoverable for NodeElement {
    open spec fn parses_as(
        cfg: Cfg,
        before: Seq<Diagnostic>,
        after: Seq<Diagnostic>,
        t: Seq<TokenTree>,
        start: int,
        end: usize,
        r: Option<NodeElement>,
    ) -> bool {
        follows(r, end, after, before, r_element(toks(t), start, cfg))
    }

    fn parse_recoverable<T: BlockTransform>(
        ctx: &mut RecoverableContext<T>,
        t: &Vec<TokenTree>,
        pos: &mut usize,
    ) -> (r: Option<NodeElement>) {
        parse_element(ctx, t, pos)
    }
}

impl ParseRecoverable for NodeFragment {
    open spec fn parses_as(
        cfg: Cfg,
        before: Seq<Diagnostic>,
        after: Seq<Diagnostic>,
        t: Seq<TokenTree>,
        start: int,
        end: usize,
        r: Option<NodeFragment>,
    ) -> bool {
        follows(r, end, after, before, r_fragment(toks(t), start, cfg))
    }

    fn parse_recoverable<T: BlockTransform>(
        ctx: &mut RecoverableContext<T>,
        t: &Vec<TokenTree>,
        pos: &mut usize,
    ) -> (r: Option<NodeFragment>) {
        parse_fragment(ctx, t, pos)
    }
}

impl ParseRecoverable for NodeBlock {
    open spec fn parses_as(
        cfg: Cfg,
        before: Seq<Diagnostic>,
        after: Seq<Diagnostic>,
        t: Seq<TokenTree>,
        start: int,
        end: usize,
        r: Option<NodeBlock>,
    ) -> bool {
        follows(r, end, after, before, r_block(toks(t), start, cfg))
    }

    fn parse_recoverable<T: BlockTransform>(
        ctx: &mut RecoverableContext<T>,
        t: &Vec<TokenTree>,
        pos: &mut usize,
    ) -> (r: Option<NodeBlock>) {
        parse_block_node(ctx, t, pos)
    }
}

impl ParseRecoverable for OpenTag {
    open spec fn parses_as(
        cfg: Cfg,
        before: Seq<Diagnostic>,
        after: Seq<Diagnostic>,
        t: Seq<TokenTree>,
        start: int,
        end: usize,
        r: Option<OpenTag>,
    ) -> bool {
        follows(r, end, after, before, r_open_tag(toks(t), start, cfg))
    }

    fn parse_recoverable<T: BlockTransform>(
        ctx: &mut RecoverableContext<T>,
        t: &Vec<TokenTree>,
        pos: &mut usize,
    ) -> (r: Option<OpenTag>) {
        parse_open_tag(ctx, t, pos)
    }
}

impl ParseRecoverable for NodeDoctype {
    open spec fn parses_as(
        cfg: Cfg,
        before: Seq<Diagnostic>,
        after: Seq<Diagnostic>,
        t: Seq<TokenTree>,
        start: int,
        end: usize,
        r: Option<NodeDoctype>,
    ) -> bool {
        let sp = r_doctype(toks(t), start, cfg);
        &&& (match r {
            Some(d) => sp.val == Some(Node::Doctype(d).model()),
            None => sp.val is None,
        })
        &&& end == sp.pos
        &&& diags(after) == diags(before) + sp.diags
    }

    fn parse_recoverable<T: BlockTransform>(
        ctx: &mut RecoverableContext<T>,
        t: &Vec<TokenTree>,
        pos: &mut usize,
    ) -> (r: Option<NodeDoctype>) {
        let r = match parse_doctype(ctx, t, pos) {
            Some(Node::Doctype(d)) => Some(d),
            _ => None,
        };
        proof {
            lemma_kept_same(*old(ctx), *ctx, toks(t@));
            assert forall|f: spec_fn(int) -> Result<Option<(nat, Seq<Tok>)>, Diag>|
                #[trigger] ctx.agrees(f) implies r_doctype(toks(t@), *old(pos) as int, old(ctx).cfg_with(f))
                == r_doctype(toks(t@), *old(pos) as int, old(ctx).cfg()) by {}
        }
        r
    }
}

/// The default recovery configuration: no recovery of blocks, no void or
/// raw text elements, no transformation.
pub open spec fn default_cfg() -> Cfg {
    Cfg { recover_block: false, self_closed: seq![], raw_text: seq![], source: None, blocks: None }
}

/// `r` is what a strict parse gives for a recoverable parse that gave the
/// value `v` and reported `ds`: the value when there is one and no report,
/// else the first report (a general error when there is none).
pub open spec fn strict_result<U>(r: Result<Recoverable<U>, Diagnostic>, v: Option<U>, ds: Seq<Diagnostic>) -> bool {
    match r {
        Ok(x) => v == Some(x.0) && ds.len() == 0,
        Err(e) => !(v is Some && ds.len() == 0) && e.model() == (if ds.len() > 0 {
            ds[0].model()
        } else {
            no_info_error()
        }),
    }
}

impl<U: ParseRecoverable> Recoverable<U> {
    /// Parses a `U` with the default configuration: the value when it
    /// parses and nothing is reported, else the first diagnostic (see
    /// `ParsingResult::into_result`).
    pub fn parse(t: &Vec<TokenTree>, pos: &mut usize) -> (r: Result<Recoverable<U>, Diagnostic>)
        requires
            *old(pos) <= t@.len(),
        ensures
            *old(pos) <= *final(pos) <= t@.len(),
            exists|v: Option<U>, ds: Seq<Diagnostic>|
                #[trigger] U::parses_as(default_cfg(), seq![], ds, t@, *old(pos) as int, *final(pos), v)
                    && strict_result(r, v, ds),
    {
        let mut ctx: RecoverableContext<NoTransform> = RecoverableContext::new(
            RecoveryConfig {
                recover_block: false,
                always_self_closed_elements: Vec::new(),
                raw_text_elements: Vec::new(),
                transform_block: None,
            },
        );
        let ghost c0 = ctx;
        proof {
            assert(strings(ctx.config.always_self_closed_elements@) =~= seq![]);
            assert(strings(ctx.config.raw_text_elements@) =~= seq![]);
        }
        let len = t.len();
        assert(ctx.base + len <= usize::MAX);
        let v = U::parse_recoverable(&mut ctx, t, pos);
        let ghost ds = ctx.diagnostics@;
        proof {
            let f = |i: int| Ok::<Option<(nat, Seq<Tok>)>, Diag>(None);
            if ctx.answered@.len() > 0 {
                assert(ctx.answer_ok(toks(t@), 0));
            }
            assert(ctx.agrees(f));
            assert(c0.cfg_with(f) == default_cfg());
            assert(c0.diagnostics@ == Seq::<Diagnostic>::empty());
            assert(U::parses_as(default_cfg(), seq![], ds, t@, *old(pos) as int, *pos, v));
        }
        let ghost vv = v;
        let res = ctx.parse_result(v);
        let r = match res.into_result() {
            Ok(n) => Ok(Recoverable(n)),
            Err(e) => Err(e),
        };
        proof {
            assert(strict_result(r, vv, ds));
        }
        r
    }
}

} // verus!
