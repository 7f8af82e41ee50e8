//! Properties of the parser and its results that hold for all inputs.
use vstd::prelude::*;
use crate::diagnostic::{diags, Diag, Diagnostic};
use crate::model::opt_mv;
use crate::config::ParserConfig;
use crate::grammar::{
    ending_ok, group_at, ident_at, in_bounds, lit_str_at, name_eq, node_start_at, pair_eq,
    path_run, path_sep_at, punct_at, punct_run, punctuated_eq, r_children, r_node, r_open_tag,
    raw_end, r_doctype, r_element, r_element_children, r_fragment, s_doc_start, s_fragment_open,
    s_ident, s_name, s_punct, scan, stop_at, Cfg, path_text, punct_text, name_text, punct_v,
    set_context, ident_v, ok, s_raw_text, Ending, Stop,
};
use crate::parser::{simple_result, whole_spec};
use crate::token::{display_tok, toks, Delimiter, Punct, Spacing, Span, Tok, TokenStream};
use crate::node::tree::{children_of, childless, flat, flat_all, node_type};
use crate::node::name::{ident_tok, name_tokens, path_tokens, punct_tokens};
use crate::node::{nodes, IdentV, NameV, Node, NodeType, NodeV, PathSep, RawTextV};
use crate::parser::top_run;
use crate::recoverable::ParsingResult;
use crate::grammar::{element_end, r_raw_content, s_close_tag, wrong_close_diag};
use crate::node::tree::literal_text;
use crate::node::raw_text::{best_text, raw_source_text};
use crate::node::value::{expr_text, joined};
use crate::node::{CloseTagV, OpenTagV};
use crate::syntax::{
    expr_kind, expr_path_segments, lit_char_value, lit_float_digits, lit_int_digits, lit_kind, lit_str_value,
    ExprKind, LitKind,
};
use crate::token::display_toks;

verus! {

/// A result is complete exactly when it has a value and no errors, and
/// failed exactly when it has no value: the value and the errors decide the
/// kind of a result.
pub proof fn law_result_kind<T>(r: ParsingResult<T>)
    requires
        r.shaped(),
    ensures
        (r is Complete) == (r.parts().0 is Some && r.parts().1.len() == 0),
        (r is Partial) == (r.parts().0 is Some && r.parts().1.len() > 0),
        (r is Failed) == (r.parts().0 is None),
{
}

/// A simple parse succeeds exactly when the recoverable parse of the same
/// tokens is complete, and then both give the same nodes; when it fails, it
/// gives the first diagnostic of the recoverable parse.
pub proof fn law_simple_agrees_with_recoverable(
    sp: (Option<Seq<NodeV>>, Seq<Diag>, int),
    recovered: ParsingResult<Vec<Node>>,
    simple: Result<Vec<Node>, Diagnostic>,
)
    requires
        recovered.shaped(),
        opt_mv(recovered.parts().0) == sp.0,
        diags(recovered.parts().1) == sp.1,
        simple_result(simple, sp),
    ensures
        (simple is Ok) == (recovered is Complete),
        simple is Ok ==> nodes(simple->Ok_0@) == nodes(recovered->Complete_0@),
        simple is Err && recovered.parts().1.len() > 0 ==> simple->Err_0.model()
            == recovered.parts().1[0].model(),
{
    if recovered.parts().1.len() > 0 {
        assert(diags(recovered.parts().1)[0] == recovered.parts().1[0].model());
    }
}

/// Flattening lists a node first, without its children.
pub proof fn law_flat_first(n: NodeV)
    ensures
        flat(n).len() > 0,
        flat(n)[0] == childless(n),
{
    match n {
        NodeV::Element { .. } => {},
        NodeV::Fragment { .. } => {},
        _ => {},
    }
}

/// Flattening sequences of nodes distributes over concatenation.
pub proof fn law_flat_all_concat(a: Seq<NodeV>, b: Seq<NodeV>)
    ensures
        flat_all(a + b) == flat_all(a) + flat_all(b),
    decreases b.len(),
{
    if b.len() == 0 {
        assert(a + b =~= a);
        assert(flat_all(b) =~= seq![]);
        assert(flat_all(a) + flat_all(b) =~= flat_all(a));
    } else {
        let ab = a + b;
        let b1 = b.subrange(0, b.len() - 1);
        assert(ab.subrange(0, ab.len() - 1) =~= a + b1);
        assert(ab[ab.len() - 1] == b[b.len() - 1]);
        law_flat_all_concat(a, b1);
        assert(flat_all(a + b) =~= flat_all(a) + flat_all(b));
    }
}

/// No node of a flattened tree has children.
pub proof fn law_flat_childless(n: NodeV)
    ensures
        forall|i: int| 0 <= i < flat(n).len() ==> children_of(#[trigger] flat(n)[i]).len() == 0,
    decreases n, 1int,
{
    match n {
        NodeV::Element { children, .. } => {
            law_flat_all_childless(children);
            assert forall|i: int| 0 <= i < flat(n).len() implies children_of(#[trigger] flat(n)[i]).len() == 0 by {
                if i > 0 {
                    assert(flat(n)[i] == flat_all(children)[i - 1]);
                }
            }
        },
        NodeV::Fragment { children, .. } => {
            law_flat_all_childless(children);
            assert forall|i: int| 0 <= i < flat(n).len() implies children_of(#[trigger] flat(n)[i]).len() == 0 by {
                if i > 0 {
                    assert(flat(n)[i] == flat_all(children)[i - 1]);
                }
            }
        },
        _ => {},
    }
}

/// No node of a flattened sequence of trees has children.
pub proof fn law_flat_all_childless(s: Seq<NodeV>)
    ensures
        forall|i: int| 0 <= i < flat_all(s).len() ==> children_of(#[trigger] flat_all(s)[i]).len() == 0,
    decreases s, 0int,
{
    if s.len() > 0 {
        let pre = s.subrange(0, s.len() - 1);
        let last = s[s.len() - 1];
        law_flat_all_childless(pre);
        law_flat_childless(last);
        assert forall|i: int| 0 <= i < flat_all(s).len() implies children_of(#[trigger] flat_all(s)[i]).len() == 0 by {
            if i < flat_all(pre).len() {
                assert(flat_all(s)[i] == flat_all(pre)[i]);
            } else {
                assert(flat_all(s)[i] == flat(last)[i - flat_all(pre).len()]);
            }
        }
    }
}

/// When a type is required of top level nodes, every top level node read
/// has it.
pub proof fn law_top_level_types(s: Seq<Tok>, q: int, c: Cfg, t: NodeType)
    ensures
        forall|i: int|
            0 <= i < top_run(s, q, c, Some(t)).0.len() ==> node_type(#[trigger] top_run(s, q, c, Some(t)).0[i]) == t,
    decreases s.len() - q,
{
    if q < 0 || q >= s.len() {
    } else {
        let n = r_node(s, q, c);
        if n.val is Some && node_type(n.val->Some_0) == t && !(n.pos <= q || n.pos > s.len()) {
            law_top_level_types(s, n.pos, c, t);
            let r = top_run(s, n.pos, c, Some(t));
            assert(top_run(s, q, c, Some(t)).0 == seq![n.val->Some_0] + r.0);
        }
    }
}

/// Equality of names other than blocks is reflexive.
pub proof fn law_name_eq_reflexive(a: NameV)
    requires
        !(a is Block),
    ensures
        name_eq(a, a),
{
    match a {
        NameV::Punctuated(ids, ps) => {
            assert forall|i: int| 0 <= i < ids.len() && i < ids.len() implies #[trigger] pair_eq(
                ids,
                ps,
                ids,
                ps,
                i,
            ) by {}
        },
        _ => {},
    }
}

/// Equality of names other than blocks is symmetric.
pub proof fn law_name_eq_symmetric(a: NameV, b: NameV)
    requires
        !(a is Block),
    ensures
        name_eq(a, b) == name_eq(b, a),
{
    match (a, b) {
        (NameV::Path(sa, pa), NameV::Path(sb, pb)) => {
            if name_eq(a, b) {
                assert forall|i: int| 0 <= i < sb.len() implies #[trigger] sb[i].text == sa[i].text by {
                    assert(sa[i].text == sb[i].text);
                }
            }
            if name_eq(b, a) {
                assert forall|i: int| 0 <= i < sa.len() implies #[trigger] sa[i].text == sb[i].text by {
                    assert(sb[i].text == sa[i].text);
                }
            }
        },
        (NameV::Punctuated(ia, pa), NameV::Punctuated(ib, pb)) => {
            if punctuated_eq(ia, pa, ib, pb) {
                assert forall|i: int| 0 <= i < ib.len() && i < ia.len() implies #[trigger] pair_eq(
                    ib,
                    pb,
                    ia,
                    pa,
                    i,
                ) by {
                    assert(pair_eq(ia, pa, ib, pb, i));
                }
            }
            if punctuated_eq(ib, pb, ia, pa) {
                assert forall|i: int| 0 <= i < ia.len() && i < ib.len() implies #[trigger] pair_eq(
                    ia,
                    pa,
                    ib,
                    pb,
                    i,
                ) by {
                    assert(pair_eq(ib, pb, ia, pa, i));
                }
            }
        },
        _ => {},
    }
}

/// Setting the contexts of raw texts among children keeps the children:
/// their number, every node that is not raw text, and the tokens of every
/// raw text.
pub proof fn law_set_context_keeps(open_end: Span, close_start: Option<Span>, ch: Seq<NodeV>)
    ensures
        set_context(open_end, close_start, ch).len() == ch.len(),
        forall|i: int|
            0 <= i < ch.len() && !(ch[i] is RawText) ==> #[trigger] set_context(open_end, close_start, ch)[i]
                == ch[i],
        forall|i: int|
            0 <= i < ch.len() && ch[i] is RawText ==> (#[trigger] set_context(open_end, close_start, ch)[i] is RawText
                && set_context(open_end, close_start, ch)[i]->RawText_0.tokens == ch[i]->RawText_0.tokens),
{
}

/// Flattening a sequence of trees gives at least one node per tree.
pub proof fn law_flat_all_len(s: Seq<NodeV>)
    ensures
        flat_all(s).len() >= s.len(),
    decreases s.len(),
{
    if s.len() > 0 {
        law_flat_all_len(s.subrange(0, s.len() - 1));
        law_flat_first(s[s.len() - 1]);
    }
}

/// A parse that reports nothing keeps to its configuration, whatever a
/// configured transformation answers for blocks: with a number
/// of top level nodes required, it gives that many trees (at least that
/// many nodes when flattened), and with a type required of top level nodes,
/// every tree it gives has it.
pub proof fn law_parse_keeps_config<T>(
    v: TokenStream,
    config: ParserConfig<T>,
    f: spec_fn(int) -> Result<Option<(nat, Seq<Tok>)>, Diag>,
)
    ensures
        ({
            let sp = config.top_with(toks(v.trees@), 0, v.source, f);
            &&& (sp.1.len() == 0 && config.number_of_top_level_nodes is Some) ==> {
                let m = config.number_of_top_level_nodes->Some_0;
                match sp.0 {
                    Some(ns) => if config.flat_tree {
                        ns.len() >= m
                    } else {
                        ns.len() == m
                    },
                    None => m == 0,
                }
            }
            &&& (config.type_of_top_level_nodes is Some && !config.flat_tree && sp.0 is Some) ==> forall|i: int|
                0 <= i < sp.0->Some_0.len() ==> node_type(#[trigger] sp.0->Some_0[i])
                    == config.type_of_top_level_nodes->Some_0
        }),
{
    let s = toks(v.trees@);
    let c = config.cfg_with(v.source, f);
    let ty = config.type_of_top_level_nodes;
    let r = top_run(s, 0, c, ty);
    law_flat_all_len(r.0);
    if ty is Some {
        law_top_level_types(s, 0, c, ty->Some_0);
    }
    match config.number_of_top_level_nodes {
        Some(m) => {
            if r.0.len() != m {
                assert(config.top_with(s, 0, v.source, f).1.len() > 0);
            }
            if config.flat_tree && r.0.len() > 0 {
                assert(flat_all(r.0).len() > 0);
            }
        },
        None => {},
    }
}

/// `scan` stops at or after where it starts.
proof fn lemma_scan(s: Seq<Tok>, q: int, k: Ending)
    ensures
        scan(s, q, k) >= q,
        q <= s.len() ==> scan(s, q, k) <= s.len(),
    decreases s.len() - q,
{
    if !(q >= s.len() || ending_ok(s, q, k)) {
        lemma_scan(s, q + 1, k);
    }
}

/// Raw text ends at or after where it starts.
proof fn lemma_raw_end(s: Seq<Tok>, q: int)
    ensures
        raw_end(s, q) >= q,
    decreases s.len() - q,
{
    if !(q >= s.len() || node_start_at(s, q)) {
        lemma_raw_end(s, q + 1);
    }
}

proof fn lemma_path_run(s: Seq<Tok>, q: int)
    ensures
        path_run(s, q).2 >= q,
    decreases s.len() - q,
{
    if in_bounds(s, q) && ident_at(s, q) && path_sep_at(s, q + 1) {
        lemma_path_run(s, q + 3);
    }
}

proof fn lemma_punct_run(s: Seq<Tok>, q: int)
    ensures
        punct_run(s, q).2 >= q,
    decreases s.len() - q,
{
    if in_bounds(s, q) && ident_at(s, q) && (punct_at(s, q + 1, ':') || punct_at(s, q + 1, '-')) {
        lemma_punct_run(s, q + 2);
    }
}

/// A name, whether it parses or not, leaves the position at or after where
/// it started.
proof fn lemma_name(s: Seq<Tok>, p: int)
    ensures
        s_name(s, p).pos >= p,
{
    lemma_path_run(s, p);
    lemma_punct_run(s, p);
}

/// Children end at or after where they start.
proof fn lemma_children(s: Seq<Tok>, q: int, c: Cfg, k: Stop)
    requires
        q >= 0,
    ensures
        r_children(s, q, c, k).pos >= q,
    decreases s.len() - q,
{
    reveal(r_node);
    if stop_at(s, q, k).val is Ok {
        match k {
            Stop::FragmentClose => assert(stop_at(s, q, k).pos == q + 3),
            Stop::CloseTagStart => assert(stop_at(s, q, k).pos == q + 2),
        }
    } else {
        let n = r_node(s, q, c);
        if !(n.pos <= q || n.pos > s.len()) {
            lemma_children(s, n.pos, c, k);
            assert(r_children(s, q, c, k).pos == r_children(s, n.pos, c, k).pos);
        } else {
            assert(r_children(s, q, c, k).pos == q);
        }
    }
}

proof fn lemma_doctype_consumes(s: Seq<Tok>, p: int, c: Cfg)
    requires
        0 <= p < s.len(),
    ensures
        r_doctype(s, p, c).val is Some ==> r_doctype(s, p, c).pos > p,
{
    let ds = s_doc_start(s, p);
    if ds.val is Ok {
        let id = s_ident(s, ds.pos);
        lemma_scan(s, id.pos, Ending::Gt);
    }
}

proof fn lemma_fragment_consumes(s: Seq<Tok>, p: int, c: Cfg)
    requires
        0 <= p < s.len(),
    ensures
        r_fragment(s, p, c).val is Some ==> r_fragment(s, p, c).pos > p,
{
    reveal(r_node);
    let fo = s_fragment_open(s, p);
    if fo.val is Ok {
        lemma_scan(s, fo.pos, Ending::FragmentClose);
        lemma_children(s, fo.pos, c, Stop::FragmentClose);
    }
}

proof fn lemma_open_tag_consumes(s: Seq<Tok>, p: int, c: Cfg)
    requires
        0 <= p < s.len(),
    ensures
        r_open_tag(s, p, c).val is Some ==> r_open_tag(s, p, c).pos > p,
{
    let lt = s_punct(s, p, '<');
    if lt.val is Ok {
        let q = lt.pos;
        let q1 = if punct_at(s, q, '/') { q + 1 } else { q };
        lemma_name(s, q1);
        lemma_scan(s, s_name(s, q1).pos, Ending::OpenTagEnd);
    }
}

proof fn lemma_element_consumes(s: Seq<Tok>, p: int, c: Cfg)
    requires
        0 <= p < s.len(),
    ensures
        r_element(s, p, c).val is Some ==> r_element(s, p, c).pos > p,
{
    reveal(r_node);
    lemma_open_tag_consumes(s, p, c);
    let ot = r_open_tag(s, p, c);
    if ot.val is Some {
        let o = ot.val->Some_0;
        lemma_scan(s, ot.pos, Ending::CloseTag);
        let e = scan(s, ot.pos, Ending::CloseTag);
        lemma_name(s, e + 2);
        if ot.pos > p {
            lemma_children(s, ot.pos, c, Stop::CloseTagStart);
            let ch = r_children(s, ot.pos, c, Stop::CloseTagStart);
            lemma_name(s, ch.pos);
            assert(r_element_children(s, ot.pos, o, c).pos >= ch.pos);
        }
    }
}

/// Every node that parses consumes at least one token: reading nodes one
/// after another always moves on.
pub proof fn law_node_consumes(s: Seq<Tok>, p: int, c: Cfg)
    requires
        0 <= p < s.len(),
    ensures
        r_node(s, p, c).val is Some ==> r_node(s, p, c).pos > p,
{
    reveal(r_node);
    lemma_doctype_consumes(s, p, c);
    lemma_fragment_consumes(s, p, c);
    lemma_element_consumes(s, p, c);
    if !(punct_at(s, p, '<') || group_at(s, p, Delimiter::Brace) || lit_str_at(s, p)) {
        lemma_raw_end(s, p + 1);
    }
}

/// Layout of the tokens of a path: segment `k` at `3k`, its `::` after it.
proof fn lemma_path_tokens(segs: Seq<IdentV>, seps: Seq<PathSep>, n: int)
    requires
        0 <= n <= segs.len(),
        seps.len() <= segs.len(),
    ensures
        path_tokens(segs, seps, n).len() == n + 2 * (if n <= seps.len() { n } else { seps.len() as int }),
        forall|k: int| 0 <= k < n && k <= seps.len() ==> #[trigger] path_tokens(segs, seps, n)[3 * k] == ident_tok(segs[k]),
        forall|k: int|
            0 <= k < n && k < seps.len() ==> #[trigger] path_tokens(segs, seps, n)[3 * k + 1] == (Tok::Punct {
                ch: ':',
                spacing: Spacing::Joint,
                span: seps[k].first,
            }) && path_tokens(segs, seps, n)[3 * k + 2] == (Tok::Punct {
                ch: ':',
                spacing: Spacing::Alone,
                span: seps[k].second,
            }),
    decreases n,
{
    if n > 0 {
        lemma_path_tokens(segs, seps, n - 1);
    }
}

/// Reading a path from the tokens of its segment `i` on gives the rest of
/// the path.
proof fn lemma_path_run_tokens(segs: Seq<IdentV>, seps: Seq<PathSep>, i: int)
    requires
        segs.len() >= 1,
        segs.len() - 1 <= seps.len() <= segs.len(),
        0 <= i <= segs.len(),
        i == segs.len() ==> seps.len() == segs.len(),
    ensures
        ({
            let s = path_tokens(segs, seps, segs.len() as int);
            let r = path_run(s, 3 * i);
            &&& r.0 == segs.subrange(i, segs.len() as int)
            &&& r.1 == seps.subrange(i, seps.len() as int)
            &&& r.2 == s.len()
        }),
    decreases segs.len() - i,
{
    let s = path_tokens(segs, seps, segs.len() as int);
    lemma_path_tokens(segs, seps, segs.len() as int);
    if i < segs.len() {
        assert(s[3 * i] == ident_tok(segs[i]));
        if i < seps.len() {
            assert(s[3 * i + 1] == (Tok::Punct { ch: ':', spacing: Spacing::Joint, span: seps[i].first }));
            lemma_path_run_tokens(segs, seps, i + 1);
            assert(path_run(s, 3 * i).0 =~= segs.subrange(i, segs.len() as int));
            assert(path_run(s, 3 * i).1 =~= seps.subrange(i, seps.len() as int));
        } else {
            assert(path_run(s, 3 * i).0 =~= segs.subrange(i, segs.len() as int));
            assert(path_run(s, 3 * i).1 =~= seps.subrange(i, seps.len() as int));
        }
    } else {
        assert(path_run(s, 3 * i).0 =~= segs.subrange(i, segs.len() as int));
        assert(path_run(s, 3 * i).1 =~= seps.subrange(i, seps.len() as int));
    }
}

/// Layout of the tokens of a punctuated name: identifier `k` at `2k`, its
/// punctuation after it.
proof fn lemma_punct_tokens(ids: Seq<IdentV>, ps: Seq<Punct>, n: int)
    requires
        0 <= n <= ids.len(),
        ps.len() <= ids.len(),
    ensures
        punct_tokens(ids, ps, n).len() == n + (if n <= ps.len() { n } else { ps.len() as int }),
        forall|k: int| 0 <= k < n && k <= ps.len() ==> #[trigger] punct_tokens(ids, ps, n)[2 * k] == ident_tok(ids[k]),
        forall|k: int|
            0 <= k < n && k < ps.len() ==> #[trigger] punct_tokens(ids, ps, n)[2 * k + 1] == (Tok::Punct {
                ch: ps[k].ch,
                spacing: ps[k].spacing,
                span: ps[k].span,
            }),
    decreases n,
{
    if n > 0 {
        lemma_punct_tokens(ids, ps, n - 1);
    }
}

/// Reading a punctuated name from the tokens of its identifier `i` on
/// gives the rest of the name.
proof fn lemma_punct_run_tokens(ids: Seq<IdentV>, ps: Seq<Punct>, i: int)
    requires
        ids.len() >= 1,
        ids.len() - 1 <= ps.len() <= ids.len(),
        forall|k: int| 0 <= k < ps.len() ==> #[trigger] ps[k].ch == ':' || ps[k].ch == '-',
        0 <= i <= ids.len(),
        i == ids.len() ==> ps.len() == ids.len(),
    ensures
        ({
            let s = punct_tokens(ids, ps, ids.len() as int);
            let r = punct_run(s, 2 * i);
            &&& r.0 == ids.subrange(i, ids.len() as int)
            &&& r.1 == ps.subrange(i, ps.len() as int)
            &&& r.2 == s.len()
        }),
    decreases ids.len() - i,
{
    let s = punct_tokens(ids, ps, ids.len() as int);
    lemma_punct_tokens(ids, ps, ids.len() as int);
    if i < ids.len() {
        assert(s[2 * i] == ident_tok(ids[i]));
        if i < ps.len() {
            assert(s[2 * i + 1] == (Tok::Punct { ch: ps[i].ch, spacing: ps[i].spacing, span: ps[i].span }));
            assert(ps[i].ch == ':' || ps[i].ch == '-');
            lemma_punct_run_tokens(ids, ps, i + 1);
            assert(punct_run(s, 2 * i).0 =~= ids.subrange(i, ids.len() as int));
            assert(punct_run(s, 2 * i).1 =~= ps.subrange(i, ps.len() as int));
        } else {
            assert(punct_run(s, 2 * i).0 =~= ids.subrange(i, ids.len() as int));
            assert(punct_run(s, 2 * i).1 =~= ps.subrange(i, ps.len() as int));
        }
    } else {
        assert(punct_run(s, 2 * i).0 =~= ids.subrange(i, ids.len() as int));
        assert(punct_run(s, 2 * i).1 =~= ps.subrange(i, ps.len() as int));
    }
}

proof fn lemma_raw_end_all(s: Seq<Tok>, q: int)
    requires
        0 <= q <= s.len(),
        forall|i: int| 0 <= i < s.len() ==> !#[trigger] node_start_at(s, i),
    ensures
        raw_end(s, q) == s.len(),
    decreases s.len() - q,
{
    if q < s.len() {
        assert(!node_start_at(s, q));
        lemma_raw_end_all(s, q + 1);
    }
}

/// Tokens where no node can start read back as one raw text of all of
/// them.
pub proof fn law_raw_text_reads_back(s: Seq<Tok>, c: Cfg)
    requires
        forall|i: int| 0 <= i < s.len() ==> !#[trigger] node_start_at(s, i),
    ensures
        s_raw_text(s, 0, c) == ok(
            NodeV::RawText(RawTextV { tokens: s, context_span: None, source: c.source }),
            s.len() as int,
        ),
{
    lemma_raw_end_all(s, 0);
    assert(s.subrange(0, s.len() as int) =~= s);
}

/// The tokens of a name read back as the same name: a path of one
/// identifier, or of several separated by `::` (possibly with one more at
/// the end); or identifiers separated by `:` or `-` (possibly with one more
/// at the end).
pub proof fn law_name_tokens_read_back(n: NameV)
    requires
        match n {
            NameV::Path(segs, seps) => {
                ||| segs.len() == 1 && seps.len() == 0
                ||| segs.len() >= 2 && segs.len() - 1 <= seps.len() <= segs.len()
            },
            NameV::Punctuated(ids, ps) => {
                &&& ids.len() >= 2
                &&& ids.len() - 1 <= ps.len() <= ids.len()
                &&& forall|k: int| 0 <= k < ps.len() ==> #[trigger] ps[k].ch == ':' || ps[k].ch == '-'
            },
            NameV::Block(_) => false,
        },
    ensures
        s_name(name_tokens(n), 0) == ok(n, name_tokens(n).len() as int),
{
    match n {
        NameV::Path(segs, seps) => {
            let s = name_tokens(n);
            lemma_path_tokens(segs, seps, segs.len() as int);
            let pt = path_tokens(segs, seps, segs.len() as int);
            assert(pt[3 * 0int] == ident_tok(segs[0]));
            assert(s[0] == ident_tok(segs[0]));
            if segs.len() >= 2 {
                assert(pt[3 * 0int + 1] == (Tok::Punct { ch: ':', spacing: Spacing::Joint, span: seps[0].first }));
                assert(s[1] == (Tok::Punct { ch: ':', spacing: Spacing::Joint, span: seps[0].first }));
                lemma_path_run_tokens(segs, seps, 0);
                assert(segs.subrange(0, segs.len() as int) =~= segs);
                assert(seps.subrange(0, seps.len() as int) =~= seps);
            } else {
                assert(ident_v(s[0]) == segs[0]);
                assert(seq![ident_v(s[0])] =~= segs);
                assert(seps =~= Seq::<PathSep>::empty());
            }
        },
        NameV::Punctuated(ids, ps) => {
            let s = name_tokens(n);
            lemma_punct_tokens(ids, ps, ids.len() as int);
            let pt = punct_tokens(ids, ps, ids.len() as int);
            assert(pt[2 * 0int] == ident_tok(ids[0]));
            assert(pt[2 * 0int + 1] == (Tok::Punct { ch: ps[0].ch, spacing: ps[0].spacing, span: ps[0].span }));
            assert(pt[2 * 1int] == ident_tok(ids[1]));
            assert(s[0] == ident_tok(ids[0]));
            assert(s[1] == (Tok::Punct { ch: ps[0].ch, spacing: ps[0].spacing, span: ps[0].span }));
            assert(ps[0].ch == ':' || ps[0].ch == '-');
            assert(s[2] == ident_tok(ids[1]));
            lemma_punct_run_tokens(ids, ps, 0);
            assert(ids.subrange(0, ids.len() as int) =~= ids);
            assert(ps.subrange(0, ps.len() as int) =~= ps);
        },
        NameV::Block(_) => {},
    }
}


/// Text of tokens written one after another, with nothing between them.
pub open spec fn joined_text(s: Seq<Tok>) -> Seq<char>
    decreases s.len(),
{
    if s.len() == 0 {
        seq![]
    } else {
        display_tok(s[0]) + joined_text(s.drop_first())
    }
}

/// Joining a path that starts with `x` puts `x` and `::` first.
proof fn lemma_path_text_cons(x: IdentV, rest: Seq<IdentV>, n: int)
    requires
        1 <= n <= rest.len(),
    ensures
        path_text(seq![x] + rest, n + 1) == x.text + "::"@ + path_text(rest, n),
    decreases n,
{
    let segs = seq![x] + rest;
    assert(segs[0] == x);
    assert(segs[n] == rest[n - 1]);
    if n == 1 {
        assert(path_text(segs, 1) == x.text);
        assert(path_text(rest, 1) == rest[0].text);
    } else {
        lemma_path_text_cons(x, rest, n - 1);
        assert(path_text(segs, n + 1) == path_text(segs, n) + "::"@ + segs[n].text);
        assert(path_text(rest, n) == path_text(rest, n - 1) + "::"@ + rest[n - 1].text);
        assert(path_text(segs, n + 1) =~= x.text + "::"@ + path_text(rest, n));
    }
}

/// Joining punctuated identifiers that start with `x` and `p` puts them
/// first.
proof fn lemma_punct_text_cons(x: IdentV, p: Punct, ids: Seq<IdentV>, ps: Seq<Punct>, n: int)
    requires
        0 <= n <= ids.len(),
    ensures
        punct_text(seq![x] + ids, seq![p] + ps, n + 1) == x.text + seq![p.ch] + punct_text(ids, ps, n),
    decreases n,
{
    let ids1 = seq![x] + ids;
    let ps1 = seq![p] + ps;
    assert(ids1[0] == x);
    assert(ps1[0] == p);
    if n == 0 {
        assert(punct_text(ids1, ps1, 0) == Seq::<char>::empty());
        assert(punct_text(ids, ps, 0) == Seq::<char>::empty());
        assert(punct_text(ids1, ps1, 1) =~= x.text + seq![p.ch]);
    } else {
        lemma_punct_text_cons(x, p, ids, ps, n - 1);
        assert(ids1[n] == ids[n - 1]);
        assert(n < ps1.len() ==> ps1[n] == ps[n - 1]);
        assert(punct_text(ids1, ps1, n + 1) =~= x.text + seq![p.ch] + punct_text(ids, ps, n));
    }
}

/// The joined text of tokens from `q` on starts with that of the token at
/// `q`.
proof fn lemma_joined_text_first(s: Seq<Tok>, q: int, e: int)
    requires
        0 <= q < e <= s.len(),
    ensures
        joined_text(s.subrange(q, e)) == display_tok(s[q]) + joined_text(s.subrange(q + 1, e)),
{
    assert(s.subrange(q, e).drop_first() =~= s.subrange(q + 1, e));
}

/// A path read without a separator at its end joins back to the text of
/// its tokens.
proof fn lemma_path_run_text(s: Seq<Tok>, q: int)
    requires
        0 <= q,
        ident_at(s, q),
        path_run(s, q).1.len() < path_run(s, q).0.len(),
    ensures
        path_text(path_run(s, q).0, path_run(s, q).0.len() as int) == joined_text(
            s.subrange(q, path_run(s, q).2),
        ),
        q < path_run(s, q).2 <= s.len(),
    decreases s.len() - q,
{
    let r = path_run(s, q);
    if path_sep_at(s, q + 1) {
        let r2 = path_run(s, q + 3);
        assert(r2.0.len() > 0);
        lemma_path_run_text(s, q + 3);
        lemma_path_text_cons(ident_v(s[q]), r2.0, r2.0.len() as int);
        lemma_joined_text_first(s, q, r.2);
        lemma_joined_text_first(s, q + 1, r.2);
        lemma_joined_text_first(s, q + 2, r.2);
        assert(r.0 == seq![ident_v(s[q])] + r2.0);
        assert(display_tok(s[q]) == ident_v(s[q]).text);
        reveal_strlit("::");
        assert(display_tok(s[q + 1]) + display_tok(s[q + 2]) =~= "::"@);
        assert(joined_text(s.subrange(q, r.2)) =~= ident_v(s[q]).text + "::"@ + joined_text(s.subrange(q + 3, r.2)));
    } else {
        lemma_joined_text_first(s, q, q + 1);
        assert(s.subrange(q + 1, q + 1) =~= Seq::<Tok>::empty());
        assert(path_text(r.0, 1) == r.0[0].text);
    }
}

/// Punctuated identifiers join back to the text of their tokens.
proof fn lemma_punct_run_text(s: Seq<Tok>, q: int)
    requires
        0 <= q,
        ident_at(s, q),
    ensures
        punct_text(punct_run(s, q).0, punct_run(s, q).1, punct_run(s, q).0.len() as int) == joined_text(
            s.subrange(q, punct_run(s, q).2),
        ),
        q < punct_run(s, q).2 <= s.len(),
    decreases s.len() - q,
{
    let r = punct_run(s, q);
    if punct_at(s, q + 1, ':') || punct_at(s, q + 1, '-') {
        let r2 = punct_run(s, q + 2);
        if ident_at(s, q + 2) {
            lemma_punct_run_text(s, q + 2);
        } else {
            assert(r2.0 =~= Seq::<IdentV>::empty());
            assert(s.subrange(q + 2, q + 2) =~= Seq::<Tok>::empty());
        }
        lemma_joined_text_first(s, q, r.2);
        lemma_joined_text_first(s, q + 1, r.2);
        assert(display_tok(s[q]) == ident_v(s[q]).text);
        assert(display_tok(s[q + 1]) == seq![punct_v(s[q + 1]).ch]);
        lemma_punct_text_cons(ident_v(s[q]), punct_v(s[q + 1]), r2.0, r2.1, r2.0.len() as int);
        assert(joined_text(s.subrange(q, r.2)) =~= ident_v(s[q]).text + seq![punct_v(s[q + 1]).ch]
            + joined_text(s.subrange(q + 2, r.2)));
    } else {
        lemma_joined_text_first(s, q, q + 1);
        assert(s.subrange(q + 1, q + 1) =~= Seq::<Tok>::empty());
        assert(punct_text(r.0, r.1, 0) == Seq::<char>::empty());
        assert(punct_text(r.0, r.1, 1) =~= r.0[0].text);
    }
}

/// A name read from tokens, other than a block or a path that ends with
/// `::`, has as its text the text of the tokens it was read from.
pub proof fn law_name_text_reads_back(s: Seq<Tok>, p: int)
    requires
        0 <= p,
        s_name(s, p).val is Ok,
        !(s_name(s, p).val->Ok_0 is Block),
        s_name(s, p).val->Ok_0 is Path ==> s_name(s, p).val->Ok_0->Path_1.len() < s_name(s, p).val->Ok_0->Path_0.len(),
    ensures
        name_text(s_name(s, p).val->Ok_0) == joined_text(s.subrange(p, s_name(s, p).pos)),
{
    if path_sep_at(s, p + 1) {
        lemma_path_run_text(s, p);
    } else if punct_at(s, p + 1, ':') || punct_at(s, p + 1, '-') {
        lemma_punct_run_text(s, p);
    } else if group_at(s, p, Delimiter::Brace) {
    } else {
        lemma_joined_text_first(s, p, p + 1);
        assert(s.subrange(p + 1, p + 1) =~= Seq::<Tok>::empty());
    }
}


/// With a flat tree configured, a parse gives, one after the other, the
/// flattenings of the trees that the same parse gives without it, and the
/// same reports; so does a parse of all of the tokens.
pub proof fn law_flat_tree_flattens<T>(
    v: TokenStream,
    config: ParserConfig<T>,
    f: spec_fn(int) -> Result<Option<(nat, Seq<Tok>)>, Diag>,
)
    requires
        config.flat_tree,
    ensures
        ({
            let s = toks(v.trees@);
            let trees = ParserConfig { flat_tree: false, ..config };
            let flat = config.top_with(s, 0, v.source, f);
            let tree = trees.top_with(s, 0, v.source, f);
            &&& flat.1 == tree.1
            &&& flat.2 == tree.2
            &&& flat.0 == match tree.0 {
                Some(ns) => Some(flat_all(ns)),
                None => None::<Seq<NodeV>>,
            }
            &&& whole_spec(v, config, f).0 == flat.0
            &&& whole_spec(v, config, f).1 == whole_spec(v, trees, f).1
        }),
{
    let s = toks(v.trees@);
    let trees = ParserConfig { flat_tree: false, ..config };
    assert(config.cfg_with(v.source, f) == trees.cfg_with(v.source, f));
    let c = config.cfg_with(v.source, f);
    let r = top_run(s, 0, c, config.type_of_top_level_nodes);
    law_flat_all_len(r.0);
    if r.0.len() > 0 {
        law_flat_first(r.0[r.0.len() - 1]);
        assert(flat_all(r.0).len() > 0);
    }
}


/// A value that is one identifier other than `true` or `false` is a path,
/// not a literal: it has no literal text. `true` and `false` read as
/// themselves.
pub proof fn law_identifier_value_has_no_literal_text(text: Seq<char>, span: Span)
    ensures
        (text != "true"@ && text != "false"@) ==> literal_text(Some(seq![Tok::Ident { text, span }])) is None,
        (text == "true"@ || text == "false"@) ==> literal_text(Some(seq![Tok::Ident { text, span }])) == Some(text),
{
}

/// The content of a raw text element, read from `q` up to the first close
/// tag (or the end), is one raw text child holding exactly those tokens
/// when there are any, and no child at all when there are none: no child
/// holds an empty raw text.
pub proof fn law_raw_content_children(s: Seq<Tok>, q: int, o: OpenTagV, c: Cfg)
    requires
        0 <= q <= s.len(),
    ensures
        ({
            let e = scan(s, q, Ending::CloseTag);
            let r = r_raw_content(s, q, o, c);
            &&& r.val is Some
            &&& r.val->Some_0 is Element
            &&& {
                let ch = r.val->Some_0->Element_children;
                &&& (ch.len() == 0) == (e == q)
                &&& ch.len() <= 1
                &&& forall|i: int|
                    0 <= i < ch.len() ==> (#[trigger] ch[i] is RawText && ch[i]->RawText_0.tokens.len() > 0
                        && ch[i]->RawText_0.tokens == s.subrange(q, e))
            }
        }),
{
    let e = scan(s, q, Ending::CloseTag);
    lemma_scan(s, q, Ending::CloseTag);
    let raw = RawTextV { tokens: s.subrange(q, e), context_span: None, source: c.source };
    let children = if raw.tokens.len() > 0 {
        seq![NodeV::RawText(raw)]
    } else {
        seq![]
    };
    let close = if ending_ok(s, e, Ending::CloseTag) {
        Some(s_close_tag(s, e).val->Ok_0)
    } else {
        None
    };
    law_set_context_keeps(
        o.end_tag.token_gt,
        match close {
            Some(ct) => Some(ct.start_tag.token_lt),
            None => None,
        },
        children,
    );
    if raw.tokens.len() > 0 {
        assert(children[0] is RawText);
    }
}

/// The best text of a raw text is its source text with the whitespace
/// around it when known; else the source text of its tokens when known;
/// only when neither is known, the display of its tokens.
pub proof fn law_best_text_prefers_source(r: RawTextV)
    ensures
        raw_source_text(r, true) matches Some(t) ==> best_text(r) == t,
        (raw_source_text(r, true) is None && raw_source_text(r, false) is Some) ==> best_text(r)
            == raw_source_text(r, false)->Some_0,
        (raw_source_text(r, true) is None && raw_source_text(r, false) is None) ==> best_text(r)
            == display_toks(r.tokens),
{
}

/// Punctuated names are equal only when they agree on the character of
/// every punctuation that both have: `on:click` and `on-click` differ, so
/// such a close tag does not match its open tag.
pub proof fn law_punctuation_decides_name_equality(
    ia: Seq<IdentV>,
    pa: Seq<Punct>,
    ib: Seq<IdentV>,
    pb: Seq<Punct>,
    i: int,
)
    requires
        0 <= i < ia.len(),
        i < ib.len(),
        i < pa.len(),
        i < pb.len(),
        pa[i].ch != pb[i].ch,
    ensures
        !name_eq(NameV::Punctuated(ia, pa), NameV::Punctuated(ib, pb)),
        forall|o: OpenTagV, ct: CloseTagV, ch: Seq<NodeV>, pos: int, ds: Seq<Diag>|
            o.name == NameV::Punctuated(ia, pa) && ct.name == NameV::Punctuated(ib, pb) ==> #[trigger] element_end(
                o,
                ch,
                Some(ct),
                pos,
                ds,
            ).diags == ds.push(wrong_close_diag(o, ct)),
        forall|o: OpenTagV, ct: CloseTagV| #[trigger] wrong_close_diag(o, ct).message == "wrong close tag found"@,
{
    assert(!pair_eq(ia, pa, ib, pb, i));
    assert(!pair_eq(ib, pb, ia, pa, i));
}

/// A value that is a path reads as its segments joined by `::`; a path of
/// one identifier reads as that identifier.
pub proof fn law_path_value_text(expr: Seq<Tok>)
    requires
        expr_kind(display_toks(expr)) == ExprKind::Path,
        expr_path_segments(display_toks(expr)) is Some,
        expr_path_segments(display_toks(expr))->Some_0.len() >= 1,
    ensures
        ({
            let segs = expr_path_segments(display_toks(expr))->Some_0;
            &&& expr_text(expr) is Some
            &&& segs.len() == 1 ==> expr_text(expr) == Some(segs[0])
            &&& segs.len() >= 2 ==> expr_text(expr) == Some(
                joined(segs, segs.len() - 1) + "::"@ + segs[segs.len() - 1],
            )
        }),
{
}


/// A value that is one literal reads as text by its kind: a string as its
/// value, a character as itself, an integer or float as its decimal
/// digits; any other literal, and a value of more than one tree or of a
/// group, has no literal text.
pub proof fn law_literal_value_text(value: Seq<Tok>)
    ensures
        value.len() != 1 ==> literal_text(Some(value)) is None,
        literal_text(None) is None,
        value.len() == 1 && value[0] is Group ==> literal_text(Some(value)) is None,
        value.len() == 1 && value[0] is Punct ==> literal_text(Some(value)) is None,
        value.len() == 1 && value[0] is Literal ==> ({
            let repr = value[0]->Literal_repr;
            &&& lit_kind(repr) == LitKind::Str ==> literal_text(Some(value)) == lit_str_value(repr)
            &&& lit_kind(repr) == LitKind::Int ==> literal_text(Some(value)) == lit_int_digits(repr)
            &&& lit_kind(repr) == LitKind::Float ==> literal_text(Some(value)) == lit_float_digits(repr)
            &&& (lit_kind(repr) == LitKind::Char && lit_char_value(repr) is Some) ==> literal_text(Some(value))
                == Some(seq![lit_char_value(repr)->Some_0])
            &&& (lit_kind(repr) != LitKind::Str && lit_kind(repr) != LitKind::Int && lit_kind(repr)
                != LitKind::Float && lit_kind(repr) != LitKind::Char) ==> literal_text(Some(value)) is None
        }),
{
}


/// An expression reads as text only when it is a string literal (its
/// value) or a path (see `law_path_value_text`); any other literal or
/// expression has no text.
pub proof fn law_value_text_kinds(expr: Seq<Tok>)
    ensures
        ({
            let src = display_toks(expr);
            &&& (expr_kind(src) == ExprKind::Lit && lit_kind(src) == LitKind::Str) ==> expr_text(expr)
                == lit_str_value(src)
            &&& (expr_kind(src) == ExprKind::Lit && lit_kind(src) != LitKind::Str) ==> expr_text(expr) is None
            &&& (expr_kind(src) != ExprKind::Lit && expr_kind(src) != ExprKind::Path) ==> expr_text(expr) is None
            &&& (expr_kind(src) == ExprKind::Path && expr_path_segments(src) is None) ==> expr_text(expr) is None
        }),
{
}

} // verus!
