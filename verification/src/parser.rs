//! The RSX parser: the top level nodes of a token stream.
use vstd::prelude::*;
use crate::config::ParserConfig;
use crate::diagnostic::{diags, Diag, Diagnostic};
use crate::grammar::{error, error_at, path_run, punct_run, r_node, Cfg};
use crate::model::opt_mv;
use crate::node::tree::{flat_all, node_type, type_label};
use crate::node::{idents, nodes, Node, NodeType, NodeV, PathSep};
use crate::parse::{error_diag, error_diag_at, path_run_exec, punct_run_exec, tok_span};
use crate::parse_nodes::copy_source;
use crate::parse_tree::parse_node;
use crate::recoverable::{
    agrees_with, lemma_agrees_kept, lemma_kept_same, lemma_kept_trans, no_info_error, opt_string, Answer, BlockTransform, ParsingResult, RecoverableContext, RecoveryConfig,
};
use crate::text::{decimal, push_decimal};
use crate::token::{toks, Ident, Punct, Tok, TokenStream, TokenTree};

verus! {

/// Report on a top level node of another type than required.
pub open spec fn wrong_type_message(t: NodeType) -> Seq<char> {
    "top level nodes need to be of type "@ + type_label(t)
}

/// Report on a number of top level nodes other than required.
pub open spec fn count_message(n: nat, m: nat) -> Seq<char> {
    "saw "@ + decimal(n) + " top level nodes but exactly "@ + decimal(m) + " are required"@
}

/// Top level nodes from `q` on: until the end of the input, a node that
/// does not parse (reported), a node of another type than `ty` requires
/// (reported, and left out), or a node that consumed nothing. Gives the
/// nodes, where parsing stopped and the diagnostics.
pub open spec fn top_run(s: Seq<Tok>, q: int, c: Cfg, ty: Option<NodeType>) -> (Seq<NodeV>, int, Seq<Diag>)
    decreases s.len() - q,
{
    if q < 0 || q >= s.len() {
        (seq![], q, seq![])
    } else {
        let n = r_node(s, q, c);
        match n.val {
            None => (seq![], n.pos, n.diags.push(error_at(s, n.pos, "BUG: Node parse failed"@))),
            Some(v) => if ty is Some && node_type(v) != ty->Some_0 {
                (seq![], n.pos, n.diags.push(error_at(s, n.pos, wrong_type_message(ty->Some_0))))
            } else if n.pos <= q || n.pos > s.len() {
                (seq![v], n.pos, n.diags)
            } else {
                let r = top_run(s, n.pos, c, ty);
                (seq![v] + r.0, r.1, n.diags + r.2)
            },
        }
    }
}

/// The result of parsing the tokens `s` from `q` on: the nodes (none when
/// there are none; flattened when configured), the diagnostics (with a
/// report when the number of top level nodes is not the required one), and
/// where parsing stopped.
pub open spec fn top_level(
    s: Seq<Tok>,
    q: int,
    c: Cfg,
    ty: Option<NodeType>,
    number: Option<usize>,
    flat_tree: bool,
) -> (Option<Seq<NodeV>>, Seq<Diag>, int) {
    let r = top_run(s, q, c, ty);
    let errors = match number {
        Some(m) => if r.0.len() != m {
            r.2.push(error_at(s, r.1, count_message(r.0.len(), m as nat)))
        } else {
            r.2
        },
        None => r.2,
    };
    let ns = if flat_tree {
        flat_all(r.0)
    } else {
        r.0
    };
    (if ns.len() == 0 {
        None
    } else {
        Some(ns)
    }, errors, r.1)
}

impl<T> ParserConfig<T> {
    /// The result of parsing the tokens `s` from `q` on with this
    /// configuration, for tokens with the given source text, when the
    /// transformation (if one is configured) answers `f(k)` for the block
    /// at position `k`.
    pub open spec fn top_with(
        &self,
        s: Seq<Tok>,
        q: int,
        source: Option<String>,
        f: spec_fn(int) -> Result<Option<(nat, Seq<Tok>)>, Diag>,
    ) -> (Option<Seq<NodeV>>, Seq<Diag>, int) {
        top_level(
            s,
            q,
            self.cfg_with(source, f),
            self.type_of_top_level_nodes,
            self.number_of_top_level_nodes,
            self.flat_tree,
        )
    }
}

/// The result `sp` of a parse of the tokens `s` that must read all of
/// them: when it stopped with tokens left, the report on the first of
/// them is added.
pub open spec fn read_all(s: Seq<Tok>, sp: (Option<Seq<NodeV>>, Seq<Diag>, int)) -> (
    Option<Seq<NodeV>>,
    Seq<Diag>,
    int,
) {
    if 0 <= sp.2 < s.len() {
        (sp.0, sp.1.push(error(Some(s[sp.2].span()), "unexpected token"@)), sp.2)
    } else {
        sp
    }
}

/// The result of parsing all of the token stream `v`, when the
/// transformation (if one is configured) answers `f(k)` for the block at
/// position `k`.
pub open spec fn whole_spec<T>(
    v: TokenStream,
    config: ParserConfig<T>,
    f: spec_fn(int) -> Result<Option<(nat, Seq<Tok>)>, Diag>,
) -> (Option<Seq<NodeV>>, Seq<Diag>, int) {
    read_all(toks(v.trees@), config.top_with(toks(v.trees@), 0, v.source, f))
}

/// The result of parsing the whole token stream `v` with the default
/// configuration.
pub open spec fn default_parse_spec(v: TokenStream) -> (Option<Seq<NodeV>>, Seq<Diag>, int) {
    top_level(
        toks(v.trees@),
        0,
        Cfg { recover_block: false, self_closed: seq![], raw_text: seq![], source: opt_string(v.source), blocks: None },
        None,
        None,
        false,
    )
}

/// `r` is what a simple parse gives for the result `sp`: the nodes when
/// there are nodes and no diagnostic, else the first diagnostic (a general
/// error when there is none).
pub open spec fn simple_result(r: Result<Vec<Node>, Diagnostic>, sp: (Option<Seq<NodeV>>, Seq<Diag>, int)) -> bool {
    match r {
        Ok(ns) => sp.0 == Some(nodes(ns@)) && sp.1.len() == 0,
        Err(e) => !(sp.0 is Some && sp.1.len() == 0) && (if sp.1.len() > 0 {
            e.model() == sp.1[0]
        } else {
            e.model() == no_info_error()
        }),
    }
}

/// Copies of the names.
fn copy_names(v: &Vec<String>) -> (r: Vec<String>)
    ensures
        r@ == v@,
{
    let mut r: Vec<String> = Vec::new();
    let mut i: usize = 0;
    while i < v.len()
        invariant
            i <= v@.len(),
            r@ == v@.subrange(0, i as int),
        decreases v@.len() - i,
    {
        r.push(v[i].clone());
        assert(r@ =~= v@.subrange(0, i + 1));
        i = i + 1;
    }
    assert(v@.subrange(0, v@.len() as int) =~= v@);
    r
}

/// Each node flattened, one after the other.
fn flatten_all(v: Vec<Node>) -> (r: Vec<Node>)
    ensures
        nodes(r@) == flat_all(nodes(v@)),
{
    let ghost vs = nodes(v@);
    let n = v.len();
    let mut rest = v;
    let mut out: Vec<Node> = Vec::new();
    let mut k: usize = 0;
    assert(nodes(out@) =~= flat_all(vs.subrange(0, 0)));
    while k < n
        invariant
            k <= n == vs.len(),
            nodes(rest@) == vs.subrange(k as int, n as int),
            rest@.len() == n - k,
            nodes(out@) == flat_all(vs.subrange(0, k as int)),
        decreases n - k,
    {
        let ghost rest0 = rest@;
        let c = rest.remove(0);
        proof {
            assert(c.model() == nodes(rest0)[0]);
            assert(nodes(rest@) =~= nodes(rest0).subrange(1, nodes(rest0).len() as int));
        }
        let mut sub = c.flatten();
        let ghost out0 = out@;
        let ghost sub0 = sub@;
        out.append(&mut sub);
        proof {
            let pre = vs.subrange(0, k + 1);
            assert(pre.subrange(0, pre.len() - 1) =~= vs.subrange(0, k as int));
            assert(nodes(out@) =~= nodes(out0) + nodes(sub0));
        }
        k = k + 1;
    }
    assert(vs.subrange(0, n as int) =~= vs);
    out
}

/// RSX parser.
#[derive(Debug)]
pub struct Parser<T> {
    pub config: ParserConfig<T>,
}

impl<T: BlockTransform> Parser<T> {
    /// Parses identifiers (keywords included) separated by `::`, such as
    /// `foo::bar`; fails without consuming unless there are at least two.
    pub fn node_name_punctuated_ident(t: &Vec<TokenTree>, pos: &mut usize) -> (r: Result<
        (Vec<Ident>, Vec<PathSep>),
        Diagnostic,
    >)
        requires
            *old(pos) <= t@.len(),
        ensures
            ({
                let run = path_run(toks(t@), *old(pos) as int);
                if run.0.len() > 1 {
                    &&& r is Ok
                    &&& idents(r->Ok_0.0@) == run.0
                    &&& r->Ok_0.1@ == run.1
                    &&& *final(pos) == run.2
                } else {
                    &&& r is Err
                    &&& r->Err_0.model() == error_at(toks(t@), run.2, "expected punctuated node name"@)
                    &&& *final(pos) == *old(pos)
                }
            }),
    {
        let (segments, separators, q) = path_run_exec(t, *pos);
        if segments.len() > 1 {
            *pos = q;
            Ok((segments, separators))
        } else {
            Err(error_diag_at(t, q, "expected punctuated node name"))
        }
    }

    /// Parses identifiers (keywords included) separated by `:` or `-`, such
    /// as `on:click` or `data-foo`; fails without consuming unless there
    /// are at least two.
    pub fn node_name_punctuated_ident_with_alternate(t: &Vec<TokenTree>, pos: &mut usize) -> (r: Result<
        (Vec<Ident>, Vec<Punct>),
        Diagnostic,
    >)
        requires
            *old(pos) <= t@.len(),
        ensures
            ({
                let run = punct_run(toks(t@), *old(pos) as int);
                if run.0.len() > 1 {
                    &&& r is Ok
                    &&& idents(r->Ok_0.0@) == run.0
                    &&& r->Ok_0.1@ == run.1
                    &&& *final(pos) == run.2
                } else {
                    &&& r is Err
                    &&& r->Err_0.model() == error_at(toks(t@), run.2, "expected punctuated node name"@)
                    &&& *final(pos) == *old(pos)
                }
            }),
    {
        let (ids, puncts, q) = punct_run_exec(t, *pos);
        if ids.len() > 1 {
            *pos = q;
            Ok((ids, puncts))
        } else {
            Err(error_diag_at(t, q, "expected punctuated node name"))
        }
    }

    /// A parser with the given configuration.
    pub fn new(config: ParserConfig<T>) -> (r: Parser<T>)
        ensures
            r.config == config,
    {
        Parser { config }
    }

    /// Parses the top level nodes of `input` from the position on (see
    /// `top_level`): the position ends where parsing stopped. Diagnostics
    /// are collected, not raised: the result is complete, partial or
    /// failed.
    pub fn parse_syn_stream(&self, input: &TokenStream, pos: &mut usize) -> (r: ParsingResult<Vec<Node>>)
        requires
            *old(pos) <= input.trees@.len(),
        ensures
            *old(pos) <= *final(pos) <= input.trees@.len(),
            r.shaped(),
            exists|m: Seq<(usize, Answer)>|
                #[trigger] self.config.answered_by(toks(input.trees@), m) && forall|f: spec_fn(int) -> Result<Option<(nat, Seq<Tok>)>, Diag>|
                    #[trigger] agrees_with(f, m) ==> ({
                        let sp = self.config.top_with(toks(input.trees@), *old(pos) as int, input.source, f);
                        &&& opt_mv(r.parts().0) == sp.0
                        &&& diags(r.parts().1) == sp.1
                        &&& *final(pos) == sp.2
                    }),
    {
        let t = &input.trees;
        let transform = match &self.config.transform_block {
            Some(f) => Some(f),
            None => None,
        };
        let mut ctx = RecoverableContext {
            diagnostics: Vec::new(),
            config: RecoveryConfig {
                recover_block: self.config.recover_block,
                always_self_closed_elements: copy_names(&self.config.always_self_closed_elements),
                raw_text_elements: copy_names(&self.config.raw_text_elements),
                transform_block: transform,
            },
            source: copy_source(&input.source),
            answered: Vec::new(),
            base: 0,
        };
        let ghost s = toks(t@);
        let ghost c0 = ctx;
        let ghost ty = self.config.type_of_top_level_nodes;
        let ghost p0 = *pos as int;
        let len = t.len();
        assert(diags(ctx.diagnostics@) =~= seq![]);
        assert forall|f: spec_fn(int) -> Result<Option<(nat, Seq<Tok>)>, Diag>| #[trigger] c0.cfg_with(f)
            == self.config.cfg_with(input.source, f) by {
            if !self.config.exact() {
                assert(c0.cfg_with(f).blocks->Some_0 =~= self.config.cfg_with(input.source, f).blocks->Some_0);
            }
        }
        proof {
            lemma_kept_same(c0, ctx, s);
        }
        let mut acc: Vec<Node> = Vec::new();
        loop
            invariant_except_break
                forall|f: spec_fn(int) -> Result<Option<(nat, Seq<Tok>)>, Diag>|
                    #[trigger] ctx.agrees(f) ==> ({
                        let whole = top_run(s, p0, c0.cfg_with(f), ty);
                        let rest = top_run(s, *pos as int, c0.cfg_with(f), ty);
                        &&& nodes(acc@) + rest.0 == whole.0
                        &&& rest.1 == whole.1
                        &&& diags(ctx.diagnostics@) + rest.2 == whole.2
                    }),
            invariant
                p0 <= *pos <= t@.len(),
                len == t@.len(),
                s == toks(t@),
                ctx.kept(&c0, s),
                c0.base == 0,
                ty == self.config.type_of_top_level_nodes,
            ensures
                p0 <= *pos <= t@.len(),
                forall|f: spec_fn(int) -> Result<Option<(nat, Seq<Tok>)>, Diag>|
                    #[trigger] ctx.agrees(f) ==> ({
                        let whole = top_run(s, p0, c0.cfg_with(f), ty);
                        &&& nodes(acc@) == whole.0
                        &&& *pos == whole.1
                        &&& diags(ctx.diagnostics@) == whole.2
                    }),
            decreases t@.len() - *pos,
        {
            if *pos >= t.len() {
                proof {
                    assert forall|f: spec_fn(int) -> Result<Option<(nat, Seq<Tok>)>, Diag>|
                        #[trigger] ctx.agrees(f) implies ({
                            let whole = top_run(s, p0, c0.cfg_with(f), ty);
                            &&& nodes(acc@) == whole.0
                            &&& *pos == whole.1
                            &&& diags(ctx.diagnostics@) == whole.2
                        }) by {
                        let whole = top_run(s, p0, c0.cfg_with(f), ty);
                        assert(nodes(acc@) =~= whole.0);
                        assert(diags(ctx.diagnostics@) =~= whole.2);
                    }
                }
                break;
            }
            let q = *pos;
            let ghost d0 = diags(ctx.diagnostics@);
            let ghost acc0 = nodes(acc@);
            let ghost c1 = ctx;
            let n = parse_node(&mut ctx, t, pos);
            let ghost c2 = ctx;
            proof {
                lemma_kept_trans(c0, c1, c2, s);
            }
            let mut stop = false;
            match n {
                None => {
                    ctx.push_diagnostic(error_diag_at(t, *pos, "BUG: Node parse failed"));
                    stop = true;
                },
                Some(node) => {
                    let wrong = match &self.config.type_of_top_level_nodes {
                        Some(want) => node.node_type() != *want,
                        None => false,
                    };
                    if wrong {
                        let want = match &self.config.type_of_top_level_nodes {
                            Some(w) => *w,
                            None => NodeType::Element,
                        };
                        let mut msg = String::from_str("top level nodes need to be of type ");
                        let label = want.to_string();
                        msg.append(label.as_str());
                        ctx.push_diagnostic(error_diag_at(t, *pos, msg.as_str()));
                        stop = true;
                    } else {
                        let ghost nv = node.model();
                        acc.push(node);
                        proof {
                            assert(nodes(acc@) =~= acc0.push(nv));
                        }
                        if *pos == q {
                            stop = true;
                        }
                    }
                },
            }
            proof {
                lemma_kept_same(c2, ctx, s);
                lemma_kept_trans(c0, c2, ctx, s);
            }
            if stop {
                proof {
                    assert forall|f: spec_fn(int) -> Result<Option<(nat, Seq<Tok>)>, Diag>|
                        #[trigger] ctx.agrees(f) implies ({
                            let whole = top_run(s, p0, c0.cfg_with(f), ty);
                            &&& nodes(acc@) == whole.0
                            &&& *pos == whole.1
                            &&& diags(ctx.diagnostics@) == whole.2
                        }) by {
                        assert(c2.agrees(f));
                        lemma_agrees_kept(c1, c2, s, f);
                        let whole = top_run(s, p0, c0.cfg_with(f), ty);
                        assert(nodes(acc@) =~= whole.0);
                        assert(diags(ctx.diagnostics@) =~= whole.2);
                    }
                }
                break;
            }
            proof {
                assert forall|f: spec_fn(int) -> Result<Option<(nat, Seq<Tok>)>, Diag>|
                    #[trigger] ctx.agrees(f) implies ({
                        let whole = top_run(s, p0, c0.cfg_with(f), ty);
                        let rest = top_run(s, *pos as int, c0.cfg_with(f), ty);
                        &&& nodes(acc@) + rest.0 == whole.0
                        &&& rest.1 == whole.1
                        &&& diags(ctx.diagnostics@) + rest.2 == whole.2
                    }) by {
                    lemma_agrees_kept(c1, c2, s, f);
                    let whole = top_run(s, p0, c0.cfg_with(f), ty);
                    let rest = top_run(s, *pos as int, c0.cfg_with(f), ty);
                    assert(nodes(acc@) + rest.0 =~= whole.0);
                    assert(diags(ctx.diagnostics@) + rest.2 =~= whole.2);
                }
            }
        }
        let ghost d1 = diags(ctx.diagnostics@);
        let ghost c3 = ctx;
        let ghost count = acc@.len();
        match self.config.number_of_top_level_nodes {
            Some(m) => {
                if acc.len() != m {
                    let mut msg = String::from_str("saw ");
                    push_decimal(&mut msg, acc.len());
                    msg.append(" top level nodes but exactly ");
                    push_decimal(&mut msg, m);
                    msg.append(" are required");
                    ctx.push_diagnostic(error_diag_at(t, *pos, msg.as_str()));
                    proof {
                        assert(msg@ =~= count_message(acc@.len() as nat, m as nat));
                    }
                }
            },
            None => {},
        }
        let ghost acc_v = nodes(acc@);
        let ns = if self.config.flat_tree {
            flatten_all(acc)
        } else {
            acc
        };
        let ghost dv = ctx.diagnostics@;
        let ghost c4 = ctx;
        let errors = ctx.diagnostics;
        let value = if ns.len() == 0 {
            None
        } else {
            Some(ns)
        };
        let r = ParsingResult::from_parts(value, errors);
        proof {
            lemma_kept_same(c3, c4, s);
            lemma_kept_trans(c0, c3, c4, s);
            let m = c4.answered@;
            assert forall|i: int| 0 <= i < m.len() implies {
                let k = (#[trigger] m[i]).0 as int;
                &&& k < s.len()
                &&& s[k] is Group
                &&& self.config.transform_block is Some
                &&& self.config.transform_block->Some_0.answers(s[k]->Group_stream, m[i].1)
            } by {
                assert(c4.answer_ok(s, i));
            }
            assert(self.config.answered_by(s, m));
            assert forall|f: spec_fn(int) -> Result<Option<(nat, Seq<Tok>)>, Diag>|
                #[trigger] agrees_with(f, m) implies ({
                    let sp = self.config.top_with(s, p0, input.source, f);
                    &&& opt_mv(r.parts().0) == sp.0
                    &&& diags(r.parts().1) == sp.1
                    &&& *pos == sp.2
                }) by {
                assert(c4.agrees(f));
                assert(c3.agrees(f));
                assert(c0.cfg_with(f) == self.config.cfg_with(input.source, f));
            }
        }
        r
    }

    /// Parses all of the token stream `v` (see `whole_spec`): when parsing
    /// stops with tokens left, after a node that fails or is of the wrong
    /// type, the first of them is reported as unexpected.
    pub fn parse_recoverable(&self, v: TokenStream) -> (r: ParsingResult<Vec<Node>>)
        ensures
            r.shaped(),
            exists|m: Seq<(usize, Answer)>|
                #[trigger] self.config.answered_by(toks(v.trees@), m) && forall|f: spec_fn(int) -> Result<Option<(nat, Seq<Tok>)>, Diag>|
                    #[trigger] agrees_with(f, m) ==> ({
                        let sp = whole_spec(v, self.config, f);
                        &&& opt_mv(r.parts().0) == sp.0
                        &&& diags(r.parts().1) == sp.1
                    }),
    {
        let mut pos: usize = 0;
        let res = self.parse_syn_stream(&v, &mut pos);
        let ghost s = toks(v.trees@);
        let ghost m = choose|m: Seq<(usize, Answer)>|
            #[trigger] self.config.answered_by(s, m) && forall|f: spec_fn(int) -> Result<Option<(nat, Seq<Tok>)>, Diag>|
                #[trigger] agrees_with(f, m) ==> ({
                    let sp = self.config.top_with(s, 0, v.source, f);
                    &&& opt_mv(res.parts().0) == sp.0
                    &&& diags(res.parts().1) == sp.1
                    &&& pos == sp.2
                });
        if pos < v.trees.len() {
            let ghost d0 = res.parts().1;
            let (value, mut errors) = res.split();
            let e = error_diag(Some(tok_span(&v.trees[pos])), "unexpected token");
            errors.push(e);
            let r = ParsingResult::from_parts(value, errors);
            proof {
                assert(self.config.answered_by(s, m));
                assert forall|f: spec_fn(int) -> Result<Option<(nat, Seq<Tok>)>, Diag>|
                    #[trigger] agrees_with(f, m) implies ({
                        let sp = whole_spec(v, self.config, f);
                        &&& opt_mv(r.parts().0) == sp.0
                        &&& diags(r.parts().1) == sp.1
                    }) by {
                    assert(diags(r.parts().1) =~= diags(d0).push(e.model()));
                }
            }
            r
        } else {
            proof {
                assert(self.config.answered_by(s, m));
            }
            res
        }
    }

    /// Parses all of the token stream `v`: the nodes when parsing reported
    /// nothing, else the first diagnostic (see `parse_recoverable`).
    pub fn parse_simple(&self, v: TokenStream) -> (r: Result<Vec<Node>, Diagnostic>)
        ensures
            exists|m: Seq<(usize, Answer)>|
                #[trigger] self.config.answered_by(toks(v.trees@), m) && forall|f: spec_fn(int) -> Result<Option<(nat, Seq<Tok>)>, Diag>|
                    #[trigger] agrees_with(f, m) ==> simple_result(r, whole_spec(v, self.config, f)),
    {
        let res = self.parse_recoverable(v);
        let ghost s = toks(v.trees@);
        let ghost m = choose|m: Seq<(usize, Answer)>|
            #[trigger] self.config.answered_by(s, m) && forall|f: spec_fn(int) -> Result<Option<(nat, Seq<Tok>)>, Diag>|
                #[trigger] agrees_with(f, m) ==> ({
                    let sp = whole_spec(v, self.config, f);
                    &&& opt_mv(res.parts().0) == sp.0
                    &&& diags(res.parts().1) == sp.1
                });
        let ghost parts = res.parts();
        proof {
            if parts.1.len() > 0 {
                assert(diags(parts.1)[0] == parts.1[0].model());
            }
        }
        let r = res.into_result();
        proof {
            assert(self.config.answered_by(s, m));
        }
        r
    }
}

} // verus!
