//! Text and equality of node names.
use vstd::prelude::*;
use crate::laws::{law_name_eq_reflexive, law_name_eq_symmetric};
use crate::grammar::{name_eq, name_span, name_text, pair_eq, path_text, punct_text};
use crate::parse::name_span_exec;
use crate::token::{copy_trees, lemma_group_stream, toks, Delimiter, Group, Punct, Spacing, Span, Tok, TokenTree};
use crate::node::{idents, IdentV, NameV, NodeName, PathSep};
use crate::syntax::block_bodies_equal;
use crate::text::push_char;
use crate::token::display_trees;
use vstd::std_specs::cmp::PartialEqSpecImpl;

verus! {

/// Value of an identifier token.
pub open spec fn ident_tok(i: IdentV) -> Tok {
    Tok::Ident { text: i.text, span: i.span }
}

/// Tokens of the first `n` segments of a path, each followed by its `::`
/// (a joint `:` and a `:`) if it has one.
pub open spec fn path_tokens(segs: Seq<IdentV>, seps: Seq<PathSep>, n: int) -> Seq<Tok>
    decreases n,
{
    if n <= 0 {
        seq![]
    } else {
        path_tokens(segs, seps, n - 1) + seq![ident_tok(segs[n - 1])] + if n - 1 < seps.len() {
            seq![
                Tok::Punct { ch: ':', spacing: Spacing::Joint, span: seps[n - 1].first },
                Tok::Punct { ch: ':', spacing: Spacing::Alone, span: seps[n - 1].second },
            ]
        } else {
            seq![]
        }
    }
}

/// Tokens of the first `n` identifiers of a punctuated name, each followed
/// by its punctuation if it has one.
pub open spec fn punct_tokens(ids: Seq<IdentV>, ps: Seq<Punct>, n: int) -> Seq<Tok>
    decreases n,
{
    if n <= 0 {
        seq![]
    } else {
        punct_tokens(ids, ps, n - 1) + seq![ident_tok(ids[n - 1])] + if n - 1 < ps.len() {
            seq![Tok::Punct { ch: ps[n - 1].ch, spacing: ps[n - 1].spacing, span: ps[n - 1].span }]
        } else {
            seq![]
        }
    }
}

/// Tokens of a name.
pub open spec fn name_tokens(n: NameV) -> Seq<Tok> {
    match n {
        NameV::Path(segs, seps) => path_tokens(segs, seps, segs.len() as int),
        NameV::Punctuated(ids, ps) => punct_tokens(ids, ps, ids.len() as int),
        NameV::Block(b) => seq![
            Tok::Group {
                delimiter: Delimiter::Brace,
                stream: b.stmts,
                open: b.brace.span_open,
                close: b.brace.span_close,
            },
        ],
    }
}

impl NodeName {
    /// Appends the tokens of the name to `tokens`.
    pub fn to_tokens(&self, tokens: &mut Vec<TokenTree>)
        ensures
            toks(final(tokens)@) == toks(old(tokens)@) + name_tokens(self.model()),
    {
        let ghost start = toks(tokens@);
        match self {
            NodeName::Path { segments, separators } => {
                let ghost segs = idents(segments@);
                let mut i: usize = 0;
                while i < segments.len()
                    invariant
                        i <= segments@.len(),
                        segs == idents(segments@),
                        toks(tokens@) == start + path_tokens(segs, separators@, i as int),
                    decreases segments@.len() - i,
                {
                    let ghost before = toks(tokens@);
                    tokens.push(TokenTree::Ident(segments[i].copy()));
                    assert(toks(tokens@) =~= before + seq![ident_tok(segs[i as int])]);
                    if i < separators.len() {
                        let sep = separators[i];
                        let ghost mid = toks(tokens@);
                        tokens.push(TokenTree::Punct(Punct { ch: ':', spacing: Spacing::Joint, span: sep.first }));
                        tokens.push(TokenTree::Punct(Punct { ch: ':', spacing: Spacing::Alone, span: sep.second }));
                        assert(toks(tokens@) =~= mid + seq![
                            Tok::Punct { ch: ':', spacing: Spacing::Joint, span: sep.first },
                            Tok::Punct { ch: ':', spacing: Spacing::Alone, span: sep.second },
                        ]);
                    }
                    assert(toks(tokens@) =~= start + path_tokens(segs, separators@, i + 1));
                    i = i + 1;
                }
            },
            NodeName::Punctuated { idents: ids, puncts } => {
                let ghost is = idents(ids@);
                let mut i: usize = 0;
                while i < ids.len()
                    invariant
                        i <= ids@.len(),
                        is == idents(ids@),
                        toks(tokens@) == start + punct_tokens(is, puncts@, i as int),
                    decreases ids@.len() - i,
                {
                    let ghost before = toks(tokens@);
                    tokens.push(TokenTree::Ident(ids[i].copy()));
                    assert(toks(tokens@) =~= before + seq![ident_tok(is[i as int])]);
                    if i < puncts.len() {
                        let ghost mid = toks(tokens@);
                        let pu = puncts[i];
                        tokens.push(TokenTree::Punct(pu));
                        assert(toks(tokens@) =~= mid + seq![Tok::Punct { ch: pu.ch, spacing: pu.spacing, span: pu.span }]);
                    }
                    assert(toks(tokens@) =~= start + punct_tokens(is, puncts@, i + 1));
                    i = i + 1;
                }
            },
            NodeName::Block(b) => {
                let stream = copy_trees(&b.stmts, 0, b.stmts.len());
                let g = TokenTree::Group(
                    Group { delimiter: Delimiter::Brace, stream, span_open: b.brace.span_open, span_close: b.brace.span_close },
                );
                proof {
                    lemma_group_stream(g);
                    assert(toks(b.stmts@).subrange(0, b.stmts@.len() as int) =~= toks(b.stmts@));
                }
                tokens.push(g);
                assert(toks(tokens@) =~= start + name_tokens(self.model()));
            },
        }
    }

    /// Span of the name, from its first to its last token.
    pub fn span(&self) -> (r: Span)
        ensures
            r == name_span(self.model()),
    {
        name_span_exec(self)
    }

    /// The name as text: path segments joined by `::`, punctuated
    /// identifiers with their punctuation, `{}` for a block.
    pub fn to_string(&self) -> (r: String)
        ensures
            r@ == name_text(self.model()),
    {
        let mut out = String::new();
        match self {
            NodeName::Path { segments, .. } => {
                let ghost segs = idents(segments@);
                let mut i: usize = 0;
                while i < segments.len()
                    invariant
                        i <= segments@.len(),
                        segs == idents(segments@),
                        out@ == path_text(segs, i as int),
                    decreases segments@.len() - i,
                {
                    if i > 0 {
                        out.append("::");
                    }
                    out.append(segments[i].text.as_str());
                    assert(segs[i as int].text == segments@[i as int].text@);
                    i = i + 1;
                }
            },
            NodeName::Punctuated { idents: ids, puncts } => {
                let ghost is = idents(ids@);
                let mut i: usize = 0;
                while i < ids.len()
                    invariant
                        i <= ids@.len(),
                        is == idents(ids@),
                        out@ == punct_text(is, puncts@, i as int),
                    decreases ids@.len() - i,
                {
                    let ghost before = out@;
                    out.append(ids[i].text.as_str());
                    if i < puncts.len() {
                        push_char(&mut out, puncts[i].ch);
                    }
                    assert(is[i as int].text == ids@[i as int].text@);
                    assert(out@ =~= punct_text(is, puncts@, i + 1));
                    i = i + 1;
                }
            },
            NodeName::Block(_) => {
                out.append("{}");
            },
        }
        out
    }

    /// Whether two names are equal (see `name_eq`).
    pub fn same_as(&self, other: &NodeName) -> (r: bool)
        ensures
            r == name_eq(self.model(), other.model()),
            r == name_eq(other.model(), self.model()),
            self.model() == other.model() ==> r,
    {
        proof {
            if !(self.model() is Block) {
                law_name_eq_symmetric(self.model(), other.model());
                law_name_eq_reflexive(self.model());
            }
        }
        match self {
            NodeName::Path { segments: sa, separators: pa } => match other {
                NodeName::Path { segments: sb, separators: pb } => {
                    if sa.len() != sb.len() || pa.len() != pb.len() {
                        return false;
                    }
                    let mut i: usize = 0;
                    while i < sa.len()
                        invariant
                            i <= sa@.len() == sb@.len(),
                            self.model() == NameV::Path(idents(sa@), pa@),
                            other.model() == NameV::Path(idents(sb@), pb@),
                            name_eq(self.model(), other.model()) == name_eq(other.model(), self.model()),
                            forall|j: int|
                                0 <= j < i ==> #[trigger] idents(sa@)[j].text == idents(sb@)[j].text,
                        decreases sa@.len() - i,
                    {
                        if sa[i].text != sb[i].text {
                            assert(idents(sa@)[i as int].text != idents(sb@)[i as int].text);
                            return false;
                        }
                        i = i + 1;
                    }
                    true
                },
                _ => false,
            },
            NodeName::Punctuated { idents: ia, puncts: pa } => match other {
                NodeName::Punctuated { idents: ib, puncts: pb } => {
                    let mut i: usize = 0;
                    while i < ia.len() && i < ib.len()
                        invariant
                            i <= ia@.len(),
                            i <= ib@.len(),
                            self.model() == NameV::Punctuated(idents(ia@), pa@),
                            other.model() == NameV::Punctuated(idents(ib@), pb@),
                            name_eq(self.model(), other.model()) == name_eq(other.model(), self.model()),
                            forall|j: int|
                                0 <= j < i ==> #[trigger] pair_eq(idents(ia@), pa@, idents(ib@), pb@, j),
                        decreases ia@.len() - i,
                    {
                        let same = ia[i].text == ib[i].text && (i < pa.len()) == (i < pb.len()) && (i
                            >= pa.len() || pa[i].ch == pb[i].ch);
                        if !same {
                            assert(!pair_eq(idents(ia@), pa@, idents(ib@), pb@, i as int));
                            assert(idents(ia@).len() == ia@.len());
                            assert(idents(ib@).len() == ib@.len());
                            return false;
                        }
                        i = i + 1;
                    }
                    true
                },
                _ => false,
            },
            NodeName::Block(a) => match other {
                NodeName::Block(b) => {
                    let mut x = String::new();
                    display_trees(&a.stmts, &mut x);
                    let mut y = String::new();
                    display_trees(&b.stmts, &mut y);
                    block_bodies_equal(x.as_str(), y.as_str())
                },
                _ => false,
            },
        }
    }
}

impl PartialEq for NodeName {
    fn eq(&self, other: &NodeName) -> (r: bool) {
        self.same_as(other)
    }
}

impl PartialEqSpecImpl for NodeName {
    open spec fn obeys_eq_spec() -> bool {
        true
    }

    open spec fn eq_spec(&self, other: &NodeName) -> bool {
        name_eq(self.model(), other.model())
    }
}

} // verus!
