//! Token trees: the input the RSX parser reads.
use vstd::prelude::*;
use crate::text::push_char;

verus! {

/// Location of a token: character offsets `lo..hi` into the source text.
#[derive(Clone, Copy, Debug, PartialEq, Eq, Structural)]
pub struct Span {
    pub lo: usize,
    pub hi: usize,
}

impl Span {
    /// The smallest span covering both spans.
    pub open spec fn spec_join(self, other: Span) -> Span {
        Span {
            lo: if self.lo <= other.lo { self.lo } else { other.lo },
            hi: if self.hi >= other.hi { self.hi } else { other.hi },
        }
    }

    pub fn join(self, other: Span) -> (r: Span)
        ensures
            r == self.spec_join(other),
    {
        Span {
            lo: if self.lo <= other.lo { self.lo } else { other.lo },
            hi: if self.hi >= other.hi { self.hi } else { other.hi },
        }
    }
}

#[derive(Clone, Copy, Debug, PartialEq, Eq, Structural)]
pub enum Delimiter {
    Parenthesis,
    Brace,
    Bracket,
    Invisible,
}

#[derive(Clone, Copy, Debug, PartialEq, Eq, Structural)]
pub enum Spacing {
    Alone,
    Joint,
}

#[derive(Debug)]
pub struct Ident {
    pub text: String,
    pub span: Span,
}

#[derive(Clone, Copy, Debug)]
pub struct Punct {
    pub ch: char,
    pub spacing: Spacing,
    pub span: Span,
}

#[derive(Debug)]
pub struct Literal {
    pub repr: String,
    pub span: Span,
}

#[derive(Debug)]
pub struct Group {
    pub delimiter: Delimiter,
    pub stream: Vec<TokenTree>,
    pub span_open: Span,
    pub span_close: Span,
}

#[derive(Debug)]
pub enum TokenTree {
    Group(Group),
    Ident(Ident),
    Punct(Punct),
    Literal(Literal),
}

/// A sequence of token trees, with the source text their spans point
/// into when it is known.
#[derive(Debug)]
pub struct TokenStream {
    pub trees: Vec<TokenTree>,
    pub source: Option<String>,
}

/// Mathematical value of a token tree.
pub enum Tok {
    Group { delimiter: Delimiter, stream: Seq<Tok>, open: Span, close: Span },
    Ident { text: Seq<char>, span: Span },
    Punct { ch: char, spacing: Spacing, span: Span },
    Literal { repr: Seq<char>, span: Span },
}

impl TokenTree {
    pub open spec fn model(&self) -> Tok
        decreases self,
    {
        match self {
            TokenTree::Group(g) => Tok::Group {
                delimiter: g.delimiter,
                stream: Seq::new(
                    g.stream@.len(),
                    |i: int|
                        if 0 <= i < g.stream@.len() {
                            g.stream@[i].model()
                        } else {
                            Tok::Punct { ch: ' ', spacing: Spacing::Alone, span: Span { lo: 0, hi: 0 } }
                        },
                ),
                open: g.span_open,
                close: g.span_close,
            },
            TokenTree::Ident(i) => Tok::Ident { text: i.text@, span: i.span },
            TokenTree::Punct(p) => Tok::Punct { ch: p.ch, spacing: p.spacing, span: p.span },
            TokenTree::Literal(l) => Tok::Literal { repr: l.repr@, span: l.span },
        }
    }
}


/// Values of a sequence of token trees.
pub open spec fn toks(s: Seq<TokenTree>) -> Seq<Tok> {
    Seq::new(s.len(), |i: int| s[i].model())
}

impl Tok {
    /// Span of a token tree; a group covers its delimiters.
    pub open spec fn span(self) -> Span {
        match self {
            Tok::Group { open, close, .. } => open.spec_join(close),
            Tok::Ident { span, .. } => span,
            Tok::Punct { span, .. } => span,
            Tok::Literal { span, .. } => span,
        }
    }

    pub open spec fn is_punct(self, c: char) -> bool {
        self matches Tok::Punct { ch, .. } && ch == c
    }

    pub open spec fn is_joint(self) -> bool {
        self matches Tok::Punct { spacing, .. } && spacing == Spacing::Joint
    }

    pub open spec fn is_group(self, d: Delimiter) -> bool {
        self matches Tok::Group { delimiter, .. } && delimiter == d
    }
}

/// Text of a token tree, as `proc_macro2` displays it: a group shows its
/// delimiters (`{ ` and ` }` around the content of a non-empty brace group,
/// `{ }` for an empty one), an identifier its name, a punctuation its
/// character, a literal its representation.
pub open spec fn display_tok(t: Tok) -> Seq<char>
    decreases t,
{
    match t {
        Tok::Group { delimiter, stream, .. } => {
            let inner = display_toks(stream);
            match delimiter {
                Delimiter::Parenthesis => seq!['('] + inner + seq![')'],
                Delimiter::Bracket => seq!['['] + inner + seq![']'],
                Delimiter::Brace => if stream.len() == 0 {
                    seq!['{', ' ', '}']
                } else {
                    seq!['{', ' '] + inner + seq![' ', '}']
                },
                Delimiter::Invisible => inner,
            }
        },
        Tok::Ident { text, .. } => text,
        Tok::Punct { ch, .. } => seq![ch],
        Tok::Literal { repr, .. } => repr,
    }
}

/// Text of a sequence of token trees, as `proc_macro2` displays a token
/// stream: one space between two trees, none after a joint punctuation.
pub open spec fn display_toks(s: Seq<Tok>) -> Seq<char>
    decreases s,
{
    if s.len() == 0 {
        seq![]
    } else {
        let prefix = s.drop_last();
        let sep: Seq<char> = if prefix.len() > 0 && !prefix.last().is_joint() {
            seq![' ']
        } else {
            seq![]
        };
        display_toks(prefix) + sep + display_tok(s.last())
    }
}

impl Ident {
    pub fn copy(&self) -> (r: Ident)
        ensures
            r.text@ == self.text@,
            r.span == self.span,
    {
        Ident { text: self.text.clone(), span: self.span }
    }
}

impl Literal {
    pub fn copy(&self) -> (r: Literal)
        ensures
            r.repr@ == self.repr@,
            r.span == self.span,
    {
        Literal { repr: self.repr.clone(), span: self.span }
    }
}

impl TokenTree {
    /// A copy with the same value.
    pub fn copy(&self) -> (r: TokenTree)
        ensures
            r.model() == self.model(),
        decreases self,
    {
        match self {
            TokenTree::Group(g) => {
                let stream = copy_trees(&g.stream, 0, g.stream.len());
                proof {
                    assert(toks(stream@).len() == stream@.len());
                    assert(stream@.len() == g.stream@.len());
                    assert forall|i: int| 0 <= i < stream@.len() implies stream@[i].model()
                        == g.stream@[i].model() by {
                        assert(toks(stream@)[i] == toks(g.stream@)[i]);
                    }
                }
                let r = TokenTree::Group(
                    Group {
                        delimiter: g.delimiter,
                        stream,
                        span_open: g.span_open,
                        span_close: g.span_close,
                    },
                );
                proof {
                    assert(r.model()->stream =~= self.model()->stream);
                }
                r
            },
            TokenTree::Ident(i) => TokenTree::Ident(i.copy()),
            TokenTree::Punct(p) => TokenTree::Punct(*p),
            TokenTree::Literal(l) => TokenTree::Literal(l.copy()),
        }
    }
}

/// The value of a group lists the values of its trees.
pub proof fn lemma_group_stream(t: TokenTree)
    requires
        t is Group,
    ensures
        t.model()->Group_stream == toks(t->Group_0.stream@),
        t.model()->Group_delimiter == t->Group_0.delimiter,
        t.model()->Group_open == t->Group_0.span_open,
        t.model()->Group_close == t->Group_0.span_close,
{
    assert(t.model()->Group_stream =~= toks(t->Group_0.stream@));
}

/// Copies of the trees `v[lo..hi]`.
pub fn copy_trees(v: &Vec<TokenTree>, lo: usize, hi: usize) -> (r: Vec<TokenTree>)
    requires
        lo <= hi <= v@.len(),
    ensures
        toks(r@) == toks(v@).subrange(lo as int, hi as int),
    decreases v, 0nat,
{
    let mut r: Vec<TokenTree> = Vec::new();
    let mut i = lo;
    while i < hi
        invariant
            lo <= i <= hi <= v@.len(),
            toks(r@) == toks(v@).subrange(lo as int, i as int),
        decreases hi - i,
    {
        proof {
            assert(decreases_to!(v => v@[i as int]));
        }
        let t = v[i].copy();
        let ghost old_r = r@;
        r.push(t);
        proof {
            assert(toks(r@) =~= toks(old_r).push(t.model()));
            assert(toks(v@).subrange(lo as int, i + 1) =~= toks(v@).subrange(lo as int, i as int).push(
                toks(v@)[i as int],
            ));
        }
        i = i + 1;
    }
    r
}

/// Appends the text of `t` to `out` (see `display_tok`).
pub fn display_tree(t: &TokenTree, out: &mut String)
    ensures
        final(out)@ == old(out)@ + display_tok(t.model()),
    decreases t,
{
    match t {
        TokenTree::Group(g) => {
            proof {
                assert(t.model()->stream =~= toks(g.stream@));
                assert(t.model() == Tok::Group {
                    delimiter: g.delimiter,
                    stream: toks(g.stream@),
                    open: g.span_open,
                    close: g.span_close,
                });
            }
            match g.delimiter {
                Delimiter::Parenthesis => {
                    push_char(out, '(');
                    display_trees(&g.stream, out);
                    push_char(out, ')');
                },
                Delimiter::Bracket => {
                    push_char(out, '[');
                    display_trees(&g.stream, out);
                    push_char(out, ']');
                },
                Delimiter::Brace => {
                    push_char(out, '{');
                    push_char(out, ' ');
                    if g.stream.len() > 0 {
                        display_trees(&g.stream, out);
                        push_char(out, ' ');
                    }
                    push_char(out, '}');
                },
                Delimiter::Invisible => {
                    display_trees(&g.stream, out);
                },
            }
            proof {
                let inner = display_toks(toks(g.stream@));
                assert(final(out)@ =~= old(out)@ + display_tok(t.model())) by {
                    assert(display_tok(t.model()) == match g.delimiter {
                        Delimiter::Parenthesis => seq!['('] + inner + seq![')'],
                        Delimiter::Bracket => seq!['['] + inner + seq![']'],
                        Delimiter::Brace => if g.stream@.len() == 0 {
                            seq!['{', ' ', '}']
                        } else {
                            seq!['{', ' '] + inner + seq![' ', '}']
                        },
                        Delimiter::Invisible => inner,
                    });
                }
            }
        },
        TokenTree::Ident(i) => {
            out.append(i.text.as_str());
        },
        TokenTree::Punct(p) => {
            push_char(out, p.ch);
        },
        TokenTree::Literal(l) => {
            out.append(l.repr.as_str());
        },
    }
}

/// Appends the text of the trees of `v` to `out` (see `display_toks`).
pub fn display_trees(v: &Vec<TokenTree>, out: &mut String)
    ensures
        final(out)@ == old(out)@ + display_toks(toks(v@)),
    decreases v, 0nat,
{
    let ghost start = out@;
    let mut i: usize = 0;
    while i < v.len()
        invariant
            i <= v@.len(),
            out@ == start + display_toks(toks(v@).subrange(0, i as int)),
        decreases v@.len() - i,
    {
        proof {
            assert(decreases_to!(v => v@[i as int]));
        }
        let ghost before = out@;
        if i > 0 {
            let joint = match &v[i - 1] {
                TokenTree::Punct(p) => match p.spacing {
                    Spacing::Joint => true,
                    Spacing::Alone => false,
                },
                _ => false,
            };
            if !joint {
                push_char(out, ' ');
            }
        }
        display_tree(&v[i], out);
        proof {
            let s = toks(v@).subrange(0, i + 1);
            assert(s.drop_last() =~= toks(v@).subrange(0, i as int));
            assert(s.last() == v@[i as int].model());
            if i > 0 {
                assert(s.drop_last().last() == v@[i - 1].model());
            }
            assert(out@ =~= start + display_toks(s));
        }
        i = i + 1;
    }
    proof {
        assert(toks(v@).subrange(0, v@.len() as int) =~= toks(v@));
    }
}


/// How many trees the text of `t` lexes back into, side by side: those of
/// the content of an invisible group, one for any other tree.
pub open spec fn lexed_count(t: Tok) -> nat
    decreases t,
{
    match t {
        Tok::Group { delimiter, stream, .. } => if delimiter == Delimiter::Invisible {
            lexed_len(stream)
        } else {
            1
        },
        _ => 1,
    }
}

/// How many trees the text of the trees `s` lexes back into, side by side.
pub open spec fn lexed_len(s: Seq<Tok>) -> nat
    decreases s,
{
    if s.len() == 0 {
        0
    } else {
        lexed_len(s.drop_last()) + lexed_count(s.last())
    }
}

/// One tree lexes back into as many trees as it counts.
pub proof fn lemma_lexed_len_one(x: Tok)
    ensures
        lexed_len(seq![x]) == lexed_count(x),
{
    let s = seq![x];
    assert(s.drop_last() =~= Seq::<Tok>::empty());
    assert(lexed_len(Seq::<Tok>::empty()) == 0);
    assert(s.last() == x);
}

/// Counting lexed trees adds up over concatenation.
pub proof fn lemma_lexed_len_concat(a: Seq<Tok>, b: Seq<Tok>)
    ensures
        lexed_len(a + b) == lexed_len(a) + lexed_len(b),
    decreases b.len(),
{
    if b.len() > 0 {
        lemma_lexed_len_concat(a, b.drop_last());
        assert((a + b).drop_last() =~= a + b.drop_last());
    } else {
        assert(a + b =~= a);
    }
}

/// `lexed_count(t.model())` when it is at most `cap`, else `None`.
pub fn lexed_count_upto(t: &TokenTree, cap: usize) -> (r: Option<usize>)
    ensures
        match r {
            Some(k) => k == lexed_count(t.model()) && k <= cap,
            None => lexed_count(t.model()) > cap,
        },
    decreases t,
{
    match t {
        TokenTree::Group(g) => {
            proof {
                lemma_group_stream(*t);
            }
            if g.delimiter != Delimiter::Invisible {
                if cap >= 1 {
                    Some(1)
                } else {
                    None
                }
            } else {
                lexed_len_upto(&g.stream, cap)
            }
        },
        _ => if cap >= 1 {
            Some(1)
        } else {
            None
        },
    }
}

/// `lexed_len(toks(v@))` when it is at most `cap`, else `None`.
pub fn lexed_len_upto(v: &Vec<TokenTree>, cap: usize) -> (r: Option<usize>)
    ensures
        match r {
            Some(k) => k == lexed_len(toks(v@)) && k <= cap,
            None => lexed_len(toks(v@)) > cap,
        },
    decreases v, 0nat,
{
    let ghost s = toks(v@);
    let mut c: usize = 0;
    let mut i: usize = 0;
    while i < v.len()
        invariant
            i <= v@.len(),
            s == toks(v@),
            c <= cap,
            c == lexed_len(s.take(i as int)),
        decreases v@.len() - i,
    {
        proof {
            assert(decreases_to!(v => v@[i as int]));
            assert(s.take(i + 1).drop_last() =~= s.take(i as int));
            assert(s[i as int] == v@[i as int].model());
        }
        match lexed_count_upto(&v[i], cap - c) {
            Some(k) => {
                c = c + k;
            },
            None => {
                proof {
                    lemma_lexed_len_concat(s.take(i + 1), s.skip(i + 1));
                    assert(s.take(i + 1) + s.skip(i + 1) =~= s);
                }
                return None;
            },
        }
        i = i + 1;
    }
    proof {
        assert(s.take(v@.len() as int) =~= s);
    }
    Some(c)
}

} // verus!
