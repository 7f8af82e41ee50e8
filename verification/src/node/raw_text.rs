//! Raw unquoted text: its tokens, and the text it was read from.
use vstd::prelude::*;
use vstd::string::*;
use crate::grammar::{range_span, set_context};
use crate::node::{nodes, Node, RawText, RawTextV};
use crate::parse::range_span_exec;
use crate::recoverable::opt_string;
use crate::token::{copy_trees, display_toks, display_trees, toks, Span, TokenTree};

verus! {

/// A span that stands for no place in the source (`Span::call_site`).
pub open spec fn is_call_site(sp: Span) -> bool {
    sp.lo == 0 && sp.hi == 0
}

/// Text of the source under a span; none for a span with no place, and none
/// for a span that does not lie within the source.
pub open spec fn source_range(source: Option<Seq<char>>, sp: Span) -> Option<Seq<char>> {
    match source {
        Some(t) => if !is_call_site(sp) && sp.lo <= sp.hi <= t.len() {
            Some(t.subrange(sp.lo as int, sp.hi as int))
        } else {
            None
        },
        None => None,
    }
}

/// Source text between the two context spans of a raw text, whitespace
/// included: the text under both spans joined, without the text under each.
pub open spec fn context_text(source: Option<Seq<char>>, context: Option<(Span, Span)>) -> Option<
    Seq<char>,
> {
    match context {
        Some((a, b)) => {
            let full = a.spec_join(b);
            match (source_range(source, full), source_range(source, a), source_range(source, b)) {
                (Some(f), Some(x), Some(y)) => if x.len() <= f.len() - y.len() {
                    Some(f.subrange(x.len() as int, f.len() - y.len()))
                } else {
                    None
                },
                _ => None,
            }
        },
        None => None,
    }
}

/// Source text of a raw text: with whitespace, from its context spans;
/// without, from the span of its tokens.
pub open spec fn raw_source_text(r: RawTextV, with_whitespaces: bool) -> Option<Seq<char>> {
    if with_whitespaces {
        context_text(r.source, r.context_span)
    } else if r.tokens.len() == 0 {
        None
    } else {
        source_range(r.source, range_span(r.tokens, 0, r.tokens.len() as int))
    }
}

/// The best text of a raw text: its source text with whitespace, else
/// without, else the display of its tokens.
pub open spec fn best_text(r: RawTextV) -> Seq<char> {
    match raw_source_text(r, true) {
        Some(t) => t,
        None => match raw_source_text(r, false) {
            Some(t) => t,
            None => display_toks(r.tokens),
        },
    }
}

fn source_range_exec(source: &Option<String>, sp: Span) -> (r: Option<String>)
    ensures
        opt_string(r) == source_range(opt_string(*source), sp),
{
    match source {
        Some(s) => {
            let text = s.as_str();
            let n = text.unicode_len();
            if !(sp.lo == 0 && sp.hi == 0) && sp.lo <= sp.hi && sp.hi <= n {
                Some(text.substring_char(sp.lo, sp.hi).to_owned())
            } else {
                None
            }
        },
        None => None,
    }
}

impl From<Vec<TokenTree>> for RawText {
    /// Raw text of the tokens, with no context and no source text.
    fn from(token_stream: Vec<TokenTree>) -> (r: RawText) {
        RawText { token_stream, context_span: None, source: None }
    }
}

impl vstd::std_specs::convert::FromSpecImpl<Vec<TokenTree>> for RawText {
    open spec fn obeys_from_spec() -> bool {
        true
    }

    open spec fn from_spec(token_stream: Vec<TokenTree>) -> RawText {
        RawText { token_stream, context_span: None, source: None }
    }
}

impl RawText {
    /// Sets the spans of the tokens around the text.
    pub fn set_tag_spans(&mut self, before: Span, after: Span)
        ensures
            final(self).model() == (RawTextV { context_span: Some((before, after)), ..old(self).model() }),
    {
        self.context_span = Some((before, after));
    }

    /// Appends copies of the tokens to `tokens`.
    pub fn to_tokens(&self, tokens: &mut Vec<TokenTree>)
        ensures
            toks(final(tokens)@) == toks(old(tokens)@) + self.model().tokens,
    {
        let mut copies = copy_trees(&self.token_stream, 0, self.token_stream.len());
        proof {
            assert(toks(self.token_stream@).subrange(0, self.token_stream@.len() as int) =~= toks(self.token_stream@));
        }
        let ghost before = tokens@;
        let ghost added = copies@;
        tokens.append(&mut copies);
        proof {
            assert(toks(tokens@) =~= toks(before) + toks(added));
        }
    }

    /// The tokens as `proc_macro2` displays them.
    pub fn to_token_stream_string(&self) -> (r: String)
        ensures
            r@ == display_toks(self.model().tokens),
    {
        let mut out = String::new();
        display_trees(&self.token_stream, &mut out);
        out
    }

    /// The source text of the tokens, with the whitespace around them up
    /// to the surrounding tokens or without it; none when the source or the
    /// spans are not known.
    pub fn to_source_text(&self, with_whitespaces: bool) -> (r: Option<String>)
        ensures
            opt_string(r) == raw_source_text(self.model(), with_whitespaces),
    {
        if with_whitespaces {
            match self.context_span {
                Some((a, b)) => {
                    let full = a.join(b);
                    let f = match source_range_exec(&self.source, full) {
                        Some(x) => x,
                        None => return None,
                    };
                    let x = match source_range_exec(&self.source, a) {
                        Some(x) => x,
                        None => return None,
                    };
                    let y = match source_range_exec(&self.source, b) {
                        Some(y) => y,
                        None => return None,
                    };
                    let fs = f.as_str();
                    let fl = fs.unicode_len();
                    let xl = x.as_str().unicode_len();
                    let yl = y.as_str().unicode_len();
                    if xl <= fl - yl {
                        Some(fs.substring_char(xl, fl - yl).to_owned())
                    } else {
                        None
                    }
                },
                None => None,
            }
        } else if self.token_stream.len() == 0 {
            None
        } else {
            let sp = range_span_exec(&self.token_stream, 0, self.token_stream.len());
            source_range_exec(&self.source, sp)
        }
    }

    /// Whether there are no tokens.
    pub fn is_empty(&self) -> (r: bool)
        ensures
            r == (self.model().tokens.len() == 0),
    {
        self.token_stream.len() == 0
    }

    /// The best text available: the source text with whitespace, else
    /// without, else the display of the tokens.
    pub fn to_string_best(&self) -> (r: String)
        ensures
            r@ == best_text(self.model()),
    {
        match self.to_source_text(true) {
            Some(t) => t,
            None => match self.to_source_text(false) {
                Some(t) => t,
                None => self.to_token_stream_string(),
            },
        }
    }

    /// Sets the context spans of the raw texts among `children`: the span
    /// of the node before (or the end of the open tag) and of the node after
    /// (or the start of the close tag). A raw text last among the children
    /// of an element without close tag keeps its context.
    pub fn vec_set_context(open_tag_end: Span, close_tag_start: Option<Span>, children: Vec<Node>) -> (r:
        Vec<Node>)
        ensures
            nodes(r@) == set_context(open_tag_end, close_tag_start, nodes(children@)),
    {
        let ghost ch = nodes(children@);
        let ghost goal = set_context(open_tag_end, close_tag_start, ch);
        let n = children.len();
        let mut spans: Vec<Span> = Vec::new();
        let mut i: usize = 0;
        while i < n
            invariant
                i <= n == children@.len(),
                ch == nodes(children@),
                spans@.len() == i,
                forall|j: int| 0 <= j < i ==> spans@[j] == crate::grammar::node_span(#[trigger] ch[j]),
            decreases n - i,
        {
            spans.push(children[i].span());
            i = i + 1;
        }
        let mut rest = children;
        let mut out: Vec<Node> = Vec::new();
        let mut k: usize = 0;
        while k < n
            invariant
                k <= n == ch.len(),
                spans@.len() == n,
                forall|j: int| 0 <= j < n ==> spans@[j] == crate::grammar::node_span(#[trigger] ch[j]),
                goal == set_context(open_tag_end, close_tag_start, ch),
                rest@.len() == n - k,
                nodes(rest@) == ch.subrange(k as int, n as int),
                nodes(out@) == goal.subrange(0, k as int),
            decreases n - k,
        {
            let ghost rest0 = rest@;
            let c = rest.remove(0);
            proof {
                assert(c.model() == nodes(rest0)[0]);
                assert(nodes(rest@) =~= nodes(rest0).subrange(1, nodes(rest0).len() as int));
            }
            let c2 = match c {
                Node::RawText(t) => {
                    if k + 1 < n || close_tag_start.is_some() {
                        let before = if k == 0 {
                            open_tag_end
                        } else {
                            spans[k - 1]
                        };
                        let after = if k + 1 < n {
                            spans[k + 1]
                        } else {
                            match close_tag_start {
                                Some(s) => s,
                                None => Span { lo: 0, hi: 0 },
                            }
                        };
                        let mut t = t;
                        t.set_tag_spans(before, after);
                        Node::RawText(t)
                    } else {
                        Node::RawText(t)
                    }
                },
                other => other,
            };
            proof {
                assert(c2.model() == goal[k as int]);
            }
            let ghost out0 = out@;
            out.push(c2);
            proof {
                assert(nodes(out@) =~= nodes(out0).push(c2.model()));
                assert(goal.subrange(0, k + 1) =~= goal.subrange(0, k as int).push(goal[k as int]));
            }
            k = k + 1;
        }
        proof {
            assert(goal.subrange(0, n as int) =~= goal);
        }
        out
    }
}

} // verus!
