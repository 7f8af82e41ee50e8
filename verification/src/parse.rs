//! Parsing token trees into nodes: strict parts.
use vstd::prelude::*;
use vstd::string::*;
use crate::diagnostic::{Diagnostic, Level};
use crate::grammar::{
    error, error_at, expected_punct, group_at, ident_at, lit_str_at, path_sep_at, punct_at,
    range_span, s_close_tag_start, s_block, s_name, s_close_tag, s_keyed_attribute, value_end, path_run,
    punct_run, name_span, ident_v, punct_v, in_bounds, s_com_end, s_com_start, s_doc_start, s_fragment_close,
    s_fragment_open, s_ident, s_lit_str, s_open_tag_end, s_punct, span_at, syn_ident_at, open_span,
    punct_error_at, expr_error_message, starts_with,
};
use crate::model::res_mv;
use crate::node::{idents, Block, Brace, CloseTag, CloseTagStart, ComEnd, ComStart, DocStart, DoubleMinus, FragmentClose,
    FragmentOpen, KeyedAttribute, NodeName, OpenTagEnd, PathSep,
};
use crate::syntax::{block_body_check, expr_rest_count, ident_accepted, lit_str_value_of};
use crate::text::push_char;
use crate::token::{lemma_group_stream, lemma_lexed_len_concat, lemma_lexed_len_one, lexed_count_upto, lexed_len, display_trees, display_toks, toks, copy_trees, Delimiter, Ident, Literal, Punct, Span, Tok, TokenTree};

verus! {

pub(crate) fn tok_span(t: &TokenTree) -> (r: Span)
    ensures
        r == t.model().span(),
{
    match t {
        TokenTree::Group(g) => g.span_open.join(g.span_close),
        TokenTree::Ident(i) => i.span,
        TokenTree::Punct(p) => p.span,
        TokenTree::Literal(l) => l.span,
    }
}

pub(crate) fn is_punct(t: &Vec<TokenTree>, p: usize, c: char) -> (r: bool)
    ensures
        r == punct_at(toks(t@), p as int, c),
        r ==> (p as int) < t@.len() <= usize::MAX,
{
    if p < t.len() {
        match &t[p] {
            TokenTree::Punct(x) => x.ch == c,
            _ => false,
        }
    } else {
        false
    }
}

pub(crate) fn is_joint(t: &Vec<TokenTree>, p: usize) -> (r: bool)
    requires
        p < t@.len(),
    ensures
        r == toks(t@)[p as int].is_joint(),
{
    match &t[p] {
        TokenTree::Punct(x) => match x.spacing {
            crate::token::Spacing::Joint => true,
            crate::token::Spacing::Alone => false,
        },
        _ => false,
    }
}

pub(crate) fn is_group(t: &Vec<TokenTree>, p: usize, d: Delimiter) -> (r: bool)
    ensures
        r == group_at(toks(t@), p as int, d),
        r ==> (p as int) < t@.len() <= usize::MAX,
{
    if p < t.len() {
        match &t[p] {
            TokenTree::Group(g) => g.delimiter == d,
            _ => false,
        }
    } else {
        false
    }
}

pub(crate) fn is_ident(t: &Vec<TokenTree>, p: usize) -> (r: bool)
    ensures
        r == ident_at(toks(t@), p as int),
        r ==> (p as int) < t@.len() <= usize::MAX,
{
    if p < t.len() {
        match &t[p] {
            TokenTree::Ident(_) => true,
            _ => false,
        }
    } else {
        false
    }
}

pub(crate) fn is_path_sep(t: &Vec<TokenTree>, p: usize) -> (r: bool)
    ensures
        r == path_sep_at(toks(t@), p as int),
        r ==> (p as int) < t@.len() <= usize::MAX,
{
    if p < t.len() && is_punct(t, p, ':') && is_joint(t, p) && p + 1 < t.len() {
        is_punct(t, p + 1, ':')
    } else {
        false
    }
}

pub(crate) fn is_lit_str(t: &Vec<TokenTree>, p: usize) -> (r: bool)
    ensures
        r == lit_str_at(toks(t@), p as int),
        r ==> (p as int) < t@.len() <= usize::MAX,
{
    if p < t.len() {
        match &t[p] {
            TokenTree::Literal(l) => lit_str_value_of(l.repr.as_str()).is_some(),
            _ => false,
        }
    } else {
        false
    }
}

pub(crate) fn is_syn_ident(t: &Vec<TokenTree>, p: usize) -> (r: bool)
    ensures
        r == syn_ident_at(toks(t@), p as int),
        r ==> (p as int) < t@.len() <= usize::MAX,
{
    if p < t.len() {
        match &t[p] {
            TokenTree::Ident(i) => ident_accepted(i.text.as_str()),
            _ => false,
        }
    } else {
        false
    }
}

fn open_span_exec(t: &TokenTree) -> (r: Span)
    ensures
        r == open_span(t.model()),
{
    match t {
        TokenTree::Group(g) => g.span_open,
        _ => tok_span(t),
    }
}

pub(crate) fn span_at_exec(t: &Vec<TokenTree>, p: usize) -> (r: Option<Span>)
    ensures
        r == span_at(toks(t@), p as int),
{
    if p < t.len() {
        Some(open_span_exec(&t[p]))
    } else {
        None
    }
}

pub(crate) fn range_span_exec(t: &Vec<TokenTree>, a: usize, b: usize) -> (r: Span)
    ensures
        r == range_span(toks(t@), a as int, b as int),
{
    if a < b && b <= t.len() {
        tok_span(&t[a]).join(tok_span(&t[b - 1]))
    } else {
        Span { lo: 0, hi: 0 }
    }
}

pub(crate) fn error_diag(span: Option<Span>, message: &str) -> (r: Diagnostic)
    ensures
        r.model() == error(span, message@),
{
    Diagnostic::spanned(span, Level::Error, message)
}

pub(crate) fn error_diag_at(t: &Vec<TokenTree>, p: usize, message: &str) -> (r: Diagnostic)
    ensures
        r.model() == error_at(toks(t@), p as int, message@),
{
    if p < t.len() {
        error_diag(span_at_exec(t, p), message)
    } else {
        let mut m = String::from_str("unexpected end of input, ");
        m.append(message);
        error_diag(None, m.as_str())
    }
}

pub(crate) fn expected_punct_diag(t: &Vec<TokenTree>, p: usize, c: char) -> (r: Diagnostic)
    ensures
        r.model() == punct_error_at(toks(t@), p as int, c),
{
    let mut m = String::from_str("expected `");
    push_char(&mut m, c);
    m.append("`");
    assert(m@ =~= expected_punct(c));
    let r = Diagnostic {
        level: Level::Error,
        span: span_at_exec(t, p),
        message: m,
        children: Vec::new(),
    };
    assert(r.model().children =~= seq![]);
    r
}

/// Parses the punctuation character `c` (see `s_punct`).
pub fn parse_punct(t: &Vec<TokenTree>, pos: &mut usize, c: char) -> (r: Result<Span, Diagnostic>)
    ensures
        res_mv(r) == s_punct(toks(t@), *old(pos) as int, c).val,
        *final(pos) == s_punct(toks(t@), *old(pos) as int, c).pos,
        *old(pos) <= t@.len() ==> *old(pos) <= *final(pos) <= t@.len(),
{
    let p = *pos;
    if is_punct(t, p, c) {
        *pos = p + 1;
        Ok(tok_span(&t[p]))
    } else {
        Err(expected_punct_diag(t, p, c))
    }
}

/// Parses `<!` (see `s_doc_start`).
pub fn parse_doc_start(t: &Vec<TokenTree>, pos: &mut usize) -> (r: Result<DocStart, Diagnostic>)
    ensures
        res_mv(r) == s_doc_start(toks(t@), *old(pos) as int).val,
        *final(pos) == s_doc_start(toks(t@), *old(pos) as int).pos,
        *old(pos) <= t@.len() ==> *old(pos) <= *final(pos) <= t@.len(),
{
    let p = *pos;
    if !is_punct(t, p, '<') {
        return Err(expected_punct_diag(t, p, '<'));
    }
    if !is_punct(t, p + 1, '!') {
        *pos = p + 1;
        return Err(expected_punct_diag(t, p + 1, '!'));
    }
    *pos = p + 2;
    Ok(DocStart { token_lt: tok_span(&t[p]), token_not: tok_span(&t[p + 1]) })
}

/// Parses `<!--` (see `s_com_start`).
pub fn parse_com_start(t: &Vec<TokenTree>, pos: &mut usize) -> (r: Result<ComStart, Diagnostic>)
    ensures
        res_mv(r) == s_com_start(toks(t@), *old(pos) as int).val,
        *final(pos) == s_com_start(toks(t@), *old(pos) as int).pos,
        *old(pos) <= t@.len() ==> *old(pos) <= *final(pos) <= t@.len(),
{
    let p = *pos;
    if !is_punct(t, p, '<') {
        return Err(expected_punct_diag(t, p, '<'));
    }
    if !is_punct(t, p + 1, '!') {
        *pos = p + 1;
        return Err(expected_punct_diag(t, p + 1, '!'));
    }
    if !is_punct(t, p + 2, '-') {
        *pos = p + 2;
        return Err(expected_punct_diag(t, p + 2, '-'));
    }
    if !is_punct(t, p + 3, '-') {
        *pos = p + 3;
        return Err(expected_punct_diag(t, p + 3, '-'));
    }
    *pos = p + 4;
    Ok(
        ComStart {
            token_lt: tok_span(&t[p]),
            token_not: tok_span(&t[p + 1]),
            token_minus: DoubleMinus { first: tok_span(&t[p + 2]), second: tok_span(&t[p + 3]) },
        },
    )
}

/// Parses `-->` (see `s_com_end`).
pub fn parse_com_end(t: &Vec<TokenTree>, pos: &mut usize) -> (r: Result<ComEnd, Diagnostic>)
    ensures
        res_mv(r) == s_com_end(toks(t@), *old(pos) as int).val,
        *final(pos) == s_com_end(toks(t@), *old(pos) as int).pos,
        *old(pos) <= t@.len() ==> *old(pos) <= *final(pos) <= t@.len(),
{
    let p = *pos;
    if !is_punct(t, p, '-') {
        return Err(expected_punct_diag(t, p, '-'));
    }
    if !is_punct(t, p + 1, '-') {
        *pos = p + 1;
        return Err(expected_punct_diag(t, p + 1, '-'));
    }
    if !is_punct(t, p + 2, '>') {
        *pos = p + 2;
        return Err(expected_punct_diag(t, p + 2, '>'));
    }
    *pos = p + 3;
    Ok(
        ComEnd {
            token_minus: DoubleMinus { first: tok_span(&t[p]), second: tok_span(&t[p + 1]) },
            token_gt: tok_span(&t[p + 2]),
        },
    )
}

/// Parses `/>` or `>` (see `s_open_tag_end`).
pub fn parse_open_tag_end(t: &Vec<TokenTree>, pos: &mut usize) -> (r: Result<OpenTagEnd, Diagnostic>)
    ensures
        res_mv(r) == s_open_tag_end(toks(t@), *old(pos) as int).val,
        *final(pos) == s_open_tag_end(toks(t@), *old(pos) as int).pos,
        *old(pos) <= t@.len() ==> *old(pos) <= *final(pos) <= t@.len(),
{
    let p = *pos;
    if is_punct(t, p, '/') {
        if is_punct(t, p + 1, '>') {
            *pos = p + 2;
            Ok(OpenTagEnd { token_solidus: Some(tok_span(&t[p])), token_gt: tok_span(&t[p + 1]) })
        } else {
            *pos = p + 1;
            Err(expected_punct_diag(t, p + 1, '>'))
        }
    } else if is_punct(t, p, '>') {
        *pos = p + 1;
        Ok(OpenTagEnd { token_solidus: None, token_gt: tok_span(&t[p]) })
    } else {
        Err(expected_punct_diag(t, p, '>'))
    }
}

/// Parses `</` (see `s_close_tag_start`).
pub fn parse_close_tag_start(t: &Vec<TokenTree>, pos: &mut usize) -> (r: Result<
    CloseTagStart,
    Diagnostic,
>)
    ensures
        res_mv(r) == s_close_tag_start(toks(t@), *old(pos) as int).val,
        *final(pos) == s_close_tag_start(toks(t@), *old(pos) as int).pos,
        *old(pos) <= t@.len() ==> *old(pos) <= *final(pos) <= t@.len(),
{
    let p = *pos;
    if !is_punct(t, p, '<') {
        return Err(expected_punct_diag(t, p, '<'));
    }
    if !is_punct(t, p + 1, '/') {
        *pos = p + 1;
        return Err(expected_punct_diag(t, p + 1, '/'));
    }
    *pos = p + 2;
    Ok(CloseTagStart { token_lt: tok_span(&t[p]), token_solidus: tok_span(&t[p + 1]) })
}

/// Parses `<>` (see `s_fragment_open`).
pub fn parse_fragment_open(t: &Vec<TokenTree>, pos: &mut usize) -> (r: Result<
    FragmentOpen,
    Diagnostic,
>)
    ensures
        res_mv(r) == s_fragment_open(toks(t@), *old(pos) as int).val,
        *final(pos) == s_fragment_open(toks(t@), *old(pos) as int).pos,
        *old(pos) <= t@.len() ==> *old(pos) <= *final(pos) <= t@.len(),
{
    let p = *pos;
    if !is_punct(t, p, '<') {
        return Err(expected_punct_diag(t, p, '<'));
    }
    if !is_punct(t, p + 1, '>') {
        *pos = p + 1;
        return Err(expected_punct_diag(t, p + 1, '>'));
    }
    *pos = p + 2;
    Ok(FragmentOpen { token_lt: tok_span(&t[p]), token_gt: tok_span(&t[p + 1]) })
}

/// Parses `</>` (see `s_fragment_close`).
pub fn parse_fragment_close(t: &Vec<TokenTree>, pos: &mut usize) -> (r: Result<
    FragmentClose,
    Diagnostic,
>)
    ensures
        res_mv(r) == s_fragment_close(toks(t@), *old(pos) as int).val,
        *final(pos) == s_fragment_close(toks(t@), *old(pos) as int).pos,
        *old(pos) <= t@.len() ==> *old(pos) <= *final(pos) <= t@.len(),
{
    let p = *pos;
    if !is_punct(t, p, '<') {
        return Err(expected_punct_diag(t, p, '<'));
    }
    if !is_punct(t, p + 1, '/') {
        *pos = p + 1;
        return Err(expected_punct_diag(t, p + 1, '/'));
    }
    if !is_punct(t, p + 2, '>') {
        *pos = p + 2;
        return Err(expected_punct_diag(t, p + 2, '>'));
    }
    *pos = p + 3;
    Ok(
        FragmentClose {
            start_tag: CloseTagStart { token_lt: tok_span(&t[p]), token_solidus: tok_span(&t[p + 1]) },
            token_gt: tok_span(&t[p + 2]),
        },
    )
}

/// Parses a string literal (see `s_lit_str`).
pub fn parse_lit_str(t: &Vec<TokenTree>, pos: &mut usize) -> (r: Result<Literal, Diagnostic>)
    ensures
        res_mv(r) == s_lit_str(toks(t@), *old(pos) as int).val,
        *final(pos) == s_lit_str(toks(t@), *old(pos) as int).pos,
        *old(pos) <= t@.len() ==> *old(pos) <= *final(pos) <= t@.len(),
{
    let p = *pos;
    if is_lit_str(t, p) {
        match &t[p] {
            TokenTree::Literal(l) => {
                *pos = p + 1;
                Ok(l.copy())
            },
            _ => Err(error_diag_at(t, p, "expected string literal")),
        }
    } else {
        Err(error_diag_at(t, p, "expected string literal"))
    }
}

/// Parses an identifier that is not a keyword (see `s_ident`).
pub fn parse_ident(t: &Vec<TokenTree>, pos: &mut usize) -> (r: Result<Ident, Diagnostic>)
    ensures
        res_mv(r) == s_ident(toks(t@), *old(pos) as int).val,
        *final(pos) == s_ident(toks(t@), *old(pos) as int).pos,
        *old(pos) <= t@.len() ==> *old(pos) <= *final(pos) <= t@.len(),
{
    let p = *pos;
    if is_syn_ident(t, p) {
        match &t[p] {
            TokenTree::Ident(i) => {
                *pos = p + 1;
                Ok(i.copy())
            },
            _ => Err(error_diag_at(t, p, "expected identifier")),
        }
    } else if is_ident(t, p) {
        match &t[p] {
            TokenTree::Ident(i) => {
                let mut m = String::from_str("expected identifier, found keyword `");
                m.append(i.text.as_str());
                m.append("`");
                Err(error_diag_at(t, p, m.as_str()))
            },
            _ => Err(error_diag_at(t, p, "expected identifier")),
        }
    } else {
        Err(error_diag_at(t, p, "expected identifier"))
    }
}


/// Parses a block in braces whose content is valid Rust (see `s_block`).
pub fn parse_block(t: &Vec<TokenTree>, pos: &mut usize) -> (r: Result<Block, Diagnostic>)
    ensures
        res_mv(r) == s_block(toks(t@), *old(pos) as int).val,
        r is Ok ==> group_at(toks(t@), *old(pos) as int, Delimiter::Brace),
        *final(pos) == s_block(toks(t@), *old(pos) as int).pos,
        *old(pos) <= t@.len() ==> *old(pos) <= *final(pos) <= t@.len(),
{
    let p = *pos;
    if is_group(t, p, Delimiter::Brace) {
        match &t[p] {
            TokenTree::Group(g) => {
                proof {
                    lemma_group_stream(t@[p as int]);
                }
                let mut src = String::new();
                display_trees(&g.stream, &mut src);
                assert(src@ == display_toks(toks(g.stream@)));
                match block_body_check(src.as_str()) {
                    None => {
                        *pos = p + 1;
                        let stmts = copy_trees(&g.stream, 0, g.stream.len());
                        assert(toks(g.stream@).subrange(0, g.stream@.len() as int) =~= toks(g.stream@));
                        Ok(
                            Block {
                                brace: Brace { span_open: g.span_open, span_close: g.span_close },
                                stmts,
                            },
                        )
                    },
                    Some(m) => Err(error_diag(Some(g.span_close), m.as_str())),
                }
            },
            _ => Err(error_diag_at(t, p, "expected curly braces")),
        }
    } else {
        Err(error_diag_at(t, p, "expected curly braces"))
    }
}

fn ident_at_exec(t: &Vec<TokenTree>, q: usize) -> (r: Ident)
    requires
        ident_at(toks(t@), q as int),
    ensures
        r.model() == ident_v(toks(t@)[q as int]),
{
    match &t[q] {
        TokenTree::Ident(i) => i.copy(),
        _ => {
            assert(false);
            Ident { text: String::new(), span: Span { lo: 0, hi: 0 } }
        },
    }
}

fn punct_at_exec(t: &Vec<TokenTree>, q: usize) -> (r: Punct)
    requires
        in_bounds(toks(t@), q as int),
        toks(t@)[q as int] is Punct,
    ensures
        r == punct_v(toks(t@)[q as int]),
{
    match &t[q] {
        TokenTree::Punct(x) => *x,
        _ => {
            assert(false);
            Punct { ch: ' ', spacing: crate::token::Spacing::Alone, span: Span { lo: 0, hi: 0 } }
        },
    }
}

/// Identifiers separated by `::` from `q` on (see `path_run`).
pub(crate) fn path_run_exec(t: &Vec<TokenTree>, q: usize) -> (r: (Vec<Ident>, Vec<PathSep>, usize))
    ensures
        idents(r.0@) == path_run(toks(t@), q as int).0,
        r.1@ == path_run(toks(t@), q as int).1,
        r.2 == path_run(toks(t@), q as int).2,
        q <= t@.len() ==> q <= r.2 <= t@.len(),
    decreases t@.len() - q,
{
    if q < t.len() && is_ident(t, q) {
        let id = ident_at_exec(t, q);
        if q + 1 < t.len() && is_path_sep(t, q + 1) {
            let sep = PathSep { first: tok_span(&t[q + 1]), second: tok_span(&t[q + 2]) };
            let (mut segs, mut seps, e) = path_run_exec(t, q + 3);
            let ghost old_segs = segs@;
            let ghost old_seps = seps@;
            segs.insert(0, id);
            seps.insert(0, sep);
            assert(idents(segs@) =~= seq![id.model()] + idents(old_segs));
            assert(seps@ =~= seq![sep] + old_seps);
            (segs, seps, e)
        } else {
            let mut segs = Vec::new();
            segs.push(id);
            assert(idents(segs@) =~= seq![id.model()]);
            (segs, Vec::new(), q + 1)
        }
    } else {
        let segs = Vec::new();
        assert(idents(segs@) =~= seq![]);
        (segs, Vec::new(), q)
    }
}

/// Identifiers separated by `:` or `-` from `q` on (see `punct_run`).
pub(crate) fn punct_run_exec(t: &Vec<TokenTree>, q: usize) -> (r: (Vec<Ident>, Vec<Punct>, usize))
    ensures
        idents(r.0@) == punct_run(toks(t@), q as int).0,
        r.1@ == punct_run(toks(t@), q as int).1,
        r.2 == punct_run(toks(t@), q as int).2,
        q <= t@.len() ==> q <= r.2 <= t@.len(),
    decreases t@.len() - q,
{
    if q < t.len() && is_ident(t, q) {
        let id = ident_at_exec(t, q);
        if q + 1 < t.len() && (is_punct(t, q + 1, ':') || is_punct(t, q + 1, '-')) {
            let sep = punct_at_exec(t, q + 1);
            let (mut ids, mut ps, e) = punct_run_exec(t, q + 2);
            let ghost old_ids = ids@;
            let ghost old_ps = ps@;
            ids.insert(0, id);
            ps.insert(0, sep);
            assert(idents(ids@) =~= seq![id.model()] + idents(old_ids));
            assert(ps@ =~= seq![sep] + old_ps);
            (ids, ps, e)
        } else {
            let mut ids = Vec::new();
            ids.push(id);
            assert(idents(ids@) =~= seq![id.model()]);
            (ids, Vec::new(), q + 1)
        }
    } else {
        let ids = Vec::new();
        assert(idents(ids@) =~= seq![]);
        (ids, Vec::new(), q)
    }
}

/// Parses the name of a node or attribute (see `s_name`).
pub fn parse_name(t: &Vec<TokenTree>, pos: &mut usize) -> (r: Result<NodeName, Diagnostic>)
    ensures
        res_mv(r) == s_name(toks(t@), *old(pos) as int).val,
        *final(pos) == s_name(toks(t@), *old(pos) as int).pos,
        *old(pos) <= t@.len() ==> *old(pos) <= *final(pos) <= t@.len(),
{
    let p = *pos;
    if p >= t.len() {
        return Err(error_diag_at(t, p, "invalid tag name or attribute key"));
    }
    if is_path_sep(t, p + 1) {
        let (segments, separators, q) = path_run_exec(t, p);
        if segments.len() > 1 {
            *pos = q;
            Ok(NodeName::Path { segments, separators })
        } else {
            Err(error_diag_at(t, q, "expected punctuated node name"))
        }
    } else if is_punct(t, p + 1, ':') || is_punct(t, p + 1, '-') {
        let (ids, puncts, q) = punct_run_exec(t, p);
        if ids.len() > 1 {
            *pos = q;
            Ok(NodeName::Punctuated { idents: ids, puncts })
        } else {
            Err(error_diag_at(t, q, "expected punctuated node name"))
        }
    } else if is_group(t, p, Delimiter::Brace) {
        let mut q = p;
        match parse_block(t, &mut q) {
            Ok(b) => {
                *pos = p + 1;
                Ok(NodeName::Block(b))
            },
            Err(e) => Err(e),
        }
    } else if is_ident(t, p) {
        let mut segments = Vec::new();
        segments.push(ident_at_exec(t, p));
        assert(idents(segments@) =~= seq![ident_v(toks(t@)[p as int])]);
        *pos = p + 1;
        Ok(NodeName::Path { segments, separators: Vec::new() })
    } else {
        Err(error_diag_at(t, p, "invalid tag name or attribute key"))
    }
}

/// Span of a name from its first to its last token (see `name_span`).
pub fn name_span_exec(n: &NodeName) -> (r: Span)
    ensures
        r == name_span(n.model()),
{
    match n {
        NodeName::Path { segments, separators } => {
            if segments.len() == 0 {
                Span { lo: 0, hi: 0 }
            } else if separators.len() >= segments.len() {
                segments[0].span.join(separators[separators.len() - 1].second)
            } else {
                segments[0].span.join(segments[segments.len() - 1].span)
            }
        },
        NodeName::Punctuated { idents: ids, puncts } => {
            if ids.len() == 0 {
                Span { lo: 0, hi: 0 }
            } else if puncts.len() >= ids.len() {
                ids[0].span.join(puncts[puncts.len() - 1].span)
            } else {
                ids[0].span.join(ids[ids.len() - 1].span)
            }
        },
        NodeName::Block(b) => b.brace.span_open.join(b.brace.span_close),
    }
}

/// Parses `</name>` (see `s_close_tag`).
pub fn parse_close_tag(t: &Vec<TokenTree>, pos: &mut usize) -> (r: Result<CloseTag, Diagnostic>)
    ensures
        res_mv(r) == s_close_tag(toks(t@), *old(pos) as int).val,
        *final(pos) == s_close_tag(toks(t@), *old(pos) as int).pos,
        *old(pos) <= t@.len() ==> *old(pos) <= *final(pos) <= t@.len(),
{
    let start_tag = match parse_close_tag_start(t, pos) {
        Ok(v) => v,
        Err(e) => return Err(e),
    };
    let name = match parse_name(t, pos) {
        Ok(v) => v,
        Err(e) => return Err(e),
    };
    let token_gt = match parse_punct(t, pos, '>') {
        Ok(v) => v,
        Err(e) => return Err(e),
    };
    Ok(CloseTag { start_tag, name, token_gt })
}

/// Whether `s` begins with `prefix`.
fn starts_with_exec(s: &str, prefix: &str) -> (r: bool)
    ensures
        r == starts_with(s@, prefix@),
{
    let n = prefix.unicode_len();
    if n > s.unicode_len() {
        return false;
    }
    let mut i: usize = 0;
    while i < n
        invariant
            i <= n == prefix@.len() <= s@.len(),
            s@.subrange(0, i as int) == prefix@.subrange(0, i as int),
        decreases n - i,
    {
        if s.get_char(i) != prefix.get_char(i) {
            assert(s@.subrange(0, n as int)[i as int] != prefix@[i as int]);
            return false;
        }
        assert(s@.subrange(0, i + 1) =~= s@.subrange(0, i as int).push(s@[i as int]));
        assert(prefix@.subrange(0, i + 1) =~= prefix@.subrange(0, i as int).push(prefix@[i as int]));
        i = i + 1;
    }
    assert(prefix@.subrange(0, n as int) =~= prefix@);
    true
}

/// Message of an error in an attribute value (see `expr_error_message`).
fn expr_error_message_exec(m: &String) -> (r: String)
    ensures
        r@ == expr_error_message(m@),
{
    if starts_with_exec(m.as_str(), "unexpected end of input") {
        let mut r = String::from_str("failed to parse expression: ");
        r.append(m.as_str());
        r
    } else {
        m.clone()
    }
}

/// No position from `e` down has trees after it that lex back into `rest`
/// trees, when those from `e` on are already more.
proof fn lemma_value_end_none(s: Seq<Tok>, lo: int, e: int, rest: nat)
    requires
        0 <= lo,
        0 <= e <= s.len(),
        lexed_len(s.subrange(e, s.len() as int)) > rest,
    ensures
        value_end(s, lo, e, rest) is None,
    decreases e - lo,
{
    if e > lo {
        lemma_lexed_len_concat(seq![s[e - 1]], s.subrange(e, s.len() as int));
        assert(seq![s[e - 1]] + s.subrange(e, s.len() as int) =~= s.subrange(e - 1, s.len() as int));
        assert(seq![s[e - 1]].drop_last() =~= Seq::<Tok>::empty());
        lemma_lexed_len_one(s[e - 1]);
        lemma_value_end_none(s, lo, e - 1, rest);
    }
}

/// Where the value of an attribute that starts at `v` ends, when the
/// expression leaves `rest` lexed trees (see `value_end`).
fn value_end_exec(t: &Vec<TokenTree>, v: usize, rest: usize) -> (r: Option<usize>)
    requires
        v <= t@.len(),
    ensures
        match r {
            Some(e) => value_end(toks(t@), v as int, t@.len() as int, rest as nat) == Some(e as int) && v <= e <= t@.len(),
            None => value_end(toks(t@), v as int, t@.len() as int, rest as nat) is None,
        },
{
    let ghost s = toks(t@);
    let n = t.len();
    let mut p = n;
    let mut c: usize = 0;
    assert(s.subrange(n as int, n as int) =~= Seq::<Tok>::empty());
    loop
        invariant
            v <= p <= n == t@.len(),
            s == toks(t@),
            c <= rest,
            c == lexed_len(s.subrange(p as int, n as int)),
            value_end(s, v as int, n as int, rest as nat) == value_end(s, v as int, p as int, rest as nat),
        decreases p,
    {
        if c == rest {
            return Some(p);
        }
        if p == v {
            return None;
        }
        proof {
            lemma_lexed_len_concat(seq![s[p - 1]], s.subrange(p as int, n as int));
            assert(seq![s[p - 1]] + s.subrange(p as int, n as int) =~= s.subrange(p - 1, n as int));
            assert(seq![s[p - 1]].drop_last() =~= Seq::<Tok>::empty());
            assert(s[p - 1] == t@[p - 1].model());
            lemma_lexed_len_one(s[p - 1]);
        }
        match lexed_count_upto(&t[p - 1], rest - c) {
            Some(k) => {
                c = c + k;
                p = p - 1;
            },
            None => {
                proof {
                    lemma_value_end_none(s, v as int, p - 1, rest as nat);
                }
                return None;
            },
        }
    }
}

/// Parses `key` or `key=value` (see `s_keyed_attribute`).
pub fn parse_keyed_attribute(t: &Vec<TokenTree>, pos: &mut usize) -> (r: Result<
    KeyedAttribute,
    Diagnostic,
>)
    ensures
        res_mv(r) == s_keyed_attribute(toks(t@), *old(pos) as int).val,
        *final(pos) == s_keyed_attribute(toks(t@), *old(pos) as int).pos,
        *old(pos) <= t@.len() ==> *old(pos) <= *final(pos) <= t@.len(),
{
    let key = match parse_name(t, pos) {
        Ok(v) => v,
        Err(e) => return Err(e),
    };
    let q = *pos;
    if is_punct(t, q, '=') {
        let eq = tok_span(&t[q]);
        let v = q + 1;
        let n = t.len();
        *pos = v;
        if v >= n {
            return Err(error_diag(Some(eq), "missing attribute value"));
        }
        let rest_trees = copy_trees(t, v, n);
        let mut src = String::new();
        display_trees(&rest_trees, &mut src);
        match expr_rest_count(src.as_str()) {
            Ok(rest) => {
                if let Some(e) = value_end_exec(t, v, rest) {
                    let last = if e > v {
                        tok_span(&t[e - 1])
                    } else {
                        eq
                    };
                    let value = copy_trees(t, v, e);
                    let span = name_span_exec(&key).join(last);
                    *pos = e;
                    Ok(KeyedAttribute { key, token_eq: Some(eq), value: Some(value), span })
                } else {
                    Err(error_diag(Some(range_span_exec(t, v, n)), "failed to parse expression"))
                }
            },
            Err(m) => {
                let message = expr_error_message_exec(&m);
                if starts_with_exec(m.as_str(), "unexpected end of input") {
                    *pos = n;
                }
                Err(error_diag(Some(range_span_exec(t, v, n)), message.as_str()))
            },
        }
    } else {
        let span = name_span_exec(&key);
        Ok(KeyedAttribute { key, token_eq: None, value: None, span })
    }
}

} // verus!
