//! State of a recoverable parse: configuration and collected diagnostics.
use vstd::prelude::*;
use crate::diagnostic::{diags, Diag, Diagnostic, Level};
use crate::grammar::{Cfg, Recovered};
use crate::model::{opt_mv, Model};
use crate::token::{toks, Delimiter, Tok, TokenTree};

verus! {

/// Rewrites the content of blocks before they are parsed as Rust.
///
/// `transform` receives the tokens inside the braces of a block. It returns
/// `Ok(Some((consumed, tokens)))` to have `tokens` parsed as the block's
/// statements in their place (it must have consumed all of the content:
/// `consumed` is how many trees it read), `Ok(None)` to have the original
/// content parsed, or an error.
pub trait BlockTransform {
    /// What this transformation promises of its answer `r` on the block
    /// content `content`. Unless an implementation states more, it promises
    /// nothing.
    open spec fn answers(&self, content: Seq<Tok>, r: Result<Option<(usize, Vec<TokenTree>)>, Diagnostic>) -> bool {
        true
    }

    fn transform(&self, content: &Vec<TokenTree>) -> (r: Result<Option<(usize, Vec<TokenTree>)>, Diagnostic>)
        ensures
            self.answers(toks(content@), r),
    ;
}

impl<'a, T: BlockTransform> BlockTransform for &'a T {
    /// A reference answers as what it refers to.
    open spec fn answers(&self, content: Seq<Tok>, r: Result<Option<(usize, Vec<TokenTree>)>, Diagnostic>) -> bool {
        (**self).answers(content, r)
    }

    fn transform(&self, content: &Vec<TokenTree>) -> (r: Result<Option<(usize, Vec<TokenTree>)>, Diagnostic>) {
        (**self).transform(content)
    }
}

/// A value that can be parsed from token trees with recovery: when it
/// parses partially, diagnostics are recorded in the context and a value
/// is still given; when it fails, nothing is given and the diagnostics say
/// why.
pub trait ParseRecoverable: Sized {
    /// What a parse that starts at `start` in the trees `t` gives: the
    /// value `r`, the position `end` and the diagnostics `after` (those
    /// reported before it being `before`), under the configuration `cfg`.
    spec fn parses_as(
        cfg: Cfg,
        before: Seq<Diagnostic>,
        after: Seq<Diagnostic>,
        t: Seq<TokenTree>,
        start: int,
        end: usize,
        r: Option<Self>,
    ) -> bool;

    fn parse_recoverable<T: BlockTransform>(
        ctx: &mut RecoverableContext<T>,
        t: &Vec<TokenTree>,
        pos: &mut usize,
    ) -> (r: Option<Self>)
        requires
            *old(pos) <= t@.len(),
            old(ctx).base + t@.len() <= usize::MAX,
        ensures
            *old(pos) <= *final(pos) <= t@.len(),
            final(ctx).kept(old(ctx), toks(t@)),
            forall|f: spec_fn(int) -> Result<Option<(nat, Seq<Tok>)>, Diag>|
                #[trigger] final(ctx).agrees(f) ==> Self::parses_as(
                    old(ctx).cfg_with(f),
                    old(ctx).diagnostics@,
                    final(ctx).diagnostics@,
                    t@,
                    *old(pos) as int,
                    *final(pos),
                    r,
                ),
    ;
}

/// No transformation of blocks.
#[derive(Debug)]
pub struct NoTransform;

impl BlockTransform for NoTransform {
    /// Every content is left as it is.
    open spec fn answers(&self, content: Seq<Tok>, r: Result<Option<(usize, Vec<TokenTree>)>, Diagnostic>) -> bool {
        r is Ok && r->Ok_0 is None
    }

    fn transform(&self, content: &Vec<TokenTree>) -> (r: Result<Option<(usize, Vec<TokenTree>)>, Diagnostic>) {
        Ok(None)
    }
}

/// Configuration of a recoverable parse.
#[derive(Debug)]
pub struct RecoveryConfig<T> {
    /// Try to keep a block whose content is not valid Rust, as
    /// `NodeBlock::Invalid`.
    pub recover_block: bool,
    /// Elements that have no children and no close tag, like `<img>`.
    pub always_self_closed_elements: Vec<String>,
    /// Elements whose content is kept as raw text, like `<script>` (`""`:
    /// fragments).
    pub raw_text_elements: Vec<String>,
    /// Rewriting of block contents.
    pub transform_block: Option<T>,
}

/// A recoverable parse in progress: its configuration, the source text of
/// the tokens (when known) and the diagnostics reported so far.
#[derive(Debug)]
pub struct RecoverableContext<T> {
    pub diagnostics: Vec<Diagnostic>,
    pub config: RecoveryConfig<T>,
    pub source: Option<String>,
    /// The answers of the transformation of blocks so far, by the position
    /// of the block in the input: the content of a block is transformed
    /// once, however often the block is read.
    pub answered: Vec<(usize, Answer)>,
    /// Where the trees being read start in the input.
    pub base: usize,
}

/// The answer of a transformation for the content of a block.
pub type Answer = Result<Option<(usize, Vec<TokenTree>)>, Diagnostic>;

/// `f` gives the answers in `m`, for the positions they are paired with.
pub open spec fn agrees_with(f: spec_fn(int) -> Result<Option<(nat, Seq<Tok>)>, Diag>, m: Seq<(usize, Answer)>) -> bool {
    forall|i: int| 0 <= i < m.len() ==> f(#[trigger] m[i].0 as int) == outcome_model(m[i].1)
}

/// Value of the answer of a transformation of a block.
pub open spec fn outcome_model(o: Answer) -> Result<Option<(nat, Seq<Tok>)>, Diag> {
    match o {
        Ok(Some((n, v))) => Ok(Some((n as nat, toks(v@)))),
        Ok(None) => Ok(None),
        Err(e) => Err(e.model()),
    }
}

/// Characters of each string.
pub open spec fn strings(v: Seq<String>) -> Seq<Seq<char>> {
    Seq::new(v.len(), |i: int| v[i]@)
}

/// Whether one of the names is `name`.
pub(crate) fn contains_name(v: &Vec<String>, name: &String) -> (r: bool)
    ensures
        r == strings(v@).contains(name@),
{
    let mut i: usize = 0;
    while i < v.len()
        invariant
            i <= v@.len(),
            forall|j: int| 0 <= j < i ==> strings(v@)[j] != name@,
        decreases v@.len() - i,
    {
        if v[i] == *name {
            assert(strings(v@)[i as int] == name@);
            return true;
        }
        i = i + 1;
    }
    false
}

pub open spec fn opt_string(s: Option<String>) -> Option<Seq<char>> {
    match s {
        Some(s) => Some(s@),
        None => None,
    }
}

/// A recoverable parse gave `r`, stopped at `pos` and reported the
/// diagnostics that `now` adds to `before`, as the grammar says in `sp`.
pub open spec fn follows<X: Model>(
    r: Option<X>,
    pos: usize,
    now: Seq<Diagnostic>,
    before: Seq<Diagnostic>,
    sp: Recovered<X::V>,
) -> bool {
    &&& opt_mv(r) == sp.val
    &&& pos == sp.pos
    &&& diags(now) == diags(before) + sp.diags
}

impl<T> RecoverableContext<T> {
    /// The configuration as the grammar reads it.
    pub open spec fn cfg(&self) -> Cfg {
        Cfg {
            recover_block: self.config.recover_block,
            self_closed: strings(self.config.always_self_closed_elements@),
            raw_text: strings(self.config.raw_text_elements@),
            source: opt_string(self.source),
            blocks: None,
        }
    }

    /// No transformation of blocks is configured: blocks are read as they
    /// are.
    pub open spec fn exact(&self) -> bool {
        self.config.transform_block is None
    }

    /// Same configuration, source, place in the input and answers of the
    /// transformation as `other`.
    pub open spec fn same_setup(&self, other: &Self) -> bool {
        &&& self.config == other.config
        &&& self.source == other.source
        &&& self.base == other.base
        &&& self.answered@ == other.answered@
    }

    /// The configuration as the grammar reads it, when the transformation
    /// (if one is configured) answers `f(k)` for the block at position `k`
    /// of the input.
    pub open spec fn cfg_with(&self, f: spec_fn(int) -> Result<Option<(nat, Seq<Tok>)>, Diag>) -> Cfg {
        Cfg {
            blocks: if self.exact() {
                None
            } else {
                Some(|i: int| f(self.base + i))
            },
            ..self.cfg()
        }
    }

    /// `f` gives the answers recorded here (see `agrees_with`).
    pub open spec fn agrees(&self, f: spec_fn(int) -> Result<Option<(nat, Seq<Tok>)>, Diag>) -> bool {
        forall|i: int|
            0 <= i < self.answered@.len() ==> f(#[trigger] self.answered@[i].0 as int) == outcome_model(
                self.answered@[i].1,
            )
    }

    /// No position has two answers.
    pub open spec fn distinct_keys(&self) -> bool {
        forall|i: int, j: int|
            0 <= i < j < self.answered@.len() ==> #[trigger] self.answered@[i].0 != #[trigger] self.answered@[j].0
    }

    /// A context with the configuration, no source and no diagnostics.
    pub fn new(config: RecoveryConfig<T>) -> (r: Self)
        ensures
            r.config == config,
            r.source is None,
            r.diagnostics@ == Seq::<Diagnostic>::empty(),
            r.answered@ == Seq::<(usize, Answer)>::empty(),
            r.base == 0,
    {
        RecoverableContext { diagnostics: Vec::new(), config, source: None, answered: Vec::new(), base: 0 }
    }

    /// The configuration.
    pub fn config(&self) -> (r: &RecoveryConfig<T>)
        ensures
            r == &self.config,
    {
        &self.config
    }

    /// Adds a diagnostic.
    pub fn push_diagnostic(&mut self, diagnostic: Diagnostic)
        ensures
            final(self).same_setup(old(self)),
            final(self).diagnostics@ == old(self).diagnostics@.push(diagnostic),
            diags(final(self).diagnostics@) == diags(old(self).diagnostics@).push(diagnostic.model()),
    {
        self.diagnostics.push(diagnostic);
        assert(diags(self.diagnostics@) =~= diags(old(self).diagnostics@).push(diagnostic.model()));
    }

    /// The result of a parse that gave `val`, with the diagnostics
    /// collected (see `ParsingResult::from_parts`).
    pub fn parse_result<U>(self, val: Option<U>) -> (r: ParsingResult<U>)
        ensures
            r.parts() == (val, self.diagnostics@),
            r.shaped(),
    {
        ParsingResult::from_parts(val, self.diagnostics)
    }

    /// Parses a `U` from the position on, recording diagnostics here.
    pub fn parse_recoverable<U: ParseRecoverable>(&mut self, t: &Vec<TokenTree>, pos: &mut usize) -> (r: Option<U>)
        where T: BlockTransform
        requires
            *old(pos) <= t@.len(),
            old(self).base + t@.len() <= usize::MAX,
        ensures
            *old(pos) <= *final(pos) <= t@.len(),
            final(self).kept(old(self), toks(t@)),
            forall|f: spec_fn(int) -> Result<Option<(nat, Seq<Tok>)>, Diag>|
                #[trigger] final(self).agrees(f) ==> U::parses_as(
                    old(self).cfg_with(f),
                    old(self).diagnostics@,
                    final(self).diagnostics@,
                    t@,
                    *old(pos) as int,
                    *final(pos),
                    r,
                ),
    {
        U::parse_recoverable(self, t, pos)
    }

    /// The value of `val`, or `None` after recording its error.
    pub fn save_diagnostics<U>(&mut self, val: Result<U, Diagnostic>) -> (r: Option<U>)
        ensures
            final(self).same_setup(old(self)),
            match val {
                Ok(v) => r == Some(v) && final(self).diagnostics@ == old(self).diagnostics@,
                Err(e) => r is None && final(self).diagnostics@ == old(self).diagnostics@.push(e),
            },
    {
        match val {
            Ok(v) => Some(v),
            Err(e) => {
                self.diagnostics.push(e);
                None
            },
        }
    }
}

impl<T: BlockTransform> RecoverableContext<T> {
    /// Answer `i` is one the configured transformation gave for the
    /// content of the block at its position in the trees `t`.
    pub open spec fn answer_ok(&self, t: Seq<Tok>, i: int) -> bool {
        let k = self.answered@[i].0 as int - self.base;
        &&& 0 <= k < t.len()
        &&& t[k] is Group
        &&& self.config.transform_block is Some
        &&& self.config.transform_block->Some_0.answers(t[k]->Group_stream, self.answered@[i].1)
    }

    /// Same configuration, source and place in the input as `other`; the
    /// answers recorded there are kept, and each new one was given for a
    /// block of the trees `t`, at a position without one when no position
    /// had two.
    pub open spec fn kept(&self, other: &Self, t: Seq<Tok>) -> bool {
        &&& self.config == other.config
        &&& self.source == other.source
        &&& self.base == other.base
        &&& other.answered@.len() <= self.answered@.len()
        &&& self.answered@.subrange(0, other.answered@.len() as int) == other.answered@
        &&& forall|i: int| other.answered@.len() <= i < self.answered@.len() ==> #[trigger] self.answer_ok(t, i)
        &&& other.distinct_keys() ==> self.distinct_keys()
    }
}

/// A context with the same setup keeps its answers.
pub proof fn lemma_kept_same<T: BlockTransform>(a: RecoverableContext<T>, b: RecoverableContext<T>, t: Seq<Tok>)
    requires
        b.same_setup(&a),
    ensures
        b.kept(&a, t),
{
    assert(b.answered@.subrange(0, a.answered@.len() as int) =~= a.answered@);
}

/// Keeping answers is transitive.
pub proof fn lemma_kept_trans<T: BlockTransform>(
    a: RecoverableContext<T>,
    b: RecoverableContext<T>,
    c: RecoverableContext<T>,
    t: Seq<Tok>,
)
    requires
        b.kept(&a, t),
        c.kept(&b, t),
    ensures
        c.kept(&a, t),
{
    assert(c.answered@.subrange(0, a.answered@.len() as int) =~= a.answered@) by {
        assert forall|i: int| 0 <= i < a.answered@.len() implies c.answered@[i] == a.answered@[i] by {
            assert(c.answered@.subrange(0, b.answered@.len() as int)[i] == b.answered@[i]);
            assert(b.answered@.subrange(0, a.answered@.len() as int)[i] == a.answered@[i]);
        }
    }
    assert forall|i: int| a.answered@.len() <= i < c.answered@.len() implies #[trigger] c.answer_ok(t, i) by {
        if i < b.answered@.len() {
            assert(c.answered@.subrange(0, b.answered@.len() as int)[i] == b.answered@[i]);
            assert(b.answer_ok(t, i));
        }
    }
}

/// A function that gives the answers of a context that kept those of
/// another gives theirs too.
pub proof fn lemma_agrees_kept<T: BlockTransform>(
    a: RecoverableContext<T>,
    b: RecoverableContext<T>,
    t: Seq<Tok>,
    f: spec_fn(int) -> Result<Option<(nat, Seq<Tok>)>, Diag>,
)
    requires
        b.kept(&a, t),
        b.agrees(f),
    ensures
        a.agrees(f),
        a.cfg_with(f) == b.cfg_with(f),
{
    assert forall|i: int| 0 <= i < a.answered@.len() implies f(#[trigger] a.answered@[i].0 as int) == outcome_model(
        a.answered@[i].1,
    ) by {
        assert(b.answered@.subrange(0, a.answered@.len() as int)[i] == a.answered@[i]);
        assert(b.answered@[i] == a.answered@[i]);
    }
}

/// Result of parsing.
#[derive(Debug)]
pub enum ParsingResult<T> {
    /// A value parsed without errors.
    Complete(T),
    /// Nothing could be parsed; the errors say why.
    Failed(Vec<Diagnostic>),
    /// A value was parsed, but some tokens were skipped or their meaning was
    /// changed; the errors say where.
    Partial(T, Vec<Diagnostic>),
}

/// The error given when a failed parse reported nothing.
pub open spec fn no_info_error() -> Diag {
    Diag {
        level: Level::Error,
        span: None,
        message: "Object parsing failed, but no additional info was provided"@,
        children: seq![],
    }
}

impl<T> ParsingResult<T> {
    /// The value, if any, and the errors.
    pub open spec fn parts(self) -> (Option<T>, Seq<Diagnostic>) {
        match self {
            ParsingResult::Complete(v) => (Some(v), seq![]),
            ParsingResult::Failed(e) => (None, e@),
            ParsingResult::Partial(v, e) => (Some(v), e@),
        }
    }

    /// A partial result has errors.
    pub open spec fn shaped(self) -> bool {
        match self {
            ParsingResult::Partial(_, e) => e@.len() > 0,
            _ => true,
        }
    }

    /// A result from an optional value and the errors collected: `Complete` for a
    /// value without errors, `Partial` for a value with errors, `Failed`
    /// without a value.
    pub fn from_parts(value: Option<T>, errors: Vec<Diagnostic>) -> (r: Self)
        ensures
            r.parts() == (value, errors@),
            r.shaped(),
    {
        match value {
            Some(token) => if errors.len() == 0 {
                ParsingResult::Complete(token)
            } else {
                ParsingResult::Partial(token, errors)
            },
            None => ParsingResult::Failed(errors),
        }
    }

    /// `Ok` with the value of a complete result; else the first error, or a
    /// general one when there is none.
    pub fn into_result(self) -> (r: Result<T, Diagnostic>)
        ensures
            match self {
                ParsingResult::Complete(v) => r == Ok::<T, Diagnostic>(v),
                _ => r is Err && (if self.parts().1.len() > 0 {
                    r->Err_0 == self.parts().1[0]
                } else {
                    r->Err_0.model() == no_info_error()
                }),
            },
    {
        match self {
            ParsingResult::Complete(r) => Ok(r),
            ParsingResult::Failed(errors) => Err(first_error(errors)),
            ParsingResult::Partial(_, errors) => Err(first_error(errors)),
        }
    }

    /// The value, if any, and the errors.
    pub fn split(self) -> (r: (Option<T>, Vec<Diagnostic>))
        ensures
            (r.0, r.1@) == self.parts(),
    {
        match self {
            ParsingResult::Complete(r) => (Some(r), Vec::new()),
            ParsingResult::Failed(errors) => (None, errors),
            ParsingResult::Partial(r, errors) => (Some(r), errors),
        }
    }

    /// `Complete` for a value, `Failed` with the one error for an error.
    pub fn from_result(result: Result<T, Diagnostic>) -> (r: Self)
        ensures
            match result {
                Ok(v) => r == ParsingResult::Complete(v),
                Err(e) => r.parts() == (None::<T>, seq![e]),
            },
    {
        match result {
            Ok(r) => ParsingResult::Complete(r),
            Err(e) => {
                let mut errors = Vec::new();
                errors.push(e);
                ParsingResult::Failed(errors)
            },
        }
    }
}

impl<U> ParsingResult<Vec<U>> {
    /// The values (none when parsing failed) and the errors.
    pub fn split_vec(self) -> (r: (Vec<U>, Vec<Diagnostic>))
        ensures
            r.0@ == match self.parts().0 {
                Some(v) => v@,
                None => Seq::<U>::empty(),
            },
            r.1@ == self.parts().1,
    {
        match self {
            ParsingResult::Complete(r) => (r, Vec::new()),
            ParsingResult::Failed(errors) => (Vec::new(), errors),
            ParsingResult::Partial(r, errors) => (r, errors),
        }
    }
}

fn first_error(errors: Vec<Diagnostic>) -> (r: Diagnostic)
    ensures
        errors@.len() > 0 ==> r == errors@[0],
        errors@.len() == 0 ==> r.model() == no_info_error(),
{
    let mut errors = errors;
    if errors.len() > 0 {
        errors.remove(0)
    } else {
        Diagnostic::new(Level::Error, "Object parsing failed, but no additional info was provided")
    }
}

/// A value parsed by a strict parse: one that reported no diagnostic.
#[derive(Debug)]
pub struct Recoverable<T>(pub T);

impl<T> Recoverable<T> {
    /// The parsed value.
    pub fn inner(self) -> (r: T)
        ensures
            r == self.0,
    {
        self.0
    }
}

} // verus!
