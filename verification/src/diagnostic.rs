//! Diagnostics collected while parsing.
use vstd::prelude::*;
use crate::token::Span;

verus! {

#[derive(Clone, Copy, Debug, PartialEq, Eq, Structural)]
pub enum Level {
    Error,
    Warning,
    Note,
    Help,
}

/// A note attached to a diagnostic.
#[derive(Debug)]
pub struct SubDiagnostic {
    pub level: Level,
    pub span: Option<Span>,
    pub message: String,
}

/// A message about the input, with the place it is about (`None`: the
/// place where the macro was called).
#[derive(Debug)]
pub struct Diagnostic {
    pub level: Level,
    pub span: Option<Span>,
    pub message: String,
    pub children: Vec<SubDiagnostic>,
}

/// Mathematical value of a note.
pub struct SubDiag {
    pub level: Level,
    pub span: Option<Span>,
    pub message: Seq<char>,
}

/// Mathematical value of a diagnostic.
pub struct Diag {
    pub level: Level,
    pub span: Option<Span>,
    pub message: Seq<char>,
    pub children: Seq<SubDiag>,
}

impl SubDiagnostic {
    pub open spec fn model(&self) -> SubDiag {
        SubDiag { level: self.level, span: self.span, message: self.message@ }
    }
}

impl Diagnostic {
    pub open spec fn model(&self) -> Diag {
        Diag {
            level: self.level,
            span: self.span,
            message: self.message@,
            children: Seq::new(self.children@.len(), |i: int| self.children@[i].model()),
        }
    }

    /// A diagnostic about `span`.
    pub fn spanned(span: Option<Span>, level: Level, message: &str) -> (r: Diagnostic)
        ensures
            r.model() == (Diag { level, span, message: message@, children: seq![] }),
    {
        let r = Diagnostic { level, span, message: String::from_str(message), children: Vec::new() };
        assert(r.model().children =~= seq![]);
        r
    }

    /// A diagnostic about the place where the macro was called.
    pub fn new(level: Level, message: &str) -> (r: Diagnostic)
        ensures
            r.model() == (Diag { level, span: None, message: message@, children: seq![] }),
    {
        Diagnostic::spanned(None, level, message)
    }

    /// The same diagnostic with one more note.
    pub fn with_child(self, span: Option<Span>, level: Level, message: &str) -> (r: Diagnostic)
        ensures
            r.model() == (Diag {
                children: self.model().children.push(
                    SubDiag { level, span, message: message@ },
                ),
                ..self.model()
            }),
    {
        let mut r = self;
        let ghost before = r.model().children;
        r.children.push(SubDiagnostic { level, span, message: String::from_str(message) });
        assert(r.model().children =~= before.push(SubDiag { level, span, message: message@ }));
        r
    }
}

impl SubDiagnostic {
    /// A copy of the note.
    pub fn copy(&self) -> (r: SubDiagnostic)
        ensures
            r.model() == self.model(),
    {
        SubDiagnostic { level: self.level, span: self.span, message: self.message.clone() }
    }
}

impl Diagnostic {
    /// A copy of the diagnostic.
    pub fn copy(&self) -> (r: Diagnostic)
        ensures
            r.model() == self.model(),
    {
        let mut children: Vec<SubDiagnostic> = Vec::new();
        let mut i: usize = 0;
        while i < self.children.len()
            invariant
                i <= self.children@.len(),
                children@.len() == i,
                forall|j: int| 0 <= j < i ==> #[trigger] children@[j].model() == self.children@[j].model(),
            decreases self.children@.len() - i,
        {
            children.push(self.children[i].copy());
            i = i + 1;
        }
        let r = Diagnostic { level: self.level, span: self.span, message: self.message.clone(), children };
        assert(r.model().children =~= self.model().children);
        r
    }
}

/// Values of a sequence of diagnostics.
pub open spec fn diags(v: Seq<Diagnostic>) -> Seq<Diag> {
    Seq::new(v.len(), |i: int| v[i].model())
}

} // verus!
