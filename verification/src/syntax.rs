//! What the parser asks of Rust's own grammar: whether a block body is valid
//! Rust, how far an expression reaches, how a literal reads, which names are
//! keywords. The `syn` crate answers; every item here makes one call into it
//! (or into `str`) on text, and names the answer.
use vstd::prelude::*;

verus! {

/// Whether `syn` lexes `src` and parses the whole of it as the statements
/// of a block (`syn::Block::parse_within`): `None` when it does, else the
/// message of its error.
pub uninterp spec fn block_body_error(src: Seq<char>) -> Option<Seq<char>>;

/// Whether `src` is valid block content: the words of the error of
/// `syn::Block::parse_within` on the tokens lexed from `src`, or `None`.
/// Claimed: the answer is `block_body_error(src)`, a function of the text
/// alone.
#[verifier::external_body]
pub fn block_body_check(src: &str) -> (r: Option<String>)
    ensures
        r is Some ==> block_body_error(src@) == Some(r->Some_0@),
        r is None ==> block_body_error(src@) is None,
{
    syn::parse::Parser::parse_str(syn::Block::parse_within, src).err().map(|e| e.to_string())
}

/// After `syn` lexes `src` and parses one expression (`syn::Expr`) from
/// the start of it, the number of token trees that are left; else the
/// message of its error.
pub uninterp spec fn expr_rest(src: Seq<char>) -> Result<nat, Seq<char>>;

/// Parses one `syn::Expr` from the start of the tokens lexed from `src` and
/// counts the token trees left after it, or gives the words of the error.
/// Claimed: the answer is `expr_rest(src)`, a function of the text alone.
#[verifier::external_body]
pub fn expr_rest_count(src: &str) -> (r: Result<usize, String>)
    ensures
        r is Ok ==> expr_rest(src@) == Ok::<nat, Seq<char>>(r->Ok_0 as nat),
        r is Err ==> expr_rest(src@) == Err::<nat, Seq<char>>(r->Err_0@),
{
    syn::parse::Parser::parse_str(
        |input: syn::parse::ParseStream| {
            input.parse::<syn::Expr>()?;
            input.parse::<proc_macro2::TokenStream>()
        },
        src,
    )
    .map(|rest| rest.into_iter().count())
    .map_err(|e| e.to_string())
}

/// The value of a string literal as `syn::LitStr::value` reads it (escapes
/// resolved, quotes removed), or `None` when `repr` is not a string literal.
pub uninterp spec fn lit_str_value(repr: Seq<char>) -> Option<Seq<char>>;

/// Parses `repr` as a `syn::LitStr` and returns its `value()`. Claimed: the
/// answer is `lit_str_value(repr)`.
#[verifier::external_body]
pub fn lit_str_value_of(repr: &str) -> (r: Option<String>)
    ensures
        r matches Some(v) ==> lit_str_value(repr@) == Some(v@),
        r is None ==> lit_str_value(repr@) is None,
{
    syn::parse_str::<syn::LitStr>(repr).ok().map(|l| l.value())
}

/// Kinds of literal that `syn::Lit` tells apart.
#[derive(Clone, Copy, Debug, PartialEq, Eq, Structural)]
pub enum LitKind {
    Str,
    ByteStr,
    CStr,
    Byte,
    Char,
    Int,
    Float,
    Bool,
    Verbatim,
    /// The text is not one literal.
    NotALiteral,
}

/// The variant of `syn::Lit` that `syn` parses from `text`.
pub uninterp spec fn lit_kind(text: Seq<char>) -> LitKind;

/// Parses `text` as a `syn::Lit` and tells its variant. Claimed: the answer
/// is `lit_kind(text)`.
#[verifier::external_body]
pub fn lit_kind_of(text: &str) -> (r: LitKind)
    ensures
        r == lit_kind(text@),
{
    match syn::parse_str::<syn::Lit>(text) {
        Ok(syn::Lit::Str(_)) => LitKind::Str,
        Ok(syn::Lit::ByteStr(_)) => LitKind::ByteStr,
        Ok(syn::Lit::CStr(_)) => LitKind::CStr,
        Ok(syn::Lit::Byte(_)) => LitKind::Byte,
        Ok(syn::Lit::Char(_)) => LitKind::Char,
        Ok(syn::Lit::Int(_)) => LitKind::Int,
        Ok(syn::Lit::Float(_)) => LitKind::Float,
        Ok(syn::Lit::Bool(_)) => LitKind::Bool,
        Ok(_) => LitKind::Verbatim,
        Err(_) => LitKind::NotALiteral,
    }
}

/// Kinds of expression that the conversions of node values tell apart
/// (variants of `syn::Expr`).
#[derive(Clone, Copy, Debug, PartialEq, Eq, Structural)]
pub enum ExprKind {
    Block,
    Lit,
    Path,
    /// Another kind of expression.
    Other,
    /// The text is not one expression.
    NotAnExpr,
}

/// The variant of `syn::Expr` that `syn` parses from `text` as a whole.
pub uninterp spec fn expr_kind(text: Seq<char>) -> ExprKind;

/// Parses `text` as a `syn::Expr` and tells its variant. Claimed: the
/// answer is `expr_kind(text)`.
#[verifier::external_body]
pub fn expr_kind_of(text: &str) -> (r: ExprKind)
    ensures
        r == expr_kind(text@),
{
    match syn::parse_str::<syn::Expr>(text) {
        Ok(syn::Expr::Block(_)) => ExprKind::Block,
        Ok(syn::Expr::Lit(_)) => ExprKind::Lit,
        Ok(syn::Expr::Path(_)) => ExprKind::Path,
        Ok(_) => ExprKind::Other,
        Err(_) => ExprKind::NotAnExpr,
    }
}

/// The identifiers of the segments of a path expression
/// (`syn::ExprPath`), or `None` when `text` is not one.
pub uninterp spec fn expr_path_segments(text: Seq<char>) -> Option<Seq<Seq<char>>>;

/// Parses `text` as a `syn::ExprPath` and gives the identifier of each
/// segment of its path. Claimed: the answer is `expr_path_segments(text)`.
#[verifier::external_body]
pub fn expr_path_segments_of(text: &str) -> (r: Option<Vec<String>>)
    ensures
        r is Some ==> expr_path_segments(text@) == Some(Seq::new(r->Some_0@.len(), |i: int| r->Some_0@[i]@)),
        r is None ==> expr_path_segments(text@) is None,
{
    syn::parse_str::<syn::ExprPath>(text)
        .ok()
        .map(|p| p.path.segments.iter().map(|s| s.ident.to_string()).collect())
}

/// The value of a character literal (`syn::LitChar::value`).
pub uninterp spec fn lit_char_value(repr: Seq<char>) -> Option<char>;

/// Parses `repr` as a `syn::LitChar` and returns its `value()`. Claimed: the
/// answer is `lit_char_value(repr)`.
#[verifier::external_body]
pub fn lit_char_value_of(repr: &str) -> (r: Option<char>)
    ensures
        r == lit_char_value(repr@),
{
    syn::parse_str::<syn::LitChar>(repr).ok().map(|l| l.value())
}

/// The decimal digits of an integer literal, without suffix
/// (`syn::LitInt::base10_digits`).
pub uninterp spec fn lit_int_digits(repr: Seq<char>) -> Option<Seq<char>>;

/// Parses `repr` as a `syn::LitInt` and returns its `base10_digits()`.
/// Claimed: the answer is `lit_int_digits(repr)`.
#[verifier::external_body]
pub fn lit_int_digits_of(repr: &str) -> (r: Option<String>)
    ensures
        r matches Some(v) ==> lit_int_digits(repr@) == Some(v@),
        r is None ==> lit_int_digits(repr@) is None,
{
    syn::parse_str::<syn::LitInt>(repr).ok().map(|l| l.base10_digits().to_string())
}

/// The digits of a floating point literal, without suffix
/// (`syn::LitFloat::base10_digits`).
pub uninterp spec fn lit_float_digits(repr: Seq<char>) -> Option<Seq<char>>;

/// Parses `repr` as a `syn::LitFloat` and returns its `base10_digits()`.
/// Claimed: the answer is `lit_float_digits(repr)`.
#[verifier::external_body]
pub fn lit_float_digits_of(repr: &str) -> (r: Option<String>)
    ensures
        r matches Some(v) ==> lit_float_digits(repr@) == Some(v@),
        r is None ==> lit_float_digits(repr@) is None,
{
    syn::parse_str::<syn::LitFloat>(repr).ok().map(|l| l.base10_digits().to_string())
}

/// Whether `syn` accepts `text` as a `syn::Ident`: an identifier that is not
/// a Rust keyword (raw identifiers such as `r#type` are accepted).
pub uninterp spec fn accepted_ident(text: Seq<char>) -> bool;

/// Parses `text` as a `syn::Ident`. Claimed: the answer is
/// `accepted_ident(text)`.
#[verifier::external_body]
pub fn ident_accepted(text: &str) -> (r: bool)
    ensures
        r == accepted_ident(text@),
{
    syn::parse_str::<syn::Ident>(text).is_ok()
}

/// `s` in lower case, as `str::to_lowercase` writes it.
pub uninterp spec fn lowercase(s: Seq<char>) -> Seq<char>;

/// Calls `str::to_lowercase`. Claimed: the answer is `lowercase(s)`.
#[verifier::external_body]
pub fn to_lowercase(s: &str) -> (r: String)
    ensures
        r@ == lowercase(s@),
{
    s.to_lowercase()
}

} // verus!

verus! {

/// Whether `syn` parses the block bodies `a` and `b` into equal statement
/// lists (`Vec<syn::Stmt>` equality, which ignores spans).
pub uninterp spec fn same_block_body(a: Seq<char>, b: Seq<char>) -> bool;

/// Parses `a` and `b` with `syn::Block::parse_within` and compares the
/// results with `==`. Claimed: the answer is `same_block_body(a, b)`; it is
/// the same with `a` and `b` swapped, and true for equal texts (the same
/// text parses to the same statements, or fails both times, and `==` on
/// `Option<Vec<syn::Stmt>>` is symmetric and reflexive).
#[verifier::external_body]
pub fn block_bodies_equal(a: &str, b: &str) -> (r: bool)
    ensures
        r == same_block_body(a@, b@),
        r == same_block_body(b@, a@),
        a@ == b@ ==> r,
{
    syn::parse::Parser::parse_str(syn::Block::parse_within, a).ok()
        == syn::parse::Parser::parse_str(syn::Block::parse_within, b).ok()
}

} // verus!
