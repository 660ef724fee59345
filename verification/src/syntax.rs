use vstd::prelude::*;

verus! {

/// The names below are of what `syn` answers when the text is read by
/// `proc-macro2`'s own lexer, which the wrappers force.
///
/// Whether `syn` parses the whole text as one identifier that is not a
/// keyword (what `syn::Ident` accepts).
pub uninterp spec fn syn_accepts_ident(text: Seq<char>) -> bool;

/// Whether `syn` parses the whole text as one Rust expression (`syn::Expr`).
pub uninterp spec fn syn_accepts_expr(text: Seq<char>) -> bool;

/// What `syn` makes of the whole text as a type path (`syn::TypePath`): the
/// identifiers of its path segments, and whether the path starts with `::`;
/// `None` when the text is not one type path.
pub uninterp spec fn syn_type_path(text: Seq<char>) -> Option<(Seq<Seq<char>>, bool)>;

/// Calls `syn::parse_str::<syn::Ident>` after `proc_macro2::fallback::force`,
/// so that the text is always read by `proc-macro2`'s own lexer, inside a
/// compiler process or not; claims only that the outcome is the named result
/// `syn_accepts_ident` of the text.
#[verifier::external_body]
pub(crate) fn accepts_ident(text: &str) -> (b: bool)
    ensures
        b == syn_accepts_ident(text@),
{
    proc_macro2::fallback::force();
    syn::parse_str::<syn::Ident>(text).is_ok()
}

/// Calls `syn::parse_str::<syn::Expr>` after `proc_macro2::fallback::force`,
/// so that the text is always read by `proc-macro2`'s own lexer (never the
/// compiler's, which normalises identifiers); claims only that the outcome is
/// the named result `syn_accepts_expr` of the text.
#[verifier::external_body]
pub(crate) fn accepts_expr(text: &str) -> (b: bool)
    ensures
        b == syn_accepts_expr(text@),
{
    proc_macro2::fallback::force();
    syn::parse_str::<syn::Expr>(text).is_ok()
}

/// Calls `syn::parse_str::<syn::TypePath>` after
/// `proc_macro2::fallback::force`, so that the text is always read by
/// `proc-macro2`'s own lexer (never the compiler's, which normalises
/// identifiers), and reads the identifiers of the parsed path's segments and
/// whether it has a leading `::`; claims only that this is the named result
/// `syn_type_path` of the text.
#[verifier::external_body]
pub(crate) fn type_path(text: &str) -> (r: Option<(Vec<String>, bool)>)
    ensures
        r is None <==> syn_type_path(text@) is None,
        r matches Some((segs, lead)) ==> syn_type_path(text@) == Some((segs.deep_view(), lead)),
{
    proc_macro2::fallback::force();
    let ty = syn::parse_str::<syn::TypePath>(text).ok()?;
    let mut segs = Vec::new();
    for seg in ty.path.segments.iter() {
        segs.push(seg.ident.to_string());
    }
    Some((segs, ty.path.leading_colon.is_some()))
}

} // verus!
