//! The trusted boundary to the `syn` parser: parses a file's text and
//! flattens the parts of the syntax tree that discovery reads into the plain
//! event stream of [`crate::ast`]. Everything below `parse_events` converts
//! `syn`'s data one value at a time; no discovery logic lives here.

use vstd::prelude::*;

use quote::ToTokens;
use syn::ext::IdentExt;

use crate::ast::{AstAttr, AstEvent, AstMeta, AstPath, AstReturn, AstSegment, AstSpan};

verus! {

#[verifier::external_type_specification]
#[verifier::external_body]
pub struct ExSynItem(syn::Item);

#[verifier::external_type_specification]
#[verifier::external_body]
pub struct ExSynAttribute(syn::Attribute);

#[verifier::external_type_specification]
#[verifier::external_body]
pub struct ExSynSignature(syn::Signature);

#[verifier::external_type_specification]
#[verifier::external_body]
pub struct ExSynBlock(syn::Block);

#[verifier::external_type_specification]
#[verifier::external_body]
pub struct ExSynItemImpl(syn::ItemImpl);

#[verifier::external_type_specification]
#[verifier::external_body]
pub struct ExSynItemMod(syn::ItemMod);

#[verifier::external_type_specification]
#[verifier::external_body]
pub struct ExSynExpr(syn::Expr);

#[verifier::external_type_specification]
#[verifier::external_body]
pub struct ExSynItemTrait(syn::ItemTrait);

#[verifier::external_type_specification]
#[verifier::external_body]
pub struct ExSynItemEnum(syn::ItemEnum);

#[verifier::external_type_specification]
#[verifier::external_body]
pub struct ExSynImplItem(syn::ImplItem);

#[verifier::external_type_specification]
#[verifier::external_body]
pub struct ExSynExprIf(syn::ExprIf);

#[verifier::external_type_specification]
#[verifier::external_body]
pub struct ExSynExprMatch(syn::ExprMatch);

#[verifier::external_type_specification]
#[verifier::external_body]
pub struct ExSynExprStruct(syn::ExprStruct);

#[verifier::external_type_specification]
#[verifier::external_body]
pub struct ExSynExprRange(syn::ExprRange);

#[verifier::external_type_specification]
#[verifier::external_body]
pub struct ExSynMeta(syn::Meta);

#[verifier::external_type_specification]
#[verifier::external_body]
pub struct ExSynNestedMeta(syn::NestedMeta);

#[verifier::external_type_specification]
#[verifier::external_body]
pub struct ExSynPath(syn::Path);

#[verifier::external_type_specification]
#[verifier::external_body]
pub struct ExSynReturnType(syn::ReturnType);

#[verifier::external_type_specification]
#[verifier::external_body]
pub struct ExSpan(proc_macro2::Span);

/// The event stream that parsing yields for a given file text: `None` when
/// the text is not valid Rust. Parsing is a function of the text alone.
pub uninterp spec fn spec_parse_events(code: Seq<char>) -> Option<Vec<AstEvent>>;

/// Relies on `syn::parse_str::<syn::File>` (syn 1, feature `full`): parses
/// the complete file text, deterministically, and yields its items; the
/// other functions of this module then flatten them into events.
#[verifier::external_body]
pub fn parse_events(code: &str) -> (r: Option<Vec<AstEvent>>)
    ensures
        r == spec_parse_events(code@),
{
    match syn::parse_str::<syn::File>(code) {
        Ok(file) => {
            let mut out: Vec<AstEvent> = Vec::new();
            items_events(&file.items, &mut out);
            Some(out)
        },
        Err(_) => None,
    }
}

/// Converts each item of a `syn` item list in order; layout per syn 1.
#[verifier::external_body]
fn items_events(items: &[syn::Item], out: &mut Vec<AstEvent>) {
    for item in items {
        item_events(item, out);
    }
}

/// Tells the `syn::Item` variants apart: functions, impls and modules are
/// converted; constants, statics, enum discriminants and traits are only
/// scanned for items nested in their bodies; layout per syn 1.
#[verifier::external_body]
fn item_events(item: &syn::Item, out: &mut Vec<AstEvent>) {
    match item {
        syn::Item::Fn(f) => fn_events(&f.attrs, &f.sig, &f.block, false, out),
        syn::Item::Impl(i) => impl_events(i, out),
        syn::Item::Mod(m) => mod_events(m, out),
        syn::Item::Const(c) => expr_items_events(&c.expr, out),
        syn::Item::Static(st) => expr_items_events(&st.expr, out),
        syn::Item::Enum(en) => enum_items_events(en, out),
        syn::Item::Trait(t) => trait_items_events(t, out),
        _ => {},
    }
}

/// Scans an enum's explicit discriminant expressions; layout per syn 1.
#[verifier::external_body]
fn enum_items_events(en: &syn::ItemEnum, out: &mut Vec<AstEvent>) {
    for v in &en.variants {
        if let Some((_, d)) = &v.discriminant {
            expr_items_events(d, out);
        }
    }
}

/// Scans a trait's provided method bodies and constant defaults for nested
/// items; the trait itself contributes no namespace and its methods no
/// mutants. Layout per syn 1.
#[verifier::external_body]
fn trait_items_events(t: &syn::ItemTrait, out: &mut Vec<AstEvent>) {
    for item in &t.items {
        match item {
            syn::TraitItem::Method(m) => if let Some(b) = &m.default { block_items_events(b, out) },
            syn::TraitItem::Const(c) => if let Some((_, e)) = &c.default { expr_items_events(e, out) },
            _ => {},
        }
    }
}

/// Converts one function or method: attributes, identifier, return type,
/// body emptiness, the position of the body's opening brace (relies on
/// `proc_macro2::Span::start`, feature `span-locations`), and the items
/// nested in its body statements.
#[verifier::external_body]
fn fn_events(
    attrs: &[syn::Attribute],
    sig: &syn::Signature,
    block: &syn::Block,
    method: bool,
    out: &mut Vec<AstEvent>,
) {
    out.push(AstEvent::EnterFn {
        attrs: attrs_model(attrs),
        ident: sig.ident.to_string(),
        output: return_model(&sig.output),
        block_empty: block.stmts.is_empty(),
        span: span_model(block.brace_token.span),
        method,
    });
    block_items_events(block, out);
    out.push(AstEvent::Leave);
}

/// Scans a block's statements for nested items, descending into local
/// initializers and expression statements; layout per syn 1.
#[verifier::external_body]
fn block_items_events(block: &syn::Block, out: &mut Vec<AstEvent>) {
    for stmt in &block.stmts {
        match stmt {
            syn::Stmt::Item(item) => item_events(item, out),
            syn::Stmt::Local(l) => if let Some((_, init)) = &l.init { expr_items_events(init, out) },
            syn::Stmt::Expr(e) => expr_items_events(e, out),
            syn::Stmt::Semi(e, _) => expr_items_events(e, out),
        }
    }
}

/// Finds items nested under an expression: descends into every block the
/// expression carries; the remaining forms go to the branch and operand
/// scans. Layout per syn 1.
#[verifier::external_body]
fn expr_items_events(e: &syn::Expr, out: &mut Vec<AstEvent>) {
    match e {
        syn::Expr::Async(x) => block_items_events(&x.block, out),
        syn::Expr::Block(x) => block_items_events(&x.block, out),
        syn::Expr::Loop(x) => block_items_events(&x.body, out),
        syn::Expr::TryBlock(x) => block_items_events(&x.block, out),
        syn::Expr::Unsafe(x) => block_items_events(&x.block, out),
        syn::Expr::Closure(x) => expr_items_events(&x.body, out),
        _ => expr_branch_items_events(e, out),
    }
}

/// The branching and looping expression forms: conditions, bodies and
/// arms; layout per syn 1.
#[verifier::external_body]
fn expr_branch_items_events(e: &syn::Expr, out: &mut Vec<AstEvent>) {
    match e {
        syn::Expr::If(x) => if_items_events(x, out),
        syn::Expr::Match(x) => match_items_events(x, out),
        syn::Expr::ForLoop(x) => { expr_items_events(&x.expr, out); block_items_events(&x.body, out) },
        syn::Expr::While(x) => { expr_items_events(&x.cond, out); block_items_events(&x.body, out) },
        _ => expr_operand_items_events(e, out),
    }
}

/// Scans an `if` expression: condition, then-branch, and the else branch
/// (itself an expression for `else if` chains); layout per syn 1.
#[verifier::external_body]
fn if_items_events(x: &syn::ExprIf, out: &mut Vec<AstEvent>) {
    expr_items_events(&x.cond, out);
    block_items_events(&x.then_branch, out);
    if let Some((_, else_branch)) = &x.else_branch {
        expr_items_events(else_branch, out);
    }
}

/// Scans a `match` expression: the scrutinee and each arm's guard and
/// body; layout per syn 1.
#[verifier::external_body]
fn match_items_events(x: &syn::ExprMatch, out: &mut Vec<AstEvent>) {
    expr_items_events(&x.expr, out);
    for arm in &x.arms {
        if let Some((_, guard)) = &arm.guard {
            expr_items_events(guard, out);
        }
        expr_items_events(&arm.body, out);
    }
}

/// Single-operand expression forms, first group: recurses into the
/// operand; layout per syn 1.
#[verifier::external_body]
fn expr_operand_items_events(e: &syn::Expr, out: &mut Vec<AstEvent>) {
    match e {
        syn::Expr::Await(x) => expr_items_events(&x.base, out),
        syn::Expr::Box(x) => expr_items_events(&x.expr, out),
        syn::Expr::Cast(x) => expr_items_events(&x.expr, out),
        syn::Expr::Field(x) => expr_items_events(&x.base, out),
        syn::Expr::Group(x) => expr_items_events(&x.expr, out),
        syn::Expr::Let(x) => expr_items_events(&x.expr, out),
        _ => expr_wrapper_items_events(e, out),
    }
}

/// Single-operand expression forms, second group: recurses into the
/// operand; layout per syn 1.
#[verifier::external_body]
fn expr_wrapper_items_events(e: &syn::Expr, out: &mut Vec<AstEvent>) {
    match e {
        syn::Expr::Paren(x) => expr_items_events(&x.expr, out),
        syn::Expr::Reference(x) => expr_items_events(&x.expr, out),
        syn::Expr::Try(x) => expr_items_events(&x.expr, out),
        syn::Expr::Type(x) => expr_items_events(&x.expr, out),
        syn::Expr::Unary(x) => expr_items_events(&x.expr, out),
        _ => expr_pair_items_events(e, out),
    }
}

/// The two-operand expression forms: recurses into both operands; layout
/// per syn 1.
#[verifier::external_body]
fn expr_pair_items_events(e: &syn::Expr, out: &mut Vec<AstEvent>) {
    match e {
        syn::Expr::Assign(x) => { expr_items_events(&x.left, out); expr_items_events(&x.right, out) },
        syn::Expr::AssignOp(x) => { expr_items_events(&x.left, out); expr_items_events(&x.right, out) },
        syn::Expr::Binary(x) => { expr_items_events(&x.left, out); expr_items_events(&x.right, out) },
        syn::Expr::Index(x) => { expr_items_events(&x.expr, out); expr_items_events(&x.index, out) },
        syn::Expr::Repeat(x) => { expr_items_events(&x.expr, out); expr_items_events(&x.len, out) },
        _ => expr_list_items_events(e, out),
    }
}

/// The list-bearing expression forms: recurses into every element; layout
/// per syn 1.
#[verifier::external_body]
fn expr_list_items_events(e: &syn::Expr, out: &mut Vec<AstEvent>) {
    match e {
        syn::Expr::Array(x) => for el in &x.elems { expr_items_events(el, out) },
        syn::Expr::Tuple(x) => for el in &x.elems { expr_items_events(el, out) },
        syn::Expr::Call(x) => { expr_items_events(&x.func, out); for a in &x.args { expr_items_events(a, out) } },
        syn::Expr::MethodCall(x) => { expr_items_events(&x.receiver, out); for a in &x.args { expr_items_events(a, out) } },
        syn::Expr::Struct(x) => struct_items_events(x, out),
        _ => expr_option_items_events(e, out),
    }
}

/// Scans a struct expression: each field value and the functional-update
/// base; layout per syn 1.
#[verifier::external_body]
fn struct_items_events(x: &syn::ExprStruct, out: &mut Vec<AstEvent>) {
    for f in &x.fields {
        expr_items_events(&f.expr, out);
    }
    if let Some(rest) = &x.rest {
        expr_items_events(rest, out);
    }
}

/// The expression forms with an optional operand; literal, path and macro
/// forms carry no parsed items and end the scan. Layout per syn 1.
#[verifier::external_body]
fn expr_option_items_events(e: &syn::Expr, out: &mut Vec<AstEvent>) {
    match e {
        syn::Expr::Break(x) => if let Some(inner) = &x.expr { expr_items_events(inner, out) },
        syn::Expr::Return(x) => if let Some(inner) = &x.expr { expr_items_events(inner, out) },
        syn::Expr::Yield(x) => if let Some(inner) = &x.expr { expr_items_events(inner, out) },
        syn::Expr::Range(x) => range_items_events(x, out),
        _ => {},
    }
}

/// Scans a range expression's bounds; layout per syn 1.
#[verifier::external_body]
fn range_items_events(x: &syn::ExprRange, out: &mut Vec<AstEvent>) {
    if let Some(from) = &x.from {
        expr_items_events(from, out);
    }
    if let Some(to) = &x.to {
        expr_items_events(to, out);
    }
}

/// Converts one `impl` block: attributes, the token text of the implemented
/// type (relies on `quote::ToTokens`), the final segment of the trait path,
/// and its contents; layout per syn 1.
#[verifier::external_body]
fn impl_events(i: &syn::ItemImpl, out: &mut Vec<AstEvent>) {
    out.push(AstEvent::EnterImpl {
        attrs: attrs_model(&i.attrs),
        self_ty: i.self_ty.to_token_stream().to_string(),
        trait_name: impl_trait_name(i),
    });
    impl_items_events(&i.items, out);
    out.push(AstEvent::Leave);
}

/// The final segment of an impl's trait path, for `impl T for U`; layout
/// per syn 1.
#[verifier::external_body]
fn impl_trait_name(i: &syn::ItemImpl) -> Option<String> {
    i.trait_.as_ref().and_then(|(_, p, _)| p.segments.last().map(|s| s.ident.to_string()))
}

/// Converts an impl's methods and scans its associated-constant
/// initializers for nested items; layout per syn 1.
#[verifier::external_body]
fn impl_items_events(items: &[syn::ImplItem], out: &mut Vec<AstEvent>) {
    for item in items {
        match item {
            syn::ImplItem::Method(m) => fn_events(&m.attrs, &m.sig, &m.block, true, out),
            syn::ImplItem::Const(c) => expr_items_events(&c.expr, out),
            _ => {},
        }
    }
}

/// Converts one module: attributes, unraw'd identifier (relies on
/// `syn::ext::IdentExt::unraw`), whether it is external (`mod name;`), and
/// its content items; layout per syn 1.
#[verifier::external_body]
fn mod_events(m: &syn::ItemMod, out: &mut Vec<AstEvent>) {
    out.push(AstEvent::EnterMod {
        attrs: attrs_model(&m.attrs),
        ident: m.ident.unraw().to_string(),
        external: m.content.is_none(),
    });
    if let Some((_, items)) = &m.content {
        for item in items {
            item_events(item, out);
        }
    }
    out.push(AstEvent::Leave);
}

/// Converts attributes one for one; relies on `syn::Attribute::parse_meta`
/// for the structured meta form, absent where it does not parse.
#[verifier::external_body]
fn attrs_model(attrs: &[syn::Attribute]) -> Vec<AstAttr> {
    attrs.iter().map(
        |a| AstAttr {
            path: path_model(&a.path),
            meta: a.parse_meta().ok().map(|m| meta_model(&m)),
        },
    ).collect()
}

/// Tells the `syn::Meta` variants apart, one arm each; layout per syn 1.
#[verifier::external_body]
fn meta_model(m: &syn::Meta) -> AstMeta {
    match m {
        syn::Meta::Path(p) => AstMeta::MetaPath(path_model(p)),
        syn::Meta::List(l) => AstMeta::MetaList(
            path_model(&l.path),
            l.nested.iter().map(nested_model).collect(),
        ),
        syn::Meta::NameValue(nv) => AstMeta::MetaNameValue(path_model(&nv.path)),
    }
}

/// Tells the `syn::NestedMeta` variants apart, one arm each.
#[verifier::external_body]
fn nested_model(n: &syn::NestedMeta) -> AstMeta {
    match n {
        syn::NestedMeta::Meta(m) => meta_model(m),
        syn::NestedMeta::Lit(_) => AstMeta::MetaLit,
    }
}

/// Converts a `syn::Path` segment by segment: identifier text and whether
/// the segment carries an arguments production at all (as `Path::is_ident`
/// reads it: even empty angle brackets count as arguments); layout per
/// syn 1.
#[verifier::external_body]
fn path_model(p: &syn::Path) -> AstPath {
    AstPath {
        leading_colon: p.leading_colon.is_some(),
        segments: p.segments.iter().map(
            |s| AstSegment {
                ident: s.ident.to_string(),
                has_args: !matches!(s.arguments, syn::PathArguments::None),
            },
        ).collect(),
    }
}

/// Converts a `syn::ReturnType`: absent, a path type, or other, with the
/// type's token text (relies on `quote::ToTokens`).
#[verifier::external_body]
fn return_model(r: &syn::ReturnType) -> AstReturn {
    match r {
        syn::ReturnType::Default => AstReturn::Absent,
        syn::ReturnType::Type(_, ty) => {
            let tokens = ty.to_token_stream().to_string();
            match &**ty {
                syn::Type::Path(tp) => AstReturn::PathType(path_model(&tp.path), tokens),
                _ => AstReturn::Other(tokens),
            }
        },
    }
}

/// Reads a span's start position; relies on `proc_macro2::Span::start`
/// (feature `span-locations`): one-based line, zero-based column in
/// characters.
#[verifier::external_body]
fn span_model(s: proc_macro2::Span) -> AstSpan {
    AstSpan { line: s.start().line, column: s.start().column }
}

} // verus!
