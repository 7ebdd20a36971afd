//! A plain-data model of the parts of a parsed Rust file that mutation
//! discovery reads: paths, attributes and their meta items, return types,
//! and a flattened stream of enter/leave events over items.

use vstd::prelude::*;

use crate::mutate::MutationOp;
use crate::normalize::spec_normalize;
use crate::normalize::remove_excess_spaces;
use crate::text::str_eq;

verus! {

/// One segment of a syntactic path: its identifier and whether it carries
/// generic or parenthesized arguments.
pub struct AstSegment {
    pub ident: String,
    pub has_args: bool,
}

/// A syntactic path such as `mutants::skip` or `Result`.
pub struct AstPath {
    pub leading_colon: bool,
    pub segments: Vec<AstSegment>,
}

/// The parsed meta form of an attribute, e.g. `cfg(test)` or
/// `cfg_attr(test, mutants::skip)`. Literal arguments are kept only as
/// placeholders.
pub enum AstMeta {
    MetaPath(AstPath),
    MetaList(AstPath, Vec<AstMeta>),
    MetaNameValue(AstPath),
    MetaLit,
}

/// An attribute: its path, and its meta form where it has one.
pub struct AstAttr {
    pub path: AstPath,
    pub meta: Option<AstMeta>,
}

/// The return type of a function as discovery reads it: absent, a plain
/// path type, or anything else; the latter two keep their token text.
pub enum AstReturn {
    Absent,
    PathType(AstPath, String),
    Other(String),
}

/// Source position of a block's opening brace: one-based line, zero-based
/// column in characters.
#[derive(Clone, Copy, PartialEq, Eq, Structural)]
pub struct AstSpan {
    pub line: usize,
    pub column: usize,
}

/// Is `p` exactly the bare identifier `name`: no leading colon, one
/// segment, no arguments?
pub open spec fn spec_path_is_ident(p: &AstPath, name: Seq<char>) -> bool {
    !p.leading_colon && p.segments@.len() == 1 && !p.segments@[0].has_args
        && p.segments@[0].ident@ == name
}

pub fn path_is_ident(p: &AstPath, name: &str) -> (r: bool)
    ensures
        r == spec_path_is_ident(p, name@),
{
    !p.leading_colon && p.segments.len() == 1 && !p.segments[0].has_args && str_eq(
        p.segments[0].ident.as_str(),
        name,
    )
}

/// Does the path's final segment name `Result`?
pub open spec fn spec_path_is_result(p: &AstPath) -> bool {
    p.segments@.len() > 0 && p.segments@.last().ident@ == "Result"@
}

/// True if the path's last segment is `Result`; type arguments are not
/// inspected.
pub fn path_is_result(p: &AstPath) -> (r: bool)
    ensures
        r == spec_path_is_result(p),
{
    if p.segments.len() == 0 {
        return false;
    }
    str_eq(p.segments[p.segments.len() - 1].ident.as_str(), "Result")
}

/// Are the path's segment identifiers exactly `mutants`, `skip`?
pub open spec fn spec_path_is_mutants_skip(p: &AstPath) -> bool {
    p.segments@.len() == 2 && p.segments@[0].ident@ == "mutants"@ && p.segments@[1].ident@
        == "skip"@
}

pub fn path_is_mutants_skip(p: &AstPath) -> (r: bool)
    ensures
        r == spec_path_is_mutants_skip(p),
{
    p.segments.len() == 2 && str_eq(p.segments[0].ident.as_str(), "mutants") && str_eq(
        p.segments[1].ident.as_str(),
        "skip",
    )
}

/// Does any meta item in `ms`, at any depth, name `mutants::skip`?
pub open spec fn spec_metas_contain_skip(ms: Seq<AstMeta>) -> bool
    decreases ms,
{
    if ms.len() == 0 {
        false
    } else {
        spec_meta_is_skip_entry(ms[0]) || spec_metas_contain_skip(ms.skip(1))
    }
}

pub open spec fn spec_meta_is_skip_entry(m: AstMeta) -> bool
    decreases m,
{
    match m {
        AstMeta::MetaPath(p) => spec_path_is_mutants_skip(&p),
        AstMeta::MetaList(_, nested) => spec_metas_contain_skip(nested@),
        _ => false,
    }
}

fn meta_is_skip_entry(m: &AstMeta) -> (r: bool)
    ensures
        r == spec_meta_is_skip_entry(*m),
    decreases *m,
{
    match m {
        AstMeta::MetaPath(p) => path_is_mutants_skip(p),
        AstMeta::MetaList(_, nested) => {
            let n = nested.len();
            let mut i: usize = 0;
            let mut found = false;
            proof {
                assert(nested@.take(0) =~= Seq::<AstMeta>::empty());
                assert(nested@.skip(0) =~= nested@);
            }
            while i < n
                invariant
                    n == nested@.len(),
                    i <= n,
                    found == spec_metas_contain_skip(nested@.take(i as int)),
                    spec_metas_contain_skip(nested@) == (spec_metas_contain_skip(
                        nested@.take(i as int),
                    ) || spec_metas_contain_skip(nested@.skip(i as int))),
                    *m is MetaList && m->MetaList_1 == *nested,
                decreases n - i,
            {
                proof {
                    let ghost vv = m->MetaList_1;
                    assert(vv == *nested);
                    assert(decreases_to!(*m => m->MetaList_1));
                    assert(decreases_to!(vv => vv@));
                    assert(decreases_to!(vv@ => vv@[i as int]));
                    assert(decreases_to!(*m => nested@[i as int]));
                }
                let e = meta_is_skip_entry(&nested[i]);
                proof {
                    lemma_metas_split(nested@, i as int);
                }
                found = found || e;
                i += 1;
            }
            proof {
                assert(nested@.take(n as int) =~= nested@);
                assert(nested@.skip(n as int) =~= Seq::<AstMeta>::empty());
            }
            found
        },
        _ => false,
    }
}

proof fn lemma_metas_split(ms: Seq<AstMeta>, i: int)
    requires
        0 <= i < ms.len(),
    ensures
        spec_metas_contain_skip(ms.take(i + 1)) == (spec_metas_contain_skip(ms.take(i))
            || spec_meta_is_skip_entry(ms[i])),
        spec_metas_contain_skip(ms.skip(i)) == (spec_meta_is_skip_entry(ms[i])
            || spec_metas_contain_skip(ms.skip(i + 1))),
    decreases i,
{
    assert(ms.skip(i)[0] == ms[i]);
    assert(ms.skip(i).skip(1) =~= ms.skip(i + 1));
    if i == 0 {
        assert(ms.take(0) =~= Seq::<AstMeta>::empty());
        assert(ms.take(1)[0] == ms[0]);
        assert(ms.take(1).skip(1) =~= Seq::<AstMeta>::empty());
    } else {
        lemma_metas_split(ms.drop_first(), i - 1);
        assert(ms.take(i + 1)[0] == ms[0]);
        assert(ms.take(i)[0] == ms[0]);
        assert(ms.take(i + 1).skip(1) =~= ms.drop_first().take(i));
        assert(ms.take(i).skip(1) =~= ms.drop_first().take(i - 1));
        assert(ms.drop_first()[i - 1] == ms[i]);
    }
}

/// Is the attribute `#[test]`?
pub open spec fn spec_attr_is_test(a: &AstAttr) -> bool {
    spec_path_is_ident(&a.path, "test"@)
}

pub fn attr_is_test(a: &AstAttr) -> (r: bool)
    ensures
        r == spec_attr_is_test(a),
{
    path_is_ident(&a.path, "test")
}

/// Is the attribute `#[cfg(test)]`: path `cfg`, with a meta list that
/// contains the bare path `test`?
pub open spec fn spec_attr_is_cfg_test(a: &AstAttr) -> bool {
    spec_path_is_ident(&a.path, "cfg"@) && match a.meta {
        Some(AstMeta::MetaList(_, nested)) => spec_metas_contain_test(nested@),
        _ => false,
    }
}

pub open spec fn spec_metas_contain_test(ms: Seq<AstMeta>) -> bool
    decreases ms,
{
    if ms.len() == 0 {
        false
    } else {
        (match ms[0] {
            AstMeta::MetaPath(p) => spec_path_is_ident(&p, "test"@),
            _ => false,
        }) || spec_metas_contain_test(ms.skip(1))
    }
}

proof fn lemma_metas_test_skip(ms: Seq<AstMeta>, i: int)
    requires
        0 <= i < ms.len(),
    ensures
        spec_metas_contain_test(ms.skip(i)) == ((match ms[i] {
            AstMeta::MetaPath(p) => spec_path_is_ident(&p, "test"@),
            _ => false,
        }) || spec_metas_contain_test(ms.skip(i + 1))),
{
    assert(ms.skip(i)[0] == ms[i]);
    assert(ms.skip(i).skip(1) =~= ms.skip(i + 1));
}

#[verifier::loop_isolation(false)]
pub fn attr_is_cfg_test(a: &AstAttr) -> (r: bool)
    ensures
        r == spec_attr_is_cfg_test(a),
{
    if !path_is_ident(&a.path, "cfg") {
        return false;
    }
    match &a.meta {
        Some(AstMeta::MetaList(_, nested)) => {
            let n = nested.len();
            let mut i: usize = 0;
            proof {
                assert(nested@.skip(0) =~= nested@);
            }
            while i < n
                invariant
                    n == nested@.len(),
                    i <= n,
                    spec_metas_contain_test(nested@) == spec_metas_contain_test(
                        nested@.skip(i as int),
                    ),
                decreases n - i,
            {
                proof {
                    lemma_metas_test_skip(nested@, i as int);
                }
                match &nested[i] {
                    AstMeta::MetaPath(p) => {
                        if path_is_ident(p, "test") {
                            proof {
                                assert(match nested@[i as int] {
                                    AstMeta::MetaPath(pp) => spec_path_is_ident(&pp, "test"@),
                                    _ => false,
                                });
                                assert(spec_metas_contain_test(nested@));
                                assert(a.meta matches Some(m2) && m2 is MetaList
                                    && m2->MetaList_1 == *nested);
                                assert(spec_attr_is_cfg_test(a));
                            }
                            return true;
                        }
                    },
                    _ => {},
                }
                i += 1;
            }
            proof {
                assert(nested@.skip(n as int) =~= Seq::<AstMeta>::empty());
            }
            false
        },
        _ => false,
    }
}

/// Does the attribute mark the node to be skipped: `mutants::skip` itself,
/// or nested at any depth inside its meta list (e.g. under `cfg_attr`)?
pub open spec fn spec_attr_is_mutants_skip(a: &AstAttr) -> bool {
    spec_path_is_mutants_skip(&a.path) || match a.meta {
        Some(AstMeta::MetaList(_, nested)) => spec_metas_contain_skip(nested@),
        _ => false,
    }
}

pub fn attr_is_mutants_skip(a: &AstAttr) -> (r: bool)
    ensures
        r == spec_attr_is_mutants_skip(a),
{
    if path_is_mutants_skip(&a.path) {
        return true;
    }
    match &a.meta {
        Some(m) => match m {
            AstMeta::MetaList(_, _) => meta_is_skip_entry(m),
            _ => false,
        },
        _ => false,
    }
}

/// Do any of the attributes exclude this node (and everything inside it)
/// from mutation: `#[cfg(test)]`, `#[test]`, or a `mutants::skip` marker?
pub open spec fn spec_attrs_excluded(attrs: Seq<AstAttr>) -> bool {
    exists|i: int|
        0 <= i < attrs.len() && (spec_attr_is_cfg_test(&attrs[i]) || spec_attr_is_test(&attrs[i])
            || spec_attr_is_mutants_skip(&attrs[i]))
}

pub fn attrs_excluded(attrs: &Vec<AstAttr>) -> (r: bool)
    ensures
        r == spec_attrs_excluded(attrs@),
{
    let n = attrs.len();
    let mut i: usize = 0;
    while i < n
        invariant
            n == attrs@.len(),
            i <= n,
            forall|j: int|
                0 <= j < i ==> !(spec_attr_is_cfg_test(&attrs@[j]) || spec_attr_is_test(&attrs@[j])
                    || spec_attr_is_mutants_skip(&attrs@[j])),
        decreases n - i,
    {
        if attr_is_cfg_test(&attrs[i]) || attr_is_test(&attrs[i]) || attr_is_mutants_skip(
            &attrs[i],
        ) {
            return true;
        }
        i += 1;
    }
    false
}

/// The mutation operators for a function with the given return type.
pub open spec fn spec_ops_for_return_type(ret: &AstReturn) -> Seq<MutationOp> {
    match ret {
        AstReturn::Absent => seq![MutationOp::Unit],
        AstReturn::PathType(p, _) => {
            if spec_path_is_ident(p, "bool"@) {
                seq![MutationOp::True, MutationOp::False]
            } else if spec_path_is_ident(p, "String"@) {
                seq![MutationOp::EmptyString, MutationOp::Xyzzy]
            } else if spec_path_is_result(p) {
                seq![MutationOp::OkDefault]
            } else {
                seq![MutationOp::Default]
            }
        },
        AstReturn::Other(_) => seq![MutationOp::Default],
    }
}

pub fn ops_for_return_type(ret: &AstReturn) -> (r: Vec<MutationOp>)
    ensures
        r@ == spec_ops_for_return_type(ret),
{
    let mut ops: Vec<MutationOp> = Vec::new();
    match ret {
        AstReturn::Absent => {
            ops.push(MutationOp::Unit);
        },
        AstReturn::PathType(p, _) => {
            if path_is_ident(p, "bool") {
                ops.push(MutationOp::True);
                ops.push(MutationOp::False);
            } else if path_is_ident(p, "String") {
                ops.push(MutationOp::EmptyString);
                ops.push(MutationOp::Xyzzy);
            } else if path_is_result(p) {
                ops.push(MutationOp::OkDefault);
            } else {
                ops.push(MutationOp::Default);
            }
        },
        AstReturn::Other(_) => {
            ops.push(MutationOp::Default);
        },
    }
    proof {
        assert(ops@ =~= spec_ops_for_return_type(ret));
    }
    ops
}

/// The display text of a return type: empty when absent, else the arrow
/// followed by the normalized type tokens.
pub open spec fn spec_return_type_text(ret: &AstReturn) -> Seq<char> {
    match ret {
        AstReturn::Absent => Seq::<char>::empty(),
        AstReturn::PathType(_, tokens) => "-> "@.add(spec_normalize(tokens@)),
        AstReturn::Other(tokens) => "-> "@.add(spec_normalize(tokens@)),
    }
}

pub fn return_type_text(ret: &AstReturn) -> (r: String)
    ensures
        r@ == spec_return_type_text(ret),
{
    match ret {
        AstReturn::Absent => String::new(),
        AstReturn::PathType(_, tokens) => {
            let mut s = String::from_str("-> ");
            let norm = remove_excess_spaces(tokens.as_str());
            s.append(norm.as_str());
            s
        },
        AstReturn::Other(tokens) => {
            let mut s = String::from_str("-> ");
            let norm = remove_excess_spaces(tokens.as_str());
            s.append(norm.as_str());
            s
        },
    }
}

/// One event in the flattened traversal of a file's items, in source order.
/// Every `Enter` event is paired with a later `Leave` event; the events in
/// between belong to items nested inside the entered one.
pub enum AstEvent {
    /// A free function or an `impl` method with its attributes, name,
    /// return type, whether its body block is empty, and the position of
    /// the body's opening brace.
    EnterFn {
        attrs: Vec<AstAttr>,
        ident: String,
        output: AstReturn,
        block_empty: bool,
        span: AstSpan,
        method: bool,
    },
    /// An `impl` block: its attributes, the token text of the implemented
    /// type, and the final segment of the trait path for `impl T for U`.
    EnterImpl { attrs: Vec<AstAttr>, self_ty: String, trait_name: Option<String> },
    /// A module: `mod name { .. }` (inline) or `mod name;` (external).
    EnterMod { attrs: Vec<AstAttr>, ident: String, external: bool },
    /// Leaves the innermost entered item.
    Leave,
}

} // verus!
