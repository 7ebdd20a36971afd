//! Mutation discovery: walks the event stream of each parsed source file,
//! maintaining the namespace stack, and emits a mutant for every eligible
//! function body; follows external `mod` statements to further files.

use vstd::prelude::*;

use crate::ast::{
    attrs_excluded, ops_for_return_type, return_type_text, spec_attrs_excluded,
    spec_ops_for_return_type, spec_return_type_text, AstEvent, AstReturn, AstSpan,
};
use crate::mutate::{Mutant, MutantSpan, MutantV, SourceFile, SourceFileV, spec_mutant_wf};
use crate::normalize::{remove_excess_spaces, spec_normalize};
use crate::options::{spec_glob_match, spec_regex_match, NameFilter, Options};
use crate::parse::{parse_events, spec_parse_events};
use crate::path::{
    spec_ends_with_component, spec_parent, spec_path_join, spec_without_extension,
    TreeRelativePath,
};
use crate::source::{spec_lookup, TreeFiles};
use crate::text::{chars_to_string, join_parts_from, spec_join, str_eq, str_to_chars};
use crate::MutantsError;

verus! {

/// The fully qualified name denoted by a namespace stack: its elements
/// joined with `::`.
pub open spec fn spec_full_name(stack: Seq<Seq<char>>) -> Seq<char> {
    spec_join(stack, "::"@)
}

/// Joins the namespace stack with `::`, as recorded in each mutant's
/// `full_function_name`.
pub fn full_function_name(stack: &Vec<String>) -> (r: String)
    ensures
        r@ == spec_full_name(stack@.map_values(|s: String| s@)),
{
    let mut parts: Vec<Vec<char>> = Vec::new();
    let n = stack.len();
    let mut i: usize = 0;
    while i < n
        invariant
            n == stack@.len(),
            i <= n,
            parts@.len() == i,
            forall|j: int| 0 <= j < i ==> parts@[j]@ == stack@[j]@,
        decreases n - i,
    {
        parts.push(str_to_chars(stack[i].as_str()));
        i += 1;
    }
    proof {
        assert(parts@.map_values(|p: Vec<char>| p@) =~= stack@.map_values(|s: String| s@));
    }
    let sep = str_to_chars("::");
    let joined = join_parts_from(&parts, 0, &sep);
    proof {
        assert(parts@.map_values(|p: Vec<char>| p@).skip(0) =~= parts@.map_values(
            |p: Vec<char>| p@,
        ));
    }
    chars_to_string(&joined)
}

/// The start index of one-based line `line` within `code`, scanning from
/// index `i`.
pub open spec fn spec_line_start(code: Seq<char>, i: int, line: nat) -> Option<int>
    decreases code.len() - i,
{
    if line <= 1 {
        Some(i)
    } else if i < 0 || i >= code.len() {
        None
    } else if code[i] == '\n' {
        spec_line_start(code, i + 1, (line - 1) as nat)
    } else {
        spec_line_start(code, i + 1, line)
    }
}

/// The index in `code` of the character at one-based line `line` and
/// zero-based column `column`; `None` when that position is outside the
/// text.
pub open spec fn spec_span_offset(code: Seq<char>, line: nat, column: nat) -> Option<int> {
    match spec_line_start(code, 0, line) {
        Some(ls) => if ls + column < code.len() {
            Some(ls + column)
        } else {
            None
        },
        None => None,
    }
}

fn line_start(code: &Vec<char>, i: usize, line: usize) -> (r: Option<usize>)
    requires
        i <= code@.len(),
    ensures
        match r {
            Some(o) => spec_line_start(code@, i as int, line as nat) == Some(o as int) && o
                <= code@.len(),
            None => spec_line_start(code@, i as int, line as nat) is None,
        },
    decreases code@.len() - i,
{
    if line <= 1 {
        Some(i)
    } else if i >= code.len() {
        None
    } else if code[i] == '\n' {
        line_start(code, i + 1, line - 1)
    } else {
        line_start(code, i + 1, line)
    }
}

/// Finds the character offset of `line`/`column` in `code`; `None` when the
/// position lies outside the text. A returned offset is always a valid
/// index.
pub fn span_offset(code: &Vec<char>, line: usize, column: usize) -> (r: Option<usize>)
    ensures
        match r {
            Some(o) => spec_span_offset(code@, line as nat, column as nat) == Some(o as int) && o
                < code@.len(),
            None => spec_span_offset(code@, line as nat, column as nat) is None,
        },
{
    match line_start(code, 0, line) {
        Some(ls) => {
            if column < code.len() - ls {
                Some(ls + column)
            } else {
                None
            }
        },
        None => None,
    }
}

/// The directory in which an external `mod` of this file lives: next to the
/// file for `mod.rs` / `lib.rs` / `main.rs`, else in the directory named
/// after the file.
pub open spec fn spec_mod_dir(path: Seq<char>) -> Seq<char> {
    if spec_ends_with_component(path, "mod.rs"@) || spec_ends_with_component(path, "lib.rs"@)
        || spec_ends_with_component(path, "main.rs"@) {
        spec_parent(path)
    } else {
        spec_without_extension(path)
    }
}

/// Resolution of `mod name;` in the file at `file_path` against the tree
/// snapshot: `<dir>/<name>.rs` first, then `<dir>/<name>/mod.rs`; the first
/// that exists.
pub open spec fn spec_resolve_mod(
    file_path: Seq<char>,
    name: Seq<char>,
    tree: Seq<(Seq<char>, Seq<char>)>,
) -> Option<Seq<char>> {
    let dir = spec_mod_dir(file_path);
    let cand1 = spec_path_join(dir, name.add(".rs"@));
    let cand2 = spec_path_join(dir, name.add("/mod.rs"@));
    if spec_lookup(tree, cand1) is Some {
        Some(cand1)
    } else if spec_lookup(tree, cand2) is Some {
        Some(cand2)
    } else {
        None
    }
}

fn resolve_mod(file_path: &TreeRelativePath, name: &str, tree: &TreeFiles) -> (r: Option<
    TreeRelativePath,
>)
    ensures
        match r {
            Some(p) => spec_resolve_mod(file_path@, name@, tree@) == Some(p@),
            None => spec_resolve_mod(file_path@, name@, tree@) is None,
        },
{
    let dir = if file_path.ends_with_component("mod.rs") || file_path.ends_with_component("lib.rs")
        || file_path.ends_with_component("main.rs") {
        file_path.parent()
    } else {
        file_path.without_extension()
    };
    let mut n1 = str_to_chars(name);
    let mut ext1 = str_to_chars(".rs");
    n1.append(&mut ext1);
    proof {
        assert(n1@ =~= name@.add(".rs"@));
    }
    let cand1 = dir.join(chars_to_string(&n1).as_str());
    if tree.contains(cand1.chars()) {
        return Some(cand1);
    }
    let mut n2 = str_to_chars(name);
    let mut ext2 = str_to_chars("/mod.rs");
    n2.append(&mut ext2);
    proof {
        assert(n2@ =~= name@.add("/mod.rs"@));
    }
    let cand2 = dir.join(chars_to_string(&n2).as_str());
    if tree.contains(cand2.chars()) {
        return Some(cand2);
    }
    None
}

/// The namespace name an `impl` block contributes before normalization:
/// `<impl Trait for Type>` with the type text normalized, or the bare type
/// text.
pub open spec fn spec_impl_raw_name(self_ty: Seq<char>, trait_name: Option<String>) -> Seq<char> {
    match trait_name {
        Some(t) => "<impl "@.add(t@).add(" for "@).add(spec_normalize(self_ty)).add(">"@),
        None => self_ty,
    }
}

fn impl_raw_name(self_ty: &String, trait_name: &Option<String>) -> (r: String)
    ensures
        r@ == spec_impl_raw_name(self_ty@, *trait_name),
{
    match trait_name {
        Some(t) => {
            let mut v = str_to_chars("<impl ");
            let mut tv = str_to_chars(t.as_str());
            v.append(&mut tv);
            let mut forv = str_to_chars(" for ");
            v.append(&mut forv);
            let norm = remove_excess_spaces(self_ty.as_str());
            let mut normv = str_to_chars(norm.as_str());
            v.append(&mut normv);
            v.push('>');
            proof {
                reveal_strlit(">");
                assert(">"@ =~= seq!['>']);
                assert(v@ =~= "<impl "@.add(t@).add(" for "@).add(spec_normalize(self_ty@)).add(
                    ">"@,
                ));
            }
            chars_to_string(&v)
        },
        None => {
            let mut v = str_to_chars(self_ty.as_str());
            chars_to_string(&v)
        },
    }
}

/// The mutants one eligible function contributes: one per operator for its
/// return type, named by the stack after its own name is pushed; none when
/// its brace position lies outside the file text.
pub open spec fn spec_fn_mutants(
    file: SourceFileV,
    stack: Seq<Seq<char>>,
    output: AstReturn,
    span: AstSpan,
) -> Seq<MutantV> {
    match spec_span_offset(file.code, span.line as nat, span.column as nat) {
        Some(off) => spec_ops_for_return_type(&output).map_values(
            |op: crate::mutate::MutationOp| MutantV {
                file: file,
                op: op,
                name: spec_full_name(stack),
                return_type: spec_return_type_text(&output),
                line: span.line as nat,
                column: span.column as nat,
                offset: off as nat,
            },
        ),
        None => Seq::<MutantV>::empty(),
    }
}

/// Appends the mutants for one function to `mutants`.
#[verifier::loop_isolation(false)]
fn collect_fn_mutants(
    mutants: &mut Vec<Mutant>,
    source_file: &SourceFile,
    code_chars: &Vec<char>,
    stack: &Vec<String>,
    output: &AstReturn,
    span: AstSpan,
)
    requires
        code_chars@ == source_file@.code,
    ensures
        final(mutants)@.map_values(|m: Mutant| m@) == old(mutants)@.map_values(|m: Mutant| m@).add(
            spec_fn_mutants(
                source_file@,
                stack@.map_values(|s: String| s@),
                *output,
                span,
            ),
        ),
{
    let ghost extra = spec_fn_mutants(
        source_file@,
        stack@.map_values(|s: String| s@),
        *output,
        span,
    );
    match span_offset(code_chars, span.line, span.column) {
        None => {
            proof {
                assert(final(mutants)@.map_values(|m: Mutant| m@) =~= old(mutants)@.map_values(
                    |m: Mutant| m@,
                ).add(extra));
            }
        },
        Some(off) => {
            let name = full_function_name(stack);
            let rt = return_type_text(output);
            let ops = ops_for_return_type(output);
            let n = ops.len();
            let ghost base = old(mutants)@.len();
            let mut i: usize = 0;
            while i < n
                invariant
                    n == ops@.len(),
                    i <= n,
                    extra.len() == n,
                    mutants@.len() == base + i,
                    forall|j: int| 0 <= j < base ==> mutants@[j] == old(mutants)@[j],
                    forall|j: int| 0 <= j < i ==> mutants@[base + j]@ == extra[j],
                decreases n - i,
            {
                let m = Mutant {
                    source_file: source_file.clone(),
                    op: ops[i],
                    full_function_name: name.clone(),
                    return_type_text: rt.clone(),
                    span: MutantSpan { line: span.line, column: span.column, offset: off },
                };
                proof {
                    assert(m@ == extra[i as int]);
                }
                mutants.push(m);
                i += 1;
            }
            proof {
                assert(mutants@.map_values(|m: Mutant| m@) =~= old(mutants)@.map_values(
                    |m: Mutant| m@,
                ).add(extra));
            }
        },
    }
}

} // verus!

verus! {

/// The visitor's state while scanning a file's event stream: the namespace
/// stack, how many levels deep it is inside an excluded (suppressed)
/// subtree, the accumulated mutants and discovered module files, and the
/// names of external modules that resolved to no file.
pub ghost struct VisitState {
    pub stack: Seq<Seq<char>>,
    pub suppress: nat,
    pub mutants: Seq<MutantV>,
    pub more_files: Seq<Seq<char>>,
    pub unresolved: Seq<Seq<char>>,
}

/// The visitor's initial state.
pub open spec fn spec_visit_init() -> VisitState {
    VisitState {
        stack: Seq::<Seq<char>>::empty(),
        suppress: 0,
        mutants: Seq::<MutantV>::empty(),
        more_files: Seq::<Seq<char>>::empty(),
        unresolved: Seq::<Seq<char>>::empty(),
    }
}

/// One step of the visitor: the effect of one event on the state. Inside a
/// suppressed subtree only the depth is tracked. A function pushes its
/// normalized name and then contributes its mutants; an excluded node, a
/// `new` method, an empty body, or a `Default` impl suppresses its whole
/// subtree; an external `mod` contributes the file it resolves to, or its
/// name to the unresolved list when no file exists.
pub open spec fn spec_visit_step(
    st: VisitState,
    ev: AstEvent,
    file: SourceFileV,
    tree: Seq<(Seq<char>, Seq<char>)>,
) -> VisitState {
    if st.suppress > 0 {
        match ev {
            AstEvent::Leave => VisitState { suppress: (st.suppress - 1) as nat, ..st },
            _ => VisitState { suppress: st.suppress + 1, ..st },
        }
    } else {
        match ev {
            AstEvent::EnterFn { attrs, ident, output, block_empty, span, method } => {
                if spec_attrs_excluded(attrs@) || (method && ident@ == "new"@) || block_empty {
                    VisitState { suppress: 1, ..st }
                } else {
                    let stack2 = st.stack.push(spec_normalize(ident@));
                    VisitState {
                        stack: stack2,
                        suppress: 0,
                        mutants: st.mutants.add(spec_fn_mutants(file, stack2, output, span)),
                        more_files: st.more_files,
                        unresolved: st.unresolved,
                    }
                }
            },
            AstEvent::EnterImpl { attrs, self_ty, trait_name } => {
                if spec_attrs_excluded(attrs@) || (trait_name matches Some(t) && t@
                    == "Default"@) {
                    VisitState { suppress: 1, ..st }
                } else {
                    VisitState {
                        stack: st.stack.push(
                            spec_normalize(spec_impl_raw_name(self_ty@, trait_name)),
                        ),
                        ..st
                    }
                }
            },
            AstEvent::EnterMod { attrs, ident, external } => {
                if spec_attrs_excluded(attrs@) {
                    VisitState { suppress: 1, ..st }
                } else {
                    let more2 = if external {
                        match spec_resolve_mod(file.path, ident@, tree) {
                            Some(p) => st.more_files.push(p),
                            None => st.more_files,
                        }
                    } else {
                        st.more_files
                    };
                    let unres2 = if external && spec_resolve_mod(file.path, ident@, tree)
                        is None {
                        st.unresolved.push(ident@)
                    } else {
                        st.unresolved
                    };
                    VisitState {
                        stack: st.stack.push(spec_normalize(ident@)),
                        suppress: 0,
                        mutants: st.mutants,
                        more_files: more2,
                        unresolved: unres2,
                    }
                }
            },
            AstEvent::Leave => {
                if st.stack.len() > 0 {
                    VisitState { stack: st.stack.drop_last(), ..st }
                } else {
                    st
                }
            },
        }
    }
}

/// The visitor's state after scanning `events` from state `st`.
pub open spec fn spec_visit_from(
    st: VisitState,
    events: Seq<AstEvent>,
    file: SourceFileV,
    tree: Seq<(Seq<char>, Seq<char>)>,
) -> VisitState
    decreases events.len(),
{
    if events.len() == 0 {
        st
    } else {
        spec_visit_from(spec_visit_step(st, events[0], file, tree), events.skip(1), file, tree)
    }
}

proof fn lemma_line_start_bounds(code: Seq<char>, i: int, line: nat)
    requires
        0 <= i <= code.len(),
    ensures
        spec_line_start(code, i, line) matches Some(o) ==> i <= o <= code.len(),
    decreases code.len() - i,
{
    if line <= 1 {
    } else if i >= code.len() {
    } else {
        lemma_line_start_bounds(code, i + 1, (line - 1) as nat);
        lemma_line_start_bounds(code, i + 1, line);
    }
}

/// Every mutant a single function contributes records an offset that is a
/// valid index into the file's text.
pub proof fn lemma_fn_mutants_wf(
    file: SourceFileV,
    stack: Seq<Seq<char>>,
    output: AstReturn,
    span: AstSpan,
)
    ensures
        forall|j: int|
            0 <= j < spec_fn_mutants(file, stack, output, span).len() ==> spec_mutant_wf(
                #[trigger] spec_fn_mutants(file, stack, output, span)[j],
            ),
{
    lemma_line_start_bounds(file.code, 0, span.line as nat);
}

} // verus!

verus! {

/// The visitor state denoted by the executable state pieces.
pub open spec fn st_of(
    stack: Seq<String>,
    suppress: nat,
    mutants: Seq<Mutant>,
    more: Seq<TreeRelativePath>,
    unres: Seq<String>,
) -> VisitState {
    VisitState {
        stack: stack.map_values(|s: String| s@),
        suppress: suppress,
        mutants: mutants.map_values(|m: Mutant| m@),
        more_files: more.map_values(|p: TreeRelativePath| p@),
        unresolved: unres.map_values(|s: String| s@),
    }
}

/// Scans a file's event stream and returns its mutants, the files its
/// external `mod` statements resolve to, and the names of external modules
/// that resolved to no file, exactly as the visitor state machine
/// describes.
#[verifier::loop_isolation(false)]
pub fn visit_events(
    events: &Vec<AstEvent>,
    source_file: &SourceFile,
    code_chars: &Vec<char>,
    tree: &TreeFiles,
) -> (r: (Vec<Mutant>, Vec<TreeRelativePath>, Vec<String>))
    requires
        code_chars@ == source_file@.code,
    ensures
        r.0@.map_values(|m: Mutant| m@) == spec_visit_from(
            spec_visit_init(),
            events@,
            source_file@,
            tree@,
        ).mutants,
        r.1@.map_values(|p: TreeRelativePath| p@) == spec_visit_from(
            spec_visit_init(),
            events@,
            source_file@,
            tree@,
        ).more_files,
        r.2@.map_values(|s: String| s@) == spec_visit_from(
            spec_visit_init(),
            events@,
            source_file@,
            tree@,
        ).unresolved,
{
    let ghost goal = spec_visit_from(spec_visit_init(), events@, source_file@, tree@);
    let mut stack: Vec<String> = Vec::new();
    let mut suppress: usize = 0;
    let mut mutants: Vec<Mutant> = Vec::new();
    let mut more: Vec<TreeRelativePath> = Vec::new();
    let mut unres: Vec<String> = Vec::new();
    let n = events.len();
    let mut i: usize = 0;
    proof {
        assert(events@.skip(0) =~= events@);
        assert(stack@.map_values(|s: String| s@) =~= Seq::<Seq<char>>::empty());
        assert(mutants@.map_values(|m: Mutant| m@) =~= Seq::<MutantV>::empty());
        assert(more@.map_values(|p: TreeRelativePath| p@) =~= Seq::<Seq<char>>::empty());
        assert(unres@.map_values(|s: String| s@) =~= Seq::<Seq<char>>::empty());
    }
    while i < n
        invariant
            i <= n,
            suppress <= i,
            goal == spec_visit_from(
                st_of(stack@, suppress as nat, mutants@, more@, unres@),
                events@.skip(i as int),
                source_file@,
                tree@,
            ),
        decreases n - i,
    {
        let ghost cur = st_of(stack@, suppress as nat, mutants@, more@, unres@);
        let ghost evv = events@[i as int];
        proof {
            assert(events@.skip(i as int)[0] == evv);
            assert(events@.skip(i as int).skip(1) =~= events@.skip(i as int + 1));
        }
        let ev = &events[i];
        if suppress > 0 {
            match ev {
                AstEvent::Leave => {
                    suppress -= 1;
                },
                _ => {
                    suppress += 1;
                },
            }
            proof {
                assert(st_of(stack@, suppress as nat, mutants@, more@, unres@) == spec_visit_step(
                    cur,
                    evv,
                    source_file@,
                    tree@,
                ));
            }
        } else {
            match ev {
                AstEvent::EnterFn { attrs, ident, output, block_empty, span, method } => {
                    if attrs_excluded(attrs) || (*method && str_eq(ident.as_str(), "new"))
                        || *block_empty {
                        suppress = 1;
                    } else {
                        stack.push(remove_excess_spaces(ident.as_str()));
                        proof {
                            assert(stack@.map_values(|s: String| s@) =~= cur.stack.push(
                                spec_normalize(ident@),
                            ));
                        }
                        collect_fn_mutants(
                            &mut mutants,
                            source_file,
                            code_chars,
                            &stack,
                            output,
                            *span,
                        );
                    }
                },
                AstEvent::EnterImpl { attrs, self_ty, trait_name } => {
                    let is_default = match trait_name {
                        Some(t) => str_eq(t.as_str(), "Default"),
                        None => false,
                    };
                    if attrs_excluded(attrs) || is_default {
                        suppress = 1;
                    } else {
                        let raw = impl_raw_name(self_ty, trait_name);
                        stack.push(remove_excess_spaces(raw.as_str()));
                        proof {
                            assert(stack@.map_values(|s: String| s@) =~= cur.stack.push(
                                spec_normalize(spec_impl_raw_name(self_ty@, *trait_name)),
                            ));
                        }
                    }
                },
                AstEvent::EnterMod { attrs, ident, external } => {
                    if attrs_excluded(attrs) {
                        suppress = 1;
                    } else {
                        if *external {
                            match resolve_mod(
                                &source_file.tree_relative_path,
                                ident.as_str(),
                                tree,
                            ) {
                                Some(p) => {
                                    let ghost pv = p@;
                                    more.push(p);
                                    proof {
                                        assert(more@.map_values(|p2: TreeRelativePath| p2@)
                                            =~= cur.more_files.push(pv));
                                    }
                                },
                                None => {
                                    unres.push(ident.clone());
                                    proof {
                                        assert(unres@.map_values(|s: String| s@)
                                            =~= cur.unresolved.push(ident@));
                                    }
                                },
                            }
                        }
                        stack.push(remove_excess_spaces(ident.as_str()));
                        proof {
                            assert(stack@.map_values(|s: String| s@) =~= cur.stack.push(
                                spec_normalize(ident@),
                            ));
                        }
                    }
                },
                AstEvent::Leave => {
                    if stack.len() > 0 {
                        let ghost sm = stack@.map_values(|s: String| s@);
                        let _ = stack.pop();
                        proof {
                            assert(stack@.map_values(|s: String| s@) =~= sm.drop_last());
                        }
                    }
                },
            }
            proof {
                assert(st_of(stack@, suppress as nat, mutants@, more@, unres@) == spec_visit_step(
                    cur,
                    evv,
                    source_file@,
                    tree@,
                ));
            }
        }
        i += 1;
    }
    proof {
        assert(events@.skip(n as int) =~= Seq::<AstEvent>::empty());
    }
    (mutants, more, unres)
}

} // verus!

verus! {

/// The outcome of visiting one file: `None` when the text does not parse,
/// else the file's mutants, the files its `mod` statements resolve to, and
/// the names of its external modules that resolved to no file.
pub open spec fn spec_walk_file(file: SourceFileV, tree: Seq<(Seq<char>, Seq<char>)>) -> Option<
    (Seq<MutantV>, Seq<Seq<char>>, Seq<Seq<char>>),
> {
    match spec_parse_events(file.code) {
        Some(events) => {
            let fin = spec_visit_from(spec_visit_init(), events@, file, tree);
            Some((fin.mutants, fin.more_files, fin.unresolved))
        },
        None => None,
    }
}

/// Finds all possible mutants in one source file.
///
/// Returns the mutants found, the further files its external `mod`
/// statements resolve to, and the unresolved external module names; an
/// error when the file does not parse as Rust.
pub fn walk_file(source_file: &SourceFile, tree: &TreeFiles) -> (r: Result<
    (Vec<Mutant>, Vec<TreeRelativePath>, Vec<String>),
    MutantsError,
>)
    ensures
        match r {
            Ok(p) => ({
                &&& spec_walk_file(source_file@, tree@) matches Some(sp)
                    && p.0@.map_values(|m: Mutant| m@) == sp.0
                    && p.1@.map_values(|q: TreeRelativePath| q@) == sp.1
                    && p.2@.map_values(|s: String| s@) == sp.2
                &&& forall|j: int|
                    0 <= j < p.0@.len() ==> spec_mutant_wf(#[trigger] p.0@[j]@)
                        && p.0@[j]@.file == source_file@
            }),
            Err(e) => spec_walk_file(source_file@, tree@) is None && (e matches
                MutantsError::ParseFailed(q) && q@ == source_file@.path),
        },
{
    let code_chars = str_to_chars(source_file.code.as_str());
    match parse_events(source_file.code.as_str()) {
        None => Err(MutantsError::ParseFailed(source_file.tree_relative_path.as_string())),
        Some(events) => {
            let (mutants, more, unresolved) = visit_events(&events, source_file, &code_chars, tree);
            proof {
                lemma_visit_mutants_props(
                    spec_visit_init(),
                    events@,
                    source_file@,
                    tree@,
                );
                assert(spec_parse_events(source_file@.code) == Some(events));
                let fin = spec_visit_from(spec_visit_init(), events@, source_file@, tree@);
                assert forall|j: int| 0 <= j < mutants@.len() implies spec_mutant_wf(
                    #[trigger] mutants@[j]@,
                ) && mutants@[j]@.file == source_file@ by {
                    assert(mutants@[j]@ == mutants@.map_values(|m: Mutant| m@)[j]);
                    assert(mutants@.map_values(|m: Mutant| m@)[j] == fin.mutants[j]);
                }
                assert(spec_walk_file(source_file@, tree@) == Some(
                    (
                        spec_visit_from(spec_visit_init(), events@, source_file@, tree@).mutants,
                        spec_visit_from(
                            spec_visit_init(),
                            events@,
                            source_file@,
                            tree@,
                        ).more_files,
                        spec_visit_from(
                            spec_visit_init(),
                            events@,
                            source_file@,
                            tree@,
                        ).unresolved,
                    ),
                ));
            }
            Ok((mutants, more, unresolved))
        },
    }
}

/// Every mutant that a visit adds is well formed and belongs to the visited
/// file.
pub proof fn lemma_visit_mutants_props(
    st: VisitState,
    events: Seq<AstEvent>,
    file: SourceFileV,
    tree: Seq<(Seq<char>, Seq<char>)>,
)
    requires
        forall|j: int|
            0 <= j < st.mutants.len() ==> spec_mutant_wf(#[trigger] st.mutants[j])
                && st.mutants[j].file == file,
    ensures
        forall|j: int|
            0 <= j < spec_visit_from(st, events, file, tree).mutants.len() ==> spec_mutant_wf(
                #[trigger] spec_visit_from(st, events, file, tree).mutants[j],
            ) && spec_visit_from(st, events, file, tree).mutants[j].file == file,
    decreases events.len(),
{
    if events.len() > 0 {
        let ev = events[0];
        let st2 = spec_visit_step(st, ev, file, tree);
        assert forall|j: int| 0 <= j < st2.mutants.len() implies spec_mutant_wf(
            #[trigger] st2.mutants[j],
        ) && st2.mutants[j].file == file by {
            if j >= st.mutants.len() {
                match ev {
                    AstEvent::EnterFn { ident, output, span, .. } => {
                        let stack2 = st.stack.push(spec_normalize(ident@));
                        lemma_fn_mutants_wf(file, stack2, output, span);
                        assert(st2.mutants[j] == spec_fn_mutants(file, stack2, output, span)[j
                            - st.mutants.len()]);
                    },
                    _ => {},
                }
            }
        }
        lemma_visit_mutants_props(st2, events.skip(1), file, tree);
        assert(spec_visit_from(st, events, file, tree) == spec_visit_from(
            st2,
            events.skip(1),
            file,
            tree,
        ));
    }
}

/// The mutants of `ms` whose description's match against `pats` equals
/// `keep`, in order.
pub open spec fn spec_name_retained(ms: Seq<MutantV>, pats: Seq<Seq<char>>, keep: bool) -> Seq<
    MutantV,
>
    decreases ms.len(),
{
    if ms.len() == 0 {
        Seq::<MutantV>::empty()
    } else {
        let rest = spec_name_retained(ms.skip(1), pats, keep);
        if spec_regex_match(pats, crate::mutate::spec_describe(ms[0])) == keep {
            seq![ms[0]].add(rest)
        } else {
            rest
        }
    }
}

/// Keeps the mutants whose description's match against the filter equals
/// `keep`; every kept mutant is one of the given mutants.
#[verifier::loop_isolation(false)]
fn retain_by_name(mutants: Vec<Mutant>, filter: &NameFilter, keep: bool) -> (r: Vec<Mutant>)
    ensures
        r@.map_values(|m: Mutant| m@) == spec_name_retained(
            mutants@.map_values(|m: Mutant| m@),
            filter@,
            keep,
        ),
        forall|j: int|
            0 <= j < r@.len() ==> exists|k: int| 0 <= k < mutants@.len() && #[trigger] r@[j]@
                == mutants@[k]@,
        forall|j: int|
            0 <= j < r@.len() ==> spec_regex_match(
                filter@,
                crate::mutate::spec_describe(#[trigger] r@[j]@),
            ) == keep,
{
    let ghost msv = mutants@.map_values(|m: Mutant| m@);
    let mut out: Vec<Mutant> = Vec::new();
    let n = mutants.len();
    let mut i: usize = 0;
    proof {
        assert(msv.skip(0) =~= msv);
        assert(out@.map_values(|m: Mutant| m@) =~= Seq::<MutantV>::empty());
    }
    while i < n
        invariant
            i <= n,
            n == mutants@.len(),
            msv == mutants@.map_values(|m: Mutant| m@),
            spec_name_retained(msv, filter@, keep) == out@.map_values(|m: Mutant| m@).add(
                spec_name_retained(msv.skip(i as int), filter@, keep),
            ),
            forall|j: int|
                0 <= j < out@.len() ==> exists|k: int| 0 <= k < mutants@.len() && #[trigger] out@[
                    j]@ == mutants@[k]@,
            forall|j: int|
                0 <= j < out@.len() ==> spec_regex_match(
                    filter@,
                    crate::mutate::spec_describe(#[trigger] out@[j]@),
                ) == keep,
        decreases n - i,
    {
        proof {
            assert(msv.skip(i as int)[0] == msv[i as int]);
            assert(msv.skip(i as int).skip(1) =~= msv.skip(i as int + 1));
        }
        let ghost outv0 = out@.map_values(|m: Mutant| m@);
        let desc = mutants[i].describe();
        if filter.is_match(desc.as_str()) == keep {
            let m = mutants[i].clone();
            assert(m@ == mutants@[i as int]@);
            out.push(m);
            proof {
                assert(out@.map_values(|m2: Mutant| m2@) =~= outv0.push(msv[i as int]));
                assert(outv0.push(msv[i as int]).add(
                    spec_name_retained(msv.skip(i as int + 1), filter@, keep),
                ) =~= outv0.add(
                    seq![msv[i as int]].add(
                        spec_name_retained(msv.skip(i as int + 1), filter@, keep),
                    ),
                ));
            }
        }
        i += 1;
    }
    proof {
        assert(msv.skip(n as int) =~= Seq::<MutantV>::empty());
        assert(out@.map_values(|m: Mutant| m@).add(Seq::<MutantV>::empty()) =~= out@.map_values(
            |m: Mutant| m@,
        ));
    }
    out
}

} // verus!

verus! {

/// Does this file's path pass the glob filters: matched by the examine
/// globs where some are set, and not matched by the exclude globs where
/// some are set?
pub open spec fn spec_file_passes(options: &Options, path: Seq<char>) -> bool {
    &&& (options.examine_globset matches Some(g) ==> spec_glob_match(g@, path))
    &&& (options.exclude_globset matches Some(g) ==> !spec_glob_match(g@, path))
}

/// Does this mutant pass all configured filters: its file's path passes the
/// glob filters, and its description passes the name filters (a name filter
/// with no patterns is ignored)?
pub open spec fn spec_mutant_passes(options: &Options, m: MutantV) -> bool {
    &&& spec_file_passes(options, m.file.path)
    &&& (options.examine_names matches Some(f) ==> (f@.len() > 0 ==> spec_regex_match(
        f@,
        crate::mutate::spec_describe(m),
    )))
    &&& (options.exclude_names matches Some(f) ==> (f@.len() > 0 ==> !spec_regex_match(
        f@,
        crate::mutate::spec_describe(m),
    )))
}

fn seen_contains(seen: &Vec<TreeRelativePath>, p: &TreeRelativePath) -> (r: bool)
    ensures
        r == exists|j: int| 0 <= j < seen@.len() && (#[trigger] seen@[j])@ == p@,
{
    let n = seen.len();
    let mut i: usize = 0;
    while i < n
        invariant
            n == seen@.len(),
            i <= n,
            forall|j: int| 0 <= j < i ==> (#[trigger] seen@[j])@ != p@,
        decreases n - i,
    {
        if seen[i].eq_path(p) {
            return true;
        }
        i += 1;
    }
    false
}

/// Discovers all mutants and all source files reachable from the given root
/// files, walking `mod` statements breadth-first through the tree snapshot.
///
/// A file whose path fails the glob filters is still walked, so that the
/// modules below it are found, but it contributes no mutants and is not
/// listed; a path already seen is not enqueued again. Every returned mutant
/// is well formed and passes every configured filter, and every listed file
/// passes the glob filters.
/// The views of a vector of source files.
pub open spec fn spec_files_view(files: Seq<SourceFile>) -> Seq<SourceFileV> {
    files.map_values(|f: SourceFile| f@)
}

/// The walker state denoted by the executable state pieces: the queue from
/// its head index on, and the views of the other accumulators.
pub open spec fn walk_st_of(
    queue: Seq<SourceFile>,
    hi: int,
    enqueued: Seq<TreeRelativePath>,
    mutants: Seq<Mutant>,
    seen: Seq<SourceFile>,
    unres: Seq<(String, String)>,
) -> WalkState {
    WalkState {
        queue: queue.skip(hi).map_values(|f: SourceFile| f@),
        enqueued: enqueued.map_values(|p: TreeRelativePath| p@),
        mutants: mutants.map_values(|m: Mutant| m@),
        seen: seen.map_values(|f: SourceFile| f@),
        unresolved: unres.map_values(|u: (String, String)| (u.0@, u.1@)),
        visited: queue.take(hi).map_values(|f: SourceFile| f@),
    }
}

proof fn lemma_contains_map(enqueued: Seq<TreeRelativePath>, pv: Seq<char>)
    ensures
        enqueued.map_values(|p: TreeRelativePath| p@).contains(pv) == (exists|j: int|
            0 <= j < enqueued.len() && (#[trigger] enqueued[j])@ == pv),
{
    let m = enqueued.map_values(|p: TreeRelativePath| p@);
    if m.contains(pv) {
        let j = choose|j: int| 0 <= j < m.len() && m[j] == pv;
        assert(enqueued[j]@ == pv);
    }
    if exists|j: int| 0 <= j < enqueued.len() && (#[trigger] enqueued[j])@ == pv {
        let j = choose|j: int| 0 <= j < enqueued.len() && (#[trigger] enqueued[j])@ == pv;
        assert(m[j] == pv);
    }
}

/// Discovers all mutants and all source files reachable from the given root
/// files, walking `mod` statements breadth-first through the tree snapshot.
///
/// The result is exactly a finished run of the walker state machine
/// `spec_walk_step` from the roots, so two walks of the same snapshot, roots
/// and options return the same mutants in the same order. A file whose path
/// fails the glob filters is still walked, so that the modules below it are
/// found, but it contributes no mutants and is not listed; a path already
/// seen is not enqueued again. Every returned mutant is well formed and
/// passes every configured filter. The third component lists each `mod`
/// name that resolved to no file, paired with the declaring file's path,
/// so that the caller can warn.
#[verifier::loop_isolation(false)]
pub fn walk_tree(tree: &TreeFiles, root_files: &Vec<SourceFile>, options: &Options) -> (r: Result<
    (Vec<Mutant>, Vec<SourceFile>, Vec<(String, String)>),
    MutantsError,
>)
    ensures
        match r {
            Ok(p) => ({
                &&& exists|k: nat|
                    #[trigger] spec_walk_iter(
                        k,
                        spec_walk_init(spec_files_view(root_files@)),
                        tree@,
                        options,
                    ) matches Ok(w) && w.queue.len() == 0 && p.0@.map_values(|m: Mutant| m@)
                        == w.mutants && p.1@.map_values(|f: SourceFile| f@) == w.seen
                        && p.2@.map_values(|u: (String, String)| (u.0@, u.1@)) == w.unresolved
                &&& forall|j: int|
                    0 <= j < p.0@.len() ==> spec_mutant_wf(#[trigger] p.0@[j]@)
                        && spec_mutant_passes(options, p.0@[j]@)
                &&& forall|j: int|
                    0 <= j < p.1@.len() ==> spec_file_passes(options, (#[trigger] p.1@[j])@.path)
            }),
            Err(e) => e matches MutantsError::ParseFailed(q) && exists|k: nat|
                #[trigger] spec_walk_iter(
                    k,
                    spec_walk_init(spec_files_view(root_files@)),
                    tree@,
                    options,
                ) == Err::<WalkState, Seq<char>>(q@),
        },
{
    broadcast use vstd::set::axiom_set_insert_len, vstd::set::axiom_set_insert_finite;

    let ghost rootsv = spec_files_view(root_files@);
    let ghost ws0 = spec_walk_init(rootsv);
    let ghost tree_keys = tree@.map_values(|e: (Seq<char>, Seq<char>)| e.0).to_set();
    proof {
        tree@.map_values(|e: (Seq<char>, Seq<char>)| e.0).lemma_cardinality_of_set();
        vstd::seq_lib::seq_to_set_is_finite(tree@.map_values(|e: (Seq<char>, Seq<char>)| e.0));
    }
    let ghost mut keys = Set::<Seq<char>>::empty();
    proof {
        assert(keys.finite() && keys.len() == 0) by {
            broadcast use vstd::set::group_set_axioms;
        }
    }
    let ghost mut steps: nat = 0nat;
    let mut mutants: Vec<Mutant> = Vec::new();
    let mut seen_files: Vec<SourceFile> = Vec::new();
    let mut queue: Vec<SourceFile> = Vec::new();
    let mut enqueued: Vec<TreeRelativePath> = Vec::new();
    let mut unresolved_mods: Vec<(String, String)> = Vec::new();
    let nroots = root_files.len();
    let mut i: usize = 0;
    while i < nroots
        invariant
            i <= nroots,
            queue@.len() == i,
            enqueued@.len() == i,
            forall|j: int| 0 <= j < i ==> (#[trigger] queue@[j])@ == root_files@[j]@,
            forall|j: int| 0 <= j < i ==> (#[trigger] enqueued@[j])@ == root_files@[j]@.path,
        decreases nroots - i,
    {
        queue.push(root_files[i].clone());
        enqueued.push(root_files[i].tree_relative_path.clone());
        i += 1;
    }
    proof {
        assert(queue@.skip(0) =~= queue@);
        assert(queue@.map_values(|f: SourceFile| f@) =~= rootsv);
        assert(enqueued@.map_values(|p: TreeRelativePath| p@) =~= rootsv.map_values(
            |f: SourceFileV| f.path,
        ));
        assert(mutants@.map_values(|m: Mutant| m@) =~= Seq::<MutantV>::empty());
        assert(seen_files@.map_values(|f: SourceFile| f@) =~= Seq::<SourceFileV>::empty());
        assert(unresolved_mods@.map_values(|u: (String, String)| (u.0@, u.1@)) =~= Seq::<
            (Seq<char>, Seq<char>),
        >::empty());
        assert(queue@.take(0).map_values(|f: SourceFile| f@) =~= Seq::<SourceFileV>::empty());
        assert(walk_st_of(queue@, 0, enqueued@, mutants@, seen_files@, unresolved_mods@) == ws0);
    }
    let mut hi: usize = 0;
    while hi < queue.len()
        invariant
            hi <= queue@.len(),
            queue@.len() == enqueued@.len(),
            keys.finite(),
            keys.subset_of(tree_keys),
            keys.len() <= tree_keys.len(),
            forall|q: Seq<char>|
                #[trigger] keys.contains(q) ==> exists|j: int|
                    0 <= j < enqueued@.len() && (#[trigger] enqueued@[j])@ == q,
            enqueued@.len() <= nroots + keys.len(),
            spec_walk_iter(steps, ws0, tree@, options) == Ok::<WalkState, Seq<char>>(
                walk_st_of(queue@, hi as int, enqueued@, mutants@, seen_files@, unresolved_mods@),
            ),
            forall|j: int|
                0 <= j < mutants@.len() ==> spec_mutant_wf(#[trigger] mutants@[j]@)
                    && spec_mutant_passes(options, mutants@[j]@),
            forall|j: int|
                0 <= j < seen_files@.len() ==> spec_file_passes(
                    options,
                    (#[trigger] seen_files@[j])@.path,
                ),
        decreases nroots + tree_keys.len() - keys.len() + queue@.len() - hi,
    {
        let ghost w = walk_st_of(queue@, hi as int, enqueued@, mutants@, seen_files@, unresolved_mods@);
        let source_file = queue[hi].clone();
        proof {
            assert(w.queue[0] == queue@.skip(hi as int).map_values(|f: SourceFile| f@)[0]);
            assert(w.queue[0] == source_file@);
        }
        hi += 1;
        let (file_mutants, more_files, file_unresolved) = match walk_file(&source_file, tree) {
            Ok(p) => p,
            Err(e) => {
                proof {
                    assert(spec_walk_step(w, tree@, options) == Err::<WalkState, Seq<char>>(
                        source_file@.path,
                    ));
                    assert(spec_walk_iter(steps + 1, ws0, tree@, options) == Err::<
                        WalkState,
                        Seq<char>,
                    >(source_file@.path));
                }
                return Err(e);
            },
        };
        let ghost visited = spec_walk_file(source_file@, tree@).unwrap();
        let ghost unres_pairs = visited.2.map_values(
            |name: Seq<char>| (source_file@.path, name),
        );
        let ghost pending0 = w.queue.skip(1);
        let ghost enq0 = w.enqueued;
        let ghost morev = more_files@.map_values(|p: TreeRelativePath| p@);
        let ghost pkg = source_file@.package;
        proof {
            assert(queue@.skip(hi as int).map_values(|f: SourceFile| f@) =~= pending0);
            assert(morev == visited.1);
        }
        let nmore = more_files.len();
        let ghost qk0 = queue@.len() - keys.len();
        let ghost q0v = queue@;
        let mut k: usize = 0;
        proof {
            assert(morev.skip(0) =~= morev);
        }
        while k < nmore
            invariant
                k <= nmore,
                hi <= queue@.len(),
                queue@.len() == enqueued@.len(),
                keys.finite(),
                keys.subset_of(tree_keys),
                keys.len() <= tree_keys.len(),
                forall|q: Seq<char>|
                    #[trigger] keys.contains(q) ==> exists|j: int|
                        0 <= j < enqueued@.len() && (#[trigger] enqueued@[j])@ == q,
                enqueued@.len() <= nroots + keys.len(),
                queue@.len() - keys.len() == qk0,
                q0v.len() <= queue@.len(),
                forall|j: int| 0 <= j < q0v.len() ==> #[trigger] queue@[j] == q0v[j],
                spec_enqueue(pending0, enq0, morev, pkg, tree@) == spec_enqueue(
                    queue@.skip(hi as int).map_values(|f: SourceFile| f@),
                    enqueued@.map_values(|p: TreeRelativePath| p@),
                    morev.skip(k as int),
                    pkg,
                    tree@,
                ),
            decreases nmore - k,
        {
            let p = more_files[k].clone();
            let ghost pv = p@;
            let ghost pend_cur = queue@.skip(hi as int).map_values(|f: SourceFile| f@);
            let ghost enq_cur = enqueued@.map_values(|p2: TreeRelativePath| p2@);
            proof {
                assert(pv == morev[k as int]);
                assert(morev.skip(k as int)[0] == morev[k as int]);
                assert(morev.skip(k as int).skip(1) =~= morev.skip(k as int + 1));
                lemma_contains_map(enqueued@, pv);
            }
            if !seen_contains(&enqueued, &p) {
                match tree.lookup(p.chars()) {
                    Some(code) => {
                        let ghost keys0 = keys;
                        let ghost enq_vec0 = enqueued@;
                        proof {
                            crate::source::lemma_lookup_in_keys(tree@, pv);
                            assert(tree_keys.contains(pv));
                            assert(!keys.contains(pv));
                            keys = keys.insert(pv);
                            vstd::set_lib::lemma_len_subset(keys, tree_keys);
                        }
                        enqueued.push(p.clone());
                        queue.push(
                            SourceFile::new(p, source_file.package_name.clone(), code),
                        );
                        proof {
                            assert(queue@.skip(hi as int).map_values(|f: SourceFile| f@)
                                =~= pend_cur.push(
                                SourceFileV {
                                    path: pv,
                                    package: pkg,
                                    code: spec_lookup(tree@, pv).unwrap(),
                                },
                            ));
                            assert(enqueued@.map_values(|p2: TreeRelativePath| p2@)
                                =~= enq_cur.push(pv));
                            assert forall|q: Seq<char>| #[trigger] keys.contains(q) implies exists|
                                j: int,
                            |
                                0 <= j < enqueued@.len() && (#[trigger] enqueued@[j])@ == q by {
                                if q == pv {
                                    assert((enqueued@[enqueued@.len() - 1])@ == q);
                                } else {
                                    assert(keys0.contains(q));
                                    let j0 = choose|j: int|
                                        0 <= j < enq_vec0.len() && (#[trigger] enq_vec0[j])@ == q;
                                    assert(enqueued@[j0] == enq_vec0[j0]);
                                    assert((enqueued@[j0])@ == q);
                                }
                            }
                        }
                    },
                    None => {},
                }
            }
            k += 1;
        }
        proof {
            assert(morev.skip(nmore as int) =~= Seq::<Seq<char>>::empty());
            assert(spec_enqueue(pending0, enq0, morev, pkg, tree@) == (
                queue@.skip(hi as int).map_values(|f: SourceFile| f@),
                enqueued@.map_values(|p: TreeRelativePath| p@),
            ));
        }
        let path_str = source_file.tree_relative_path.as_string();
        let nu = file_unresolved.len();
        let ghost ubase = unresolved_mods@.map_values(|u: (String, String)| (u.0@, u.1@));
        let mut ku: usize = 0;
        while ku < nu
            invariant
                ku <= nu,
                nu == file_unresolved@.len(),
                unresolved_mods@.map_values(|u: (String, String)| (u.0@, u.1@)) == ubase.add(
                    unres_pairs.take(ku as int),
                ),
            decreases nu - ku,
        {
            let ghost ucur = unresolved_mods@.map_values(|u: (String, String)| (u.0@, u.1@));
            unresolved_mods.push((path_str.clone(), file_unresolved[ku].clone()));
            proof {
                assert(unresolved_mods@.map_values(|u: (String, String)| (u.0@, u.1@))
                    =~= ucur.push(unres_pairs[ku as int]));
                assert(unres_pairs.take(ku as int + 1) =~= unres_pairs.take(ku as int).push(
                    unres_pairs[ku as int],
                ));
                assert(ucur.push(unres_pairs[ku as int]) =~= ubase.add(
                    unres_pairs.take(ku as int + 1),
                ));
            }
            ku += 1;
        }
        proof {
            assert(unres_pairs.take(nu as int) =~= unres_pairs);
            assert(unresolved_mods@.map_values(|u: (String, String)| (u.0@, u.1@)) == w.unresolved.add(
                unres_pairs,
            ));
        }
        let mut keep_file = true;
        if let Some(examine_globset) = &options.examine_globset {
            if !examine_globset.is_match(path_str.as_str()) {
                keep_file = false;
            }
        }
        if keep_file {
            if let Some(exclude_globset) = &options.exclude_globset {
                if exclude_globset.is_match(path_str.as_str()) {
                    keep_file = false;
                }
            }
        }
        proof {
            assert(keep_file == spec_file_passes(options, source_file@.path));
        }
        if !keep_file {
            proof {
                steps = steps + 1nat;
                assert forall|j: int| 0 <= j < hi implies #[trigger] queue@.take(hi as int)[j]
                    == q0v[j] by {
                    assert(queue@[j] == q0v[j]);
                }
                assert(queue@.take(hi as int).map_values(|f: SourceFile| f@) =~= w.visited.push(
                    w.queue[0],
                ));
                assert(spec_walk_step(w, tree@, options) == Ok::<WalkState, Seq<char>>(
                    walk_st_of(queue@, hi as int, enqueued@, mutants@, seen_files@, unresolved_mods@),
                ));
            }
            continue;
        }
        let mut file_mutants = file_mutants;
        if let Some(examine_names) = &options.examine_names {
            if !examine_names.is_empty() {
                file_mutants = retain_by_name(file_mutants, examine_names, true);
            }
        }
        if let Some(exclude_names) = &options.exclude_names {
            if !exclude_names.is_empty() {
                file_mutants = retain_by_name(file_mutants, exclude_names, false);
            }
        }
        proof {
            assert(file_mutants@.map_values(|m: Mutant| m@) == spec_name_filtered(
                visited.0,
                options,
            ));
        }
        let ghost mbase = mutants@.map_values(|m: Mutant| m@);
        let nf = file_mutants.len();
        let mut k2: usize = 0;
        proof {
            assert(mbase.add(file_mutants@.map_values(|m: Mutant| m@).take(0)) =~= mbase);
        }
        while k2 < nf
            invariant
                k2 <= nf,
                nf == file_mutants@.len(),
                mutants@.map_values(|m: Mutant| m@) == mbase.add(
                    file_mutants@.map_values(|m: Mutant| m@).take(k2 as int),
                ),
                forall|j: int|
                    0 <= j < file_mutants@.len() ==> spec_mutant_wf(#[trigger] file_mutants@[j]@)
                        && spec_mutant_passes(options, file_mutants@[j]@),
                forall|j: int|
                    0 <= j < mutants@.len() ==> spec_mutant_wf(#[trigger] mutants@[j]@)
                        && spec_mutant_passes(options, mutants@[j]@),
            decreases nf - k2,
        {
            let ghost mcur = mutants@.map_values(|m: Mutant| m@);
            let ghost fmv = file_mutants@.map_values(|m: Mutant| m@);
            mutants.push(file_mutants[k2].clone());
            proof {
                assert(mutants@.map_values(|m: Mutant| m@) =~= mcur.push(fmv[k2 as int]));
                assert(fmv.take(k2 as int + 1) =~= fmv.take(k2 as int).push(fmv[k2 as int]));
                assert(mcur.push(fmv[k2 as int]) =~= mbase.add(fmv.take(k2 as int + 1)));
            }
            k2 += 1;
        }
        let ghost seen0 = seen_files@.map_values(|f: SourceFile| f@);
        seen_files.push(source_file);
        proof {
            assert(file_mutants@.map_values(|m: Mutant| m@).take(nf as int) =~= file_mutants@.map_values(
                |m: Mutant| m@,
            ));
            assert(seen_files@.map_values(|f: SourceFile| f@) =~= seen0.push(w.queue[0]));
            steps = steps + 1nat;
            assert forall|j: int| 0 <= j < hi implies #[trigger] queue@.take(hi as int)[j]
                == q0v[j] by {
                assert(queue@[j] == q0v[j]);
            }
            assert(queue@.take(hi as int).map_values(|f: SourceFile| f@) =~= w.visited.push(
                w.queue[0],
            ));
            assert(spec_walk_step(w, tree@, options) == Ok::<WalkState, Seq<char>>(
                walk_st_of(queue@, hi as int, enqueued@, mutants@, seen_files@, unresolved_mods@),
            ));
        }
    }
    proof {
        assert(queue@.skip(queue@.len() as int) =~= Seq::<SourceFile>::empty());
        let fin = walk_st_of(queue@, queue@.len() as int, enqueued@, mutants@, seen_files@, unresolved_mods@);
        assert(fin.queue.len() == 0);
        assert(spec_walk_iter(steps, ws0, tree@, options) matches Ok(wf2) && wf2.queue.len() == 0
            && mutants@.map_values(|m: Mutant| m@) == wf2.mutants && seen_files@.map_values(
            |f: SourceFile| f@,
        ) == wf2.seen && unresolved_mods@.map_values(|u: (String, String)| (u.0@, u.1@))
            == wf2.unresolved);
    }
    Ok((mutants, seen_files, unresolved_mods))
}

/// Discovers all mutants reachable from the given root files: exactly the
/// mutants of a finished run of the walker state machine from the roots, so
/// the same snapshot, roots and options always give the same list in the
/// same order. An error is possible only where some step of that same run
/// hits a file that does not parse, and it names that file.
pub fn discover_mutants(tree: &TreeFiles, root_files: &Vec<SourceFile>, options: &Options) -> (r:
    Result<Vec<Mutant>, MutantsError>)
    ensures
        match r {
            Ok(ms) => ({
                &&& exists|k: nat|
                    #[trigger] spec_walk_iter(
                        k,
                        spec_walk_init(spec_files_view(root_files@)),
                        tree@,
                        options,
                    ) matches Ok(w) && w.queue.len() == 0 && ms@.map_values(|m: Mutant| m@)
                        == w.mutants
                &&& forall|j: int|
                    0 <= j < ms@.len() ==> spec_mutant_wf(#[trigger] ms@[j]@)
                        && spec_mutant_passes(options, ms@[j]@)
            }),
            Err(e) => e matches MutantsError::ParseFailed(q) && exists|k: nat|
                #[trigger] spec_walk_iter(
                    k,
                    spec_walk_init(spec_files_view(root_files@)),
                    tree@,
                    options,
                ) == Err::<WalkState, Seq<char>>(q@),
        },
{
    match walk_tree(tree, root_files, options) {
        Ok(p) => Ok(p.0),
        Err(e) => Err(e),
    }
}

/// Discovers all source files reachable from the given root files,
/// including files that hold no mutants: exactly the listed files of a
/// finished run of the walker state machine from the roots. An error is
/// possible only where some step of that same run hits a file that does
/// not parse, and it names that file.
pub fn discover_files(tree: &TreeFiles, root_files: &Vec<SourceFile>, options: &Options) -> (r:
    Result<Vec<SourceFile>, MutantsError>)
    ensures
        match r {
            Ok(fs) => ({
                &&& exists|k: nat|
                    #[trigger] spec_walk_iter(
                        k,
                        spec_walk_init(spec_files_view(root_files@)),
                        tree@,
                        options,
                    ) matches Ok(w) && w.queue.len() == 0 && fs@.map_values(|f: SourceFile| f@)
                        == w.seen
                &&& forall|j: int|
                    0 <= j < fs@.len() ==> spec_file_passes(options, (#[trigger] fs@[j])@.path)
            }),
            Err(e) => e matches MutantsError::ParseFailed(q) && exists|k: nat|
                #[trigger] spec_walk_iter(
                    k,
                    spec_walk_init(spec_files_view(root_files@)),
                    tree@,
                    options,
                ) == Err::<WalkState, Seq<char>>(q@),
        },
{
    match walk_tree(tree, root_files, options) {
        Ok(p) => Ok(p.1),
        Err(e) => Err(e),
    }
}

} // verus!

verus! {

/// The tree walker's state: the files still to process (front first), every
/// path ever enqueued, and the mutants and listed files accumulated so far.
pub ghost struct WalkState {
    pub queue: Seq<SourceFileV>,
    pub enqueued: Seq<Seq<char>>,
    pub mutants: Seq<MutantV>,
    pub seen: Seq<SourceFileV>,
    pub unresolved: Seq<(Seq<char>, Seq<char>)>,
    pub visited: Seq<SourceFileV>,
}

/// The walker's initial state: the root files queued and their paths
/// recorded as enqueued.
pub open spec fn spec_walk_init(roots: Seq<SourceFileV>) -> WalkState {
    WalkState {
        queue: roots,
        enqueued: roots.map_values(|f: SourceFileV| f.path),
        mutants: Seq::<MutantV>::empty(),
        seen: Seq::<SourceFileV>::empty(),
        unresolved: Seq::<(Seq<char>, Seq<char>)>::empty(),
        visited: Seq::<SourceFileV>::empty(),
    }
}

/// Enqueues the discovered module files in order: a path that was already
/// enqueued, or that the snapshot does not hold, is dropped; any other joins
/// the queue as a file of the discovering file's package.
pub open spec fn spec_enqueue(
    queue: Seq<SourceFileV>,
    enqueued: Seq<Seq<char>>,
    more: Seq<Seq<char>>,
    package: Seq<char>,
    tree: Seq<(Seq<char>, Seq<char>)>,
) -> (Seq<SourceFileV>, Seq<Seq<char>>)
    decreases more.len(),
{
    if more.len() == 0 {
        (queue, enqueued)
    } else {
        let p = more[0];
        if !enqueued.contains(p) && spec_lookup(tree, p) is Some {
            spec_enqueue(
                queue.push(
                    SourceFileV { path: p, package: package, code: spec_lookup(tree, p).unwrap() },
                ),
                enqueued.push(p),
                more.skip(1),
                package,
                tree,
            )
        } else {
            spec_enqueue(queue, enqueued, more.skip(1), package, tree)
        }
    }
}

/// The mutants of one file that the name filters keep.
pub open spec fn spec_name_filtered(ms: Seq<MutantV>, options: &Options) -> Seq<MutantV> {
    let ms1 = match options.examine_names {
        Some(f) => if f@.len() > 0 {
            spec_name_retained(ms, f@, true)
        } else {
            ms
        },
        None => ms,
    };
    match options.exclude_names {
        Some(f) => if f@.len() > 0 {
            spec_name_retained(ms1, f@, false)
        } else {
            ms1
        },
        None => ms1,
    }
}

/// One step of the tree walk: take the head of the queue, visit it, enqueue
/// the module files it discovers, record its unresolved `mod` names, and —
/// when its path passes the glob filters — append its name-filtered
/// mutants and list the file. A file that does not parse aborts the walk
/// with its path. A step on an empty queue changes nothing.
pub open spec fn spec_walk_step(
    ws: WalkState,
    tree: Seq<(Seq<char>, Seq<char>)>,
    options: &Options,
) -> Result<WalkState, Seq<char>> {
    if ws.queue.len() == 0 {
        Ok(ws)
    } else {
        let f = ws.queue[0];
        match spec_walk_file(f, tree) {
            None => Err(f.path),
            Some(visited) => {
                let enq = spec_enqueue(ws.queue.skip(1), ws.enqueued, visited.1, f.package, tree);
                let unres2 = ws.unresolved.add(
                    visited.2.map_values(|name: Seq<char>| (f.path, name)),
                );
                if spec_file_passes(options, f.path) {
                    Ok(
                        WalkState {
                            queue: enq.0,
                            enqueued: enq.1,
                            mutants: ws.mutants.add(spec_name_filtered(visited.0, options)),
                            seen: ws.seen.push(f),
                            unresolved: unres2,
                            visited: ws.visited.push(f),
                        },
                    )
                } else {
                    Ok(
                        WalkState {
                            queue: enq.0,
                            enqueued: enq.1,
                            mutants: ws.mutants,
                            seen: ws.seen,
                            unresolved: unres2,
                            visited: ws.visited.push(f),
                        },
                    )
                }
            },
        }
    }
}

/// The walker's state after `k` steps from `ws`; an error stays an error.
pub open spec fn spec_walk_iter(
    k: nat,
    ws: WalkState,
    tree: Seq<(Seq<char>, Seq<char>)>,
    options: &Options,
) -> Result<WalkState, Seq<char>>
    decreases k,
{
    if k == 0 {
        Ok(ws)
    } else {
        match spec_walk_iter((k - 1) as nat, ws, tree, options) {
            Ok(w) => spec_walk_step(w, tree, options),
            Err(e) => Err(e),
        }
    }
}

/// Once the queue is empty the walk is a fixpoint: further steps change
/// nothing.
pub proof fn lemma_walk_iter_stable(
    k1: nat,
    k2: nat,
    ws: WalkState,
    tree: Seq<(Seq<char>, Seq<char>)>,
    options: &Options,
)
    requires
        k1 <= k2,
        spec_walk_iter(k1, ws, tree, options) matches Ok(w) && w.queue.len() == 0,
    ensures
        spec_walk_iter(k2, ws, tree, options) == spec_walk_iter(k1, ws, tree, options),
    decreases k2 - k1,
{
    if k1 < k2 {
        lemma_walk_iter_stable(k1, (k2 - 1) as nat, ws, tree, options);
    }
}

/// The tree walk is deterministic: any two finished walks of the same
/// snapshot, roots and options stand in the same state, whatever number of
/// steps each took.
pub proof fn lemma_walk_deterministic(
    k1: nat,
    k2: nat,
    ws: WalkState,
    tree: Seq<(Seq<char>, Seq<char>)>,
    options: &Options,
)
    requires
        spec_walk_iter(k1, ws, tree, options) matches Ok(w1) && w1.queue.len() == 0,
        spec_walk_iter(k2, ws, tree, options) matches Ok(w2) && w2.queue.len() == 0,
    ensures
        spec_walk_iter(k1, ws, tree, options) == spec_walk_iter(k2, ws, tree, options),
{
    if k1 <= k2 {
        lemma_walk_iter_stable(k1, k2, ws, tree, options);
    } else {
        lemma_walk_iter_stable(k2, k1, ws, tree, options);
    }
}

} // verus!

verus! {

/// The walker's coverage invariant: the enqueued paths are exactly the
/// paths of the already-visited files followed by the paths of the files
/// still queued, in order.
pub open spec fn spec_walk_coverage(ws: WalkState) -> bool {
    ws.enqueued == ws.visited.map_values(|f: SourceFileV| f.path).add(
        ws.queue.map_values(|f: SourceFileV| f.path),
    )
}

proof fn lemma_enqueue_coverage(
    queue: Seq<SourceFileV>,
    enqueued: Seq<Seq<char>>,
    more: Seq<Seq<char>>,
    package: Seq<char>,
    tree: Seq<(Seq<char>, Seq<char>)>,
    visited: Seq<SourceFileV>,
)
    requires
        enqueued == visited.map_values(|f: SourceFileV| f.path).add(
            queue.map_values(|f: SourceFileV| f.path),
        ),
    ensures
        spec_enqueue(queue, enqueued, more, package, tree).1 == visited.map_values(
            |f: SourceFileV| f.path,
        ).add(spec_enqueue(queue, enqueued, more, package, tree).0.map_values(
            |f: SourceFileV| f.path,
        )),
    decreases more.len(),
{
    if more.len() > 0 {
        let p = more[0];
        if !enqueued.contains(p) && spec_lookup(tree, p) is Some {
            let file = SourceFileV { path: p, package: package, code: spec_lookup(tree, p).unwrap() };
            assert(enqueued.push(p) =~= visited.map_values(|f: SourceFileV| f.path).add(
                queue.push(file).map_values(|f: SourceFileV| f.path),
            ));
            lemma_enqueue_coverage(
                queue.push(file),
                enqueued.push(p),
                more.skip(1),
                package,
                tree,
                visited,
            );
        } else {
            lemma_enqueue_coverage(queue, enqueued, more.skip(1), package, tree, visited);
        }
    }
}

proof fn lemma_step_preserves_coverage(
    ws: WalkState,
    tree: Seq<(Seq<char>, Seq<char>)>,
    options: &Options,
)
    requires
        spec_walk_coverage(ws),
    ensures
        spec_walk_step(ws, tree, options) matches Ok(w2) ==> spec_walk_coverage(w2),
{
    if ws.queue.len() > 0 {
        let f = ws.queue[0];
        match spec_walk_file(f, tree) {
            Some(visited_res) => {
                assert(ws.enqueued =~= ws.visited.push(f).map_values(
                    |f2: SourceFileV| f2.path,
                ).add(ws.queue.skip(1).map_values(|f2: SourceFileV| f2.path))) by {
                    assert(ws.queue.map_values(|f2: SourceFileV| f2.path)[0] == f.path);
                    assert(ws.queue.skip(1).map_values(|f2: SourceFileV| f2.path)
                        =~= ws.queue.map_values(|f2: SourceFileV| f2.path).skip(1));
                }
                lemma_enqueue_coverage(
                    ws.queue.skip(1),
                    ws.enqueued,
                    visited_res.1,
                    f.package,
                    tree,
                    ws.visited.push(f),
                );
            },
            None => {},
        }
    }
}

proof fn lemma_iter_preserves_coverage(
    k: nat,
    ws: WalkState,
    tree: Seq<(Seq<char>, Seq<char>)>,
    options: &Options,
)
    requires
        spec_walk_coverage(ws),
    ensures
        spec_walk_iter(k, ws, tree, options) matches Ok(w) ==> spec_walk_coverage(w),
    decreases k,
{
    if k > 0 {
        lemma_iter_preserves_coverage((k - 1) as nat, ws, tree, options);
        match spec_walk_iter((k - 1) as nat, ws, tree, options) {
            Ok(w) => {
                lemma_step_preserves_coverage(w, tree, options);
            },
            Err(_) => {},
        }
    }
}

/// Every file the walk enqueues is itself visited: in a finished run the
/// enqueued paths are exactly the visited files' paths, in order. In
/// particular a file discovered below a glob-filtered file is walked like
/// any other; only the filtered file's own mutants and listing are
/// withheld.
pub proof fn lemma_walk_visits_every_enqueued_file(
    k: nat,
    roots: Seq<SourceFileV>,
    tree: Seq<(Seq<char>, Seq<char>)>,
    options: &Options,
)
    requires
        spec_walk_iter(k, spec_walk_init(roots), tree, options) matches Ok(w) && w.queue.len()
            == 0,
    ensures
        spec_walk_iter(k, spec_walk_init(roots), tree, options) matches Ok(w) ==> w.enqueued
            == w.visited.map_values(|f: SourceFileV| f.path),
{
    let init = spec_walk_init(roots);
    assert(spec_walk_coverage(init)) by {
        assert(init.enqueued =~= init.visited.map_values(|f: SourceFileV| f.path).add(
            init.queue.map_values(|f: SourceFileV| f.path),
        ));
    }
    lemma_iter_preserves_coverage(k, init, tree, options);
    match spec_walk_iter(k, init, tree, options) {
        Ok(w) => {
            assert(w.queue.map_values(|f: SourceFileV| f.path) =~= Seq::<Seq<char>>::empty());
            assert(w.visited.map_values(|f: SourceFileV| f.path).add(
                Seq::<Seq<char>>::empty(),
            ) =~= w.visited.map_values(|f: SourceFileV| f.path));
        },
        Err(_) => {},
    }
}

} // verus!
