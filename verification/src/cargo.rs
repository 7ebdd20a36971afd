//! The build-tool adapter: the workspace model read from the build tool's
//! metadata, the source roots eligible for mutation, the argv of each
//! check/build/test invocation, and the compiler-flag computation.
//!
//! Everything here computes over plain values; running the build tool and
//! reading its output streams is the caller's business.

use vstd::prelude::*;

use crate::options::{GlobFilter, Options};
use crate::path::{
    spec_parent, strip_prefix_dir, TreeRelativePath,
};
use crate::text::{
    chars_lt, chars_to_string, spec_dedup_adjacent, spec_insert_sorted, spec_join, spec_sort_strs,
    spec_split, spec_starts_with, str_to_chars,
};
use crate::MutantsError;

verus! {

/// One build target of a package, as the build tool's metadata reports it.
pub struct TargetMetadata {
    pub name: String,
    /// The target's kind strings, e.g. `lib`, `proc-macro`, `bin`, `test`.
    pub kind: Vec<String>,
    /// The absolute path of the target's top source file.
    pub src_path: String,
}

/// One workspace package, as the build tool's metadata reports it.
pub struct PackageMetadata {
    pub name: String,
    pub manifest_path: String,
    pub targets: Vec<TargetMetadata>,
}

/// A kind string that marks a target as mutation-eligible: it ends with
/// `lib` or equals `bin`.
pub open spec fn spec_eligible_kind(k: Seq<char>) -> bool {
    crate::text::spec_ends_with(k, "lib"@) || k == "bin"@
}

/// Is this target mutation-eligible: does at least one of its kind strings
/// end with `lib` or equal `bin`?
pub open spec fn spec_should_mutate_target(t: &TargetMetadata) -> bool {
    exists|i: int| 0 <= i < t.kind@.len() && spec_eligible_kind((#[trigger] t.kind@[i])@)
}

/// True iff at least one kind string of the target ends with `lib` or
/// equals `bin`.
pub fn should_mutate_target(target: &TargetMetadata) -> (r: bool)
    ensures
        r == spec_should_mutate_target(target),
{
    let n = target.kind.len();
    let mut i: usize = 0;
    while i < n
        invariant
            n == target.kind@.len(),
            i <= n,
            forall|j: int| 0 <= j < i ==> !spec_eligible_kind((#[trigger] target.kind@[j])@),
        decreases n - i,
    {
        let kv = str_to_chars(target.kind[i].as_str());
        let suffix = str_to_chars("lib");
        let bin = str_to_chars("bin");
        if crate::text::chars_ends_with(&kv, &suffix) || crate::text::chars_eq(&kv, &bin) {
            return true;
        }
        i += 1;
    }
    false
}

/// The tree-relative remainder of `path` below the directory `root`.
pub open spec fn spec_strip_prefix_dir(path: Seq<char>, root: Seq<char>) -> Option<Seq<char>> {
    if spec_starts_with(path, root.add(seq!['/'])) {
        Some(path.skip(root.len() as int + 1))
    } else {
        None
    }
}

/// The tree-relative source paths of the eligible targets, in target order;
/// targets whose source lies outside the workspace root are dropped.
pub open spec fn spec_direct_rel_paths(targets: Seq<TargetMetadata>, root: Seq<char>) -> Seq<
    Seq<char>,
>
    decreases targets.len(),
{
    if targets.len() == 0 {
        Seq::<Seq<char>>::empty()
    } else {
        let rest = spec_direct_rel_paths(targets.skip(1), root);
        if spec_should_mutate_target(&targets[0]) && spec_strip_prefix_dir(
            targets[0].src_path@,
            root,
        ) is Some {
            seq![spec_strip_prefix_dir(targets[0].src_path@, root).unwrap()].add(rest)
        } else {
            rest
        }
    }
}

fn direct_rel_paths_from(targets: &Vec<TargetMetadata>, i: usize, root: &str) -> (r: Vec<
    TreeRelativePath,
>)
    requires
        i <= targets@.len(),
    ensures
        r@.map_values(|p: TreeRelativePath| p@) == spec_direct_rel_paths(
            targets@.skip(i as int),
            root@,
        ),
    decreases targets@.len() - i,
{
    if i == targets.len() {
        let r: Vec<TreeRelativePath> = Vec::new();
        proof {
            assert(r@.map_values(|p: TreeRelativePath| p@) =~= Seq::<Seq<char>>::empty());
            assert(targets@.skip(i as int) =~= Seq::<TargetMetadata>::empty());
        }
        return r;
    }
    proof {
        assert(targets@.skip(i as int)[0] == targets@[i as int]);
        assert(targets@.skip(i as int).skip(1) =~= targets@.skip(i as int + 1));
    }
    let mut rest = direct_rel_paths_from(targets, i + 1, root);
    let t = &targets[i];
    if should_mutate_target(t) {
        match strip_prefix_dir(t.src_path.as_str(), root) {
            Some(rel) => {
                proof {
                    assert(t.src_path@.subrange(0, root@.len() as int + 1) =~= root@.add(
                        seq!['/'],
                    ));
                    assert(spec_starts_with(t.src_path@, root@.add(seq!['/'])));
                    assert(t.src_path@.skip(root@.len() as int + 1) =~= rel@);
                }
                rest.insert(0, rel);
                proof {
                    assert(rest@.map_values(|p: TreeRelativePath| p@) =~= seq![
                        spec_strip_prefix_dir(targets@[i as int].src_path@, root@).unwrap(),
                    ].add(spec_direct_rel_paths(targets@.skip(i as int + 1), root@)));
                }
                return rest;
            },
            None => {
                proof {
                    assert(spec_strip_prefix_dir(targets@[i as int].src_path@, root@) is None)
                        by {
                        if spec_starts_with(t.src_path@, root@.add(seq!['/'])) {
                            let w = t.src_path@.skip(root@.len() as int + 1);
                            assert(t.src_path@ =~= root@.add(seq!['/']).add(w));
                        }
                    }
                }
                return rest;
            },
        }
    }
    rest
}

fn insert_sorted_path(x: TreeRelativePath, s: Vec<TreeRelativePath>) -> (r: Vec<TreeRelativePath>)
    ensures
        r@.map_values(|p: TreeRelativePath| p@) == spec_insert_sorted(
            x@,
            s@.map_values(|p: TreeRelativePath| p@),
        ),
    decreases s@.len(),
{
    let ghost sm = s@.map_values(|p: TreeRelativePath| p@);
    if s.len() == 0 {
        let mut r: Vec<TreeRelativePath> = Vec::new();
        let ghost xv = x@;
        r.push(x);
        proof {
            assert(r@.map_values(|p: TreeRelativePath| p@) =~= seq![xv]);
        }
        r
    } else if chars_lt(s[0].chars(), x.chars()) {
        let mut s2 = s;
        let first = s2.remove(0);
        proof {
            assert(s2@.map_values(|p: TreeRelativePath| p@) =~= sm.skip(1));
        }
        let mut rest = insert_sorted_path(x, s2);
        let ghost restm = rest@.map_values(|p: TreeRelativePath| p@);
        let ghost firstv = first@;
        rest.insert(0, first);
        proof {
            assert(rest@.map_values(|p: TreeRelativePath| p@) =~= seq![firstv].add(restm));
        }
        rest
    } else {
        let mut s2 = s;
        let ghost xv = x@;
        s2.insert(0, x);
        proof {
            assert(s2@.map_values(|p: TreeRelativePath| p@) =~= seq![xv].add(sm));
        }
        s2
    }
}

/// Sorts tree-relative paths lexicographically; the result is sorted and
/// holds the same paths.
pub fn sort_paths(s: Vec<TreeRelativePath>) -> (r: Vec<TreeRelativePath>)
    ensures
        r@.map_values(|p: TreeRelativePath| p@) == spec_sort_strs(
            s@.map_values(|p: TreeRelativePath| p@),
        ),
        crate::text::spec_sorted_strs(r@.map_values(|p: TreeRelativePath| p@)),
    decreases s@.len(),
{
    let ghost sm = s@.map_values(|p: TreeRelativePath| p@);
    proof {
        crate::text::lemma_sort_strs_sorted(sm);
    }
    if s.len() == 0 {
        proof {
            assert(sm =~= Seq::<Seq<char>>::empty());
        }
        return s;
    }
    let mut s2 = s;
    let first = s2.remove(0);
    proof {
        assert(s2@.map_values(|p: TreeRelativePath| p@) =~= sm.skip(1));
        assert(first@ == sm[0]);
    }
    let sorted = sort_paths(s2);
    insert_sorted_path(first, sorted)
}

/// Collapses runs of equal adjacent paths to one.
pub fn dedup_adjacent_paths(s: Vec<TreeRelativePath>) -> (r: Vec<TreeRelativePath>)
    ensures
        r@.map_values(|p: TreeRelativePath| p@) == spec_dedup_adjacent(
            s@.map_values(|p: TreeRelativePath| p@),
        ),
    decreases s@.len(),
{
    let ghost sm = s@.map_values(|p: TreeRelativePath| p@);
    if s.len() <= 1 {
        return s;
    }
    if s[0].eq_path(&s[1]) {
        let mut s2 = s;
        let _ = s2.remove(0);
        proof {
            assert(s2@.map_values(|p: TreeRelativePath| p@) =~= sm.skip(1));
        }
        dedup_adjacent_paths(s2)
    } else {
        let mut s2 = s;
        let first = s2.remove(0);
        proof {
            assert(s2@.map_values(|p: TreeRelativePath| p@) =~= sm.skip(1));
        }
        let mut rest = dedup_adjacent_paths(s2);
        let ghost restm = rest@.map_values(|p: TreeRelativePath| p@);
        let ghost firstv = first@;
        rest.insert(0, first);
        proof {
            assert(rest@.map_values(|p: TreeRelativePath| p@) =~= seq![firstv].add(restm));
        }
        rest
    }
}

/// The sorted, de-duplicated tree-relative source paths of a package's
/// mutation-eligible targets.
pub open spec fn spec_direct_package_sources(
    targets: Seq<TargetMetadata>,
    root: Seq<char>,
) -> Seq<Seq<char>> {
    spec_dedup_adjacent(spec_sort_strs(spec_direct_rel_paths(targets, root)))
}

/// The tree-relative source files named by a package's mutation-eligible
/// targets: each eligible target's `src_path` below the workspace root,
/// sorted and de-duplicated. These are the starting points for discovering
/// source files.
pub fn direct_package_sources(workspace_root: &str, package: &PackageMetadata) -> (r: Vec<
    TreeRelativePath,
>)
    ensures
        r@.map_values(|p: TreeRelativePath| p@) == spec_direct_package_sources(
            package.targets@,
            workspace_root@,
        ),
{
    let found = direct_rel_paths_from(&package.targets, 0, workspace_root);
    proof {
        assert(package.targets@.skip(0) =~= package.targets@);
    }
    let sorted = sort_paths(found);
    dedup_adjacent_paths(sorted)
}

} // verus!

verus! {

/// ASCII lower-casing of one character.
pub open spec fn spec_ascii_lower(c: char) -> char {
    if 'A' <= c <= 'Z' {
        (((c as u8) + 32) as u8) as char
    } else {
        c
    }
}

/// The extension of a path: the text after the final `.` of its last
/// component; `None` when the last component has no `.`.
pub open spec fn spec_extension(s: Seq<char>) -> Option<Seq<char>> {
    spec_extension_from(s, s.len() as int)
}

pub open spec fn spec_extension_from(s: Seq<char>, i: int) -> Option<Seq<char>>
    decreases i,
{
    if i <= 0 {
        None
    } else if s[i - 1] == '.' {
        Some(s.skip(i))
    } else if s[i - 1] == '/' {
        None
    } else {
        spec_extension_from(s, i - 1)
    }
}

/// Does the path name a Rust source file: an extension that lower-cases to
/// `rs`?
pub open spec fn spec_is_rs_path(s: Seq<char>) -> bool {
    spec_extension(s) matches Some(e) && e.map_values(|c: char| spec_ascii_lower(c)) == "rs"@
}

fn is_rs_path(v: &Vec<char>) -> (r: bool)
    ensures
        r == spec_is_rs_path(v@),
{
    let mut i = v.len();
    loop
        invariant
            i <= v@.len(),
            spec_extension(v@) == spec_extension_from(v@, i as int),
        decreases i,
    {
        if i == 0 {
            return false;
        }
        let c = v[i - 1];
        if c == '.' {
            proof {
                reveal_strlit("rs");
            }
            if v.len() - i != 2 {
                assert(v@.skip(i as int).map_values(|c2: char| spec_ascii_lower(c2)).len()
                    == v@.len() - i);
                return false;
            }
            let c1 = v[i];
            let c2 = v[i + 1];
            let l1 = if 'A' <= c1 && c1 <= 'Z' {
                ((c1 as u8) + 32) as char
            } else {
                c1
            };
            let l2 = if 'A' <= c2 && c2 <= 'Z' {
                ((c2 as u8) + 32) as char
            } else {
                c2
            };
            let r = l1 == 'r' && l2 == 's';
            proof {
                let lowered = v@.skip(i as int).map_values(|c3: char| spec_ascii_lower(c3));
                assert(lowered.len() == 2);
                assert(lowered[0] == spec_ascii_lower(v@[i as int]));
                assert(lowered[1] == spec_ascii_lower(v@[i as int + 1]));
                if r {
                    assert(lowered =~= "rs"@);
                }
            }
            return r;
        }
        if c == '/' {
            return false;
        }
        i = i - 1;
    }
}

/// The tree-relative paths kept from a list of candidate file paths: the
/// Rust sources under the workspace root that pass the glob filters, each
/// made tree-relative.
pub open spec fn spec_selected_rel(
    cands: Seq<Seq<char>>,
    root: Seq<char>,
    examine: Option<Seq<Seq<char>>>,
    exclude: Option<Seq<Seq<char>>>,
) -> Seq<Seq<char>>
    decreases cands.len(),
{
    if cands.len() == 0 {
        Seq::<Seq<char>>::empty()
    } else {
        let rest = spec_selected_rel(cands.skip(1), root, examine, exclude);
        if spec_is_rs_path(cands[0]) && (spec_strip_prefix_dir(cands[0], root) matches Some(rel)
            && (examine matches Some(pats) ==> crate::options::spec_glob_match(pats, rel)) && (
        exclude matches Some(pats2) ==> !crate::options::spec_glob_match(pats2, rel))) {
            seq![spec_strip_prefix_dir(cands[0], root).unwrap()].add(rest)
        } else {
            rest
        }
    }
}

pub open spec fn spec_filter_view(f: &Option<GlobFilter>) -> Option<Seq<Seq<char>>> {
    match f {
        Some(g) => Some(g@),
        None => None,
    }
}

fn selected_rel_from(
    cands: &Vec<String>,
    i: usize,
    root: &str,
    examine: &Option<GlobFilter>,
    exclude: &Option<GlobFilter>,
) -> (r: Vec<TreeRelativePath>)
    requires
        i <= cands@.len(),
    ensures
        r@.map_values(|p: TreeRelativePath| p@) == spec_selected_rel(
            cands@.map_values(|s: String| s@).skip(i as int),
            root@,
            spec_filter_view(examine),
            spec_filter_view(exclude),
        ),
    decreases cands@.len() - i,
{
    let ghost cm = cands@.map_values(|s: String| s@);
    if i == cands.len() {
        let r: Vec<TreeRelativePath> = Vec::new();
        proof {
            assert(r@.map_values(|p: TreeRelativePath| p@) =~= Seq::<Seq<char>>::empty());
            assert(cm.skip(i as int) =~= Seq::<Seq<char>>::empty());
        }
        return r;
    }
    proof {
        assert(cm.skip(i as int)[0] == cm[i as int]);
        assert(cm.skip(i as int).skip(1) =~= cm.skip(i as int + 1));
    }
    let mut rest = selected_rel_from(cands, i + 1, root, examine, exclude);
    let cv = str_to_chars(cands[i].as_str());
    if !is_rs_path(&cv) {
        return rest;
    }
    let rel = match strip_prefix_dir(cands[i].as_str(), root) {
        Some(rel) => rel,
        None => {
            proof {
                assert(spec_strip_prefix_dir(cm[i as int], root@) is None) by {
                    if spec_starts_with(cm[i as int], root@.add(seq!['/'])) {
                        let w = cm[i as int].skip(root@.len() as int + 1);
                        assert(cm[i as int] =~= root@.add(seq!['/']).add(w));
                    }
                }
            }
            return rest;
        },
    };
    proof {
        assert(cm[i as int].subrange(0, root@.len() as int + 1) =~= root@.add(seq!['/']));
        assert(cm[i as int].skip(root@.len() as int + 1) =~= rel@);
    }
    let rel_str = rel.as_string();
    if let Some(g) = examine {
        if !g.is_match(rel_str.as_str()) {
            return rest;
        }
    }
    if let Some(g) = exclude {
        if g.is_match(rel_str.as_str()) {
            return rest;
        }
    }
    let ghost restm = rest@.map_values(|p: TreeRelativePath| p@);
    let ghost relv = rel@;
    rest.insert(0, rel);
    proof {
        assert(rest@.map_values(|p: TreeRelativePath| p@) =~= seq![relv].add(restm));
    }
    rest
}

/// Finds the mutation-relevant source files among candidate files found
/// below a package's source roots: the `.rs` files (by case-insensitive
/// extension) under the workspace root that pass the glob filters, made
/// tree-relative, sorted and de-duplicated.
pub fn select_source_paths(
    workspace_root: &str,
    candidates: &Vec<String>,
    examine_globset: &Option<GlobFilter>,
    exclude_globset: &Option<GlobFilter>,
) -> (r: Vec<TreeRelativePath>)
    ensures
        r@.map_values(|p: TreeRelativePath| p@) == spec_dedup_adjacent(
            spec_sort_strs(
                spec_selected_rel(
                    candidates@.map_values(|s: String| s@),
                    workspace_root@,
                    spec_filter_view(examine_globset),
                    spec_filter_view(exclude_globset),
                ),
            ),
        ),
{
    let kept = selected_rel_from(candidates, 0, workspace_root, examine_globset, exclude_globset);
    proof {
        assert(candidates@.map_values(|s: String| s@).skip(0) =~= candidates@.map_values(
            |s: String| s@,
        ));
    }
    dedup_adjacent_paths(sort_paths(kept))
}

} // verus!

verus! {

/// One build-tool phase: check, build, or test. Check precedes build
/// precedes test.
#[derive(Clone, Copy, PartialEq, Eq, Structural, Debug, PartialOrd, Ord)]
pub enum Phase {
    Check,
    Build,
    Test,
}

/// The build-tool subcommand that runs a phase.
pub open spec fn spec_phase_name(p: Phase) -> Seq<char> {
    match p {
        Phase::Check => "check"@,
        Phase::Build => "build"@,
        Phase::Test => "test"@,
    }
}

impl Phase {
    /// The phase's subcommand name.
    pub fn name(&self) -> (r: &'static str)
        ensures
            r@ == spec_phase_name(*self),
    {
        match self {
            Phase::Check => "check",
            Phase::Build => "build",
            Phase::Test => "test",
        }
    }
}

/// The argv of one build-tool invocation: the binary, the phase
/// subcommand, `--tests` for check and build, the package selection, the
/// extra arguments, and for the test phase the extra test arguments.
pub open spec fn spec_cargo_argv(
    bin: Seq<char>,
    phase: Phase,
    package: Option<Seq<char>>,
    adds: Seq<Seq<char>>,
    test_adds: Seq<Seq<char>>,
) -> Seq<Seq<char>> {
    seq![bin, spec_phase_name(phase)].add(
        if phase == Phase::Check || phase == Phase::Build {
            seq!["--tests"@]
        } else {
            Seq::<Seq<char>>::empty()
        },
    ).add(
        match package {
            Some(name) => seq!["--package"@, name],
            None => seq!["--workspace"@],
        },
    ).add(adds).add(
        if phase == Phase::Test {
            test_adds
        } else {
            Seq::<Seq<char>>::empty()
        },
    )
}

/// Makes up the argv for a check/build/test invocation, including argv[0]
/// as the build-tool binary itself and argv[1] as the phase name.
#[verifier::loop_isolation(false)]
pub fn cargo_argv(package_name: Option<&String>, phase: Phase, options: &Options) -> (r: Vec<
    String,
>)
    ensures
        r@.map_values(|s: String| s@) == spec_cargo_argv(
            options.cargo_bin@,
            phase,
            match package_name {
                Some(n) => Some(n@),
                None => None,
            },
            options.additional_cargo_args@.map_values(|s: String| s@),
            options.additional_cargo_test_args@.map_values(|s: String| s@),
        ),
{
    let ghost goal = spec_cargo_argv(
        options.cargo_bin@,
        phase,
        match package_name {
            Some(n) => Some(n@),
            None => None,
        },
        options.additional_cargo_args@.map_values(|s: String| s@),
        options.additional_cargo_test_args@.map_values(|s: String| s@),
    );
    let mut argv: Vec<String> = Vec::new();
    argv.push(options.cargo_bin.clone());
    argv.push(String::from_str(phase.name()));
    let is_check = matches!(phase, Phase::Check);
    let is_build = matches!(phase, Phase::Build);
    let is_test = matches!(phase, Phase::Test);
    if is_check || is_build {
        argv.push(String::from_str("--tests"));
    }
    match package_name {
        Some(name) => {
            argv.push(String::from_str("--package"));
            argv.push(name.clone());
        },
        None => {
            argv.push(String::from_str("--workspace"));
        },
    }
    let ghost fixed = argv@.map_values(|s: String| s@);
    proof {
        assert(fixed =~= seq![options.cargo_bin@, spec_phase_name(phase)].add(
            if phase == Phase::Check || phase == Phase::Build {
                seq!["--tests"@]
            } else {
                Seq::<Seq<char>>::empty()
            },
        ).add(
            match package_name {
                Some(name) => seq!["--package"@, name@],
                None => seq!["--workspace"@],
            },
        ));
    }
    let n1 = options.additional_cargo_args.len();
    let mut i: usize = 0;
    while i < n1
        invariant
            i <= n1,
            argv@.len() == fixed.len() + i,
            forall|j: int| 0 <= j < fixed.len() ==> (#[trigger] argv@[j])@ == fixed[j],
            forall|j: int|
                0 <= j < i ==> (#[trigger] argv@[fixed.len() + j])@
                    == options.additional_cargo_args@[j]@,
        decreases n1 - i,
    {
        argv.push(options.additional_cargo_args[i].clone());
        i += 1;
    }
    proof {
        let lhs = argv@.map_values(|s: String| s@);
        let rhs = fixed.add(options.additional_cargo_args@.map_values(|s: String| s@));
        assert(lhs.len() == rhs.len());
        assert forall|j: int| 0 <= j < lhs.len() implies lhs[j] == rhs[j] by {
            assert(lhs[j] == (#[trigger] argv@[j])@);
            if j >= fixed.len() {
                let j2 = j - fixed.len();
                assert(argv@[fixed.len() + j2]@ == options.additional_cargo_args@[j2]@);
                assert(rhs[j] == options.additional_cargo_args@[j2]@);
            }
        }
        assert(lhs =~= rhs);
    }
    if is_test {
        let ghost fixed2 = argv@.map_values(|s: String| s@);
        let n2 = options.additional_cargo_test_args.len();
        let mut k: usize = 0;
        while k < n2
            invariant
                k <= n2,
                argv@.len() == fixed2.len() + k,
                forall|j: int| 0 <= j < fixed2.len() ==> (#[trigger] argv@[j])@ == fixed2[j],
                forall|j: int|
                    0 <= j < k ==> (#[trigger] argv@[fixed2.len() + j])@
                        == options.additional_cargo_test_args@[j]@,
            decreases n2 - k,
        {
            argv.push(options.additional_cargo_test_args[k].clone());
            k += 1;
        }
        proof {
            let lhs = argv@.map_values(|s: String| s@);
            let rhs = fixed2.add(options.additional_cargo_test_args@.map_values(|s: String| s@));
            assert(lhs.len() == rhs.len());
            assert forall|j: int| 0 <= j < lhs.len() implies lhs[j] == rhs[j] by {
                assert(lhs[j] == (#[trigger] argv@[j])@);
                if j >= fixed2.len() {
                    let j2 = j - fixed2.len();
                    assert(argv@[fixed2.len() + j2]@ == options.additional_cargo_test_args@[j2]@);
                    assert(rhs[j] == options.additional_cargo_test_args@[j2]@);
                }
            }
            assert(lhs =~= rhs);
        }
    }
    proof {
        assert(argv@.map_values(|s: String| s@) =~= goal);
    }
    argv
}

/// The build-tool binary stands at index 0 and the phase name at index 1,
/// and exactly one of `--workspace` and `--package` appears: `--workspace`
/// iff no package is named, `--package` iff one is. Holds whenever neither
/// the binary name, the package name, nor any extra argument is itself
/// `--workspace` or `--package`.
pub proof fn lemma_cargo_argv_exclusive(
    bin: Seq<char>,
    phase: Phase,
    package: Option<Seq<char>>,
    adds: Seq<Seq<char>>,
    test_adds: Seq<Seq<char>>,
)
    requires
        bin != "--workspace"@ && bin != "--package"@,
        package matches Some(n) ==> n != "--workspace"@ && n != "--package"@,
        forall|i: int|
            0 <= i < adds.len() ==> #[trigger] adds[i] != "--workspace"@ && adds[i]
                != "--package"@,
        forall|i: int|
            0 <= i < test_adds.len() ==> #[trigger] test_adds[i] != "--workspace"@ && test_adds[i]
                != "--package"@,
    ensures
        spec_cargo_argv(bin, phase, package, adds, test_adds)[0] == bin,
        spec_cargo_argv(bin, phase, package, adds, test_adds)[1] == spec_phase_name(phase),
        spec_cargo_argv(bin, phase, package, adds, test_adds).contains("--workspace"@) <==> package
            is None,
        spec_cargo_argv(bin, phase, package, adds, test_adds).contains("--package"@) <==> package
            is Some,
{
    let argv = spec_cargo_argv(bin, phase, package, adds, test_adds);
    reveal_strlit("check");
    reveal_strlit("build");
    reveal_strlit("test");
    reveal_strlit("--tests");
    reveal_strlit("--workspace");
    reveal_strlit("--package");
    let tests_part: Seq<Seq<char>> = if phase == Phase::Check || phase == Phase::Build {
        seq!["--tests"@]
    } else {
        Seq::<Seq<char>>::empty()
    };
    let sel: Seq<Seq<char>> = match package {
        Some(name) => seq!["--package"@, name],
        None => seq!["--workspace"@],
    };
    let tail: Seq<Seq<char>> = if phase == Phase::Test {
        test_adds
    } else {
        Seq::<Seq<char>>::empty()
    };
    let selpos = 2 + tests_part.len();
    assert("--workspace"@.len() == 11);
    assert("--package"@.len() == 9);
    assert("--tests"@.len() == 7);
    assert(spec_phase_name(phase).len() <= 5);
    let pre = seq![bin, spec_phase_name(phase)];
    let s1 = pre.add(tests_part);
    let s2 = s1.add(sel);
    let s3 = s2.add(adds);
    let s4 = s3.add(tail);
    assert(argv =~= s4);
    match package {
        Some(name) => {
            assert(argv[selpos as int] == s4[selpos as int]);
            assert(argv[selpos as int] == "--package"@);
            assert(argv.contains("--package"@));
            assert forall|i: int| 0 <= i < argv.len() implies argv[i] != "--workspace"@ by {
                assert(argv[i] == s4[i]);
                if i < s3.len() {
                    assert(s4[i] == s3[i]);
                    if i < s2.len() {
                        assert(s3[i] == s2[i]);
                        if i < s1.len() {
                            assert(s2[i] == s1[i]);
                            if i < 2 {
                                assert(s1[i] == pre[i]);
                                assert(spec_phase_name(phase).len() <= 5);
                            } else {
                                assert(s1[i] == tests_part[i - 2]);
                            }
                        } else {
                            assert(s2[i] == sel[i - s1.len()]);
                        }
                    } else {
                        assert(s3[i] == adds[i - s2.len()]);
                    }
                } else {
                    assert(s4[i] == tail[i - s3.len()]);
                    assert(phase == Phase::Test);
                    assert(tail[i - s3.len()] == test_adds[i - s3.len()]);
                }
            }
            assert(!argv.contains("--workspace"@));
        },
        None => {
            assert(argv[selpos as int] == s4[selpos as int]);
            assert(argv[selpos as int] == "--workspace"@);
            assert(argv.contains("--workspace"@));
            assert forall|i: int| 0 <= i < argv.len() implies argv[i] != "--package"@ by {
                assert(argv[i] == s4[i]);
                if i < s3.len() {
                    assert(s4[i] == s3[i]);
                    if i < s2.len() {
                        assert(s3[i] == s2[i]);
                        if i < s1.len() {
                            assert(s2[i] == s1[i]);
                            if i < 2 {
                                assert(s1[i] == pre[i]);
                                assert(spec_phase_name(phase).len() <= 5);
                            } else {
                                assert(s1[i] == tests_part[i - 2]);
                            }
                        } else {
                            assert(s2[i] == sel[i - s1.len()]);
                        }
                    } else {
                        assert(s3[i] == adds[i - s2.len()]);
                    }
                } else {
                    assert(s4[i] == tail[i - s3.len()]);
                    assert(phase == Phase::Test);
                    assert(tail[i - s3.len()] == test_adds[i - s3.len()]);
                }
            }
            assert(!argv.contains("--package"@));
        },
    }
}

} // verus!

verus! {

/// The compiler-flag list for a build: the encoded variable split on the
/// unit separator where set, else the plain variable split on spaces, else
/// nothing; in every case `--cap-lints=allow` appended last.
pub open spec fn spec_rustflags_list(
    encoded: Option<Seq<char>>,
    plain: Option<Seq<char>>,
) -> Seq<Seq<char>> {
    (match encoded {
        Some(e) => spec_split(e, '\x1f'),
        None => match plain {
            Some(p) => spec_split(p, ' '),
            None => Seq::<Seq<char>>::empty(),
        },
    }).push("--cap-lints=allow"@)
}

/// The encoded flag string: the flag list joined with the unit separator.
pub open spec fn spec_rustflags(encoded: Option<Seq<char>>, plain: Option<Seq<char>>) -> Seq<
    char,
> {
    spec_join(spec_rustflags_list(encoded, plain), seq!['\x1f'])
}

/// However the flags were sourced, the last segment of the encoded result,
/// split on the unit separator, is `--cap-lints=allow`.
pub proof fn lemma_rustflags_cap_lints_last(encoded: Option<Seq<char>>, plain: Option<Seq<char>>)
    ensures
        spec_split(spec_rustflags(encoded, plain), '\x1f').last() == "--cap-lints=allow"@,
{
    reveal_strlit("--cap-lints=allow");
    let cap = "--cap-lints=allow"@;
    assert(forall|i: int| 0 <= i < cap.len() ==> cap[i] != '\x1f');
    let parts = match encoded {
        Some(e) => spec_split(e, '\x1f'),
        None => match plain {
            Some(p) => spec_split(p, ' '),
            None => Seq::<Seq<char>>::empty(),
        },
    };
    crate::text::lemma_split_join_last(parts, cap, '\x1f');
}

/// A source tree in which the build tool can run: the workspace root and
/// the manifest it was opened from.
pub struct CargoSourceTree {
    pub root: String,
    pub cargo_toml_path: String,
}

/// The manifest path in the JSON output of the build tool's
/// project-locating subcommand: the string value of its top-level `root`
/// field, where the text parses and has one.
pub uninterp spec fn spec_locate_project_root(s: Seq<char>) -> Option<Seq<char>>;

/// Relies on `serde_json::from_str::<Value>`, `Value::get` and
/// `Value::as_str`: reads the string value of the top-level `root` field of
/// the JSON text; `None` when the text does not parse or the field is
/// missing or not a string. A pure function of the text.
#[verifier::external_body]
fn locate_project_root_field(stdout: &str) -> (r: Option<String>)
    ensures
        match r {
            Some(p) => spec_locate_project_root(stdout@) == Some(p@),
            None => spec_locate_project_root(stdout@) is None,
        },
{
    match serde_json::from_str::<serde_json::Value>(stdout) {
        Ok(v) => match v.get("root") {
            Some(root) => root.as_str().map(|s| s.to_owned()),
            None => None,
        },
        Err(_) => None,
    }
}

impl Clone for CargoSourceTree {
    fn clone(&self) -> (r: Self)
        ensures
            r.root@ == self.root@,
            r.cargo_toml_path@ == self.cargo_toml_path@,
    {
        CargoSourceTree { root: self.root.clone(), cargo_toml_path: self.cargo_toml_path.clone() }
    }
}

impl CargoSourceTree {
    /// Opens the source tree that the build tool's project-locating output
    /// names: the manifest path is the output's `root` field, and the
    /// workspace root is that path's parent directory. Fails exactly when
    /// the output holds no manifest path.
    pub fn from_locate_project_output(stdout: &str) -> (r: Result<CargoSourceTree, MutantsError>)
        ensures
            match r {
                Ok(t) => spec_locate_project_root(stdout@) matches Some(m)
                    && t.cargo_toml_path@ == m && t.root@ == spec_parent(m),
                Err(e) => spec_locate_project_root(stdout@) is None && e is NoManifest,
            },
    {
        match locate_project_root_field(stdout) {
            Some(manifest) => {
                let mp = TreeRelativePath::new(manifest.as_str());
                let root = mp.parent().as_string();
                Ok(CargoSourceTree { root, cargo_toml_path: manifest })
            },
            None => Err(MutantsError::NoManifest),
        }
    }

    /// The workspace root.
    pub fn path(&self) -> (r: &String)
        ensures
            r@ == self.root@,
    {
        &self.root
    }

    /// The encoded compiler flags for building this tree, computed from the
    /// two flag environment variables as the caller read them: the encoded
    /// form is preferred, the plain form split on spaces is the fallback,
    /// and `--cap-lints=allow` is always appended last, so that mutants are
    /// not rejected for lint reasons.
    pub fn rustflags(&self, encoded_rustflags: Option<&String>, plain_rustflags: Option<&String>)
        -> (r: String)
        ensures
            r@ == spec_rustflags(
                match encoded_rustflags {
                    Some(s) => Some(s@),
                    None => None,
                },
                match plain_rustflags {
                    Some(s) => Some(s@),
                    None => None,
                },
            ),
    {
        let mut parts: Vec<Vec<char>> = match encoded_rustflags {
            Some(s) => {
                let v = str_to_chars(s.as_str());
                let r = crate::text::split_chars_from(&v, 0, '\x1f');
                proof {
                    assert(v@.skip(0) =~= v@);
                }
                r
            },
            None => match plain_rustflags {
                Some(s) => {
                    let v = str_to_chars(s.as_str());
                    let r = crate::text::split_chars_from(&v, 0, ' ');
                    proof {
                        assert(v@.skip(0) =~= v@);
                    }
                    r
                },
                None => Vec::new(),
            },
        };
        let ghost pm = parts@.map_values(|p: Vec<char>| p@);
        let cap = str_to_chars("--cap-lints=allow");
        let ghost capv = cap@;
        parts.push(cap);
        proof {
            assert(parts@.map_values(|p: Vec<char>| p@) =~= pm.push(capv));
            assert(parts@.map_values(|p: Vec<char>| p@).skip(0) =~= parts@.map_values(
                |p: Vec<char>| p@,
            ));
        }
        let sep: Vec<char> = vec!['\x1f'];
        let joined = crate::text::join_parts_from(&parts, 0, &sep);
        proof {
            assert(sep@ =~= seq!['\x1f']);
        }
        chars_to_string(&joined)
    }
}

/// The build-tool home directory: the caller's value of the home-override
/// variable where set, else `.cargo` under the caller's home directory,
/// else nothing.
pub open spec fn spec_cargo_home(
    cargo_home_env: Option<Seq<char>>,
    home_dir: Option<Seq<char>>,
) -> Option<Seq<char>> {
    match cargo_home_env {
        Some(h) => Some(h),
        None => match home_dir {
            Some(h) => Some(h.add("/.cargo"@)),
            None => None,
        },
    }
}

/// Resolves the build-tool home directory from the two values the caller
/// read from the environment.
pub fn cargo_home_from(cargo_home_env: Option<&String>, home_dir: Option<&String>) -> (r: Option<
    String,
>)
    ensures
        match r {
            Some(h) => spec_cargo_home(
                match cargo_home_env {
                    Some(s) => Some(s@),
                    None => None,
                },
                match home_dir {
                    Some(s) => Some(s@),
                    None => None,
                },
            ) == Some(h@),
            None => cargo_home_env is None && home_dir is None,
        },
{
    match cargo_home_env {
        Some(h) => Some(h.clone()),
        None => match home_dir {
            Some(h) => {
                let mut v = str_to_chars(h.as_str());
                let mut suffix = str_to_chars("/.cargo");
                v.append(&mut suffix);
                proof {
                    assert(v@ =~= h@.add("/.cargo"@));
                }
                Some(chars_to_string(&v))
            },
            None => None,
        },
    }
}

/// The two candidate config files under a directory's `.cargo`
/// subdirectory, in the order the build tool prefers them.
pub fn config_candidates_for_dir(dir: &str) -> (r: (String, String))
    ensures
        r.0@ == dir@.add("/.cargo/config.toml"@),
        r.1@ == dir@.add("/.cargo/config"@),
{
    let mut a = str_to_chars(dir);
    let mut asuf = str_to_chars("/.cargo/config.toml");
    a.append(&mut asuf);
    let mut b = str_to_chars(dir);
    let mut bsuf = str_to_chars("/.cargo/config");
    b.append(&mut bsuf);
    proof {
        assert(a@ =~= dir@.add("/.cargo/config.toml"@));
        assert(b@ =~= dir@.add("/.cargo/config"@));
    }
    (chars_to_string(&a), chars_to_string(&b))
}

/// The two candidate config files directly under the build-tool home, in
/// preference order.
pub fn home_config_candidates(home: &str) -> (r: (String, String))
    ensures
        r.0@ == home@.add("/config.toml"@),
        r.1@ == home@.add("/config"@),
{
    let mut a = str_to_chars(home);
    let mut asuf = str_to_chars("/config.toml");
    a.append(&mut asuf);
    let mut b = str_to_chars(home);
    let mut bsuf = str_to_chars("/config");
    b.append(&mut bsuf);
    proof {
        assert(a@ =~= home@.add("/config.toml"@));
        assert(b@ =~= home@.add("/config"@));
    }
    (chars_to_string(&a), chars_to_string(&b))
}

/// Appends `p` unless an equal path is already present, preserving order
/// and keeping the list free of duplicates.
pub fn push_if_absent(paths: &mut Vec<String>, p: String)
    ensures
        (exists|j: int| 0 <= j < old(paths)@.len() && (#[trigger] old(paths)@[j])@ == p@)
            ==> final(paths)@ == old(paths)@,
        !(exists|j: int| 0 <= j < old(paths)@.len() && (#[trigger] old(paths)@[j])@ == p@)
            ==> final(paths)@ == old(paths)@.push(p),
        (forall|i: int, j: int|
            0 <= i < j < old(paths)@.len() ==> (#[trigger] old(paths)@[i])@ != (#[trigger] old(
                paths,
            )@[j])@) ==> (forall|i: int, j: int|
            0 <= i < j < final(paths)@.len() ==> (#[trigger] final(paths)@[i])@ != (
            #[trigger] final(paths)@[j])@),
{
    let n = paths.len();
    let mut i: usize = 0;
    while i < n
        invariant
            n == paths@.len(),
            i <= n,
            paths@ == old(paths)@,
            forall|j: int| 0 <= j < i ==> (#[trigger] paths@[j])@ != p@,
        decreases n - i,
    {
        if crate::text::str_eq(paths[i].as_str(), p.as_str()) {
            return ;
        }
        i += 1;
    }
    paths.push(p);
}

} // verus!
