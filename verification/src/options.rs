//! Discovery and invocation options: glob filters on source paths, regex
//! filters on mutant names, extra build-tool arguments, and the build-tool
//! binary to invoke.

use vstd::prelude::*;

use crate::MutantsError;

verus! {

#[verifier::external_type_specification]
#[verifier::external_body]
pub struct ExGlobSet(globset::GlobSet);

#[verifier::external_type_specification]
#[verifier::external_body]
pub struct ExGlobError(globset::Error);

#[verifier::external_type_specification]
#[verifier::external_body]
pub struct ExRegexSet(regex::RegexSet);

#[verifier::external_type_specification]
#[verifier::external_body]
pub struct ExRegexError(regex::Error);

/// The glob patterns a compiled `globset::GlobSet` was built from.
pub uninterp spec fn globset_patterns(gs: globset::GlobSet) -> Seq<Seq<char>>;

/// Whether the given glob patterns compile into a set: compilation succeeds
/// or fails as a function of the patterns alone.
pub uninterp spec fn globset_compiles(patterns: Seq<Seq<char>>) -> bool;

/// Whether any of the given glob patterns matches the given path.
pub uninterp spec fn spec_glob_match(patterns: Seq<Seq<char>>, path: Seq<char>) -> bool;

/// The regex patterns a compiled `regex::RegexSet` was built from.
pub uninterp spec fn regexset_patterns(rs: regex::RegexSet) -> Seq<Seq<char>>;

/// Whether the given regex patterns compile into a set: compilation
/// succeeds or fails as a function of the patterns alone.
pub uninterp spec fn regexset_compiles(patterns: Seq<Seq<char>>) -> bool;

/// Whether any of the given regex patterns matches the given text.
pub uninterp spec fn spec_regex_match(patterns: Seq<Seq<char>>, text: Seq<char>) -> bool;

/// Relies on `globset::GlobSetBuilder` (`Glob::new`, `add`, `build`): on
/// success the returned set is the compilation of exactly the given
/// patterns, and success is a function of the patterns alone.
#[verifier::external_body]
fn build_globset(patterns: &Vec<String>) -> (r: Result<globset::GlobSet, globset::Error>)
    ensures
        r is Ok <==> globset_compiles(patterns@.map_values(|s: String| s@)),
        r matches Ok(gs) ==> globset_patterns(gs) == patterns@.map_values(|s: String| s@),
{
    let mut builder = globset::GlobSetBuilder::new();
    for p in patterns {
        builder.add(globset::Glob::new(p)?);
    }
    builder.build()
}

/// Relies on `globset::GlobSet::is_match`: true iff any glob in the set
/// matches the path; a pure function of the set's patterns and the path.
#[verifier::external_body]
fn globset_is_match(gs: &globset::GlobSet, path: &str) -> (r: bool)
    ensures
        r == spec_glob_match(globset_patterns(*gs), path@),
{
    gs.is_match(path)
}

/// Relies on `regex::RegexSet::new`: on success the returned set is the
/// compilation of exactly the given patterns, and success is a function of
/// the patterns alone.
#[verifier::external_body]
fn build_regexset(patterns: &Vec<String>) -> (r: Result<regex::RegexSet, regex::Error>)
    ensures
        r is Ok <==> regexset_compiles(patterns@.map_values(|s: String| s@)),
        r matches Ok(rs) ==> regexset_patterns(rs) == patterns@.map_values(|s: String| s@),
{
    regex::RegexSet::new(patterns)
}

/// Relies on `regex::RegexSet::is_match`: true iff any regex in the set
/// matches the text; a pure function of the set's patterns and the text.
#[verifier::external_body]
fn regexset_is_match(rs: &regex::RegexSet, text: &str) -> (r: bool)
    ensures
        r == spec_regex_match(regexset_patterns(*rs), text@),
{
    rs.is_match(text)
}

/// A set of glob patterns matched against tree-relative source paths.
pub struct GlobFilter {
    set: globset::GlobSet,
}

impl View for GlobFilter {
    type V = Seq<Seq<char>>;

    closed spec fn view(&self) -> Seq<Seq<char>> {
        globset_patterns(self.set)
    }
}

impl GlobFilter {
    /// Compiles the given glob patterns; succeeds exactly when the patterns
    /// compile.
    pub fn new(patterns: &Vec<String>) -> (r: Result<GlobFilter, MutantsError>)
        ensures
            r is Ok <==> globset_compiles(patterns@.map_values(|s: String| s@)),
            r matches Ok(f) ==> f@ == patterns@.map_values(|s: String| s@),
            r is Err ==> r matches Err(MutantsError::InvalidGlob),
    {
        match build_globset(patterns) {
            Ok(set) => Ok(GlobFilter { set }),
            Err(_) => Err(MutantsError::InvalidGlob),
        }
    }

    /// Does any pattern match this path?
    pub fn is_match(&self, path: &str) -> (r: bool)
        ensures
            r == spec_glob_match(self@, path@),
    {
        globset_is_match(&self.set, path)
    }
}

/// A set of regex patterns matched against mutant descriptions.
pub struct NameFilter {
    set: regex::RegexSet,
}

impl View for NameFilter {
    type V = Seq<Seq<char>>;

    closed spec fn view(&self) -> Seq<Seq<char>> {
        regexset_patterns(self.set)
    }
}

impl NameFilter {
    /// Compiles the given regex patterns; succeeds exactly when the
    /// patterns compile.
    pub fn new(patterns: &Vec<String>) -> (r: Result<NameFilter, MutantsError>)
        ensures
            r is Ok <==> regexset_compiles(patterns@.map_values(|s: String| s@)),
            r matches Ok(f) ==> f@ == patterns@.map_values(|s: String| s@),
            r is Err ==> r matches Err(MutantsError::InvalidRegex),
    {
        match build_regexset(patterns) {
            Ok(set) => Ok(NameFilter { set }),
            Err(_) => Err(MutantsError::InvalidRegex),
        }
    }

    /// Does any pattern match this text?
    pub fn is_match(&self, text: &str) -> (r: bool)
        ensures
            r == spec_regex_match(self@, text@),
    {
        regexset_is_match(&self.set, text)
    }

    /// Is the pattern set empty? An empty filter is treated as absent.
    pub fn is_empty(&self) -> (r: bool)
        ensures
            r == (self@.len() == 0),
    {
        regexset_len_is_zero(&self.set)
    }
}

/// Relies on `regex::RegexSet::is_empty`: true iff the set holds zero
/// patterns.
#[verifier::external_body]
fn regexset_len_is_zero(rs: &regex::RegexSet) -> (r: bool)
    ensures
        r == (regexset_patterns(*rs).len() == 0),
{
    rs.is_empty()
}

/// Options controlling discovery and build-tool invocations.
pub struct Options {
    /// The build-tool binary to invoke; the caller fills this from the
    /// process environment, or leaves the default name.
    pub cargo_bin: String,
    /// Generate mutants only from source files matching these globs.
    pub examine_globset: Option<GlobFilter>,
    /// Skip source files matching these globs.
    pub exclude_globset: Option<GlobFilter>,
    /// Examine only mutants whose description matches these regexes.
    pub examine_names: Option<NameFilter>,
    /// Skip mutants whose description matches these regexes.
    pub exclude_names: Option<NameFilter>,
    /// Extra arguments for every build-tool invocation.
    pub additional_cargo_args: Vec<String>,
    /// Extra arguments for the test phase only.
    pub additional_cargo_test_args: Vec<String>,
}

impl Default for Options {
    /// No filters, no extra arguments, and the default build-tool name.
    fn default() -> (r: Options)
        ensures
            r.cargo_bin@ == "cargo"@,
            r.examine_globset is None,
            r.exclude_globset is None,
            r.examine_names is None,
            r.exclude_names is None,
            r.additional_cargo_args@ == Seq::<String>::empty(),
            r.additional_cargo_test_args@ == Seq::<String>::empty(),
    {
        Options {
            cargo_bin: String::from_str("cargo"),
            examine_globset: None,
            exclude_globset: None,
            examine_names: None,
            exclude_names: None,
            additional_cargo_args: Vec::new(),
            additional_cargo_test_args: Vec::new(),
        }
    }
}

} // verus!
