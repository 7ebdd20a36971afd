//! The in-tree configuration file `.cargo/mutants.toml`: the fields it may
//! set and where it lives. Reading and deserializing the file is the
//! caller's business; the values land here.

use vstd::prelude::*;

use crate::text::{chars_to_string, str_to_chars};

verus! {

/// Configuration read from a tree's config file. All fields are optional
/// lists of strings; an absent file leaves every list empty.
pub struct Config {
    /// Generate mutants from source files matching these globs.
    pub examine_globs: Vec<String>,
    /// Exclude mutants from source files matching these globs.
    pub exclude_globs: Vec<String>,
    /// Exclude mutants whose name matches these regexes.
    pub exclude_re: Vec<String>,
    /// Examine only mutants whose name matches these regexes.
    pub examine_re: Vec<String>,
    /// Pass extra args to every build-tool invocation.
    pub additional_cargo_args: Vec<String>,
    /// Pass extra args to the test phase.
    pub additional_cargo_test_args: Vec<String>,
}

impl Default for Config {
    /// The empty configuration: every list empty.
    fn default() -> (r: Config)
        ensures
            r.examine_globs@ == Seq::<String>::empty(),
            r.exclude_globs@ == Seq::<String>::empty(),
            r.exclude_re@ == Seq::<String>::empty(),
            r.examine_re@ == Seq::<String>::empty(),
            r.additional_cargo_args@ == Seq::<String>::empty(),
            r.additional_cargo_test_args@ == Seq::<String>::empty(),
    {
        Config {
            examine_globs: Vec::new(),
            exclude_globs: Vec::new(),
            exclude_re: Vec::new(),
            examine_re: Vec::new(),
            additional_cargo_args: Vec::new(),
            additional_cargo_test_args: Vec::new(),
        }
    }
}

impl Config {
    /// Where a tree's configuration file lives: `.cargo/mutants.toml` under
    /// the workspace root.
    pub fn tree_config_path(source_tree_root: &str) -> (r: String)
        ensures
            r@ == source_tree_root@.add("/.cargo/mutants.toml"@),
    {
        let mut v = str_to_chars(source_tree_root);
        let mut suffix = str_to_chars("/.cargo/mutants.toml");
        v.append(&mut suffix);
        proof {
            assert(v@ =~= source_tree_root@.add("/.cargo/mutants.toml"@));
        }
        chars_to_string(&v)
    }
}

} // verus!
