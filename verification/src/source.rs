//! An in-memory snapshot of the source tree: the tree-relative path and full
//! text of every Rust source file under the workspace root. The tree walker
//! works against this snapshot, so discovery is a function of its contents.

use vstd::prelude::*;

verus! {

/// The association list a snapshot denotes: pairs of path and file text.
pub open spec fn spec_lookup(entries: Seq<(Seq<char>, Seq<char>)>, key: Seq<char>) -> Option<
    Seq<char>,
>
    decreases entries.len(),
{
    if entries.len() == 0 {
        None
    } else if entries[0].0 == key {
        Some(entries[0].1)
    } else {
        spec_lookup(entries.skip(1), key)
    }
}

/// A snapshot of the files under a workspace root, keyed by tree-relative
/// slash-separated path.
pub struct TreeFiles {
    entries: Vec<(String, String)>,
}

impl View for TreeFiles {
    type V = Seq<(Seq<char>, Seq<char>)>;

    closed spec fn view(&self) -> Seq<(Seq<char>, Seq<char>)> {
        self.entries@.map_values(|e: (String, String)| (e.0@, e.1@))
    }
}

impl TreeFiles {
    /// Builds a snapshot from `(path, text)` pairs.
    pub fn new(entries: Vec<(String, String)>) -> (r: TreeFiles)
        ensures
            r@ == entries@.map_values(|e: (String, String)| (e.0@, e.1@)),
    {
        TreeFiles { entries }
    }

    /// The text of the file at `key`, taking the first entry when a path is
    /// listed more than once.
    pub fn lookup(&self, key: &Vec<char>) -> (r: Option<String>)
        ensures
            match r {
                Some(code) => spec_lookup(self@, key@) == Some(code@),
                None => spec_lookup(self@, key@) is None,
            },
    {
        let n = self.entries.len();
        let mut i: usize = 0;
        proof {
            assert(self@.skip(0) =~= self@);
        }
        while i < n
            invariant
                n == self.entries@.len(),
                self@.len() == n,
                i <= n,
                spec_lookup(self@, key@) == spec_lookup(self@.skip(i as int), key@),
            decreases n - i,
        {
            proof {
                assert(self@.skip(i as int)[0] == self@[i as int]);
                assert(self@.skip(i as int).skip(1) =~= self@.skip(i as int + 1));
            }
            let ev = crate::text::str_to_chars(self.entries[i].0.as_str());
            if crate::text::chars_eq(&ev, key) {
                return Some(self.entries[i].1.clone());
            }
            i += 1;
        }
        proof {
            assert(self@.skip(n as int) =~= Seq::<(Seq<char>, Seq<char>)>::empty());
        }
        None
    }

    /// Is there a file at `key`?
    pub fn contains(&self, key: &Vec<char>) -> (r: bool)
        ensures
            r == (spec_lookup(self@, key@) is Some),
    {
        match self.lookup(key) {
            Some(_) => true,
            None => false,
        }
    }
}

/// A key that `spec_lookup` finds is one of the entries' keys.
pub proof fn lemma_lookup_in_keys(entries: Seq<(Seq<char>, Seq<char>)>, key: Seq<char>)
    requires
        spec_lookup(entries, key) is Some,
    ensures
        entries.map_values(|e: (Seq<char>, Seq<char>)| e.0).to_set().contains(key),
    decreases entries.len(),
{
    let keys = entries.map_values(|e: (Seq<char>, Seq<char>)| e.0);
    if entries.len() == 0 {
    } else if entries[0].0 == key {
        assert(keys[0] == key);
        assert(keys.contains(key));
    } else {
        lemma_lookup_in_keys(entries.skip(1), key);
        let krest = entries.skip(1).map_values(|e: (Seq<char>, Seq<char>)| e.0);
        let i = choose|i: int| 0 <= i < krest.len() && krest[i] == key;
        assert(keys[i + 1] == key);
        assert(keys.contains(key));
    }
}

} // verus!
