//! Tree-relative paths: forward-slash separated paths relative to a workspace
//! root. A well-formed tree-relative path is never absolute and never
//! contains a `..` component.

use vstd::prelude::*;

use crate::text::{
    chars_ends_with, chars_eq, chars_starts_with, chars_to_string, spec_ends_with, spec_split,
    spec_starts_with, str_to_chars,
};

verus! {

/// A path relative to the workspace root, stored as its character sequence.
pub struct TreeRelativePath {
    chars: Vec<char>,
}

impl View for TreeRelativePath {
    type V = Seq<char>;

    closed spec fn view(&self) -> Seq<char> {
        self.chars@
    }
}

impl Clone for TreeRelativePath {
    fn clone(&self) -> (r: Self)
        ensures
            r@ == self@,
    {
        TreeRelativePath { chars: self.chars.clone() }
    }
}

/// The components of a path: the parts between `/` separators.
pub open spec fn spec_components(s: Seq<char>) -> Seq<Seq<char>> {
    spec_split(s, '/')
}

/// Well-formed: not absolute, and no `..` component.
pub open spec fn spec_path_wf(s: Seq<char>) -> bool {
    &&& (s.len() > 0 ==> s[0] != '/')
    &&& forall|i: int|
        0 <= i < spec_components(s).len() ==> spec_components(s)[i] != ".."@
}

/// The parent of a path: everything before the final `/`, or the empty path
/// when there is no separator.
pub open spec fn spec_parent(s: Seq<char>) -> Seq<char>
    decreases s.len(),
{
    if s.len() == 0 {
        Seq::<char>::empty()
    } else if s.last() == '/' {
        s.drop_last()
    } else {
        spec_parent(s.drop_last())
    }
}

/// The last component of the path with everything from its final `.` on
/// removed; the path itself when the last component has no `.`.
pub open spec fn spec_without_extension(s: Seq<char>) -> Seq<char> {
    spec_strip_ext_from(s, s.len() as int)
}

pub open spec fn spec_strip_ext_from(s: Seq<char>, i: int) -> Seq<char>
    decreases i,
{
    if i <= 0 {
        s
    } else if s[i - 1] == '.' {
        s.take(i - 1)
    } else if s[i - 1] == '/' {
        s
    } else {
        spec_strip_ext_from(s, i - 1)
    }
}

/// Joining a name below a path.
pub open spec fn spec_path_join(s: Seq<char>, name: Seq<char>) -> Seq<char> {
    if s.len() == 0 {
        name
    } else {
        s.add(seq!['/']).add(name)
    }
}

/// Does the path end with the single given component?
pub open spec fn spec_ends_with_component(s: Seq<char>, name: Seq<char>) -> bool {
    s == name || spec_ends_with(s, seq!['/'].add(name))
}

impl TreeRelativePath {
    /// Wraps the given text as a tree-relative path.
    pub fn new(s: &str) -> (r: TreeRelativePath)
        ensures
            r@ == s@,
    {
        TreeRelativePath { chars: str_to_chars(s) }
    }

    pub fn from_chars(chars: Vec<char>) -> (r: TreeRelativePath)
        ensures
            r@ == chars@,
    {
        TreeRelativePath { chars }
    }

    pub open spec fn wf(&self) -> bool {
        spec_path_wf(self@)
    }

    /// Decides well-formedness: not absolute, and no `..` component.
    pub fn is_wf(&self) -> (r: bool)
        ensures
            r == self.wf(),
    {
        if self.chars.len() > 0 && self.chars[0] == '/' {
            return false;
        }
        let parts = crate::text::split_chars_from(&self.chars, 0, '/');
        proof {
            assert(self@.skip(0) =~= self@);
        }
        let n = parts.len();
        let dots = crate::text::str_to_chars("..");
        let mut i: usize = 0;
        while i < n
            invariant
                n == parts@.len(),
                i <= n,
                parts@.map_values(|p: Vec<char>| p@) == spec_components(self@),
                dots@ == ".."@,
                forall|j: int| 0 <= j < i ==> spec_components(self@)[j] != ".."@,
            decreases n - i,
        {
            if crate::text::chars_eq(&parts[i], &dots) {
                proof {
                    assert(spec_components(self@)[i as int] == parts@[i as int]@);
                }
                return false;
            }
            proof {
                assert(spec_components(self@)[i as int] == parts@[i as int]@);
            }
            i += 1;
        }
        true
    }

    /// The path's text.
    pub fn as_string(&self) -> (r: String)
        ensures
            r@ == self@,
    {
        chars_to_string(&self.chars)
    }

    pub fn chars(&self) -> (r: &Vec<char>)
        ensures
            r@ == self@,
    {
        &self.chars
    }

    pub fn eq_path(&self, other: &TreeRelativePath) -> (r: bool)
        ensures
            r == (self@ == other@),
    {
        chars_eq(&self.chars, &other.chars)
    }

    /// The parent directory of this path; the empty path for a bare name.
    pub fn parent(&self) -> (r: TreeRelativePath)
        ensures
            r@ == spec_parent(self@),
    {
        let mut end = self.chars.len();
        proof {
            assert(self@.take(self.chars@.len() as int) =~= self@);
        }
        loop
            invariant
                end <= self.chars@.len(),
                spec_parent(self@) == spec_parent(self@.take(end as int)),
            decreases end,
        {
            if end == 0 {
                proof {
                    assert(self@.take(0) =~= Seq::<char>::empty());
                }
                return TreeRelativePath { chars: Vec::new() };
            }
            if self.chars[end - 1] == '/' {
                let mut r: Vec<char> = Vec::new();
                let mut i: usize = 0;
                while i < end - 1
                    invariant
                        end <= self.chars@.len(),
                        end >= 1,
                        i <= end - 1,
                        r@ =~= self@.take(i as int),
                    decreases end - 1 - i,
                {
                    r.push(self.chars[i]);
                    i += 1;
                }
                proof {
                    assert(self@.take(end as int).last() == '/');
                    assert(self@.take(end as int).drop_last() =~= self@.take(end as int - 1));
                    assert(r@ =~= self@.take(end as int - 1));
                }
                return TreeRelativePath { chars: r };
            }
            proof {
                assert(self@.take(end as int).drop_last() =~= self@.take(end as int - 1));
            }
            end = end - 1;
        }
    }

    /// This path with `name` joined below it.
    pub fn join(&self, name: &str) -> (r: TreeRelativePath)
        ensures
            r@ == spec_path_join(self@, name@),
    {
        if self.chars.len() == 0 {
            TreeRelativePath { chars: str_to_chars(name) }
        } else {
            let mut r = self.chars.clone();
            r.push('/');
            let mut n = str_to_chars(name);
            r.append(&mut n);
            proof {
                assert(r@ =~= self@.add(seq!['/']).add(name@));
            }
            TreeRelativePath { chars: r }
        }
    }

    /// This path with the last component's extension removed.
    pub fn without_extension(&self) -> (r: TreeRelativePath)
        ensures
            r@ == spec_without_extension(self@),
    {
        let mut i = self.chars.len();
        loop
            invariant
                i <= self.chars@.len(),
                spec_without_extension(self@) == spec_strip_ext_from(self@, i as int),
            decreases i,
        {
            if i == 0 {
                return self.clone();
            }
            let c = self.chars[i - 1];
            if c == '.' {
                let mut r: Vec<char> = Vec::new();
                let mut j: usize = 0;
                while j < i - 1
                    invariant
                        i <= self.chars@.len(),
                        i >= 1,
                        j <= i - 1,
                        r@ =~= self@.take(j as int),
                    decreases i - 1 - j,
                {
                    r.push(self.chars[j]);
                    j += 1;
                }
                return TreeRelativePath { chars: r };
            }
            if c == '/' {
                return self.clone();
            }
            i = i - 1;
        }
    }

    /// Does this path end with the single component `name`?
    pub fn ends_with_component(&self, name: &str) -> (r: bool)
        ensures
            r == spec_ends_with_component(self@, name@),
    {
        let n = str_to_chars(name);
        if chars_eq(&self.chars, &n) {
            return true;
        }
        let mut needle: Vec<char> = Vec::new();
        needle.push('/');
        let mut n2 = str_to_chars(name);
        needle.append(&mut n2);
        proof {
            assert(needle@ =~= seq!['/'].add(name@));
        }
        chars_ends_with(&self.chars, &needle)
    }

    /// The text of this path below the directory `root`, separated by `/`.
    pub fn within(&self, root: &str) -> (r: String)
        ensures
            r@ == root@.add(seq!['/']).add(self@),
    {
        let mut v = str_to_chars(root);
        v.push('/');
        let mut c = self.chars.clone();
        v.append(&mut c);
        proof {
            assert(v@ =~= root@.add(seq!['/']).add(self@));
        }
        chars_to_string(&v)
    }
}

/// Strips the directory prefix `root` (followed by `/`) from the absolute
/// path `path`, yielding the tree-relative remainder; `None` when `path` does
/// not lie under `root`.
pub fn strip_prefix_dir(path: &str, root: &str) -> (r: Option<TreeRelativePath>)
    ensures
        match r {
            Some(p) => path@ == root@.add(seq!['/']).add(p@),
            None => forall|rest: Seq<char>| path@ != root@.add(seq!['/']).add(rest),
        },
{
    let pv = str_to_chars(path);
    let mut prefix = str_to_chars(root);
    prefix.push('/');
    proof {
        assert(prefix@ =~= root@.add(seq!['/']));
    }
    if chars_starts_with(&pv, &prefix) {
        let mut rest: Vec<char> = Vec::new();
        let mut i = prefix.len();
        let n = pv.len();
        proof {
            assert(pv@.subrange(0, prefix@.len() as int) =~= prefix@);
        }
        while i < n
            invariant
                n == pv@.len(),
                prefix@.len() <= i <= n,
                rest@ =~= pv@.subrange(prefix@.len() as int, i as int),
            decreases n - i,
        {
            rest.push(pv[i]);
            i += 1;
        }
        proof {
            assert(pv@ =~= prefix@.add(pv@.subrange(prefix@.len() as int, pv@.len() as int)));
        }
        Some(TreeRelativePath { chars: rest })
    } else {
        proof {
            assert forall|rest: Seq<char>| path@ != root@.add(seq!['/']).add(rest) by {
                if path@ == root@.add(seq!['/']).add(rest) {
                    assert(path@.subrange(0, prefix@.len() as int) =~= prefix@);
                }
            }
        }
        None
    }
}

} // verus!
