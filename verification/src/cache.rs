//! Process-lifetime caches for expensive provider lookups: tool version
//! strings keyed by name, and git metadata keyed by repository root. Both
//! record absence as well as presence, so a failed lookup is not repeated.
//!
//! Newer entries shadow older ones: an insert prepends, and a lookup takes
//! the first match.

use vstd::prelude::*;

use crate::chars::str_eq;

verus! {

/// Looks a key up in an association list: the first pair with that key
/// gives the value.
pub open spec fn spec_assoc_lookup<V>(entries: Seq<(Seq<char>, V)>, key: Seq<char>) -> Option<V>
    decreases entries.len(),
{
    if entries.len() == 0 {
        None
    } else if entries[0].0 == key {
        Some(entries[0].1)
    } else {
        spec_assoc_lookup(entries.drop_first(), key)
    }
}

/// A cache from tool name to its version lookup's outcome; `Some(None)`
/// records that the lookup failed.
pub struct VersionCache {
    entries: Vec<(String, Option<String>)>,
}

impl View for VersionCache {
    type V = Seq<(Seq<char>, Option<Seq<char>>)>;

    closed spec fn view(&self) -> Seq<(Seq<char>, Option<Seq<char>>)> {
        self.entries.deep_view()
    }
}

impl VersionCache {
    pub fn new() -> (r: Self)
        ensures
            r@ == Seq::<(Seq<char>, Option<Seq<char>>)>::empty(),
    {
        let r = VersionCache { entries: Vec::new() };
        proof {
            assert(r@ =~= Seq::<(Seq<char>, Option<Seq<char>>)>::empty());
        }
        r
    }

    /// The recorded outcome for a key, if any.
    pub fn get(&self, key: &str) -> (r: Option<Option<String>>)
        ensures
            match r {
                Some(v) => spec_assoc_lookup(self@, key@) == Some(v.deep_view()),
                None => spec_assoc_lookup(self@, key@) is None,
            },
    {
        let ghost all = self@;
        let n = self.entries.len();
        proof {
            assert(self@.skip(0) =~= self@);
        }
        let mut i: usize = 0;
        while i < n
            invariant
                i <= n,
                n == self.entries.len(),
                all == self@,
                spec_assoc_lookup(all, key@) == spec_assoc_lookup(self@.skip(i as int), key@),
            decreases n - i,
        {
            proof {
                assert(self@.skip(i as int)[0] == self@[i as int]);
                assert(self@.skip(i as int).drop_first() =~= self@.skip(i as int + 1));
            }
            if str_eq(self.entries[i].0.as_str(), key) {
                let value = match &self.entries[i].1 {
                    Some(v) => Some(v.clone()),
                    None => None,
                };
                proof {
                    assert(value.deep_view() == self@[i as int].1);
                }
                return Some(value);
            }
            i = i + 1;
        }
        proof {
            assert(self@.skip(n as int) =~= Seq::<(Seq<char>, Option<Seq<char>>)>::empty());
        }
        None
    }

    /// Records an outcome for a key, shadowing any earlier record.
    pub fn insert(&mut self, key: String, value: Option<String>)
        ensures
            forall|k: Seq<char>|
                #[trigger] spec_assoc_lookup(final(self)@, k) == if k == key@ {
                    Some(value.deep_view())
                } else {
                    spec_assoc_lookup(old(self)@, k)
                },
    {
        let ghost old_view = self@;
        let ghost pair_view = (key@, value.deep_view());
        self.entries.insert(0, (key, value));
        proof {
            assert(self@ =~= seq![pair_view] + old_view);
            assert forall|k: Seq<char>| #[trigger]
                spec_assoc_lookup(self@, k) == if k == pair_view.0 {
                    Some(pair_view.1)
                } else {
                    spec_assoc_lookup(old_view, k)
                } by {
                assert(self@[0] == pair_view);
                assert(self@.drop_first() =~= old_view);
            }
        }
    }
}

impl Default for VersionCache {
    fn default() -> (r: Self)
        ensures
            r@ == Seq::<(Seq<char>, Option<Seq<char>>)>::empty(),
    {
        VersionCache::new()
    }
}

/// What one render learned about a repository.
#[derive(Debug, Clone)]
pub struct GitInfo {
    /// The branch name, or a short commit id on a detached head.
    pub branch: String,
    /// Whether the worktree has unstaged changes.
    pub has_changes: bool,
    /// Whether the index has staged changes.
    pub has_staged: bool,
    /// Whether untracked files exist.
    pub has_untracked: bool,
}

/// The mathematical value of a `GitInfo`.
#[verifier::ext_equal]
pub struct GitInfoV {
    pub branch: Seq<char>,
    pub has_changes: bool,
    pub has_staged: bool,
    pub has_untracked: bool,
}

impl View for GitInfo {
    type V = GitInfoV;

    open spec fn view(&self) -> GitInfoV {
        GitInfoV {
            branch: self.branch@,
            has_changes: self.has_changes,
            has_staged: self.has_staged,
            has_untracked: self.has_untracked,
        }
    }
}

impl DeepView for GitInfo {
    type V = GitInfoV;

    open spec fn deep_view(&self) -> GitInfoV {
        self.view()
    }
}

/// A cache from repository root path to the git metadata gathered there.
pub struct GitCache {
    entries: Vec<(String, GitInfo)>,
}

impl View for GitCache {
    type V = Seq<(Seq<char>, GitInfoV)>;

    closed spec fn view(&self) -> Seq<(Seq<char>, GitInfoV)> {
        self.entries.deep_view()
    }
}

impl GitCache {
    pub fn new() -> (r: Self)
        ensures
            r@ == Seq::<(Seq<char>, GitInfoV)>::empty(),
    {
        let r = GitCache { entries: Vec::new() };
        proof {
            assert(r@ =~= Seq::<(Seq<char>, GitInfoV)>::empty());
        }
        r
    }

    /// The metadata recorded for a repository root, if any.
    pub fn get(&self, path: &str) -> (r: Option<GitInfo>)
        ensures
            match r {
                Some(v) => spec_assoc_lookup(self@, path@) == Some(v@),
                None => spec_assoc_lookup(self@, path@) is None,
            },
    {
        let ghost all = self@;
        let n = self.entries.len();
        proof {
            assert(self@.skip(0) =~= self@);
        }
        let mut i: usize = 0;
        while i < n
            invariant
                i <= n,
                n == self.entries.len(),
                all == self@,
                spec_assoc_lookup(all, path@) == spec_assoc_lookup(self@.skip(i as int), path@),
            decreases n - i,
        {
            proof {
                assert(self@.skip(i as int)[0] == self@[i as int]);
                assert(self@.skip(i as int).drop_first() =~= self@.skip(i as int + 1));
            }
            if str_eq(self.entries[i].0.as_str(), path) {
                let entry = &self.entries[i].1;
                let value = GitInfo {
                    branch: entry.branch.clone(),
                    has_changes: entry.has_changes,
                    has_staged: entry.has_staged,
                    has_untracked: entry.has_untracked,
                };
                proof {
                    assert(value@ =~= self@[i as int].1);
                }
                return Some(value);
            }
            i = i + 1;
        }
        proof {
            assert(self@.skip(n as int) =~= Seq::<(Seq<char>, GitInfoV)>::empty());
        }
        None
    }

    /// Records metadata for a repository root, shadowing any earlier record.
    pub fn insert(&mut self, path: String, info: GitInfo)
        ensures
            forall|k: Seq<char>|
                #[trigger] spec_assoc_lookup(final(self)@, k) == if k == path@ {
                    Some(info@)
                } else {
                    spec_assoc_lookup(old(self)@, k)
                },
    {
        let ghost old_view = self@;
        let ghost pair_view = (path@, info@);
        self.entries.insert(0, (path, info));
        proof {
            assert(self@ =~= seq![pair_view] + old_view);
            assert forall|k: Seq<char>| #[trigger]
                spec_assoc_lookup(self@, k) == if k == pair_view.0 {
                    Some(pair_view.1)
                } else {
                    spec_assoc_lookup(old_view, k)
                } by {
                assert(self@[0] == pair_view);
                assert(self@.drop_first() =~= old_view);
            }
        }
    }
}

impl Default for GitCache {
    fn default() -> (r: Self)
        ensures
            r@ == Seq::<(Seq<char>, GitInfoV)>::empty(),
    {
        GitCache::new()
    }
}

} // verus!
