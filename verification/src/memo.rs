//! Per-process memoization of expensive provider lookups: a version lookup
//! runs at most once per slot, and git metadata gathered during a render is
//! kept by repository root.

use vstd::prelude::*;

use crate::cache::spec_assoc_lookup;
use crate::chars::str_eq;

verus! {

/// A memoization slot: empty until its first fill, which records the
/// lookup's outcome, present or absent, for the rest of the process.
pub type VersionSlot = Option<Option<String>>;

/// Returns the slot's recorded outcome, filling it from `fetch` on first
/// use: `fetch` runs at most once per slot, and a recorded absence is kept
/// as firmly as a recorded version.
pub fn memoized_version<F: FnOnce() -> Option<String>>(slot: &mut VersionSlot, fetch: F) -> (r:
    Option<String>)
    requires
        call_requires(fetch, ()),
    ensures
        *final(slot) is Some,
        match *old(slot) {
            Some(v) => r == v && *final(slot) == *old(slot),
            None => *final(slot) == Some(r) && call_ensures(fetch, (), r),
        },
{
    match slot {
        Some(value) => {
            let copy = match value {
                Some(v) => Some(v.clone()),
                None => None,
            };
            copy
        },
        None => {
            let value = fetch();
            let copy = match &value {
                Some(v) => Some(v.clone()),
                None => None,
            };
            *slot = Some(value);
            copy
        },
    }
}

/// What one render learned about a repository.
#[derive(Debug, Clone)]
pub struct GitInfo {
    /// The branch name, or a short commit id on a detached head.
    pub branch: String,
    /// Whether the worktree has unstaged changes.
    pub has_changes: bool,
    /// Whether the index has staged changes.
    pub has_staged: bool,
    /// Whether untracked files exist.
    pub has_untracked: bool,
}

/// The mathematical value of a `GitInfo`.
#[verifier::ext_equal]
pub struct GitInfoV {
    pub branch: Seq<char>,
    pub has_changes: bool,
    pub has_staged: bool,
    pub has_untracked: bool,
}

impl View for GitInfo {
    type V = GitInfoV;

    open spec fn view(&self) -> GitInfoV {
        GitInfoV {
            branch: self.branch@,
            has_changes: self.has_changes,
            has_staged: self.has_staged,
            has_untracked: self.has_untracked,
        }
    }
}

impl DeepView for GitInfo {
    type V = GitInfoV;

    open spec fn deep_view(&self) -> GitInfoV {
        self.view()
    }
}

/// Git metadata memoized by repository root during one process lifetime.
pub struct GitMemo {
    entries: Vec<(String, GitInfo)>,
}

impl View for GitMemo {
    type V = Seq<(Seq<char>, GitInfoV)>;

    closed spec fn view(&self) -> Seq<(Seq<char>, GitInfoV)> {
        self.entries.deep_view()
    }
}

impl GitMemo {
    pub fn new() -> (r: Self)
        ensures
            r@ == Seq::<(Seq<char>, GitInfoV)>::empty(),
    {
        let r = GitMemo { entries: Vec::new() };
        proof {
            assert(r@ =~= Seq::<(Seq<char>, GitInfoV)>::empty());
        }
        r
    }

    /// The metadata recorded for a repository root, if any.
    pub fn get(&self, path: &str) -> (r: Option<GitInfo>)
        ensures
            match r {
                Some(v) => spec_assoc_lookup(self@, path@) == Some(v@),
                None => spec_assoc_lookup(self@, path@) is None,
            },
    {
        let ghost all = self@;
        let n = self.entries.len();
        proof {
            assert(self@.skip(0) =~= self@);
        }
        let mut i: usize = 0;
        while i < n
            invariant
                i <= n,
                n == self.entries.len(),
                all == self@,
                spec_assoc_lookup(all, path@) == spec_assoc_lookup(self@.skip(i as int), path@),
            decreases n - i,
        {
            proof {
                assert(self@.skip(i as int)[0] == self@[i as int]);
                assert(self@.skip(i as int).drop_first() =~= self@.skip(i as int + 1));
            }
            if str_eq(self.entries[i].0.as_str(), path) {
                let entry = &self.entries[i].1;
                let value = GitInfo {
                    branch: entry.branch.clone(),
                    has_changes: entry.has_changes,
                    has_staged: entry.has_staged,
                    has_untracked: entry.has_untracked,
                };
                proof {
                    assert(value@ =~= self@[i as int].1);
                }
                return Some(value);
            }
            i = i + 1;
        }
        proof {
            assert(self@.skip(n as int) =~= Seq::<(Seq<char>, GitInfoV)>::empty());
        }
        None
    }

    /// Records metadata for a repository root, shadowing any earlier record.
    pub fn insert(&mut self, path: String, info: GitInfo)
        ensures
            forall|k: Seq<char>|
                #[trigger] spec_assoc_lookup(final(self)@, k) == if k == path@ {
                    Some(info@)
                } else {
                    spec_assoc_lookup(old(self)@, k)
                },
    {
        let ghost old_view = self@;
        let ghost pair_view = (path@, info@);
        self.entries.insert(0, (path, info));
        proof {
            assert(self@ =~= seq![pair_view] + old_view);
            assert forall|k: Seq<char>| #[trigger]
                spec_assoc_lookup(self@, k) == if k == pair_view.0 {
                    Some(pair_view.1)
                } else {
                    spec_assoc_lookup(old_view, k)
                } by {
                assert(self@[0] == pair_view);
                assert(self@.drop_first() =~= old_view);
            }
        }
    }
}

impl Default for GitMemo {
    fn default() -> (r: Self)
        ensures
            r@ == Seq::<(Seq<char>, GitInfoV)>::empty(),
    {
        GitMemo::new()
    }
}

} // verus!
