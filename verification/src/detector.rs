//! The read-only snapshot of filesystem markers a render works against: a
//! mapping from marker name (such as `.git` or `Cargo.toml`) to the path it
//! was found at. The directory walk that fills it is the caller's business;
//! the core only reads the snapshot.

use vstd::prelude::*;

use crate::chars::str_eq;

verus! {

/// Looks a marker name up in a snapshot: the first pair with that name
/// gives the path.
pub open spec fn spec_marker_lookup(entries: Seq<(Seq<char>, Seq<char>)>, name: Seq<char>) -> Option<
    Seq<char>,
>
    decreases entries.len(),
{
    if entries.len() == 0 {
        None
    } else if entries[0].0 == name {
        Some(entries[0].1)
    } else {
        spec_marker_lookup(entries.drop_first(), name)
    }
}

/// The markers found before a render, each with the path it was found at.
#[derive(Debug, Clone)]
pub struct DetectionContext {
    entries: Vec<(String, String)>,
}

impl View for DetectionContext {
    type V = Seq<(Seq<char>, Seq<char>)>;

    closed spec fn view(&self) -> Seq<(Seq<char>, Seq<char>)> {
        self.entries.deep_view()
    }
}

impl DetectionContext {
    /// A snapshot with no markers.
    pub fn empty() -> (r: Self)
        ensures
            r@ == Seq::<(Seq<char>, Seq<char>)>::empty(),
    {
        let r = DetectionContext { entries: Vec::new() };
        proof {
            assert(r@ =~= Seq::<(Seq<char>, Seq<char>)>::empty());
        }
        r
    }

    /// A snapshot holding exactly the given marker-name-to-path pairs.
    pub fn from_pairs(entries: Vec<(String, String)>) -> (r: Self)
        ensures
            r@ == entries.deep_view(),
    {
        DetectionContext { entries }
    }

    /// The path a marker was found at, if any.
    pub fn get(&self, name: &str) -> (r: Option<&String>)
        ensures
            match r {
                Some(p) => spec_marker_lookup(self@, name@) == Some(p@),
                None => spec_marker_lookup(self@, name@) is None,
            },
    {
        let ghost all = self@;
        let n = self.entries.len();
        proof {
            assert(self@.skip(0) =~= self@);
        }
        let mut i: usize = 0;
        while i < n
            invariant
                i <= n,
                n == self.entries.len(),
                all == self@,
                spec_marker_lookup(all, name@) == spec_marker_lookup(
                    self@.skip(i as int),
                    name@,
                ),
            decreases n - i,
        {
            proof {
                assert(self@.skip(i as int)[0] == self@[i as int]);
                assert(self@.skip(i as int).drop_first() =~= self@.skip(i as int + 1));
                assert(self@[i as int] == (self.entries[i as int].0@, self.entries[i as int].1@));
            }
            if str_eq(self.entries[i].0.as_str(), name) {
                return Some(&self.entries[i].1);
            }
            i = i + 1;
        }
        proof {
            assert(self@.skip(n as int) =~= Seq::<(Seq<char>, Seq<char>)>::empty());
        }
        None
    }
}

impl Default for DetectionContext {
    fn default() -> (r: Self)
        ensures
            r@ == Seq::<(Seq<char>, Seq<char>)>::empty(),
    {
        DetectionContext::empty()
    }
}

} // verus!
