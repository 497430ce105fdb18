//! The validation session: the set of question identifiers and the set of
//! document paths already seen during one documentation build.
//!
//! The session is an explicit value passed into every validation call by
//! `&mut`; a caller that validates documents from several worker threads
//! holds it behind a lock and releases the lock between calls.

use vstd::prelude::*;
use crate::text::str_eq;

verus! {

/// A set of already-validated question identifiers and document paths.
pub struct Validated {
    ids: Vec<String>,
    paths: Vec<String>,
}

/// The view of [`Validated`]: the two sets it holds.
#[verifier::ext_equal]
pub struct ValidatedV {
    pub ids: Set<Seq<char>>,
    pub paths: Set<Seq<char>>,
}

/// The set of views of the strings of `v`.
pub open spec fn string_set(v: Seq<String>) -> Set<Seq<char>> {
    Set::new(|s: Seq<char>| exists|i: int| 0 <= i < v.len() && v[i]@ == s)
}

impl View for Validated {
    type V = ValidatedV;

    closed spec fn view(&self) -> ValidatedV {
        ValidatedV { ids: string_set(self.ids@), paths: string_set(self.paths@) }
    }
}

/// Inserts `s` into `v` unless already present; returns whether it was new.
fn insert_string(v: &mut Vec<String>, s: &str) -> (fresh: bool)
    ensures
        string_set(final(v)@) == string_set(old(v)@).insert(s@),
        fresh == !string_set(old(v)@).contains(s@),
{
    let mut i: usize = 0;
    while i < v.len()
        invariant
            i <= v@.len(),
            forall|j: int| 0 <= j < i ==> v@[j]@ != s@,
            *v == *old(v),
        decreases v@.len() - i,
    {
        if str_eq(v[i].as_str(), s) {
            proof {
                assert(string_set(v@).contains(s@));
                assert(string_set(v@) =~= string_set(old(v)@).insert(s@));
            }
            return false;
        }
        i += 1;
    }
    proof {
        assert(!string_set(v@).contains(s@));
    }
    let ghost pre = v@;
    v.push(s.to_owned());
    proof {
        assert forall|t: Seq<char>| string_set(v@).contains(t)
            implies string_set(pre).insert(s@).contains(t) by {
            let k = choose|k: int| 0 <= k < v@.len() && v@[k]@ == t;
            if k < pre.len() {
                assert(string_set(pre).contains(t));
            }
        }
        assert forall|t: Seq<char>| string_set(pre).insert(s@).contains(t)
            implies string_set(v@).contains(t) by {
            if t == s@ {
                assert(v@[v@.len() - 1]@ == t);
            } else {
                let k = choose|k: int| 0 <= k < pre.len() && pre[k]@ == t;
                assert(v@[k]@ == t);
            }
        }
        assert(string_set(v@) =~= string_set(pre).insert(s@));
    }
    true
}

impl Validated {
    /// A session with nothing seen yet.
    pub fn new() -> (r: Validated)
        ensures
            r@.ids == Set::<Seq<char>>::empty(),
            r@.paths == Set::<Seq<char>>::empty(),
    {
        let r = Validated { ids: Vec::new(), paths: Vec::new() };
        proof {
            assert(r@.ids =~= Set::<Seq<char>>::empty());
            assert(r@.paths =~= Set::<Seq<char>>::empty());
        }
        r
    }

    /// Inserts a question identifier; returns whether it was new to the
    /// session.
    pub fn insert_id(&mut self, id: &str) -> (fresh: bool)
        ensures
            final(self)@.ids == old(self)@.ids.insert(id@),
            final(self)@.paths == old(self)@.paths,
            fresh == !old(self)@.ids.contains(id@),
    {
        insert_string(&mut self.ids, id)
    }

    /// Inserts a document path; returns whether it was new to the session.
    pub fn insert_path(&mut self, path: &str) -> (fresh: bool)
        ensures
            final(self)@.paths == old(self)@.paths.insert(path@),
            final(self)@.ids == old(self)@.ids,
            fresh == !old(self)@.paths.contains(path@),
    {
        insert_string(&mut self.paths, path)
    }
}

impl Default for Validated {
    /// A session with nothing seen yet.
    fn default() -> (r: Validated)
        ensures
            r@.ids == Set::<Seq<char>>::empty(),
            r@.paths == Set::<Seq<char>>::empty(),
    {
        Validated::new()
    }
}

} // verus!
