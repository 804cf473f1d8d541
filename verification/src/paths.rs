//! The set of disallowed paths that one policy file yields.

use vstd::prelude::*;
use vstd::string::*;

verus! {

/// The character sequences of a list of strings, in order.
pub open spec fn texts(items: Seq<String>) -> Seq<Seq<char>> {
    items.map_values(|s: String| s@)
}

/// A collection of paths in which no path occurs twice and none is empty.
///
/// Its view is the mathematical set of the paths it holds; the order in
/// which they were inserted carries no meaning.
pub struct PathSet {
    items: Vec<String>,
}

impl View for PathSet {
    type V = Set<Seq<char>>;

    closed spec fn view(&self) -> Set<Seq<char>> {
        texts(self.items@).to_set()
    }
}

impl PathSet {
    #[verifier::type_invariant]
    spec fn well_formed(self) -> bool {
        &&& texts(self.items@).no_duplicates()
        &&& forall|i: int| 0 <= i < self.items@.len() ==> (#[trigger] self.items@[i])@.len() > 0
    }

    /// The set without any path.
    pub fn new() -> (set: PathSet)
        ensures
            set@ == Set::<Seq<char>>::empty(),
    {
        let set = PathSet { items: Vec::new() };
        assert(texts(set.items@).to_set() =~= Set::<Seq<char>>::empty());
        set
    }

    /// The number of distinct paths.
    pub fn len(&self) -> (n: usize)
        ensures
            self@.finite(),
            n == self@.len(),
    {
        proof {
            use_type_invariant(self);
            texts(self.items@).unique_seq_to_set();
        }
        self.items.len()
    }

    /// Whether the set holds no path.
    pub fn is_empty(&self) -> (empty: bool)
        ensures
            empty == (self@ == Set::<Seq<char>>::empty()),
    {
        proof {
            if self.items@.len() == 0 {
                assert(self@ =~= Set::<Seq<char>>::empty());
            } else {
                assert(texts(self.items@)[0] == self.items@[0]@);
                assert(self@.contains(self.items@[0]@));
            }
        }
        self.items.len() == 0
    }

    /// Whether `path` is in the set.
    pub fn contains(&self, path: &str) -> (present: bool)
        ensures
            present == self@.contains(path@),
    {
        let wanted = path.to_owned();
        let mut i: usize = 0;
        while i < self.items.len()
            invariant
                i <= self.items.len(),
                wanted@ == path@,
                forall|j: int| 0 <= j < i ==> texts(self.items@)[j] != path@,
            decreases self.items.len() - i,
        {
            if self.items[i] == wanted {
                assert(texts(self.items@)[i as int] == path@);
                return true;
            }
            i += 1;
        }
        false
    }

    /// Adds `path` unless it is empty or already present, and says whether
    /// the set grew.
    pub fn insert(&mut self, path: String) -> (added: bool)
        ensures
            final(self)@ == if path@.len() > 0 {
                old(self)@.insert(path@)
            } else {
                old(self)@
            },
            added == (path@.len() > 0 && !old(self)@.contains(path@)),
    {
        proof {
            use_type_invariant(&*self);
        }
        if path.as_str().is_empty() || self.contains(path.as_str()) {
            proof {
                if path@.len() > 0 {
                    assert(self@.insert(path@) =~= self@);
                }
            }
            return false;
        }
        let ghost before = self.items@;
        let mut items: Vec<String> = Vec::new();
        core::mem::swap(&mut self.items, &mut items);
        items.push(path);
        proof {
            let grown = texts(items@);
            assert(grown =~= texts(before).push(path@));
            assert(!texts(before).contains(path@));
            assert(grown.no_duplicates());
            assert(grown.to_set() =~= texts(before).to_set().insert(path@)) by {
                assert forall|p: Seq<char>|
                    grown.contains(p) <==> texts(before).contains(p) || p == path@ by {
                    if grown.contains(p) {
                        let k = choose|k: int| 0 <= k < grown.len() && grown[k] == p;
                        if k < before.len() {
                            assert(texts(before)[k] == p);
                        }
                    }
                    if texts(before).contains(p) {
                        let k = choose|k: int| 0 <= k < texts(before).len() && texts(before)[k] == p;
                        assert(grown[k] == p);
                    }
                    if p == path@ {
                        assert(grown[before.len() as int] == p);
                    }
                }
            }
        }
        self.items = items;
        true
    }

    /// The paths, each exactly once, in an order that carries no meaning.
    pub fn paths(&self) -> (listing: &Vec<String>)
        ensures
            texts(listing@).no_duplicates(),
            texts(listing@).to_set() == self@,
            listing@.len() == self@.len(),
            forall|i: int| 0 <= i < listing@.len() ==> (#[trigger] listing@[i])@.len() > 0,
    {
        proof {
            use_type_invariant(self);
            texts(self.items@).unique_seq_to_set();
        }
        &self.items
    }
}

} // verus!
