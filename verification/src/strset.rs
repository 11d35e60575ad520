//! A set of strings, used for the expand-state of container paths. It stands
//! on a vector without duplicates, so that membership, insertion and removal
//! carry exact set semantics.
use vstd::prelude::*;

use crate::strutil::string_eq;

verus! {

#[derive(Debug)]
pub struct StrSet {
    items: Vec<String>,
}

impl StrSet {
    /// The set of character sequences held.
    pub closed spec fn model(&self) -> Set<Seq<char>> {
        Set::new(
            |s: Seq<char>| exists|i: int| 0 <= i < self.items@.len() && self.items@[i]@ == s,
        )
    }

    /// No two held strings are equal.
    pub closed spec fn wf(&self) -> bool {
        forall|i: int, j: int|
            0 <= i < j < self.items@.len() ==> self.items@[i]@ != self.items@[j]@
    }

    pub fn new() -> (r: Self)
        ensures
            r.model() == Set::<Seq<char>>::empty(),
            r.wf(),
    {
        let r = StrSet { items: Vec::new() };
        proof {
            assert(r.model() =~= Set::<Seq<char>>::empty());
        }
        r
    }

    fn find(&self, s: &str) -> (r: Option<usize>)
        ensures
            match r {
                Some(j) => j < self.items@.len() && self.items@[j as int]@ == s@,
                None => forall|i: int| 0 <= i < self.items@.len() ==> self.items@[i]@ != s@,
            },
    {
        let mut i: usize = 0;
        while i < self.items.len()
            invariant
                i <= self.items@.len(),
                forall|k: int| 0 <= k < i ==> self.items@[k]@ != s@,
            decreases self.items@.len() - i,
        {
            if string_eq(self.items[i].as_str(), s) {
                return Some(i);
            }
            i = i + 1;
        }
        None
    }

    /// Whether the set holds this string.
    pub fn contains(&self, s: &str) -> (r: bool)
        ensures
            r == self.model().contains(s@),
    {
        match self.find(s) {
            Some(_) => true,
            None => {
                proof {
                    assert(!self.model().contains(s@));
                }
                false
            },
        }
    }

    /// Adds a string; the set gains exactly that element.
    pub fn insert(&mut self, s: String)
        requires
            old(self).wf(),
        ensures
            final (self).wf(),
            final (self).model() == old(self).model().insert(s@),
    {
        match self.find(s.as_str()) {
            Some(_) => {
                proof {
                    assert(self.model() =~= old(self).model().insert(s@));
                }
            },
            None => {
                let ghost n = self.items@.len();
                self.items.push(s);
                proof {
                    assert(self.items@[n as int]@ == s@);
                    assert forall|x: Seq<char>|
                        self.model().contains(x) == old(self).model().insert(s@).contains(
                            x,
                        ) by {
                        if x == s@ {
                            assert(self.model().contains(x));
                        } else {
                            if self.model().contains(x) {
                                let i = choose|i: int|
                                    0 <= i < self.items@.len() && self.items@[i]@ == x;
                                assert(i < n);
                                assert(old(self).items@[i]@ == x);
                            }
                            if old(self).model().contains(x) {
                                let i = choose|i: int|
                                    0 <= i < old(self).items@.len() && old(self).items@[i]@ == x;
                                assert(self.items@[i]@ == x);
                            }
                        }
                    }
                    assert(self.model() =~= old(self).model().insert(s@));
                }
            },
        }
    }

    /// Removes a string; the set loses exactly that element.
    pub fn remove(&mut self, s: &str)
        requires
            old(self).wf(),
        ensures
            final (self).wf(),
            final (self).model() == old(self).model().remove(s@),
    {
        match self.find(s) {
            Some(j) => {
                self.items.remove(j);
                proof {
                    assert forall|x: Seq<char>|
                        self.model().contains(x) == old(self).model().remove(s@).contains(
                            x,
                        ) by {
                        if self.model().contains(x) {
                            let i = choose|i: int|
                                0 <= i < self.items@.len() && self.items@[i]@ == x;
                            if i < j {
                                assert(old(self).items@[i]@ == x);
                            } else {
                                assert(old(self).items@[i + 1]@ == x);
                            }
                        }
                        if old(self).model().remove(s@).contains(x) {
                            let i = choose|i: int|
                                0 <= i < old(self).items@.len() && old(self).items@[i]@ == x;
                            if i < j {
                                assert(self.items@[i]@ == x);
                            } else if i > j {
                                assert(self.items@[i - 1]@ == x);
                            } else {
                                assert(x == s@);
                            }
                        }
                    }
                    assert(self.model() =~= old(self).model().remove(s@));
                }
            },
            None => {
                proof {
                    assert(!old(self).model().contains(s@));
                    assert(self.model() =~= old(self).model().remove(s@));
                }
            },
        }
    }

    /// Drops every element.
    pub fn clear(&mut self)
        ensures
            final (self).wf(),
            final (self).model() == Set::<Seq<char>>::empty(),
    {
        self.items.clear();
        proof {
            assert(self.model() =~= Set::<Seq<char>>::empty());
        }
    }
}

} // verus!
