//! Label tables of the assemblers: names mapped to addresses, a later
//! definition replacing an earlier one.
use vstd::prelude::*;
use crate::text::eq_chars;

verus! {

pub struct LabelTable {
    names: Vec<Vec<char>>,
    addrs: Vec<u32>,
}

impl LabelTable {
    /// The table as a map from names to addresses.
    pub closed spec fn view(&self) -> Map<Seq<char>, u32> {
        Map::new(
            |k: Seq<char>| exists|i: int| 0 <= i < self.names@.len() && #[trigger] self.names@[i]@ == k,
            |k: Seq<char>| self.addrs@[choose|i: int| 0 <= i < self.names@.len() && #[trigger] self.names@[i]@ == k],
        )
    }

    pub closed spec fn wf(&self) -> bool {
        &&& self.names@.len() == self.addrs@.len()
        &&& forall|i: int, j: int| 0 <= i < j < self.names@.len() ==> self.names@[i]@ != self.names@[j]@
    }

    pub fn new() -> (t: Self)
        ensures
            t.wf(),
            t.view() == Map::<Seq<char>, u32>::empty(),
    {
        let t = LabelTable { names: Vec::new(), addrs: Vec::new() };
        assert(t.view() =~= Map::<Seq<char>, u32>::empty());
        t
    }

    fn index_of(&self, name: &[char]) -> (r: Option<usize>)
        requires
            self.wf(),
        ensures
            match r {
                Some(i) => i < self.names@.len() && self.names@[i as int]@ == name@,
                None => forall|i: int| 0 <= i < self.names@.len() ==> self.names@[i]@ != name@,
            },
    {
        let mut i: usize = 0;
        while i < self.names.len()
            invariant
                0 <= i <= self.names@.len(),
                forall|k: int| 0 <= k < i ==> self.names@[k]@ != name@,
            decreases self.names@.len() - i,
        {
            if eq_chars(self.names[i].as_slice(), name) {
                return Some(i);
            }
            i = i + 1;
        }
        None
    }

    /// Defines (or redefines) `name` at `addr`.
    pub fn insert(&mut self, name: Vec<char>, addr: u32)
        requires
            old(self).wf(),
        ensures
            final(self).wf(),
            final(self).view() == old(self).view().insert(name@, addr),
    {
        match self.index_of(name.as_slice()) {
            Some(i) => {
                self.addrs.set(i, addr);
                proof {
                    assert forall|k: Seq<char>| #[trigger] self.view().dom().contains(k) == old(self).view().insert(name@, addr).dom().contains(k) by {
                        if k == name@ {
                            assert(self.names@[i as int]@ == k);
                        } else if old(self).view().dom().contains(k) {
                            let j = choose|j: int| 0 <= j < old(self).names@.len() && #[trigger] old(self).names@[j]@ == k;
                            assert(self.names@[j]@ == k);
                        }
                    }
                    assert forall|k: Seq<char>| #[trigger] self.view().dom().contains(k) implies self.view()[k] == old(self).view().insert(name@, addr)[k] by {
                        let j = choose|j: int| 0 <= j < self.names@.len() && #[trigger] self.names@[j]@ == k;
                        if k == name@ {
                            assert(j == i);
                        } else {
                            let j2 = choose|j2: int| 0 <= j2 < old(self).names@.len() && #[trigger] old(self).names@[j2]@ == k;
                            assert(j2 == j);
                        }
                    }
                    assert(self.view() =~= old(self).view().insert(name@, addr));
                }
            },
            None => {
                let ghost nm = name@;
                self.names.push(name);
                self.addrs.push(addr);
                proof {
                    let n = self.names@.len() - 1;
                    assert forall|k: Seq<char>| #[trigger] self.view().dom().contains(k) == old(self).view().insert(nm, addr).dom().contains(k) by {
                        if k == nm {
                            assert(self.names@[n]@ == k);
                        } else if old(self).view().dom().contains(k) {
                            let j = choose|j: int| 0 <= j < old(self).names@.len() && #[trigger] old(self).names@[j]@ == k;
                            assert(self.names@[j]@ == k);
                        } else if self.view().dom().contains(k) {
                            let j = choose|j: int| 0 <= j < self.names@.len() && #[trigger] self.names@[j]@ == k;
                            if j < n {
                                assert(old(self).names@[j]@ == k);
                            }
                        }
                    }
                    assert forall|k: Seq<char>| #[trigger] self.view().dom().contains(k) implies self.view()[k] == old(self).view().insert(nm, addr)[k] by {
                        let j = choose|j: int| 0 <= j < self.names@.len() && #[trigger] self.names@[j]@ == k;
                        if k == nm {
                            assert(j == n);
                        } else {
                            let j2 = choose|j2: int| 0 <= j2 < old(self).names@.len() && #[trigger] old(self).names@[j2]@ == k;
                            assert(self.names@[j2]@ == k);
                            assert(j2 == j);
                        }
                    }
                    assert(self.view() =~= old(self).view().insert(nm, addr));
                }
            },
        }
    }

    /// The address of `name`, if defined.
    pub fn get(&self, name: &[char]) -> (r: Option<u32>)
        requires
            self.wf(),
        ensures
            r == (if self.view().dom().contains(name@) { Some(self.view()[name@]) } else { None::<u32> }),
    {
        match self.index_of(name) {
            Some(i) => {
                proof {
                    let j = choose|j: int| 0 <= j < self.names@.len() && #[trigger] self.names@[j]@ == name@;
                    assert(self.names@[i as int]@ == name@);
                    assert(j == i);
                }
                Some(self.addrs[i])
            },
            None => None,
        }
    }
}

} // verus!
