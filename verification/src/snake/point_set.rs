use vstd::prelude::*;
use super::game::Point;

verus! {

/// A finite set of grid points, kept as a list without repetitions.
#[derive(Clone, Debug)]
pub struct PointSet {
    items: Vec<Point>,
}

impl View for PointSet {
    type V = Set<Point>;

    closed spec fn view(&self) -> Set<Point> {
        self.items@.to_set()
    }
}

impl PointSet {
    /// No point is listed twice.
    pub closed spec fn wf(&self) -> bool {
        self.items@.no_duplicates()
    }

    /// The number of points in the set.
    pub closed spec fn spec_len(&self) -> nat {
        self.items@.len()
    }

    pub proof fn lemma_len(&self)
        requires
            self.wf(),
        ensures
            self@.finite(),
            self@.len() == self.spec_len(),
    {
        self.items@.unique_seq_to_set();
    }

    /// The points in the order they were added.
    pub closed spec fn elems(&self) -> Seq<Point> {
        self.items@
    }

    pub proof fn lemma_elems(&self)
        ensures
            forall|p: Point| self@.contains(p) <==> self.elems().contains(p),
            self.elems().len() == self.spec_len(),
    {
    }

    /// The `i`-th point in insertion order.
    pub fn get(&self, i: usize) -> (r: Point)
        requires
            i < self.spec_len(),
        ensures
            r == self.elems()[i as int],
    {
        self.items[i]
    }

    pub fn new() -> (r: Self)
        ensures
            r.wf(),
            r@ == Set::<Point>::empty(),
            r.spec_len() == 0,
    {
        let r = PointSet { items: Vec::new() };
        assert(r.items@.to_set() =~= Set::<Point>::empty());
        r
    }

    pub fn len(&self) -> (r: usize)
        ensures
            r == self.spec_len(),
    {
        self.items.len()
    }

    pub fn contains(&self, p: &Point) -> (r: bool)
        ensures
            r == self@.contains(*p),
    {
        let mut i: usize = 0;
        while i < self.items.len()
            invariant
                0 <= i <= self.items@.len(),
                forall|j: int| 0 <= j < i ==> self.items@[j] != *p,
            decreases self.items@.len() - i,
        {
            if self.items[i] == *p {
                assert(self.items@.contains(*p));
                return true;
            }
            i = i + 1;
        }
        assert(!self.items@.contains(*p));
        false
    }

    /// Adds `p`; true when it was not there before.
    pub fn insert(&mut self, p: Point) -> (r: bool)
        requires
            old(self).wf(),
        ensures
            final(self).wf(),
            final(self)@ == old(self)@.insert(p),
            r == !old(self)@.contains(p),
            final(self).spec_len() == old(self).spec_len() + if r { 1nat } else { 0nat },
    {
        if self.contains(&p) {
            assert(self@.insert(p) =~= self@);
            false
        } else {
            let ghost old_items = self.items@;
            self.items.push(p);
            assert(self.items@.to_set() =~= old_items.to_set().insert(p)) by {
                assert forall|q: Point| self.items@.contains(q) <==> old_items.contains(q) || q == p by {
                    if self.items@.contains(q) {
                        let k = choose|k: int| 0 <= k < self.items@.len() && self.items@[k] == q;
                        if k < old_items.len() {
                            assert(old_items[k] == q);
                        }
                    }
                    if old_items.contains(q) {
                        let k = choose|k: int| 0 <= k < old_items.len() && old_items[k] == q;
                        assert(self.items@[k] == q);
                    }
                    if q == p {
                        assert(self.items@[self.items@.len() - 1] == q);
                    }
                }
            }
            assert(self.items@.no_duplicates()) by {
                let n = old_items.len() as int;
                assert(!old_items.contains(p));
                assert forall|i: int, j: int|
                    0 <= i < self.items@.len() && 0 <= j < self.items@.len() && i != j implies self.items@[i]
                    != self.items@[j] by {
                    if i == n {
                        assert(self.items@[j] == old_items[j]);
                        assert(old_items.contains(old_items[j]));
                    } else if j == n {
                        assert(self.items@[i] == old_items[i]);
                        assert(old_items.contains(old_items[i]));
                    } else {
                        assert(self.items@[i] == old_items[i]);
                        assert(self.items@[j] == old_items[j]);
                    }
                }
            }
            true
        }
    }

    /// Removes `p` if present.
    pub fn remove(&mut self, p: &Point)
        requires
            old(self).wf(),
        ensures
            final(self).wf(),
            final(self)@ == old(self)@.remove(*p),
            final(self).spec_len() == old(self).spec_len() - if old(self)@.contains(*p) {
                1int
            } else {
                0int
            },
    {
        let mut i: usize = 0;
        while i < self.items.len()
            invariant
                self.wf(),
                self.items@ == old(self).items@,
                0 <= i <= self.items@.len(),
                forall|j: int| 0 <= j < i ==> self.items@[j] != *p,
            decreases self.items@.len() - i,
        {
            if self.items[i] == *p {
                let ghost old_items = self.items@;
                self.items.remove(i);
                assert(self.items@ == old_items.remove(i as int));
                assert(self.items@.to_set() =~= old_items.to_set().remove(*p)) by {
                    assert forall|q: Point| self.items@.contains(q) <==> (old_items.contains(q) && q != *p) by {
                        if self.items@.contains(q) {
                            let k = choose|k: int| 0 <= k < self.items@.len() && self.items@[k] == q;
                            if k < i {
                                assert(old_items[k] == q);
                            } else {
                                assert(old_items[k + 1] == q);
                            }
                        }
                        if old_items.contains(q) && q != *p {
                            let k = choose|k: int| 0 <= k < old_items.len() && old_items[k] == q;
                            if k < i {
                                assert(self.items@[k] == q);
                            } else {
                                assert(k != i);
                                assert(self.items@[k - 1] == q);
                            }
                        }
                    }
                }
                assert(self.items@.no_duplicates()) by {
                    assert forall|a: int, b: int|
                        0 <= a < self.items@.len() && 0 <= b < self.items@.len() && a != b implies self.items@[a]
                        != self.items@[b] by {
                        let a2 = if a < i { a } else { a + 1 };
                        let b2 = if b < i { b } else { b + 1 };
                        assert(self.items@[a] == old_items[a2]);
                        assert(self.items@[b] == old_items[b2]);
                    }
                }
                assert(old_items.to_set().contains(*p));
                return;
            }
            i = i + 1;
        }
        assert(!self@.contains(*p));
        assert(self@.remove(*p) =~= self@);
    }
}

} // verus!
