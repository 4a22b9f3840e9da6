//! A pool of idle connections, keyed by descriptor text, each key holding a
//! stack that hands out the most recently released connection first.
use vstd::prelude::*;

verus! {

struct Bucket<C> {
    key: String,
    idle: Vec<C>,
}

/// Idle connections by descriptor. Keys compare as literal text.
pub struct Pool<C> {
    buckets: Vec<Bucket<C>>,
}

impl<C> Pool<C> {
    /// No two buckets share a key.
    pub closed spec fn wf(&self) -> bool {
        forall|i: int, j: int|
            0 <= i < j < self.buckets@.len() ==> #[trigger] self.buckets@[i].key@
                != #[trigger] self.buckets@[j].key@
    }

    /// The stack of idle connections kept under descriptor `k`, oldest first.
    pub closed spec fn idle(&self, k: Seq<char>) -> Seq<C> {
        if exists|i: int| 0 <= i < self.buckets@.len() && self.buckets@[i].key@ == k {
            self.buckets@[choose|i: int|
                0 <= i < self.buckets@.len() && self.buckets@[i].key@ == k].idle@
        } else {
            seq![]
        }
    }

    proof fn lemma_idle_at(&self, i: int)
        requires
            self.wf(),
            0 <= i < self.buckets@.len(),
        ensures
            self.idle(self.buckets@[i].key@) == self.buckets@[i].idle@,
    {
        let k = self.buckets@[i].key@;
        let j = choose|j: int| 0 <= j < self.buckets@.len() && self.buckets@[j].key@ == k;
        if j < i {
            assert(self.buckets@[j].key@ != self.buckets@[i].key@);
        } else if j > i {
            assert(self.buckets@[i].key@ != self.buckets@[j].key@);
        }
    }

    proof fn lemma_idle_absent(&self, k: Seq<char>)
        requires
            forall|i: int| 0 <= i < self.buckets@.len() ==> self.buckets@[i].key@ != k,
        ensures
            self.idle(k) == Seq::<C>::empty(),
    {
    }

    /// Replacing the stack of bucket `i` changes what its key holds and nothing else.
    proof fn lemma_replace(old_p: &Self, new_p: &Self, i: int)
        requires
            old_p.wf(),
            0 <= i < old_p.buckets@.len(),
            new_p.buckets@.len() == old_p.buckets@.len(),
            forall|j: int|
                0 <= j < old_p.buckets@.len() ==> #[trigger] new_p.buckets@[j].key@
                    == old_p.buckets@[j].key@,
            forall|j: int|
                0 <= j < old_p.buckets@.len() && j != i ==> #[trigger] new_p.buckets@[j].idle@
                    == old_p.buckets@[j].idle@,
        ensures
            new_p.wf(),
            new_p.idle(old_p.buckets@[i].key@) == new_p.buckets@[i].idle@,
            forall|k: Seq<char>| k != old_p.buckets@[i].key@ ==> new_p.idle(k) == old_p.idle(k),
    {
        assert(new_p.wf()) by {
            assert forall|a: int, b: int| 0 <= a < b < new_p.buckets@.len() implies
                #[trigger] new_p.buckets@[a].key@ != #[trigger] new_p.buckets@[b].key@ by {
                assert(old_p.buckets@[a].key@ != old_p.buckets@[b].key@);
            }
        }
        new_p.lemma_idle_at(i);
        assert forall|k: Seq<char>| k != old_p.buckets@[i].key@ implies new_p.idle(k)
            == old_p.idle(k) by {
            if exists|j: int| 0 <= j < old_p.buckets@.len() && old_p.buckets@[j].key@ == k {
                let j = choose|j: int| 0 <= j < old_p.buckets@.len() && old_p.buckets@[j].key@ == k;
                old_p.lemma_idle_at(j);
                new_p.lemma_idle_at(j);
            } else {
                old_p.lemma_idle_absent(k);
                new_p.lemma_idle_absent(k);
            }
        }
    }

    /// An empty pool.
    pub fn new() -> (r: Pool<C>)
        ensures
            r.wf(),
            forall|k: Seq<char>| r.idle(k) == Seq::<C>::empty(),
    {
        Pool { buckets: Vec::new() }
    }

    fn find(&self, key: &str) -> (r: Option<usize>)
        ensures
            r matches Some(i) ==> i < self.buckets@.len() && self.buckets@[i as int].key@ == key@,
            r is None ==> forall|i: int|
                0 <= i < self.buckets@.len() ==> self.buckets@[i].key@ != key@,
    {
        let mut i: usize = 0;
        while i < self.buckets.len()
            invariant
                i <= self.buckets@.len(),
                forall|j: int| 0 <= j < i ==> self.buckets@[j].key@ != key@,
            decreases self.buckets@.len() - i,
        {
            if crate::text::str_eq(self.buckets[i].key.as_str(), key) {
                return Some(i);
            }
            i = i + 1;
        }
        None
    }

    /// Takes the most recently released connection kept under `key`, if any.
    pub fn acquire(&mut self, key: &str) -> (r: Option<C>)
        requires
            old(self).wf(),
        ensures
            final(self).wf(),
            old(self).idle(key@).len() > 0 ==> r == Some(old(self).idle(key@).last())
                && final(self).idle(key@) == old(self).idle(key@).drop_last(),
            old(self).idle(key@).len() == 0 ==> r is None && final(self).idle(key@) == old(
                self,
            ).idle(key@),
            forall|k: Seq<char>| k != key@ ==> final(self).idle(k) == old(self).idle(k),
    {
        match self.find(key) {
            None => {
                proof {
                    self.lemma_idle_absent(key@);
                }
                None
            },
            Some(i) => {
                let ghost before = *self;
                proof {
                    before.lemma_idle_at(i as int);
                }
                let mut b = self.buckets.remove(i);
                let r = b.idle.pop();
                self.buckets.insert(i, b);
                proof {
                    Self::lemma_replace(&before, self, i as int);
                }
                r
            },
        }
    }

    /// Keeps `c` under `key`, on top of that key's stack.
    pub fn release(&mut self, key: &str, c: C)
        requires
            old(self).wf(),
        ensures
            final(self).wf(),
            final(self).idle(key@) == old(self).idle(key@).push(c),
            forall|k: Seq<char>| k != key@ ==> final(self).idle(k) == old(self).idle(k),
    {
        match self.find(key) {
            None => {
                let ghost before = *self;
                proof {
                    before.lemma_idle_absent(key@);
                }
                let mut idle = Vec::new();
                idle.push(c);
                self.buckets.push(Bucket { key: key.to_owned(), idle });
                proof {
                    let n = before.buckets@.len() as int;
                    assert(self.buckets@[n].idle@ =~= Seq::<C>::empty().push(c));
                    assert(self.wf()) by {
                        assert forall|a: int, b: int| 0 <= a < b < self.buckets@.len() implies
                            #[trigger] self.buckets@[a].key@ != #[trigger] self.buckets@[b].key@ by {
                            if b < n {
                                assert(before.buckets@[a].key@ != before.buckets@[b].key@);
                            } else {
                                assert(before.buckets@[a].key@ != key@);
                            }
                        }
                    }
                    self.lemma_idle_at(n);
                    assert forall|k: Seq<char>| k != key@ implies self.idle(k) == before.idle(k) by {
                        if exists|j: int| 0 <= j < n && before.buckets@[j].key@ == k {
                            let j = choose|j: int| 0 <= j < n && before.buckets@[j].key@ == k;
                            before.lemma_idle_at(j);
                            self.lemma_idle_at(j);
                        } else {
                            before.lemma_idle_absent(k);
                            assert forall|i: int| 0 <= i < self.buckets@.len() implies
                                self.buckets@[i].key@ != k by {
                                if i < n {
                                    assert(self.buckets@[i] == before.buckets@[i]);
                                }
                            }
                            self.lemma_idle_absent(k);
                        }
                    }
                }
            },
            Some(i) => {
                let ghost before = *self;
                proof {
                    before.lemma_idle_at(i as int);
                }
                let mut b = self.buckets.remove(i);
                b.idle.push(c);
                self.buckets.insert(i, b);
                proof {
                    Self::lemma_replace(&before, self, i as int);
                }
            },
        }
    }
}

} // verus!
