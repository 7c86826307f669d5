//! Per-context tables of open resources, keyed by small integer handles.

use vstd::prelude::*;

verus! {

/// Open resources of one guest execution context. A handle is issued once:
/// the table never hands out a handle that is, or was, in use.
pub struct HandleTable<T> {
    entries: Vec<(u32, T)>,
    next: u32,
    contents: Ghost<Map<u32, T>>,
}

impl<T> View for HandleTable<T> {
    type V = Map<u32, T>;

    closed spec fn view(&self) -> Map<u32, T> {
        self.contents@
    }
}

impl<T> HandleTable<T> {
    pub closed spec fn wf(&self) -> bool {
        &&& forall|i: int, j: int|
            0 <= i < j < self.entries@.len() ==> (#[trigger] self.entries@[i]).0
                != (#[trigger] self.entries@[j]).0
        &&& forall|i: int|
            0 <= i < self.entries@.len() ==> (#[trigger] self.entries@[i]).0 < self.next
                && self.contents@.contains_key(self.entries@[i].0) && self.contents@[self.entries@[i].0]
                == self.entries@[i].1
        &&& forall|h: u32|
            #[trigger] self.contents@.contains_key(h) ==> exists|i: int|
                0 <= i < self.entries@.len() && (#[trigger] self.entries@[i]).0 == h
        &&& self.next >= 1
    }

    /// The smallest handle not issued yet; every live handle is below it.
    pub closed spec fn next_handle(&self) -> u32 {
        self.next
    }

    pub proof fn lemma_live_below_next(&self, h: u32)
        requires
            self.wf(),
            self@.contains_key(h),
        ensures
            h < self.next_handle(),
    {
        let i = choose|i: int| 0 <= i < self.entries@.len() && (#[trigger] self.entries@[i]).0 == h;
    }

    pub fn new() -> (r: Self)
        ensures
            r.wf(),
            r@ == Map::<u32, T>::empty(),
            r.next_handle() == 1,
    {
        HandleTable { entries: Vec::new(), next: 1, contents: Ghost(Map::empty()) }
    }

    /// Stores `value` under a fresh handle; `None` when the handles are
    /// exhausted.
    pub fn insert(&mut self, value: T) -> (r: Option<u32>)
        requires
            old(self).wf(),
        ensures
            final(self).wf(),
            match r {
                Some(h) => !old(self)@.contains_key(h) && final(self)@ == old(self)@.insert(h, value)
                    && h == old(self).next_handle() && final(self).next_handle() > h,
                None => final(self)@ == old(self)@ && old(self).next_handle() == u32::MAX,
            },
            final(self).next_handle() >= old(self).next_handle(),
    {
        if self.next == u32::MAX {
            return None;
        }
        let h = self.next;
        proof {
            if self@.contains_key(h) {
                self.lemma_live_below_next(h);
            }
        }
        let ghost old_entries = self.entries@;
        self.entries.push((h, value));
        self.next = h + 1;
        self.contents = Ghost(self.contents@.insert(h, value));
        assert forall|k: u32| #[trigger] self.contents@.contains_key(k) implies exists|i: int|
            0 <= i < self.entries@.len() && (#[trigger] self.entries@[i]).0 == k by {
            if k == h {
                assert(self.entries@[old_entries.len() as int].0 == k);
            } else {
                let i = choose|i: int| 0 <= i < old_entries.len() && (#[trigger] old_entries[i]).0 == k;
                assert(self.entries@[i].0 == k);
            }
        }
        Some(h)
    }

    fn position(&self, h: u32) -> (r: Option<usize>)
        requires
            self.wf(),
        ensures
            match r {
                Some(i) => i < self.entries@.len() && self.entries@[i as int].0 == h,
                None => !self@.contains_key(h),
            },
    {
        let mut i: usize = 0;
        while i < self.entries.len()
            invariant
                self.wf(),
                i <= self.entries@.len(),
                forall|j: int| 0 <= j < i ==> (#[trigger] self.entries@[j]).0 != h,
            decreases self.entries@.len() - i,
        {
            if self.entries[i].0 == h {
                return Some(i);
            }
            i = i + 1;
        }
        None
    }

    /// The resource under handle `h`.
    pub fn get(&self, h: u32) -> (r: Option<&T>)
        requires
            self.wf(),
        ensures
            match r {
                Some(v) => self@.contains_key(h) && *v == self@[h],
                None => !self@.contains_key(h),
            },
    {
        match self.position(h) {
            Some(i) => Some(&self.entries[i].1),
            None => None,
        }
    }

    /// Takes the resource under handle `h` out of the table.
    pub fn remove(&mut self, h: u32) -> (r: Option<T>)
        requires
            old(self).wf(),
        ensures
            final(self).wf(),
            final(self)@ == old(self)@.remove(h),
            final(self).next_handle() == old(self).next_handle(),
            match r {
                Some(v) => old(self)@.contains_key(h) && v == old(self)@[h],
                None => !old(self)@.contains_key(h),
            },
    {
        match self.position(h) {
            Some(i) => {
                let ghost old_entries = self.entries@;
                let entry = self.entries.remove(i);
                self.contents = Ghost(self.contents@.remove(h));
                assert forall|k: u32| #[trigger] self.contents@.contains_key(k) implies exists|j: int|
                    0 <= j < self.entries@.len() && (#[trigger] self.entries@[j]).0 == k by {
                    let j = choose|j: int| 0 <= j < old_entries.len() && (#[trigger] old_entries[j]).0 == k;
                    if j < i {
                        assert(self.entries@[j].0 == k);
                    } else {
                        assert(self.entries@[j - 1].0 == k);
                    }
                }
                assert forall|a: int, b: int|
                    0 <= a < b < self.entries@.len() implies (#[trigger] self.entries@[a]).0
                        != (#[trigger] self.entries@[b]).0 by {
                    let a0 = if a < i { a } else { a + 1 };
                    let b0 = if b < i { b } else { b + 1 };
                    assert(self.entries@[a] == old_entries[a0]);
                    assert(self.entries@[b] == old_entries[b0]);
                }
                assert forall|j: int| 0 <= j < self.entries@.len() implies (#[trigger] self.entries@[j]).0
                    < self.next && self.contents@.contains_key(self.entries@[j].0)
                    && self.contents@[self.entries@[j].0] == self.entries@[j].1 by {
                    let j0 = if j < i { j } else { j + 1 };
                    assert(self.entries@[j] == old_entries[j0]);
                    assert(old_entries[j0].0 != h);
                }
                Some(entry.1)
            },
            None => {
                assert(self.contents@.remove(h) =~= self.contents@);
                None
            },
        }
    }

    /// Puts `value` back under handle `h`, issued earlier and free now.
    pub fn insert_at(&mut self, h: u32, value: T)
        requires
            old(self).wf(),
            !old(self)@.contains_key(h),
            h < old(self).next_handle(),
        ensures
            final(self).wf(),
            final(self)@ == old(self)@.insert(h, value),
            final(self).next_handle() == old(self).next_handle(),
    {
        let ghost old_entries = self.entries@;
        self.entries.push((h, value));
        self.contents = Ghost(self.contents@.insert(h, value));
        assert forall|k: u32| #[trigger] self.contents@.contains_key(k) implies exists|i: int|
            0 <= i < self.entries@.len() && (#[trigger] self.entries@[i]).0 == k by {
            if k == h {
                assert(self.entries@[old_entries.len() as int].0 == k);
            } else {
                let i = choose|i: int| 0 <= i < old_entries.len() && (#[trigger] old_entries[i]).0 == k;
                assert(self.entries@[i].0 == k);
            }
        }
    }
}

/// Law: a handle is fresh when issued, gone once removed, and never issued
/// again, so every later use of it finds nothing.
pub proof fn lemma_handle_lifecycle<T>(
    t0: HandleTable<T>,
    t1: HandleTable<T>,
    t2: HandleTable<T>,
    h: u32,
    v: T,
    later: u32,
)
    requires
        !t0@.contains_key(h),
        t1@ == t0@.insert(h, v),
        t1.next_handle() > h,
        t2@ == t1@.remove(h),
        t2.next_handle() == t1.next_handle(),
        later >= t2.next_handle(),
    ensures
        t1@.contains_key(h),
        !t2@.contains_key(h),
        t2@ == t0@,
        later != h,
{
    assert(t2@ =~= t0@);
}

} // verus!
